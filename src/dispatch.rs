use vstd::prelude::*;
use vstd::string::StringExecFns;

use crate::record::{OutRow, RecordView};
use crate::worker::{exchange_record, settle, Exchange, TIMEOUT_SENTINEL};

verus! {

/// The `url` of a record whose unit of work crashed before it could report.
pub const FAULT_URL: &'static str = "<join-error>";

/// What precedes the fault's own description in such a record's `error`.
pub const FAULT_PREFIX: &'static str = "join error: ";

/// Settings of one run. They are read, never changed, while the run lasts.
#[derive(Debug)]
pub struct AuditConfig {
    /// Most units of work in flight at once; must be positive.
    pub concurrency: usize,
    /// Time allowed to each exchange, in seconds; must be positive.
    pub timeout_secs: u64,
    /// Value of the `User-Agent` header of every request.
    pub user_agent: String,
}

/// Concurrency used when none is configured.
pub const DEFAULT_CONCURRENCY: usize = 32;

/// Per-request timeout, in seconds, used when none is configured.
pub const DEFAULT_TIMEOUT_SECS: u64 = 10;

/// `User-Agent` used when none is configured.
pub const DEFAULT_USER_AGENT: &'static str = "url-audit/0.1";

impl Default for AuditConfig {
    fn default() -> (r: AuditConfig)
        ensures
            r.concurrency == DEFAULT_CONCURRENCY,
            r.timeout_secs == DEFAULT_TIMEOUT_SECS,
            r.user_agent@ == DEFAULT_USER_AGENT@,
    {
        AuditConfig {
            concurrency: DEFAULT_CONCURRENCY,
            timeout_secs: DEFAULT_TIMEOUT_SECS,
            user_agent: String::from_str(DEFAULT_USER_AGENT),
        }
    }
}

/// Why a configuration cannot start a run.
#[derive(Debug, PartialEq, Eq, Structural)]
pub enum ConfigError {
    ZeroConcurrency,
    ZeroTimeout,
}

/// Why a reported completion was not taken.
#[derive(Debug, PartialEq, Eq, Structural)]
pub enum DispatchError {
    /// No unit of work was launched under that index.
    NotLaunched,
    /// The unit of work under that index has already reported.
    AlreadySettled,
}

/// How a unit of work ended.
#[derive(Debug)]
pub enum UnitEnd {
    /// The worker ran to the end and reports the exchange.
    Exchanged(Exchange),
    /// The unit of work crashed; the text describes the fault.
    Faulted(String),
}

/// What the driver of a run should do next.
#[derive(Debug, PartialEq, Eq, Structural)]
pub enum Action {
    /// A slot is free and a URL is waiting: call `launch`.
    Launch,
    /// Every slot is taken, or no URL is waiting: wait for a unit to complete.
    Wait,
    /// Every URL has a record: call `finish`.
    Done,
}

/// One URL admitted for fetching, with what its worker needs.
#[derive(Debug)]
pub struct RequestUnit {
    /// Position of the URL in the run's input; the completion reports it back.
    pub index: usize,
    pub url: String,
    pub timeout_secs: u64,
}

/// The record of a unit of work that crashed with description `detail`.
pub open spec fn fault_record(detail: Seq<char>) -> RecordView {
    RecordView::failed(FAULT_URL@, FAULT_PREFIX@ + detail)
}

/// The record that a unit of work for `url` ends in.
pub open spec fn end_record(url: Seq<char>, end: UnitEnd) -> RecordView {
    match end {
        UnitEnd::Exchanged(ex) => exchange_record(url, ex),
        UnitEnd::Faulted(d) => fault_record(d@),
    }
}

/// Number of `None` entries among the first `n` of `s`.
pub open spec fn unsettled(s: Seq<Option<RecordView>>, n: int) -> nat
    decreases n,
{
    if n <= 0 {
        0
    } else {
        unsettled(s, n - 1) + if s[n - 1] is None {
            1nat
        } else {
            0nat
        }
    }
}

/// The state of a run: its input, its concurrency limit, and the records
/// collected so far, by position in the input.
pub struct RunView {
    pub urls: Seq<Seq<char>>,
    pub limit: nat,
    pub timeout_secs: u64,
    /// Number of URLs admitted so far; they are the first `next` of `urls`.
    pub next: nat,
    pub settled: Seq<Option<RecordView>>,
    /// How each unit of work ended, for those that have reported.
    pub ends: Seq<Option<UnitEnd>>,
}

/// The record collected for a URL whose unit of work ended as `end`, if any.
pub open spec fn slot_record(url: Seq<char>, end: Option<UnitEnd>) -> Option<RecordView> {
    match end {
        Some(e) => Some(end_record(url, e)),
        None => None,
    }
}

impl RunView {
    /// Units of work admitted and not yet completed.
    pub open spec fn in_flight(self) -> nat {
        unsettled(self.settled, self.next as int)
    }

    pub open spec fn wf(self) -> bool {
        &&& self.limit > 0
        &&& self.timeout_secs > 0
        &&& self.next <= self.urls.len()
        &&& self.settled.len() == self.urls.len()
        &&& self.ends.len() == self.urls.len()
        &&& forall|i: int|
            0 <= i < self.settled.len() ==> #[trigger] self.settled[i] == slot_record(
                self.urls[i],
                self.ends[i],
            )
        &&& forall|i: int| self.next <= i < self.settled.len() ==> #[trigger] self.settled[i] is None
        &&& forall|i: int|
            0 <= i < self.settled.len() && #[trigger] self.settled[i] is Some
                ==> self.settled[i]->0.wf()
        &&& self.in_flight() <= self.limit
    }

    pub open spec fn can_launch(self) -> bool {
        self.next < self.urls.len() && self.in_flight() < self.limit
    }

    pub open spec fn is_done(self) -> bool {
        self.next == self.urls.len() && self.in_flight() == 0
    }

    /// The state after the next URL is admitted.
    pub open spec fn launched(self) -> RunView {
        RunView { next: self.next + 1, ..self }
    }

    /// The state after the unit of work at `i` reports that it ended as `end`.
    pub open spec fn reported(self, i: int, end: UnitEnd) -> RunView {
        RunView {
            settled: self.settled.update(i, Some(end_record(self.urls[i], end))),
            ends: self.ends.update(i, Some(end)),
            ..self
        }
    }

    /// The records collected, in input order.
    pub open spec fn results(self) -> Seq<RecordView> {
        self.settled.map_values(|o: Option<RecordView>| o->0)
    }
}

/// The content of a collected record, if any.
pub open spec fn opt_record_view(o: Option<OutRow>) -> Option<RecordView> {
    match o {
        Some(r) => Some(r@),
        None => None,
    }
}

/// One run over a list of URLs: the admission limit that bounds the units of
/// work in flight, and the collection of their records.
///
/// The driver asks [`AuditRun::next_action`], launches a unit of work for
/// each [`RequestUnit`] it is handed, and reports each unit's end through
/// [`AuditRun::complete`], in any order.
pub struct AuditRun {
    urls: Vec<String>,
    limit: usize,
    timeout_secs: u64,
    next: usize,
    in_flight: usize,
    settled: Vec<Option<OutRow>>,
    ends: Ghost<Seq<Option<UnitEnd>>>,
}

impl View for AuditRun {
    type V = RunView;

    closed spec fn view(&self) -> RunView {
        RunView {
            urls: self.urls@.map_values(|u: String| u@),
            limit: self.limit as nat,
            timeout_secs: self.timeout_secs,
            next: self.next as nat,
            settled: self.settled@.map_values(|o: Option<OutRow>| opt_record_view(o)),
            ends: self.ends@,
        }
    }
}

proof fn lemma_unsettled_settle(s: Seq<Option<RecordView>>, n: int, i: int, r: RecordView)
    requires
        0 <= i < n <= s.len(),
        s[i] is None,
    ensures
        unsettled(s.update(i, Some(r)), n) + 1 == unsettled(s, n),
    decreases n,
{
    if n - 1 > i {
        lemma_unsettled_settle(s, n - 1, i, r);
    } else {
        lemma_unsettled_same_prefix(s, s.update(i, Some(r)), i);
    }
}

proof fn lemma_unsettled_same_prefix(s: Seq<Option<RecordView>>, t: Seq<Option<RecordView>>, n: int)
    requires
        0 <= n <= s.len(),
        n <= t.len(),
        forall|j: int| 0 <= j < n ==> s[j] == t[j],
    ensures
        unsettled(s, n) == unsettled(t, n),
    decreases n,
{
    if n > 0 {
        lemma_unsettled_same_prefix(s, t, n - 1);
    }
}

proof fn lemma_none_unsettled(s: Seq<Option<RecordView>>, n: int)
    requires
        0 <= n <= s.len(),
        unsettled(s, n) == 0,
    ensures
        forall|j: int| 0 <= j < n ==> #[trigger] s[j] is Some,
    decreases n,
{
    if n > 0 {
        lemma_none_unsettled(s, n - 1);
    }
}

impl AuditRun {
    pub closed spec fn wf(&self) -> bool {
        &&& self@.wf()
        &&& self.in_flight as nat == self@.in_flight()
        &&& self.urls.len() == self.settled.len()
    }

    /// Starts a run over `urls`; no URL is admitted yet.
    pub fn new(urls: Vec<String>, config: &AuditConfig) -> (r: Result<AuditRun, ConfigError>)
        ensures
            config.concurrency == 0 ==> r == Err::<AuditRun, _>(ConfigError::ZeroConcurrency),
            config.concurrency > 0 && config.timeout_secs == 0 ==> r == Err::<AuditRun, _>(
                ConfigError::ZeroTimeout,
            ),
            config.concurrency > 0 && config.timeout_secs > 0 ==> (r matches Ok(run) && {
                &&& run.wf()
                &&& run@.urls == urls@.map_values(|u: String| u@)
                &&& run@.limit == config.concurrency
                &&& run@.timeout_secs == config.timeout_secs
                &&& run@.next == 0
                &&& run@.settled == Seq::new(urls@.len(), |i: int| None::<RecordView>)
            }),
    {
        if config.concurrency == 0 {
            return Err(ConfigError::ZeroConcurrency);
        }
        if config.timeout_secs == 0 {
            return Err(ConfigError::ZeroTimeout);
        }
        let urls_len = urls.len();
        let mut settled: Vec<Option<OutRow>> = Vec::new();
        let mut k: usize = 0;
        while k < urls.len()
            invariant
                k <= urls.len(),
                settled@.len() == k,
                forall|j: int| 0 <= j < k ==> #[trigger] settled@[j] is None,
            decreases urls.len() - k,
        {
            settled.push(None);
            k = k + 1;
        }
        let run = AuditRun {
            urls,
            limit: config.concurrency,
            timeout_secs: config.timeout_secs,
            next: 0,
            in_flight: 0,
            settled,
            ends: Ghost(Seq::new(urls_len as nat, |i: int| None::<UnitEnd>)),
        };
        assert(run@.settled =~= Seq::new(run.urls@.len(), |i: int| None::<RecordView>));
        Ok(run)
    }

    /// What the driver should do next.
    pub fn next_action(&self) -> (r: Action)
        requires
            self.wf(),
        ensures
            (r == Action::Launch) == self@.can_launch(),
            (r == Action::Done) == self@.is_done(),
    {
        if self.next < self.urls.len() && self.in_flight < self.limit {
            Action::Launch
        } else if self.next == self.urls.len() && self.in_flight == 0 {
            Action::Done
        } else {
            Action::Wait
        }
    }

    /// Admits the next URL, if a slot is free and a URL is
    /// waiting; otherwise changes nothing.
    pub fn launch(&mut self) -> (r: Option<RequestUnit>)
        requires
            old(self).wf(),
        ensures
            final(self).wf(),
            old(self)@.can_launch() ==> (r matches Some(unit) && {
                &&& unit.index == old(self)@.next
                &&& unit.url@ == old(self)@.urls[unit.index as int]
                &&& unit.timeout_secs == old(self)@.timeout_secs
                &&& final(self)@ == old(self)@.launched()
            }),
            !old(self)@.can_launch() ==> r is None && final(self)@ == old(self)@,
    {
        if !(self.next < self.urls.len() && self.in_flight < self.limit) {
            return None;
        }
        let index = self.next;
        let url = self.urls[index].clone();
        self.next = self.next + 1;
        self.in_flight = self.in_flight + 1;
        assert(self@ == old(self)@.launched());
        Some(RequestUnit { index, url, timeout_secs: self.timeout_secs })
    }

    /// Takes the report of the unit of work launched under `index` and
    /// releases its slot. A report for an index that was never launched, or
    /// that has already reported, is refused and changes nothing.
    pub fn complete(&mut self, index: usize, end: UnitEnd) -> (r: Result<(), DispatchError>)
        requires
            old(self).wf(),
        ensures
            final(self).wf(),
            index >= old(self)@.next ==> r == Err::<(), _>(DispatchError::NotLaunched)
                && final(self)@ == old(self)@,
            index < old(self)@.next && old(self)@.settled[index as int] is Some ==> r == Err::<
                (),
                _,
            >(DispatchError::AlreadySettled) && final(self)@ == old(self)@,
            index < old(self)@.next && old(self)@.settled[index as int] is None ==> r is Ok
                && final(self)@ == old(self)@.reported(index as int, end),
    {
        if index >= self.next {
            return Err(DispatchError::NotLaunched);
        }
        if self.settled[index].is_some() {
            return Err(DispatchError::AlreadySettled);
        }
        let ghost e = end;
        let row = match end {
            UnitEnd::Exchanged(ex) => settle(self.urls[index].clone(), ex),
            UnitEnd::Faulted(detail) => fault_row(detail),
        };
        proof {
            lemma_unsettled_settle(self@.settled, self@.next as int, index as int, row@);
        }
        self.settled.set(index, Some(row));
        self.in_flight = self.in_flight - 1;
        self.ends = Ghost(self.ends@.update(index as int, Some(e)));
        assert(self@.settled =~= old(self)@.settled.update(index as int, Some(row@)));
        assert(self@ == old(self)@.reported(index as int, e));
        Ok(())
    }

    /// Hands over the records once every URL has one, in input order.
    pub fn finish(self) -> (r: Vec<OutRow>)
        requires
            self.wf(),
            self@.is_done(),
        ensures
            r@.len() == self@.urls.len(),
            forall|i: int| 0 <= i < r@.len() ==> (#[trigger] r@[i])@ == self@.results()[i],
            forall|i: int| 0 <= i < r@.len() ==> (#[trigger] r@[i])@.wf(),
    {
        let ghost start = self@;
        proof {
            lemma_none_unsettled(start.settled, start.next as int);
        }
        let mut settled = self.settled;
        let n = settled.len();
        let mut out: Vec<OutRow> = Vec::new();
        let mut k: usize = 0;
        while k < n
            invariant
                k <= n,
                n == settled@.len(),
                n == start.settled.len(),
                start.wf(),
                out@.len() == k,
                forall|j: int| 0 <= j < k ==> (#[trigger] out@[j])@ == start.results()[j],
                forall|j: int|
                    k <= j < n ==> #[trigger] opt_record_view(settled@[j]) == start.settled[j],
                forall|j: int| 0 <= j < n ==> #[trigger] start.settled[j] is Some,
            decreases n - k,
        {
            assert(opt_record_view(settled@[k as int]) == start.settled[k as int]);
            let slot = settled[k].take();
            match slot {
                Some(row) => {
                    out.push(row);
                    assert(start.results()[k as int] == start.settled[k as int]->0);
                },
                None => {
                    assert(start.settled[k as int] is Some);
                },
            }
            k = k + 1;
        }
        out
    }
}

/// Every state of a run keeps at most `limit` units of work in flight: no
/// more exchanges are ever outstanding than the configured concurrency.
pub proof fn admission_bound(run: &AuditRun)
    requires
        run.wf(),
    ensures
        run@.in_flight() <= run@.limit,
        run@.can_launch() ==> run@.launched().in_flight() <= run@.limit,
{
    let v = run@;
    if v.can_launch() {
        let w = v.launched();
        assert(w.settled[v.next as int] is None);
        assert(w.in_flight() == unsettled(v.settled, v.next as int) + 1);
    }
}

/// A finished run has one record for each input URL, whatever became of the
/// individual fetches, and each record is either a success or a failure.
pub proof fn finished_run_is_complete(run: &AuditRun)
    requires
        run.wf(),
        run@.is_done(),
    ensures
        run@.results().len() == run@.urls.len(),
        forall|i: int| 0 <= i < run@.urls.len() ==> #[trigger] run@.settled[i] is Some,
        forall|i: int| 0 <= i < run@.urls.len() ==> (#[trigger] run@.results()[i]).wf(),
{
    let v = run@;
    lemma_none_unsettled(v.settled, v.next as int);
    assert forall|i: int| 0 <= i < v.urls.len() implies (#[trigger] v.results()[i]).wf() by {
        assert(v.settled[i] is Some);
    }
}

/// The order in which units of work complete does not matter: two reports
/// for different units, taken in either order, leave the same state.
pub proof fn completion_order_irrelevant(
    v: RunView,
    i: int,
    a: UnitEnd,
    j: int,
    b: UnitEnd,
)
    requires
        v.wf(),
        0 <= i < v.urls.len(),
        0 <= j < v.urls.len(),
        i != j,
    ensures
        v.reported(i, a).reported(j, b) == v.reported(j, b).reported(i, a),
{
    let x = v.reported(i, a).reported(j, b);
    let y = v.reported(j, b).reported(i, a);
    assert(x.settled =~= y.settled);
    assert(x.ends =~= y.ends);
}

/// Two finished runs over the same URLs, in which each URL's unit of work
/// ended the same way, collect the same records: auditing the same URLs
/// against the same servers twice gives the same result set.
pub proof fn same_outcomes_same_records(a: RunView, b: RunView)
    requires
        a.wf(),
        b.wf(),
        a.is_done(),
        b.is_done(),
        a.urls == b.urls,
        a.ends == b.ends,
    ensures
        a.results() == b.results(),
{
    assert(a.settled =~= b.settled) by {
        assert forall|i: int| 0 <= i < a.settled.len() implies a.settled[i] == b.settled[i] by {
            assert(a.settled[i] == slot_record(a.urls[i], a.ends[i]));
            assert(b.settled[i] == slot_record(b.urls[i], b.ends[i]));
        }
    }
}

/// However a unit of work ends (a response, a transport failure, a timeout,
/// or a crash), its record has exactly one of `status` and `error`.
pub proof fn every_end_is_normalised(url: Seq<char>, end: UnitEnd)
    ensures
        end_record(url, end).wf(),
{
}

/// A unit of work whose exchange outlives its timeout ends in a record for
/// its own URL, with no status and the timeout sentinel as its error.
pub proof fn timeout_gives_sentinel(url: Seq<char>)
    ensures
        end_record(url, UnitEnd::Exchanged(Exchange::TimedOut)) == RecordView::failed(
            url,
            TIMEOUT_SENTINEL@,
        ),
        end_record(url, UnitEnd::Exchanged(Exchange::TimedOut)).status is None,
{
}

/// The record of a unit of work that crashed with description `detail`.
pub fn fault_row(detail: String) -> (r: OutRow)
    ensures
        r@ == fault_record(detail@),
        r@.wf(),
{
    let error = String::from_str(FAULT_PREFIX).concat(detail.as_str());
    OutRow::failed(String::from_str(FAULT_URL), error)
}

} // verus!
