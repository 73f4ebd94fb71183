use vstd::prelude::*;

verus! {

/// What `str::trim` leaves of `s`.
pub uninterp spec fn trimmed(s: Seq<char>) -> Seq<char>;

/// Relies on `str::trim`: the text without its leading and trailing
/// whitespace, which depends on the characters alone.
#[verifier::external_body]
fn trim_str(s: &str) -> (r: &str)
    ensures
        r@ == trimmed(s@),
{
    s.trim()
}

/// A URL row is usable unless it is blank.
pub open spec fn is_usable(u: Seq<char>) -> bool {
    trimmed(u).len() > 0
}

/// The usable rows of `rows`, in their order.
pub open spec fn usable_of(rows: Seq<Seq<char>>) -> Seq<Seq<char>>
    decreases rows.len(),
{
    if rows.len() == 0 {
        Seq::empty()
    } else {
        let rest = usable_of(rows.drop_last());
        if is_usable(rows.last()) {
            rest.push(rows.last())
        } else {
            rest
        }
    }
}

/// Drops the blank rows of the input, keeping the others as they are.
pub fn usable_urls(rows: Vec<String>) -> (r: Vec<String>)
    ensures
        r@.map_values(|u: String| u@) == usable_of(rows@.map_values(|u: String| u@)),
{
    let ghost all = rows@.map_values(|u: String| u@);
    let mut out: Vec<String> = Vec::new();
    let mut k: usize = 0;
    while k < rows.len()
        invariant
            k <= rows@.len(),
            all == rows@.map_values(|u: String| u@),
            out@.map_values(|u: String| u@) == usable_of(all.subrange(0, k as int)),
        decreases rows.len() - k,
    {
        let ghost before = out@;
        assert(all.subrange(0, k + 1).drop_last() =~= all.subrange(0, k as int));
        let row = &rows[k];
        if !trim_str(row.as_str()).is_empty() {
            out.push(row.clone());
            assert(out@.map_values(|u: String| u@) =~= before.map_values(|u: String| u@).push(
                row@,
            ));
        }
        k = k + 1;
    }
    assert(all.subrange(0, rows@.len() as int) =~= all);
    out
}

} // verus!
