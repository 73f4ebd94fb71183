use url_audit::content_length::parse_content_length;
use url_audit::dispatch::{
    fault_row, Action, AuditConfig, AuditRun, ConfigError, DispatchError, UnitEnd,
    DEFAULT_CONCURRENCY, DEFAULT_TIMEOUT_SECS, DEFAULT_USER_AGENT,
};
use url_audit::input::usable_urls;
use url_audit::record::OutRow;
use url_audit::worker::{settle, Exchange, TIMEOUT_SENTINEL};

fn config(concurrency: usize) -> AuditConfig {
    AuditConfig { concurrency, timeout_secs: 10, user_agent: "test-agent".to_string() }
}

fn urls(n: usize) -> Vec<String> {
    (0..n).map(|i| format!("http://127.0.0.1:9/{i}")).collect()
}

fn ok_with_length(len: &str) -> UnitEnd {
    UnitEnd::Exchanged(Exchange::Response {
        status: 200,
        content_length: Some(len.as_bytes().to_vec()),
    })
}

/// Drives a run to the end, completing units in the order given by `pick`
/// (an index into the units currently in flight), and checks the concurrency bound.
fn drive(
    run: &mut AuditRun,
    limit: usize,
    mut end_for: impl FnMut(usize) -> UnitEnd,
    mut pick: impl FnMut(usize) -> usize,
) -> usize {
    let mut in_flight: Vec<usize> = Vec::new();
    let mut peak = 0;
    loop {
        match run.next_action() {
            Action::Launch => {
                let unit = run.launch().expect("a slot is free");
                in_flight.push(unit.index);
                peak = peak.max(in_flight.len());
                assert!(in_flight.len() <= limit);
            }
            Action::Wait => {
                assert!(!in_flight.is_empty());
                let k = pick(in_flight.len()) % in_flight.len();
                let index = in_flight.remove(k);
                assert_eq!(run.complete(index, end_for(index)), Ok(()));
            }
            Action::Done => {
                assert!(in_flight.is_empty());
                return peak;
            }
        }
    }
}

#[test]
fn content_length_plain_digits() {
    assert_eq!(parse_content_length(b"10"), Some(10));
    assert_eq!(parse_content_length(b"0"), Some(0));
    assert_eq!(parse_content_length(b"007"), Some(7));
}

#[test]
fn content_length_leading_plus() {
    assert_eq!(parse_content_length(b"+12"), Some(12));
    assert_eq!(parse_content_length(b"+"), None);
}

#[test]
fn content_length_rejects_non_digits() {
    assert_eq!(parse_content_length(b""), None);
    assert_eq!(parse_content_length(b"-1"), None);
    assert_eq!(parse_content_length(b"12a"), None);
    assert_eq!(parse_content_length(b" 12"), None);
    assert_eq!(parse_content_length(b"1.5"), None);
}

#[test]
fn content_length_largest_value() {
    assert_eq!(parse_content_length(b"18446744073709551615"), Some(u64::MAX));
    assert_eq!(parse_content_length(b"18446744073709551616"), None);
    assert_eq!(parse_content_length(b"99999999999999999999x"), None);
}

#[test]
fn settle_response_with_length() {
    let r = settle("http://a/".to_string(), Exchange::Response {
        status: 404,
        content_length: Some(b"123".to_vec()),
    });
    assert_eq!(r, OutRow {
        url: "http://a/".to_string(),
        status: Some(404),
        len: Some(123),
        error: None,
    });
}

#[test]
fn settle_response_without_usable_length() {
    let r = settle("http://a/".to_string(), Exchange::Response { status: 204, content_length: None });
    assert_eq!(r.status, Some(204));
    assert_eq!(r.len, None);
    assert_eq!(r.error, None);
    let r = settle("http://a/".to_string(), Exchange::Response {
        status: 200,
        content_length: Some(b"lots".to_vec()),
    });
    assert_eq!(r.status, Some(200));
    assert_eq!(r.len, None);
}

#[test]
fn settle_transport_error() {
    let r = settle(
        "http://127.0.0.1:9/".to_string(),
        Exchange::Transport("error sending request: connection refused".to_string()),
    );
    assert_eq!(r.url, "http://127.0.0.1:9/");
    assert_eq!(r.status, None);
    assert_eq!(r.len, None);
    assert_eq!(r.error.as_deref(), Some("error sending request: connection refused"));
}

#[test]
fn settle_timeout_keeps_url() {
    let r = settle("http://slow/".to_string(), Exchange::TimedOut);
    assert_eq!(r.url, "http://slow/");
    assert_eq!(r.status, None);
    assert_eq!(r.len, None);
    assert_eq!(r.error.as_deref(), Some("timeout"));
    assert_eq!(TIMEOUT_SENTINEL, "timeout");
}

#[test]
fn fault_record_uses_sentinel_url() {
    let r = fault_row("task panicked".to_string());
    assert_eq!(r.url, "<join-error>");
    assert_eq!(r.status, None);
    assert_eq!(r.error.as_deref(), Some("join error: task panicked"));
}

#[test]
fn config_defaults() {
    let c = AuditConfig::default();
    assert_eq!(c.concurrency, 32);
    assert_eq!(c.timeout_secs, 10);
    assert_eq!(c.user_agent, "url-audit/0.1");
    assert_eq!((DEFAULT_CONCURRENCY, DEFAULT_TIMEOUT_SECS, DEFAULT_USER_AGENT), (32, 10, "url-audit/0.1"));
}

#[test]
fn config_zero_concurrency_is_refused() {
    assert_eq!(AuditRun::new(urls(2), &config(0)).err(), Some(ConfigError::ZeroConcurrency));
}

#[test]
fn config_zero_timeout_is_refused() {
    let c = AuditConfig { concurrency: 4, timeout_secs: 0, user_agent: String::new() };
    assert_eq!(AuditRun::new(urls(2), &c).err(), Some(ConfigError::ZeroTimeout));
}

#[test]
fn empty_input_is_done_at_once() {
    let run = AuditRun::new(Vec::new(), &config(3)).unwrap();
    assert_eq!(run.next_action(), Action::Done);
    assert!(run.finish().is_empty());
}

#[test]
fn launch_hands_out_urls_in_order() {
    let mut run = AuditRun::new(urls(2), &config(8)).unwrap();
    let a = run.launch().unwrap();
    let b = run.launch().unwrap();
    assert_eq!((a.index, a.url.as_str(), a.timeout_secs), (0, "http://127.0.0.1:9/0", 10));
    assert_eq!((b.index, b.url.as_str()), (1, "http://127.0.0.1:9/1"));
    assert!(run.launch().is_none());
    assert_eq!(run.next_action(), Action::Wait);
}

#[test]
fn completion_of_unlaunched_unit_is_refused() {
    let mut run = AuditRun::new(urls(2), &config(1)).unwrap();
    run.launch().unwrap();
    assert_eq!(run.complete(1, UnitEnd::Exchanged(Exchange::TimedOut)), Err(DispatchError::NotLaunched));
    assert_eq!(run.complete(7, UnitEnd::Exchanged(Exchange::TimedOut)), Err(DispatchError::NotLaunched));
}

#[test]
fn second_completion_is_refused() {
    let mut run = AuditRun::new(urls(2), &config(2)).unwrap();
    run.launch().unwrap();
    assert_eq!(run.complete(0, ok_with_length("5")), Ok(()));
    assert_eq!(
        run.complete(0, UnitEnd::Exchanged(Exchange::TimedOut)),
        Err(DispatchError::AlreadySettled)
    );
    run.launch().unwrap();
    assert_eq!(run.complete(1, ok_with_length("6")), Ok(()));
    let rows = run.finish();
    assert_eq!(rows[0].len, Some(5));
    assert_eq!(rows[0].error, None);
}

#[test]
fn scenario_three_successes() {
    let mut run = AuditRun::new(urls(3), &config(32)).unwrap();
    let lengths = ["10", "20", "30"];
    drive(&mut run, 32, |i| ok_with_length(lengths[i]), |_| 0);
    let rows = run.finish();
    assert_eq!(rows.len(), 3);
    for (i, row) in rows.iter().enumerate() {
        assert_eq!(row.url, format!("http://127.0.0.1:9/{i}"));
        assert_eq!(row.status, Some(200));
        assert_eq!(row.len, Some(10 * (i as u64 + 1)));
        assert_eq!(row.error, None);
    }
}

#[test]
fn scenario_closed_port() {
    let mut run = AuditRun::new(urls(1), &config(4)).unwrap();
    drive(
        &mut run,
        4,
        |_| UnitEnd::Exchanged(Exchange::Transport("error sending request: Connection refused".into())),
        |_| 0,
    );
    let rows = run.finish();
    assert_eq!(rows[0].status, None);
    assert!(!rows[0].error.as_deref().unwrap_or("").is_empty());
}

#[test]
fn scenario_slow_server_times_out() {
    let mut run = AuditRun::new(urls(2), &config(4)).unwrap();
    drive(
        &mut run,
        4,
        |i| if i == 1 { UnitEnd::Exchanged(Exchange::TimedOut) } else { ok_with_length("1") },
        |_| 0,
    );
    let rows = run.finish();
    assert_eq!(rows[1].error.as_deref(), Some(TIMEOUT_SENTINEL));
    assert_eq!(rows[1].status, None);
    assert_eq!(rows[1].url, "http://127.0.0.1:9/1");
    assert_eq!(rows[0].status, Some(200));
}

#[test]
fn scenario_limit_one_serialises() {
    let mut run = AuditRun::new(urls(5), &config(1)).unwrap();
    let mut launches = 0;
    while run.next_action() != Action::Done {
        let unit = run.launch().expect("one unit admitted at a time");
        launches += 1;
        assert_eq!(run.next_action(), Action::Wait);
        assert!(run.launch().is_none());
        assert_eq!(run.complete(unit.index, ok_with_length("1")), Ok(()));
    }
    assert_eq!(launches, 5);
    assert_eq!(run.finish().len(), 5);
}

#[test]
fn in_flight_never_exceeds_limit() {
    for limit in 1..5 {
        let mut run = AuditRun::new(urls(9), &config(limit)).unwrap();
        let peak = drive(&mut run, limit, |_| ok_with_length("1"), |n| n / 2);
        assert_eq!(peak, limit);
    }
}

#[test]
fn one_record_per_url_whatever_fails() {
    let mut run = AuditRun::new(urls(7), &config(3)).unwrap();
    drive(
        &mut run,
        3,
        |i| match i % 4 {
            0 => ok_with_length("3"),
            1 => UnitEnd::Exchanged(Exchange::Transport("dns error".into())),
            2 => UnitEnd::Exchanged(Exchange::TimedOut),
            _ => UnitEnd::Faulted("task panicked".into()),
        },
        |n| n - 1,
    );
    let rows = run.finish();
    assert_eq!(rows.len(), 7);
    for row in &rows {
        assert!(row.status.is_some() != row.error.is_some());
        assert!(row.status.is_some() || row.len.is_none());
    }
    assert_eq!(rows[3].url, "<join-error>");
    assert_eq!(rows[3].error.as_deref(), Some("join error: task panicked"));
}

#[test]
fn completion_order_does_not_change_results() {
    let end_for = |i: usize| match i % 3 {
        0 => ok_with_length("42"),
        1 => UnitEnd::Exchanged(Exchange::Transport("reset".into())),
        _ => UnitEnd::Exchanged(Exchange::TimedOut),
    };
    let mut first = AuditRun::new(urls(6), &config(3)).unwrap();
    drive(&mut first, 3, end_for, |_| 0);
    let mut second = AuditRun::new(urls(6), &config(3)).unwrap();
    drive(&mut second, 3, end_for, |n| n - 1);
    assert_eq!(first.finish(), second.finish());
}

#[test]
fn blank_rows_are_dropped() {
    let rows = vec![
        "http://a/".to_string(),
        "".to_string(),
        "   ".to_string(),
        "\t\n".to_string(),
        " http://b/ ".to_string(),
    ];
    assert_eq!(usable_urls(rows), vec!["http://a/".to_string(), " http://b/ ".to_string()]);
}

#[test]
fn record_constructors() {
    let ok = OutRow::answered("http://a/".to_string(), 301, None);
    assert!(ok.is_success());
    assert_eq!((ok.status, ok.len, ok.error.clone()), (Some(301), None, None));
    let bad = OutRow::failed("http://a/".to_string(), "tls handshake".to_string());
    assert!(!bad.is_success());
    assert_eq!((bad.status, bad.len, bad.error.as_deref()), (None, None, Some("tls handshake")));
}
