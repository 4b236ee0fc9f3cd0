use netmon::config::{parse_targets_env, Config, ConfigBuilder};
use netmon::domain::{CompactError, MonitorTarget, ProbeOutcome, TimeSpan, UnixSecs};
use netmon::error::StoreError;
use netmon::monitor::{
    after_lookup, job_columns, lookup_hint, round_jobs, start_round, timed_out, Attempt, JobEnd,
    ProbeStep, RoundStep,
};

fn attempt(step: ProbeStep) -> Attempt {
    match step {
        ProbeStep::Connect(a) => a,
        ProbeStep::Finish(o) => panic!("finished with {o:?}"),
    }
}

fn failure(step: ProbeStep) -> String {
    match step {
        ProbeStep::Connect(a) => panic!("goes on with {a:?}"),
        ProbeStep::Finish(o) => o.error().unwrap().to_string(),
    }
}

#[test]
fn every_address_is_tried_in_order() {
    let a = attempt(after_lookup(Ok(3)));
    assert_eq!(a.index(), 0);
    let a = attempt(a.refused("first"));
    assert_eq!(a.index(), 1);
    let a = attempt(a.refused("second"));
    assert_eq!(a.index(), 2);
    assert_eq!(failure(a.refused("third\nmore")), "third");
}

#[test]
fn lookups_can_fail_a_probe() {
    assert_eq!(failure(after_lookup(Ok(0))), "no addresses resolved");
    assert_eq!(failure(after_lookup(Err("dns is down ".to_string()))), "dns is down");
}

#[test]
fn an_accepted_connection_is_a_success() {
    let a = attempt(after_lookup(Ok(1)));
    let o = a.connected(TimeSpan::from_millis(42));
    assert_eq!(o.latency().unwrap().as_i64(), 42);
}

#[test]
fn a_probe_that_takes_too_long_is_a_failure() {
    let o = timed_out();
    assert!(!o.is_success());
    assert_eq!(o.error().unwrap().as_str(), "timeout");
}

#[test]
fn targets_are_looked_up_with_their_port() {
    let t = MonitorTarget::parse("a", "example.com", 443).unwrap();
    assert_eq!(lookup_hint(&t), "example.com:443");
}

#[test]
fn a_round_has_one_row_per_target() {
    let mut b = ConfigBuilder::from_defaults();
    b.targets = Some(parse_targets_env("open=127.0.0.1:1,closed=127.0.0.1:2").unwrap());
    b.timeout_secs = Some(2);
    let cfg: Config = b.build().unwrap();
    let jobs = round_jobs(&cfg);
    assert_eq!(jobs.len(), 2);
    let mut names = Vec::new();
    for job in jobs {
        assert_eq!(job.timeout.secs(), 2);
        let outcome = ProbeOutcome::failure(CompactError::new("down"));
        let end = JobEnd::Finished(job.target, outcome);
        let row = job_columns(&end, UnixSecs::new(9)).unwrap();
        assert_eq!((row.ts, row.success, row.latency_ms), (9, 0, None));
        assert_eq!(row.error.as_deref(), Some("down"));
        names.push(row.target);
    }
    assert_eq!(names, vec!["open", "closed"]);
}

#[test]
fn a_broken_job_stores_nothing() {
    let end = JobEnd::Panicked;
    assert!(job_columns(&end, UnixSecs::new(9)).is_none());
}

fn stored_in_round(ends: Vec<JobEnd>, result: Result<(), StoreError>) -> Vec<(String, i64)> {
    let mut stored = Vec::new();
    let mut step = start_round(ends.len());
    loop {
        step = match step {
            RoundStep::Await(w) => {
                let i = w.index();
                w.ended(&ends[i], UnixSecs::new(100 + i as i64))
            }
            RoundStep::Insert(s) => {
                stored.push((s.columns().target.clone(), s.columns().ts));
                s.inserted(&result)
            }
            RoundStep::Done => return stored,
        };
    }
}

#[test]
fn a_failing_store_does_not_end_a_round() {
    let end = |name: &str| {
        let t = MonitorTarget::parse(name, "127.0.0.1", 1).unwrap();
        JobEnd::Finished(t, ProbeOutcome::failure(CompactError::new("down")))
    };
    let ends = || vec![end("a"), JobEnd::Panicked, end("b"), end("c")];
    let expected = vec![
        ("a".to_string(), 100),
        ("b".to_string(), 102),
        ("c".to_string(), 103),
    ];
    assert_eq!(stored_in_round(ends(), Ok(())), expected);
    let failed = || Err(StoreError::Sqlite("disk full".to_string()));
    assert_eq!(stored_in_round(ends(), failed()), expected);
    assert!(stored_in_round(vec![], Ok(())).is_empty());
    assert!(stored_in_round(vec![JobEnd::Panicked], failed()).is_empty());
}
