use zero_air::scheduler::{BeginOutcome, RunStep, StepResult, TriageEngine};
use zero_air::store::TriageStore;
use zero_air::types::{Email, EngineEvent, ProgressStatus};

fn mk_email(id: &str, uid: i64, account: &str, sender_email: &str, subject: &str) -> Email {
    Email {
        id: id.to_string(),
        uid,
        account_id: account.to_string(),
        folder: "INBOX".to_string(),
        subject: Some(subject.to_string()),
        sender: Some("Alice Example".to_string()),
        sender_email: Some(sender_email.to_string()),
        to_email: None,
        date: None,
        snippet: Some("please review the attached contract".to_string()),
        body: None,
        read: Some(false),
        ai_priority: None,
        ai_labels: None,
        ai_summary: None,
    }
}

fn store_with_backlog(n: usize) -> TriageStore {
    let mut store = TriageStore::new();
    for k in 0..n {
        let id = format!("m{}", k);
        store.upsert_email(mk_email(&id, k as i64, "acct", "alice@example.com", "hello"));
    }
    store
}

const HIGH_JSON: &str =
    "{\"importance\":\"high\",\"reason\":\"urgent request\",\"should_notify\":true}";

/// Drives one full run, answering every completion call with `responses` in
/// order (None = service down). Returns (processed, events).
fn drive_run(
    engine: &mut TriageEngine,
    account: &str,
    responses: &[Option<&str>],
    t0: i64,
) -> (u64, Vec<EngineEvent>) {
    let mut events = Vec::new();
    let (outcome, evs) = engine.trigger_triage(account, t0);
    events.extend(evs);
    match outcome {
        BeginOutcome::Started(_) => {}
        _ => return (0, events),
    }
    let mut call = 0usize;
    let mut now = t0;
    loop {
        let (step, evs) = engine.next_step(now);
        events.extend(evs);
        match step {
            RunStep::Finished(p) => return (p, events),
            RunStep::Classify { wait_secs, .. } => {
                now += wait_secs as i64;
                let response = responses[call].map(|s| s.to_string());
                call += 1;
                let (res, evs) = engine.submit_outcome(response, now, now);
                events.extend(evs);
                now += 1;
                if let StepResult::ServiceFailed = res {
                    return (0, events);
                }
            }
        }
    }
}

#[test]
fn single_flight_second_trigger_is_noop() {
    let store = store_with_backlog(3);
    let mut engine = TriageEngine::new(store);
    let (first, _) = engine.trigger_triage("acct", 1000);
    assert!(matches!(first, BeginOutcome::Started(3)));
    // A second trigger while the run is active is silently dropped.
    let (second, evs) = engine.trigger_triage("acct", 1001);
    assert!(matches!(second, BeginOutcome::AlreadyRunning));
    assert!(evs.is_empty());
    assert_eq!(engine.store.triage_log.len(), 0);
}

#[test]
fn per_run_cap_processes_ten_then_the_rest() {
    let store = store_with_backlog(12);
    let mut engine = TriageEngine::new(store);
    let responses = vec![Some(HIGH_JSON); 12];
    let (p1, _) = drive_run(&mut engine, "acct", &responses, 1_000_000);
    assert_eq!(p1, 10);
    assert_eq!(engine.store.triage_log.len(), 10);
    let (p2, _) = drive_run(&mut engine, "acct", &responses, 2_000_000);
    assert_eq!(p2, 2);
    assert_eq!(engine.store.triage_log.len(), 12);
}

#[test]
fn rate_limit_wait_is_reported() {
    let store = store_with_backlog(2);
    let mut engine = TriageEngine::new(store);
    let (_, _) = engine.trigger_triage("acct", 1_000_000);
    let (step, _) = engine.next_step(1_000_000);
    let wait0 = match step {
        RunStep::Classify { wait_secs, .. } => wait_secs,
        _ => panic!("expected a classify step"),
    };
    // No prior call was ever made from this engine, so the first call may
    // wait at most the full interval.
    assert!(wait0 <= 5);
    let call1 = 1_000_000 + wait0 as i64;
    let (_, _) = engine.submit_outcome(Some(HIGH_JSON.to_string()), call1, call1);
    // One second later, the limiter must impose the remaining four seconds.
    let (step, _) = engine.next_step(call1 + 1);
    match step {
        RunStep::Classify { wait_secs, .. } => assert_eq!(wait_secs, 4),
        _ => panic!("expected a classify step"),
    }
}

#[test]
fn failure_short_circuit_persists_nothing() {
    let store = store_with_backlog(3);
    let mut engine = TriageEngine::new(store);
    let responses = vec![None, None, None];
    let (_, _) = drive_run(&mut engine, "acct", &responses, 1_000_000);
    // Zero records persisted; the backlog is unchanged.
    assert_eq!(engine.store.triage_log.len(), 0);
    assert_eq!(engine.store.backlog_count("acct"), 3);
    // The engine is idle again and can be retriggered.
    let (outcome, _) = engine.trigger_triage("acct", 2_000_000);
    assert!(matches!(outcome, BeginOutcome::Started(3)));
}

#[test]
fn backlog_of_three_all_high_spawns_three_drafts() {
    let store = store_with_backlog(3);
    let mut engine = TriageEngine::new(store);
    let responses = vec![Some(HIGH_JSON); 3];
    let (processed, events) = drive_run(&mut engine, "acct", &responses, 1_000_000);
    assert_eq!(processed, 3);
    assert_eq!(engine.store.triage_log.len(), 3);
    for rec in engine.store.triage_log.iter() {
        assert_eq!(rec.importance, Some(zero_air::types::Importance::High));
        assert_eq!(rec.reason, "urgent request");
        assert!(rec.user_action.is_none());
    }
    let classified = events
        .iter()
        .filter(|e| matches!(e, EngineEvent::Classified(_)))
        .count();
    let alerts = events
        .iter()
        .filter(|e| matches!(e, EngineEvent::ImportantMail(_)))
        .count();
    assert_eq!(classified, 3);
    assert_eq!(alerts, 3);
}

#[test]
fn drafts_requested_once_per_high_notify_verdict() {
    let store = store_with_backlog(3);
    let mut engine = TriageEngine::new(store);
    let (_, _) = engine.trigger_triage("acct", 1_000_000);
    let mut drafts = 0;
    let mut now = 1_000_000i64;
    loop {
        let (step, _) = engine.next_step(now);
        match step {
            RunStep::Finished(_) => break,
            RunStep::Classify { wait_secs, .. } => {
                now += wait_secs as i64;
                let (res, _) = engine.submit_outcome(Some(HIGH_JSON.to_string()), now, now);
                now += 1;
                if let StepResult::Recorded { draft, .. } = res {
                    if draft.is_some() {
                        drafts += 1;
                    }
                } else {
                    panic!("expected a recorded verdict");
                }
            }
        }
    }
    assert_eq!(drafts, 3);
}

#[test]
fn service_down_on_second_of_five_keeps_one_record() {
    let store = store_with_backlog(5);
    let mut engine = TriageEngine::new(store);
    let responses = vec![Some(HIGH_JSON), None];
    let (_, events) = drive_run(&mut engine, "acct", &responses, 1_000_000);
    // Exactly one record was persisted (the first), the run stopped, and the
    // backlog still reports four remaining.
    assert_eq!(engine.store.triage_log.len(), 1);
    assert_eq!(engine.store.backlog_count("acct"), 4);
    // The run still emitted its terminal done event.
    let done = events.iter().any(|e| match e {
        EngineEvent::Progress(p) => p.status == ProgressStatus::Done && p.processed == 1,
        _ => false,
    });
    assert!(done);
}

#[test]
fn newest_arrived_is_classified_first() {
    let store = store_with_backlog(3);
    let mut engine = TriageEngine::new(store);
    let (_, _) = engine.trigger_triage("acct", 1_000_000);
    let (step, _) = engine.next_step(1_000_000);
    match step {
        RunStep::Classify { email, .. } => assert_eq!(email.id, "m2"),
        _ => panic!("expected a classify step"),
    }
}

#[test]
fn low_verdict_emits_no_alert_and_no_draft() {
    let store = store_with_backlog(1);
    let mut engine = TriageEngine::new(store);
    let low = "{\"importance\":\"low\",\"reason\":\"newsletter\",\"should_notify\":false}";
    let (processed, events) = drive_run(&mut engine, "acct", &[Some(low)], 1_000_000);
    assert_eq!(processed, 1);
    assert!(events.iter().all(|e| !matches!(e, EngineEvent::ImportantMail(_))));
    assert_eq!(engine.store.triage_log.len(), 1);
    assert_eq!(
        engine.store.triage_log[0].importance,
        Some(zero_air::types::Importance::Low)
    );
}

#[test]
fn unparseable_response_is_retried_not_marked() {
    let store = store_with_backlog(2);
    let mut engine = TriageEngine::new(store);
    let (_, _) = drive_run(&mut engine, "acct", &[Some("the dog ate my json")], 1_000_000);
    assert_eq!(engine.store.triage_log.len(), 0);
    assert_eq!(engine.store.backlog_count("acct"), 2);
}

#[test]
fn empty_backlog_triggers_nothing() {
    let store = TriageStore::new();
    let mut engine = TriageEngine::new(store);
    let (outcome, evs) = engine.trigger_triage("acct", 1000);
    assert!(matches!(outcome, BeginOutcome::NoBacklog));
    assert!(evs.is_empty());
}

#[test]
fn classifying_progress_total_is_capped_at_the_run_limit() {
    let store = store_with_backlog(12);
    let mut engine = TriageEngine::new(store);
    let responses = vec![Some(HIGH_JSON); 12];
    let (_, events) = drive_run(&mut engine, "acct", &responses, 1_000_000);
    // The started event announces the whole backlog; each classifying event
    // reports at most the per-run cap.
    let mut seen_started = false;
    for e in &events {
        if let EngineEvent::Progress(p) = e {
            match p.status {
                ProgressStatus::Started => {
                    assert_eq!(p.total, 12);
                    seen_started = true;
                }
                ProgressStatus::Classifying => assert_eq!(p.total, 10),
                ProgressStatus::Done => assert_eq!(p.total, 12),
            }
        }
    }
    assert!(seen_started);
}

#[test]
fn verdict_echoing_a_failure_marker_is_treated_as_failure() {
    // A reply that parses but whose reason text equals a failure marker
    // would persist as a transient record; the run must stop instead.
    let echo =
        "{\"importance\":\"high\",\"reason\":\"AI no disponible\",\"should_notify\":true}";
    let store = store_with_backlog(3);
    let mut engine = TriageEngine::new(store);
    let (_, _) = drive_run(&mut engine, "acct", &[Some(echo)], 1_000_000);
    assert_eq!(engine.store.triage_log.len(), 0);
    assert_eq!(engine.store.backlog_count("acct"), 3);
    let echo2 =
        "{\"importance\":\"low\",\"reason\":\"No se pudo clasificar\",\"should_notify\":false}";
    let (_, _) = drive_run(&mut engine, "acct", &[Some(echo2)], 2_000_000);
    assert_eq!(engine.store.triage_log.len(), 0);
    assert_eq!(engine.store.backlog_count("acct"), 3);
}

#[test]
fn persisted_records_are_never_transient() {
    let store = store_with_backlog(2);
    let mut engine = TriageEngine::new(store);
    let responses = vec![Some(HIGH_JSON); 2];
    let (_, _) = drive_run(&mut engine, "acct", &responses, 1_000_000);
    for rec in engine.store.triage_log.iter() {
        assert_ne!(rec.reason, "AI no disponible");
        assert_ne!(rec.reason, "No se pudo clasificar");
    }
}
