use zero_air::arrivals::IdleWatcher;
use zero_air::scheduler::{CyclePlan, TriageEngine};
use zero_air::completion::{apply_request_defaults, extract_completion_text};
use zero_air::store::TriageStore;
use zero_air::types::{AiRequest, Email, Importance, TriageRecord, UserAction};

fn mk_email(id: &str, uid: i64, account: &str) -> Email {
    Email {
        id: id.to_string(),
        uid,
        account_id: account.to_string(),
        folder: "INBOX".to_string(),
        subject: Some(format!("subject {}", id)),
        sender: Some("Alice".to_string()),
        sender_email: Some("alice@example.com".to_string()),
        to_email: None,
        date: None,
        snippet: Some("text".to_string()),
        body: None,
        read: Some(false),
        ai_priority: None,
        ai_labels: None,
        ai_summary: None,
    }
}

#[test]
fn config_is_upserted_and_read_back() {
    let mut store = TriageStore::new();
    store.save_ai_config("http://localhost:9", "SECRET-REDACTED", "tiny");
    let cfg = store.get_ai_config();
    assert_eq!(cfg.endpoint.as_deref(), Some("http://localhost:9"));
    assert_eq!(cfg.api_key.as_deref(), Some("SECRET-REDACTED"));
    assert_eq!(cfg.model.as_deref(), Some("tiny"));
    // Saving again replaces, never duplicates.
    store.save_ai_config("http://localhost:10", "SECRET-REDACTED", "tiny");
    assert_eq!(store.config.len(), 3);
    assert_eq!(store.get_ai_config().endpoint.as_deref(), Some("http://localhost:10"));
}

#[test]
fn missing_config_reads_as_none() {
    let store = TriageStore::new();
    let cfg = store.get_ai_config();
    assert!(cfg.endpoint.is_none() && cfg.api_key.is_none() && cfg.model.is_none());
}

#[test]
fn conversation_summary_is_a_singleton_per_account() {
    let mut store = TriageStore::new();
    assert!(store.get_conversation_summary("acct").is_none());
    store.save_conversation_summary("acct", "we talked about invoices", 12, 100);
    assert_eq!(
        store.get_conversation_summary("acct").as_deref(),
        Some("we talked about invoices")
    );
    assert!(store.get_conversation_summary("other").is_none());
    // Upserted on each compaction event.
    store.save_conversation_summary("acct", "shorter digest", 20, 200);
    assert_eq!(store.get_conversation_summary("acct").as_deref(), Some("shorter digest"));
    assert_eq!(store.summaries.len(), 1);
    // A second account gets its own slot; the first is untouched.
    store.save_conversation_summary("other", "different thread", 2, 300);
    assert_eq!(store.get_conversation_summary("acct").as_deref(), Some("shorter digest"));
    assert_eq!(store.get_conversation_summary("other").as_deref(), Some("different thread"));
    assert_eq!(store.summaries.len(), 2);
}

#[test]
fn latest_importance_wins() {
    let mut store = TriageStore::new();
    store.triage_log.push(TriageRecord {
        email_id: "m1".to_string(),
        importance: Some(Importance::Low),
        reason: "first look".to_string(),
        user_action: None,
        sender_email: "a@x".to_string(),
        created_at: 1,
    });
    store.triage_log.push(TriageRecord {
        email_id: "m1".to_string(),
        importance: Some(Importance::High),
        reason: "superseded".to_string(),
        user_action: None,
        sender_email: "a@x".to_string(),
        created_at: 2,
    });
    assert_eq!(store.get_email_importance("m1").as_deref(), Some("high"));
    assert!(store.get_email_importance("m2").is_none());
    // A later behavior-log entry does not shadow the classification.
    store.record_user_action("m1", UserAction::Opened, "a@x", 3);
    assert_eq!(store.get_email_importance("m1").as_deref(), Some("high"));
}

#[test]
fn importance_map_joins_on_the_account() {
    let mut store = TriageStore::new();
    store.upsert_email(mk_email("m1", 1, "acct"));
    store.upsert_email(mk_email("m2", 2, "other"));
    store.triage_log.push(TriageRecord {
        email_id: "m1".to_string(),
        importance: Some(Importance::Medium),
        reason: "r".to_string(),
        user_action: None,
        sender_email: "a@x".to_string(),
        created_at: 1,
    });
    store.triage_log.push(TriageRecord {
        email_id: "m2".to_string(),
        importance: Some(Importance::High),
        reason: "r".to_string(),
        user_action: None,
        sender_email: "a@x".to_string(),
        created_at: 2,
    });
    let map = store.get_importance_map("acct");
    assert_eq!(map, vec![("m1".to_string(), "medium".to_string())]);
}

#[test]
fn transient_records_do_not_count_as_classified() {
    let mut store = TriageStore::new();
    store.upsert_email(mk_email("m1", 1, "acct"));
    store.triage_log.push(TriageRecord {
        email_id: "m1".to_string(),
        importance: Some(Importance::Low),
        reason: "AI no disponible".to_string(),
        user_action: None,
        sender_email: "a@x".to_string(),
        created_at: 1,
    });
    assert!(!store.is_classified("m1"));
    assert_eq!(store.backlog_count("acct"), 1);
    store.purge_transient();
    assert!(store.triage_log.is_empty());
}

#[test]
fn backlog_counts_only_unclassified_inbox_mail() {
    let mut store = TriageStore::new();
    store.upsert_email(mk_email("m1", 1, "acct"));
    store.upsert_email(mk_email("m2", 2, "acct"));
    let mut archived = mk_email("m3", 3, "acct");
    archived.folder = "Archive".to_string();
    store.upsert_email(archived);
    store.upsert_email(mk_email("m4", 4, "other"));
    assert_eq!(store.backlog_count("acct"), 2);
    store.triage_log.push(TriageRecord {
        email_id: "m2".to_string(),
        importance: Some(Importance::Low),
        reason: "r".to_string(),
        user_action: None,
        sender_email: "a@x".to_string(),
        created_at: 1,
    });
    assert_eq!(store.backlog_count("acct"), 1);
    let next = store.next_unclassified("acct").unwrap();
    assert_eq!(next.id, "m1");
}

#[test]
fn next_unclassified_picks_the_highest_uid() {
    let mut store = TriageStore::new();
    store.upsert_email(mk_email("older", 10, "acct"));
    store.upsert_email(mk_email("newest", 99, "acct"));
    store.upsert_email(mk_email("middle", 50, "acct"));
    assert_eq!(store.next_unclassified("acct").unwrap().id, "newest");
    assert!(store.next_unclassified("nobody").is_none());
}

#[test]
fn deleting_an_email_purges_its_records() {
    let mut store = TriageStore::new();
    store.upsert_email(mk_email("m1", 1, "acct"));
    store.upsert_email(mk_email("m2", 2, "acct"));
    store.record_user_action("m1", UserAction::Opened, "a@x", 1);
    store.record_user_action("m2", UserAction::Opened, "a@x", 2);
    store.delete_email("m1");
    assert_eq!(store.emails.len(), 1);
    assert_eq!(store.emails[0].id, "m2");
    assert_eq!(store.triage_log.len(), 1);
    assert_eq!(store.triage_log[0].email_id, "m2");
}

#[test]
fn upsert_replaces_by_id() {
    let mut store = TriageStore::new();
    store.upsert_email(mk_email("m1", 1, "acct"));
    let mut updated = mk_email("m1", 5, "acct");
    updated.subject = Some("rewritten".to_string());
    store.upsert_email(updated);
    assert_eq!(store.emails.len(), 1);
    assert_eq!(store.emails[0].uid, 5);
    assert_eq!(store.emails[0].subject.as_deref(), Some("rewritten"));
}

#[test]
fn request_defaults_fill_absent_fields() {
    let call = apply_request_defaults(AiRequest {
        prompt: "hello".to_string(),
        model: None,
        system_prompt: None,
        endpoint: None,
        api_key: None,
        context: None,
    });
    assert_eq!(call.model, "default");
    assert_eq!(call.endpoint, "http://127.0.0.1:8045/v1/chat/completions");
    assert_eq!(call.api_key, "");
    assert_eq!(call.system_prompt, "You are a helpful email assistant. Be concise and clear.");
    assert_eq!(call.prompt, "hello");
    let call = apply_request_defaults(AiRequest {
        prompt: "p".to_string(),
        model: Some("m".to_string()),
        system_prompt: Some("s".to_string()),
        endpoint: Some("e".to_string()),
        api_key: Some("k".to_string()),
        context: None,
    });
    assert_eq!((call.model.as_str(), call.endpoint.as_str()), ("m", "e"));
}

#[test]
fn completion_text_takes_the_first_choice() {
    assert_eq!(
        extract_completion_text(&vec!["first".to_string(), "second".to_string()]),
        "first"
    );
    assert_eq!(extract_completion_text(&vec![]), "No response from AI");
}

#[test]
fn idle_watcher_counts_to_ten() {
    let mut w = IdleWatcher::new();
    assert!(w.start_idle());
    assert!(!w.start_idle());
    for k in 1..=9 {
        let plan = w.on_new_mail();
        assert!(plan.run_triage);
        assert!(!plan.run_improvement, "signal {} should not improve", k);
    }
    let tenth = w.on_new_mail();
    assert!(tenth.run_triage && tenth.run_improvement);
    w.stop_idle();
    assert!(!w.running);
    let idle_plan = w.on_new_mail();
    assert!(!idle_plan.run_triage && !idle_plan.run_improvement);
}

#[test]
fn improvement_cycle_needs_five_interactions() {
    let mut store = TriageStore::new();
    for k in 0..4 {
        store.record_user_action(&format!("m{}", k), UserAction::Opened, "a@x", k as i64);
    }
    let mut engine = TriageEngine::new(store);
    assert!(matches!(engine.run_self_improvement_cycle(100), CyclePlan::InsufficientData));
    engine.store.record_user_action("m5", UserAction::Replied, "a@x", 5);
    match engine.run_self_improvement_cycle(101) {
        CyclePlan::Evaluated { generation_prompt, .. } => {
            assert!(generation_prompt.is_some());
        }
        _ => panic!("expected the cycle to run"),
    }
}

#[test]
fn get_emails_lists_a_folder_newest_first() {
    let mut store = TriageStore::new();
    store.upsert_email(mk_email("a", 10, "acct"));
    store.upsert_email(mk_email("b", 30, "acct"));
    store.upsert_email(mk_email("c", 20, "acct"));
    let mut other = mk_email("d", 99, "acct");
    other.folder = "Sent".to_string();
    store.upsert_email(other);
    store.upsert_email(mk_email("e", 50, "someone_else"));
    let listed = store.get_emails("acct", "INBOX");
    let ids: Vec<&str> = listed.iter().map(|m| m.id.as_str()).collect();
    assert_eq!(ids, vec!["b", "c", "a"]);
    assert!(store.get_emails("acct", "Trash").is_empty());
}

#[test]
fn ai_metadata_is_attached_to_the_message() {
    let mut store = TriageStore::new();
    store.upsert_email(mk_email("m1", 1, "acct"));
    store.upsert_email(mk_email("m2", 2, "acct"));
    store.save_ai_metadata(
        "m1",
        Some("high".to_string()),
        Some("work".to_string()),
        None,
    );
    assert_eq!(store.emails[0].ai_priority.as_deref(), Some("high"));
    assert_eq!(store.emails[0].ai_labels.as_deref(), Some("work"));
    assert!(store.emails[0].ai_summary.is_none());
    assert!(store.emails[1].ai_priority.is_none());
}

#[test]
fn bulk_delete_clears_a_folder() {
    let mut store = TriageStore::new();
    store.upsert_email(mk_email("m1", 1, "acct"));
    store.upsert_email(mk_email("m2", 2, "acct"));
    let mut sent = mk_email("m3", 3, "acct");
    sent.folder = "Sent".to_string();
    store.upsert_email(sent);
    let removed = store.delete_folder_emails("acct", "INBOX");
    assert_eq!(removed, 2);
    assert_eq!(store.emails.len(), 1);
    assert_eq!(store.emails[0].id, "m3");
}
