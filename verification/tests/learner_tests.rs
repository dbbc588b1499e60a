use zero_air::store::TriageStore;
use zero_air::types::{UserAction, VipReason};

#[test]
fn replied_action_promotes_sender_to_vip_once() {
    let mut store = TriageStore::new();
    store.record_user_action("m1", UserAction::Replied, "boss@example.com", 100);
    let rows: Vec<_> = store
        .vips
        .iter()
        .filter(|v| v.sender_email == "boss@example.com")
        .collect();
    assert_eq!(rows.len(), 1);
    assert_eq!(rows[0].reason, VipReason::AutoLearned);
    // Repeating the action is a no-op: still exactly one row.
    store.record_user_action("m2", UserAction::Starred, "boss@example.com", 200);
    let rows = store
        .vips
        .iter()
        .filter(|v| v.sender_email == "boss@example.com")
        .count();
    assert_eq!(rows, 1);
    assert_eq!(store.triage_log.len(), 2);
}

#[test]
fn opened_action_does_not_promote() {
    let mut store = TriageStore::new();
    store.record_user_action("m1", UserAction::Opened, "someone@example.com", 100);
    assert!(store.vips.is_empty());
    assert_eq!(store.triage_log.len(), 1);
    let rec = &store.triage_log[0];
    assert_eq!(rec.email_id, "m1");
    assert_eq!(rec.user_action, Some(UserAction::Opened));
    assert!(rec.importance.is_none());
}

#[test]
fn manual_vip_add_is_idempotent() {
    let mut store = TriageStore::new();
    store.add_vip_sender("vip@example.com", 10);
    store.add_vip_sender("vip@example.com", 20);
    assert_eq!(store.vips.len(), 1);
    assert_eq!(store.vips[0].reason, VipReason::Manual);
    assert_eq!(store.vips[0].created_at, 10);
}

#[test]
fn vip_senders_listed_newest_first() {
    let mut store = TriageStore::new();
    store.add_vip_sender("a@example.com", 1);
    store.add_vip_sender("b@example.com", 2);
    store.add_vip_sender("c@example.com", 3);
    let listed = store.get_vip_senders();
    assert_eq!(listed, vec!["c@example.com", "b@example.com", "a@example.com"]);
}

#[test]
fn vip_context_is_a_bulleted_list() {
    let mut store = TriageStore::new();
    store.add_vip_sender("a@example.com", 1);
    store.add_vip_sender("b@example.com", 2);
    assert_eq!(store.get_vip_context(), "- a@example.com\n- b@example.com");
    assert_eq!(
        store.get_vip_note(),
        "\n\nRemitentes VIP aprendidos (siempre marcar como high):\n- a@example.com\n- b@example.com"
    );
}

#[test]
fn empty_vip_list_yields_empty_context() {
    let store = TriageStore::new();
    assert_eq!(store.get_vip_context(), "");
    assert_eq!(store.get_vip_note(), "");
}

#[test]
fn vip_context_offers_at_most_twenty_addresses() {
    let mut store = TriageStore::new();
    for k in 0..23 {
        store.add_vip_sender(&format!("v{}@example.com", k), k as i64);
    }
    let ctx = store.get_vip_context();
    assert_eq!(ctx.lines().count(), 20);
    assert!(ctx.contains("- v19@example.com"));
    assert!(!ctx.contains("v20@example.com"));
}
