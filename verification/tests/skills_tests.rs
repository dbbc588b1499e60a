use zero_air::skills::{confidence_hundredths, eval_report_message, EvalReport};
use zero_air::store::TriageStore;
use zero_air::types::{Importance, Skill, SkillType, TriageRecord, UserAction};

fn classification(email_id: &str, importance: Importance, at: i64) -> TriageRecord {
    TriageRecord {
        email_id: email_id.to_string(),
        importance: Some(importance),
        reason: "seen".to_string(),
        user_action: None,
        sender_email: "sender@example.com".to_string(),
        created_at: at,
    }
}

fn action(email_id: &str, what: UserAction, sender: &str, at: i64) -> TriageRecord {
    TriageRecord {
        email_id: email_id.to_string(),
        importance: None,
        reason: String::new(),
        user_action: Some(what),
        sender_email: sender.to_string(),
        created_at: at,
    }
}

fn skill(id: u64, rule: &str, confidence: u8, active: bool) -> Skill {
    Skill {
        id,
        skill_type: SkillType::SenderRule,
        description: format!("rule {}", id),
        rule: rule.to_string(),
        confidence,
        times_applied: 0,
        times_correct: 0,
        active,
        created_at: 0,
        updated_at: 0,
    }
}

fn store_with_skills(skills: Vec<Skill>) -> TriageStore {
    let mut store = TriageStore::new();
    store.next_skill_id = skills.iter().map(|k| k.id + 1).max().unwrap_or(0);
    store.skills = skills;
    store
}

#[test]
fn good_accuracy_boosts_all_active_skills() {
    let mut store = store_with_skills(vec![skill(0, "{\"a\":1}", 50, true), skill(
        1,
        "{\"b\":2}",
        93,
        true,
    )]);
    // Three confirmed predictions: accuracy 1.0 > 0.7.
    store.triage_log.push(classification("m1", Importance::High, 1));
    store.triage_log.push(action("m1", UserAction::Replied, "s@x", 2));
    store.triage_log.push(classification("m2", Importance::Low, 3));
    store.triage_log.push(action("m2", UserAction::Ignored, "s@x", 4));
    store.triage_log.push(classification("m3", Importance::Medium, 5));
    store.triage_log.push(action("m3", UserAction::Opened, "s@x", 6));
    let report = store.evaluate_skills(99);
    assert_eq!(report, EvalReport { correct: 3, incorrect: 0 });
    assert_eq!(store.skills[0].confidence, 55);
    // Confidence is clamped at the 0.95 bound.
    assert_eq!(store.skills[1].confidence, 95);
    assert!(store.skills[0].active && store.skills[1].active);
    assert_eq!(store.skills[0].updated_at, 99);
}

#[test]
fn bad_accuracy_lowers_confidence_and_retires_weak_skills() {
    let mut store = store_with_skills(vec![
        skill(0, "{\"a\":1}", 22, true),
        skill(1, "{\"b\":2}", 3, true),
        skill(2, "{\"c\":3}", 80, false),
    ]);
    // One contradicted prediction: accuracy 0.0.
    store.triage_log.push(classification("m1", Importance::High, 1));
    store.triage_log.push(action("m1", UserAction::Deleted, "s@x", 2));
    let report = store.evaluate_skills(50);
    assert_eq!(report, EvalReport { correct: 0, incorrect: 1 });
    // 22 - 5 = 17 < 20: deactivated.
    assert_eq!(store.skills[0].confidence, 17);
    assert!(!store.skills[0].active);
    // 3 - 5 clamps at the lower bound.
    assert_eq!(store.skills[1].confidence, 0);
    assert!(!store.skills[1].active);
    // Inactive skills keep their confidence untouched.
    assert_eq!(store.skills[2].confidence, 80);
    assert!(!store.skills[2].active);
}

#[test]
fn no_feedback_defaults_to_half_accuracy_and_lowers() {
    let mut store = store_with_skills(vec![skill(0, "{\"a\":1}", 50, true)]);
    let report = store.evaluate_skills(7);
    assert_eq!(report, EvalReport { correct: 0, incorrect: 0 });
    // 0.5 is not above the 0.7 bar, so the delta is downward.
    assert_eq!(store.skills[0].confidence, 45);
}

#[test]
fn confidence_stays_in_bounds_over_many_cycles() {
    let mut store = store_with_skills(vec![skill(0, "{\"a\":1}", 50, true)]);
    for t in 0..40 {
        store.evaluate_skills(t);
        for k in store.skills.iter() {
            assert!(k.confidence <= 95);
            if k.confidence < 20 {
                assert!(!k.active);
            }
        }
    }
}

#[test]
fn neutral_pairs_count_as_correct() {
    let mut store = store_with_skills(vec![skill(0, "{\"a\":1}", 50, true)]);
    // (medium, deleted) is not in the table: neutral, counted as correct.
    store.triage_log.push(classification("m1", Importance::Medium, 1));
    store.triage_log.push(action("m1", UserAction::Deleted, "s@x", 2));
    let report = store.evaluate_skills(9);
    assert_eq!(report, EvalReport { correct: 1, incorrect: 0 });
}

#[test]
fn eval_report_message_formats_percentage() {
    let msg = eval_report_message(&EvalReport { correct: 3, incorrect: 1 });
    assert_eq!(
        msg,
        "📊 Evaluación: 3 correctas, 1 incorrectas. Precisión: 75%. Skills ajustados."
    );
    let msg = eval_report_message(&EvalReport { correct: 0, incorrect: 0 });
    assert_eq!(
        msg,
        "📊 Evaluación: 0 correctas, 0 incorrectas. Precisión: 50%. Skills ajustados."
    );
}

const CANDIDATES: &str = "[{\"skill_type\":\"sender_rule\",\"description\":\"mark the boss high\",\"rule_json\":\"{\\\"match\\\":\\\"sender_contains\\\",\\\"value\\\":\\\"boss\\\",\\\"action\\\":\\\"high\\\"}\",\"confidence\":0.6}]";

#[test]
fn generating_twice_never_duplicates_active_rules() {
    let mut store = TriageStore::new();
    let msgs = store.apply_skill_candidates(CANDIDATES, 10);
    assert_eq!(msgs, vec!["✨ Nueva skill: mark the boss high".to_string()]);
    assert_eq!(store.skills.len(), 1);
    assert_eq!(store.skills[0].confidence, 60);
    assert!(store.skills[0].active);
    assert_eq!(store.skills[0].times_applied, 0);
    assert_eq!(store.skills[0].times_correct, 0);
    // The identical candidate set a second time creates nothing new.
    let msgs = store.apply_skill_candidates(CANDIDATES, 20);
    assert_eq!(msgs, vec!["No se descubrieron patrones nuevos.".to_string()]);
    assert_eq!(store.skills.len(), 1);
    // No two active skills share a rule payload.
    for i in 0..store.skills.len() {
        for j in 0..store.skills.len() {
            if i != j && store.skills[i].active && store.skills[j].active {
                assert_ne!(store.skills[i].rule, store.skills[j].rule);
            }
        }
    }
}

#[test]
fn duplicate_candidates_within_one_reply_are_deduplicated() {
    let two_same = "[{\"skill_type\":\"sender_rule\",\"description\":\"one\",\"rule_json\":\"{\\\"v\\\":1}\",\"confidence\":0.5},{\"skill_type\":\"keyword_rule\",\"description\":\"two\",\"rule_json\":\"{\\\"v\\\":1}\",\"confidence\":0.5}]";
    let mut store = TriageStore::new();
    let msgs = store.apply_skill_candidates(two_same, 10);
    assert_eq!(msgs, vec!["✨ Nueva skill: one".to_string()]);
    assert_eq!(store.skills.len(), 1);
}

#[test]
fn candidate_defaults_apply_for_missing_fields() {
    let bare = "[{}]";
    let mut store = TriageStore::new();
    let msgs = store.apply_skill_candidates(bare, 10);
    assert_eq!(msgs, vec!["✨ Nueva skill: Regla auto-generada".to_string()]);
    assert_eq!(store.skills.len(), 1);
    assert_eq!(store.skills[0].skill_type, SkillType::SenderRule);
    assert_eq!(store.skills[0].rule, "{}");
    assert_eq!(store.skills[0].confidence, 50);
}

#[test]
fn unparseable_candidate_reply_creates_nothing() {
    let mut store = TriageStore::new();
    let msgs = store.apply_skill_candidates("sorry, no rules today", 10);
    assert_eq!(msgs, vec!["No se descubrieron patrones nuevos.".to_string()]);
    assert!(store.skills.is_empty());
}

#[test]
fn fenced_candidate_reply_is_cleaned_first() {
    let fenced = format!("```json\n{}\n```", CANDIDATES);
    let mut store = TriageStore::new();
    let msgs = store.apply_skill_candidates(&fenced, 10);
    assert_eq!(msgs.len(), 1);
    assert_eq!(store.skills.len(), 1);
}

#[test]
fn out_of_range_confidence_is_clamped() {
    let big = "[{\"description\":\"big\",\"rule_json\":\"{\\\"v\\\":2}\",\"confidence\":7.5}]";
    let mut store = TriageStore::new();
    store.apply_skill_candidates(big, 10);
    assert_eq!(store.skills[0].confidence, 95);
    let neg = "[{\"description\":\"neg\",\"rule_json\":\"{\\\"v\\\":3}\",\"confidence\":-0.4}]";
    store.apply_skill_candidates(neg, 20);
    assert_eq!(store.skills[1].confidence, 0);
}

#[test]
fn confidence_numerals_parse_to_hundredths() {
    assert_eq!(confidence_hundredths("0.6"), Some(60));
    assert_eq!(confidence_hundredths("0.65"), Some(65));
    assert_eq!(confidence_hundredths("0.657"), Some(65));
    assert_eq!(confidence_hundredths("1"), Some(100));
    assert_eq!(confidence_hundredths("-0.4"), Some(-40));
    assert_eq!(confidence_hundredths("0"), Some(0));
    assert_eq!(confidence_hundredths(""), None);
    assert_eq!(confidence_hundredths("high"), None);
    assert_eq!(confidence_hundredths("1."), None);
}

#[test]
fn generation_prompt_skips_when_no_behavior_exists() {
    let store = TriageStore::new();
    assert!(store.generate_skills_prompt().is_none());
}

#[test]
fn generation_prompt_lists_counts_and_existing_rules() {
    let mut store = store_with_skills(vec![skill(0, "{\"keep\":1}", 50, true)]);
    store.triage_log.push(action("m1", UserAction::Replied, "boss@example.com", 1));
    store.triage_log.push(action("m2", UserAction::Replied, "boss@example.com", 2));
    store.triage_log.push(action("m3", UserAction::Ignored, "spam@example.com", 3));
    let prompt = store.generate_skills_prompt().expect("behavior data exists");
    assert!(prompt.contains("  boss@example.com → replied (2 veces)"));
    assert!(prompt.contains("  spam@example.com → ignored (1 veces)"));
    assert!(prompt.contains("{\"keep\":1}"));
    // Frequency-descending: the double interaction comes first.
    let boss = prompt.find("boss@example.com").unwrap();
    let spam = prompt.find("spam@example.com").unwrap();
    assert!(boss < spam);
}

#[test]
fn active_skills_are_listed_most_confident_first() {
    let store = store_with_skills(vec![
        skill(0, "{\"a\":1}", 30, true),
        skill(1, "{\"b\":2}", 90, true),
        skill(2, "{\"c\":3}", 60, false),
        skill(3, "{\"d\":4}", 50, true),
    ]);
    let active = store.get_active_skills();
    let ids: Vec<u64> = active.iter().map(|k| k.id).collect();
    assert_eq!(ids, vec![1, 3, 0]);
}

#[test]
fn skills_context_filters_by_confidence_threshold() {
    let store = store_with_skills(vec![
        skill(0, "{\"a\":1}", 41, true),
        skill(1, "{\"b\":2}", 40, true),
        skill(2, "{\"c\":3}", 90, false),
    ]);
    let ctx = store.get_skills_context();
    // Only the active skill strictly above the 0.4 bound appears.
    assert_eq!(
        ctx,
        "\n\nReglas auto-aprendidas (USAR para clasificar):\n- rule 0 (confianza: 41%) — {\"a\":1}"
    );
    let empty = TriageStore::new().get_skills_context();
    assert_eq!(empty, "");
}

#[test]
fn toggle_and_delete_skill() {
    let mut store = store_with_skills(vec![skill(0, "{\"a\":1}", 50, true), skill(
        1,
        "{\"b\":2}",
        50,
        true,
    )]);
    store.toggle_skill(0, false, 77);
    assert!(!store.skills[0].active);
    assert_eq!(store.skills[0].updated_at, 77);
    assert!(store.skills[1].active);
    store.delete_skill(0);
    assert_eq!(store.skills.len(), 1);
    assert_eq!(store.skills[0].id, 1);
}

#[test]
fn evaluation_considers_at_most_fifty_pairs() {
    let mut store = TriageStore::new();
    for k in 0..61 {
        let id = format!("m{}", k);
        store.triage_log.push(classification(&id, Importance::High, 2 * k));
        store.triage_log.push(action(&id, UserAction::Replied, "s@x", 2 * k + 1));
    }
    let report = store.evaluate_skills(1000);
    assert_eq!(report.correct + report.incorrect, 50);
}
