use zero_air::classifier::{
    build_triage_prompt, clean_response, importance_from_label, triage_verdict, triage_system_prompt,
    verdict_to_result, Verdict,
};
use zero_air::types::Importance;

#[test]
fn well_formed_reply_classifies() {
    let reply = "{\"importance\":\"high\",\"reason\":\"urgent request\",\"should_notify\":true}";
    match triage_verdict(&Some(reply.to_string())) {
        Verdict::Classified { importance, reason, should_notify } => {
            assert_eq!(importance, Importance::High);
            assert_eq!(reason, "urgent request");
            assert!(should_notify);
        }
        _ => panic!("expected a classification"),
    }
}

#[test]
fn fenced_reply_is_unwrapped() {
    let reply = "```json\n{\"importance\":\"medium\",\"reason\":\"fyi\",\"should_notify\":false}\n```";
    match triage_verdict(&Some(reply.to_string())) {
        Verdict::Classified { importance, reason, should_notify } => {
            assert_eq!(importance, Importance::Medium);
            assert_eq!(reason, "fyi");
            assert!(!should_notify);
        }
        _ => panic!("expected a classification"),
    }
}

#[test]
fn missing_fields_default_to_low_empty_silent() {
    match triage_verdict(&Some("{}".to_string())) {
        Verdict::Classified { importance, reason, should_notify } => {
            assert_eq!(importance, Importance::Low);
            assert_eq!(reason, "");
            assert!(!should_notify);
        }
        _ => panic!("expected a classification"),
    }
}

#[test]
fn failed_call_is_unavailable() {
    assert!(matches!(triage_verdict(&None), Verdict::Unavailable));
}

#[test]
fn garbage_reply_is_unparseable() {
    let v = triage_verdict(&Some("I think it's probably important?".to_string()));
    assert!(matches!(v, Verdict::Unparseable));
}

#[test]
fn fallback_results_carry_the_distinguishing_markers() {
    let unavailable = verdict_to_result("m1", &Verdict::Unavailable);
    assert_eq!(unavailable.email_id, "m1");
    assert_eq!(unavailable.importance, "low");
    assert_eq!(unavailable.reason, "AI no disponible");
    assert!(!unavailable.should_notify);
    let unparseable = verdict_to_result("m1", &Verdict::Unparseable);
    assert_eq!(unparseable.reason, "No se pudo clasificar");
    assert_eq!(unparseable.importance, "low");
}

#[test]
fn classified_result_keeps_the_verdict() {
    let v = Verdict::Classified {
        importance: Importance::High,
        reason: "boss email".to_string(),
        should_notify: true,
    };
    let r = verdict_to_result("m9", &v);
    assert_eq!(r.email_id, "m9");
    assert_eq!(r.importance, "high");
    assert_eq!(r.reason, "boss email");
    assert!(r.should_notify);
}

#[test]
fn clean_response_strips_fences_and_whitespace() {
    assert_eq!(clean_response("  ```json\n{\"a\":1}\n```  "), "{\"a\":1}");
    assert_eq!(clean_response("```{\"a\":1}```"), "{\"a\":1}");
    assert_eq!(clean_response("  plain  "), "plain");
    assert_eq!(clean_response(""), "");
}

#[test]
fn unknown_importance_label_falls_back_to_low() {
    assert_eq!(importance_from_label("high"), Importance::High);
    assert_eq!(importance_from_label("medium"), Importance::Medium);
    assert_eq!(importance_from_label("low"), Importance::Low);
    assert_eq!(importance_from_label("URGENT"), Importance::Low);
}

#[test]
fn triage_prompt_embeds_email_and_contexts() {
    let prompt = build_triage_prompt(
        "Alice",
        "alice@example.com",
        "contract",
        "please sign",
        "\n\nVIPNOTE",
        "\n\nSKILLS",
    );
    assert!(prompt.starts_with(
        "Clasifica este correo electrónico según su importancia. Responde SOLO con JSON válido, sin explicación extra.\n\nCorreo:\nDe: Alice <alice@example.com>\nAsunto: contract\nContenido: please sign\n\nVIPNOTE\n\nSKILLS\n\nResponde con este formato exacto:"
    ));
    assert!(prompt.ends_with(
        "Si una persona te pide algo urgente, es HIGH."
    ));
    assert!(prompt.contains("Reglas ESTRICTAS (aplica en orden):"));
}

#[test]
fn snippet_is_clipped_to_five_hundred_characters() {
    let long = "x".repeat(800);
    let prompt = build_triage_prompt("A", "a@x", "s", &long, "", "");
    let clipped = "x".repeat(500);
    assert!(prompt.contains(&format!("Contenido: {}\n", clipped)));
    assert!(!prompt.contains(&"x".repeat(501)));
}

#[test]
fn system_prompt_demands_json_only() {
    assert_eq!(
        triage_system_prompt(),
        "Eres un clasificador de correos experto. Lee el CONTENIDO del correo cuidadosamente. Responde SOLO con JSON."
    );
}
