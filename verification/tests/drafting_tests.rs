use zero_air::drafting::{build_draft_prompt, draft_payload, draft_system_prompt};

#[test]
fn draft_prompt_embeds_the_message() {
    let p = build_draft_prompt("Alice", "contract", "please sign by Friday");
    assert!(p.starts_with(
        "Genera una respuesta profesional y breve para este correo:\n\nDe: Alice\nAsunto: contract\nContenido: please sign by Friday\n\nInstrucciones:"
    ));
    assert!(p.ends_with("sin \"Estimado/a\" ni firma"));
}

#[test]
fn draft_body_is_clipped_to_five_hundred_characters() {
    let long = "z".repeat(900);
    let p = build_draft_prompt("A", "s", &long);
    assert!(p.contains(&"z".repeat(500)));
    assert!(!p.contains(&"z".repeat(501)));
}

#[test]
fn draft_event_prefixes_the_subject() {
    let d = draft_payload("m1", "alice@example.com", "contract", "Will do.", "Alice");
    assert_eq!(d.email_id, "m1");
    assert_eq!(d.to, "alice@example.com");
    assert_eq!(d.subject, "Re: contract");
    assert_eq!(d.body, "Will do.");
    assert_eq!(d.sender, "Alice");
}

#[test]
fn draft_system_prompt_is_fixed() {
    assert_eq!(
        draft_system_prompt(),
        "Eres un asistente de correo profesional. Genera solo el texto de respuesta."
    );
}
