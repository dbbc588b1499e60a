//! Proactive drafting: the prompt that asks the completion service for a
//! short reply to an urgent message, and the draft-ready event built from a
//! successful generation. Drafting runs as a detached task: a failure there
//! simply produces no draft.

use vstd::prelude::*;
use vstd::string::StringExecFns;

use crate::types::DraftPayload;

verus! {

/// The reply-drafting prompt: same language, professional tone, three to
/// four sentences, no greeting or signature, content clipped to five hundred
/// characters.
pub open spec fn spec_draft_prompt(sender: Seq<char>, subject: Seq<char>, body: Seq<char>) -> Seq<
    char,
> {
    "Genera una respuesta profesional y breve para este correo:\n\nDe: "@ + sender + "\nAsunto: "@
        + subject + "\nContenido: "@ + crate::text::spec_clip(body, 500)
        + "\n\nInstrucciones:\n- Responde en el mismo idioma del correo\n- Sé profesional pero amigable\n- Máximo 3-4 oraciones\n- Solo el texto de la respuesta, sin \"Estimado/a\" ni firma"@
}

/// Builds the drafting prompt.
pub fn build_draft_prompt(sender: &str, subject: &str, body: &str) -> (r: String)
    ensures
        r@ == spec_draft_prompt(sender@, subject@, body@),
{
    let mut r = String::from_str("Genera una respuesta profesional y breve para este correo:\n\nDe: ");
    r.append(sender);
    r.append("\nAsunto: ");
    r.append(subject);
    r.append("\nContenido: ");
    let clipped = crate::text::clip_chars(body, 500);
    r.append(clipped.as_str());
    r.append(
        "\n\nInstrucciones:\n- Responde en el mismo idioma del correo\n- Sé profesional pero amigable\n- Máximo 3-4 oraciones\n- Solo el texto de la respuesta, sin \"Estimado/a\" ni firma",
    );
    proof {
        assert(r@ =~= spec_draft_prompt(sender@, subject@, body@));
    }
    r
}

/// The drafting system instruction.
pub fn draft_system_prompt() -> (r: String)
    ensures
        r@ == "Eres un asistente de correo profesional. Genera solo el texto de respuesta."@,
{
    String::from_str("Eres un asistente de correo profesional. Genera solo el texto de respuesta.")
}

/// The draft-ready event for a generated reply body: addressed back to the
/// sender, under the subject prefixed for a reply.
pub fn draft_payload(
    email_id: &str,
    to: &str,
    subject: &str,
    body: &str,
    sender: &str,
) -> (r: DraftPayload)
    ensures
        r.email_id@ == email_id@,
        r.to@ == to@,
        r.subject@ == "Re: "@ + subject@,
        r.body@ == body@,
        r.sender@ == sender@,
{
    let mut s = String::from_str("Re: ");
    s.append(subject);
    DraftPayload {
        email_id: String::from_str(email_id),
        to: String::from_str(to),
        subject: s,
        body: String::from_str(body),
        sender: String::from_str(sender),
    }
}

} // verus!
