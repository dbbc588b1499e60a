//! The classifier: cleans the completion service's reply, parses it into a
//! tagged verdict, and distinguishes a well-formed verdict from a fallback so
//! the scheduler can tell "classified as low" from "the attempt failed".

use vstd::prelude::*;
use vstd::string::StringExecFns;

use crate::text::{
    chars_of, spec_clean_response_of, spec_strip_prefix_all, spec_strip_suffix_all, spec_trim,
    str_eq, string_of, strip_prefix_all, strip_suffix_all, trim_chars,
};
use crate::types::{Importance, TriageResult, unavailable_reason, unparseable_reason};

verus! {

/// The reply with surrounding whitespace and any code-fence wrapper removed.
pub fn clean_response(s: &str) -> (r: String)
    ensures
        r@ == spec_clean_response_of(s@),
{
    let v = chars_of(s);
    let v = trim_chars(&v);
    let fence_json = chars_of("```json");
    let v = strip_prefix_all(&v, &fence_json);
    let fence = chars_of("```");
    let v = strip_prefix_all(&v, &fence);
    let v = strip_suffix_all(&v, &fence);
    let v = trim_chars(&v);
    string_of(&v)
}

/// The three fields a verdict object may carry, each absent when the reply
/// does not hold it.
pub struct VerdictFields {
    pub importance: Option<String>,
    pub reason: Option<String>,
    pub should_notify: Option<bool>,
}

/// What serde_json extracts from a cleaned reply: `None` when the text is not
/// valid JSON, otherwise the three fields looked up in the parsed document.
/// The result depends on the text alone.
pub uninterp spec fn verdict_fields_of(s: Seq<char>) -> Option<VerdictFields>;

/// Relies on `serde_json::from_str` and `serde_json::Value::{get, as_str,
/// as_bool}`: parses the text as JSON and picks the three verdict fields,
/// a function of the text alone.
#[verifier::external_body]
fn extract_verdict_fields(s: &str) -> (r: Option<VerdictFields>)
    ensures
        r == verdict_fields_of(s@),
{
    let v: serde_json::Value = match serde_json::from_str(s) {
        Ok(v) => v,
        Err(_) => return None,
    };
    Some(VerdictFields {
        importance: v.get("importance").and_then(|x| x.as_str()).map(|x| x.to_string()),
        reason: v.get("reason").and_then(|x| x.as_str()).map(|x| x.to_string()),
        should_notify: v.get("should_notify").and_then(|x| x.as_bool()),
    })
}

/// The importance tier named by a label; anything unrecognized falls back to
/// low, the default tier.
pub open spec fn spec_importance_from_label(s: Seq<char>) -> Importance {
    if s == "high"@ {
        Importance::High
    } else if s == "medium"@ {
        Importance::Medium
    } else {
        Importance::Low
    }
}

pub fn importance_from_label(s: &str) -> (r: Importance)
    ensures
        r == spec_importance_from_label(s@),
{
    if str_eq(s, "high") {
        Importance::High
    } else if str_eq(s, "medium") {
        Importance::Medium
    } else {
        Importance::Low
    }
}

/// A reason text equal to one of the failure markers. A verdict carrying it
/// could not be told apart from a failed attempt once persisted (its record
/// would be transient), so the scheduler treats it as a failure.
pub open spec fn spec_reason_is_marker(reason: Seq<char>) -> bool {
    reason == crate::types::spec_unavailable_reason() || reason
        == crate::types::spec_unparseable_reason()
}

pub fn reason_is_marker(reason: &str) -> (r: bool)
    ensures
        r == spec_reason_is_marker(reason@),
{
    let unavailable = unavailable_reason();
    let unparseable = unparseable_reason();
    str_eq(reason, unavailable.as_str()) || str_eq(reason, unparseable.as_str())
}

/// The classifier's tagged outcome: a well-formed verdict, or one of the two
/// failure fallbacks.
#[derive(Debug, Clone)]
pub enum Verdict {
    /// The service replied and the reply parsed; missing fields defaulted.
    Classified { importance: Importance, reason: String, should_notify: bool },
    /// The service could not be reached or returned no text.
    Unavailable,
    /// The service replied but the reply was not valid JSON.
    Unparseable,
}

/// What the verdict must be for a given transport outcome: `None` stands for
/// a failed call, `Some(text)` for the raw reply.
pub open spec fn spec_verdict_matches(response: Option<Seq<char>>, v: Verdict) -> bool {
    match response {
        None => v is Unavailable,
        Some(text) => match verdict_fields_of(spec_clean_response_of(text)) {
            None => v is Unparseable,
            Some(f) => v matches Verdict::Classified { importance, reason, should_notify }
                && importance == (match f.importance {
                Some(s) => spec_importance_from_label(s@),
                None => Importance::Low,
            }) && reason@ == (match f.reason {
                Some(s) => s@,
                None => Seq::<char>::empty(),
            }) && should_notify == (match f.should_notify {
                Some(b) => b,
                None => false,
            }),
        },
    }
}

/// Reads the completion reply as a verdict. The text is trimmed, any fenced
/// wrapper removed, and the JSON object's fields read with their defaults
/// (low, empty reason, no notification); a failed call and an unreadable
/// reply each give their own fallback.
pub fn triage_verdict(response: &Option<String>) -> (v: Verdict)
    ensures
        spec_verdict_matches(
            match response {
                Some(t) => Some(t@),
                None => None,
            },
            v,
        ),
{
    match response {
        None => Verdict::Unavailable,
        Some(text) => {
            let clean = clean_response(text.as_str());
            match extract_verdict_fields(clean.as_str()) {
                None => Verdict::Unparseable,
                Some(fields) => {
                    let importance = match &fields.importance {
                        Some(s) => importance_from_label(s.as_str()),
                        None => Importance::Low,
                    };
                    let reason = match fields.reason {
                        Some(s) => s,
                        None => String::new(),
                    };
                    let should_notify = match fields.should_notify {
                        Some(b) => b,
                        None => false,
                    };
                    Verdict::Classified { importance, reason, should_notify }
                },
            }
        },
    }
}

/// The verdict as observers see it: failures surface as low importance with
/// the distinguishing failure marker as the reason.
pub fn verdict_to_result(email_id: &str, v: &Verdict) -> (r: TriageResult)
    ensures
        r.email_id@ == email_id@,
        match v {
            Verdict::Classified { importance, reason, should_notify } => {
                &&& r.importance@ == importance.spec_label()
                &&& r.reason@ == reason@
                &&& r.should_notify == should_notify
            },
            Verdict::Unavailable => {
                &&& r.importance@ == Importance::Low.spec_label()
                &&& r.reason@ == crate::types::spec_unavailable_reason()
                &&& r.should_notify == false
            },
            Verdict::Unparseable => {
                &&& r.importance@ == Importance::Low.spec_label()
                &&& r.reason@ == crate::types::spec_unparseable_reason()
                &&& r.should_notify == false
            },
        },
{
    match v {
        Verdict::Classified { importance, reason, should_notify } => TriageResult {
            email_id: String::from_str(email_id),
            importance: importance.label(),
            reason: reason.clone(),
            should_notify: *should_notify,
        },
        Verdict::Unavailable => TriageResult {
            email_id: String::from_str(email_id),
            importance: Importance::Low.label(),
            reason: unavailable_reason(),
            should_notify: false,
        },
        Verdict::Unparseable => TriageResult {
            email_id: String::from_str(email_id),
            importance: Importance::Low.label(),
            reason: unparseable_reason(),
            should_notify: false,
        },
    }
}

/// Items rendered as "- item" lines joined by newlines.
pub open spec fn spec_bullet_lines(items: Seq<Seq<char>>) -> Seq<char>
    decreases items.len(),
{
    if items.len() == 0 {
        Seq::<char>::empty()
    } else if items.len() == 1 {
        "- "@ + items[0]
    } else {
        "- "@ + items[0] + "\n"@ + spec_bullet_lines(items.drop_first())
    }
}

/// Joins `items[i..]` as bulleted lines.
pub fn joined_bullets(items: &Vec<String>, i: usize) -> (r: String)
    requires
        i <= items@.len(),
    ensures
        r@ == spec_bullet_lines(items@.map_values(|s: String| s@).skip(i as int)),
    decreases items@.len() - i,
{
    let ghost m = items@.map_values(|s: String| s@);
    if i >= items.len() {
        proof {
            assert(m.skip(i as int).len() == 0);
        }
        String::new()
    } else {
        let mut line = String::from_str("- ");
        line.append(items[i].as_str());
        proof {
            assert(m.skip(i as int)[0] == m[i as int]);
        }
        if i + 1 < items.len() {
            line.append("\n");
            let rest = joined_bullets(items, i + 1);
            line.append(rest.as_str());
            proof {
                assert(m.skip(i as int).drop_first() =~= m.skip(i + 1));
                assert(line@ =~= "- "@ + m.skip(i as int)[0] + "\n"@ + spec_bullet_lines(
                    m.skip(i as int).drop_first(),
                ));
            }
        } else {
            proof {
                assert(m.skip(i as int).len() == 1);
            }
        }
        line
    }
}

/// The VIP addresses offered to the prompt: the first twenty, bulleted.
pub open spec fn spec_vip_context(vips: Seq<crate::types::VipSender>) -> Seq<char> {
    spec_bullet_lines(
        vips.take(if vips.len() <= 20 { vips.len() as int } else { 20 }).map_values(
            |v: crate::types::VipSender| v.sender_email@,
        ),
    )
}

/// The prompt fragment injected for learned VIP senders: empty when none are
/// known, otherwise a headed bulleted list.
pub open spec fn spec_vip_note(vips: Seq<crate::types::VipSender>) -> Seq<char> {
    if vips.len() == 0 {
        Seq::<char>::empty()
    } else {
        "\n\nRemitentes VIP aprendidos (siempre marcar como high):\n"@ + spec_vip_context(vips)
    }
}

impl crate::store::TriageStore {
    /// Up to twenty learned VIP addresses as a bulleted list for the prompt.
    pub fn get_vip_context(&self) -> (r: String)
        ensures
            r@ == spec_vip_context(self.vips@),
    {
        let limit: usize = if self.vips.len() <= 20 {
            self.vips.len()
        } else {
            20
        };
        let mut items: Vec<String> = Vec::new();
        let mut i: usize = 0;
        while i < limit
            invariant
                i <= limit,
                limit <= self.vips@.len(),
                limit == (if self.vips@.len() <= 20 {
                    self.vips@.len() as int
                } else {
                    20
                }),
                items@.len() == i,
                forall|j: int| 0 <= j < i ==> (#[trigger] items@[j])@ == self.vips@[j].sender_email@,
            decreases limit - i,
        {
            items.push(self.vips[i].sender_email.clone());
            i = i + 1;
        }
        let r = joined_bullets(&items, 0);
        proof {
            let taken = self.vips@.take(limit as int).map_values(
                |v: crate::types::VipSender| v.sender_email@,
            );
            assert(items@.map_values(|s: String| s@).skip(0) =~= taken);
        }
        r
    }

    /// The VIP note fragment of the triage prompt.
    pub fn get_vip_note(&self) -> (r: String)
        ensures
            r@ == spec_vip_note(self.vips@),
    {
        if self.vips.len() == 0 {
            String::new()
        } else {
            let mut r = String::from_str(
                "\n\nRemitentes VIP aprendidos (siempre marcar como high):\n",
            );
            let ctx = self.get_vip_context();
            r.append(ctx.as_str());
            r
        }
    }
}

/// The single-shot classification prompt around an email, a VIP note and a
/// skills context: fixed ordered rules, JSON-only output, content clipped to
/// five hundred characters.
pub open spec fn spec_triage_prompt(
    sender: Seq<char>,
    sender_email: Seq<char>,
    subject: Seq<char>,
    snippet: Seq<char>,
    vip_note: Seq<char>,
    skills_ctx: Seq<char>,
) -> Seq<char> {
    "Clasifica este correo electrónico según su importancia. Responde SOLO con JSON válido, sin explicación extra.\n\nCorreo:\nDe: "@
        + sender + " <"@ + sender_email + ">\nAsunto: "@ + subject + "\nContenido: "@
        + crate::text::spec_clip(snippet, 500) + vip_note + skills_ctx
        + "\n\nResponde con este formato exacto:\n{\"importance\": \"high|medium|low\", \"reason\": \"una frase corta\", \"should_notify\": true|false}\n\nReglas ESTRICTAS (aplica en orden):\n1. Si el contenido contiene palabras como \"urgente\", \"asap\", \"inmediato\", \"cuanto antes\", \"necesito ya\", \"prioridad\", pide algo con urgencia → SIEMPRE high + notify=true\n2. Si es de un remitente VIP → high + notify=true\n3. Si es una respuesta en un hilo de conversación (Re:, asunto con Re:) y el contenido pide algo → high + notify=true\n4. Correos de jefes/clientes, facturas, contratos, accesos, credenciales → high + notify=true\n5. Newsletters útiles, respuestas informativas, reuniones → medium + notify=false\n6. Newsletters promocionales, spam, notificaciones automáticas del sistema, bounces, errores de entrega → low + notify=false\n\nIMPORTANTE: Lee el CONTENIDO completo del correo, no solo el asunto. Si una persona te pide algo urgente, es HIGH."@
}

/// Builds the classification prompt.
pub fn build_triage_prompt(
    sender: &str,
    sender_email: &str,
    subject: &str,
    snippet: &str,
    vip_note: &str,
    skills_ctx: &str,
) -> (r: String)
    ensures
        r@ == spec_triage_prompt(sender@, sender_email@, subject@, snippet@, vip_note@, skills_ctx@),
{
    let mut r = String::from_str(
        "Clasifica este correo electrónico según su importancia. Responde SOLO con JSON válido, sin explicación extra.\n\nCorreo:\nDe: ",
    );
    r.append(sender);
    r.append(" <");
    r.append(sender_email);
    r.append(">\nAsunto: ");
    r.append(subject);
    r.append("\nContenido: ");
    let clipped = crate::text::clip_chars(snippet, 500);
    r.append(clipped.as_str());
    r.append(vip_note);
    r.append(skills_ctx);
    r.append(
        "\n\nResponde con este formato exacto:\n{\"importance\": \"high|medium|low\", \"reason\": \"una frase corta\", \"should_notify\": true|false}\n\nReglas ESTRICTAS (aplica en orden):\n1. Si el contenido contiene palabras como \"urgente\", \"asap\", \"inmediato\", \"cuanto antes\", \"necesito ya\", \"prioridad\", pide algo con urgencia → SIEMPRE high + notify=true\n2. Si es de un remitente VIP → high + notify=true\n3. Si es una respuesta en un hilo de conversación (Re:, asunto con Re:) y el contenido pide algo → high + notify=true\n4. Correos de jefes/clientes, facturas, contratos, accesos, credenciales → high + notify=true\n5. Newsletters útiles, respuestas informativas, reuniones → medium + notify=false\n6. Newsletters promocionales, spam, notificaciones automáticas del sistema, bounces, errores de entrega → low + notify=false\n\nIMPORTANTE: Lee el CONTENIDO completo del correo, no solo el asunto. Si una persona te pide algo urgente, es HIGH.",
    );
    proof {
        assert(r@ =~= spec_triage_prompt(
            sender@,
            sender_email@,
            subject@,
            snippet@,
            vip_note@,
            skills_ctx@,
        ));
    }
    r
}

/// The classifier's fixed system instruction.
pub fn triage_system_prompt() -> (r: String)
    ensures
        r@
            == "Eres un clasificador de correos experto. Lee el CONTENIDO del correo cuidadosamente. Responde SOLO con JSON."@,
{
    String::from_str(
        "Eres un clasificador de correos experto. Lee el CONTENIDO del correo cuidadosamente. Responde SOLO con JSON.",
    )
}

} // verus!
