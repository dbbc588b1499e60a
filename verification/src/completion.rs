//! The completion-service interface: request defaulting and response-text
//! extraction. The transport itself (a single request/response call) is an
//! external collaborator.

use vstd::prelude::*;
use vstd::string::StringExecFns;

use crate::types::AiRequest;

verus! {

/// A fully defaulted completion call, ready for any transport.
#[derive(Clone, Debug)]
pub struct CompletionCall {
    pub endpoint: String,
    pub api_key: String,
    pub model: String,
    pub system_prompt: String,
    pub prompt: String,
}

/// Fills every absent request field with its fixed default.
pub fn apply_request_defaults(req: AiRequest) -> (r: CompletionCall)
    ensures
        r.model@ == (match req.model {
            Some(m) => m@,
            None => "default"@,
        }),
        r.endpoint@ == (match req.endpoint {
            Some(e) => e@,
            None => "http://127.0.0.1:8045/v1/chat/completions"@,
        }),
        r.api_key@ == (match req.api_key {
            Some(k) => k@,
            None => Seq::<char>::empty(),
        }),
        r.system_prompt@ == (match req.system_prompt {
            Some(s) => s@,
            None => "You are a helpful email assistant. Be concise and clear."@,
        }),
        r.prompt == req.prompt,
{
    CompletionCall {
        endpoint: match req.endpoint {
            Some(e) => e,
            None => String::from_str("http://127.0.0.1:8045/v1/chat/completions"),
        },
        api_key: match req.api_key {
            Some(k) => k,
            None => String::new(),
        },
        model: match req.model {
            Some(m) => m,
            None => String::from_str("default"),
        },
        system_prompt: match req.system_prompt {
            Some(s) => s,
            None => String::from_str("You are a helpful email assistant. Be concise and clear."),
        },
        prompt: req.prompt,
    }
}

/// The reply text: the first choice's content, or the fixed placeholder when
/// the service returned no choices.
pub fn extract_completion_text(choices: &Vec<String>) -> (r: String)
    ensures
        choices@.len() > 0 ==> r == choices@[0],
        choices@.len() == 0 ==> r@ == "No response from AI"@,
{
    if choices.len() > 0 {
        choices[0].clone()
    } else {
        String::from_str("No response from AI")
    }
}

} // verus!
