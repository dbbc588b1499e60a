//! Date normalization: RFC 2822 message dates are rewritten to ISO 8601 so
//! that string ordering sorts messages chronologically. The parse itself is
//! chrono's; the retry-with-cleanup policy around it is this crate's.

use vstd::prelude::*;
use vstd::string::StringExecFns;

use crate::html::{replace_all_chars, spec_replace_all};
use crate::text::{chars_of, spec_trim, string_of, trim_chars};

verus! {

/// What chrono renders for an RFC 2822 date parsed and reformatted as
/// `%Y-%m-%dT%H:%M:%S%z`, or nothing when the text does not parse. The
/// result depends on the text alone.
pub uninterp spec fn iso_of_rfc2822(s: Seq<char>) -> Option<Seq<char>>;

/// Relies on `chrono::DateTime::parse_from_rfc2822` and
/// `chrono::DateTime::format`: parses an RFC 2822 date and renders it in ISO
/// 8601 form, a function of the text alone.
#[verifier::external_body]
fn rfc2822_to_iso(s: &str) -> (r: Option<String>)
    ensures
        match iso_of_rfc2822(s@) {
            Some(v) => r matches Some(x) && x@ == v,
            None => r is None,
        },
{
    match chrono::DateTime::parse_from_rfc2822(s) {
        Ok(dt) => Some(format!("{}", dt.format("%Y-%m-%dT%H:%M:%S%z"))),
        Err(_) => None,
    }
}

/// The cleanup applied before the second parse attempt: trim, and collapse
/// double spaces.
pub open spec fn spec_cleaned_date(s: Seq<char>) -> Seq<char> {
    spec_replace_all(spec_trim(s), "  "@, " "@)
}

/// Normalizes an RFC 2822 date to ISO 8601: parse as-is, retry once on a
/// cleaned copy, and fall back to the original text.
pub fn parse_rfc2822_to_iso(date_str: &str) -> (r: String)
    ensures
        match iso_of_rfc2822(date_str@) {
            Some(v) => r@ == v,
            None => match iso_of_rfc2822(spec_cleaned_date(date_str@)) {
                Some(v) => r@ == v,
                None => r@ == date_str@,
            },
        },
{
    match rfc2822_to_iso(date_str) {
        Some(iso) => iso,
        None => {
            let v = chars_of(date_str);
            let trimmed = trim_chars(&v);
            let pat = chars_of("  ");
            let sub = chars_of(" ");
            let cleaned_chars = replace_all_chars(&trimmed, &pat, &sub);
            let cleaned = string_of(&cleaned_chars);
            match rfc2822_to_iso(cleaned.as_str()) {
                Some(iso) => iso,
                None => String::from_str(date_str),
            }
        },
    }
}

} // verus!
