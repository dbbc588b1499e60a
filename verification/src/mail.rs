//! Pure helpers of the mail edge: snippet generation, RFC 822 draft
//! composition, mailbox formatting, folder-name candidates, and uid sets.
//! The network sessions around them belong to the transport.

use vstd::prelude::*;
use vstd::string::StringExecFns;

use crate::html::{spec_strip_html_tags, strip_html_tags};
use crate::text::{clip_chars, spec_clip, spec_decimal, u64_to_string};

verus! {

/// The snippet source: the plain-text body when present, else the stripped
/// HTML body; clipped to one hundred and fifty characters.
pub open spec fn spec_make_snippet(plain: Seq<char>, html: Seq<char>) -> Seq<char> {
    spec_clip(
        if plain.len() > 0 {
            plain
        } else {
            spec_strip_html_tags(html)
        },
        150,
    )
}

/// Builds a message's snippet from its extracted bodies.
pub fn make_snippet(body_plain: &str, body_html: &str) -> (r: String)
    ensures
        r@ == spec_make_snippet(body_plain@, body_html@),
{
    if body_plain.unicode_len() > 0 {
        clip_chars(body_plain, 150)
    } else {
        let stripped = strip_html_tags(body_html);
        clip_chars(stripped.as_str(), 150)
    }
}

/// A display mailbox: `name <address>`.
pub fn format_mailbox(name: &str, email: &str) -> (r: String)
    ensures
        r@ == name@ + " <"@ + email@ + ">"@,
{
    let mut r = String::from_str(name);
    r.append(" <");
    r.append(email);
    r.append(">");
    proof {
        assert(r@ =~= name@ + " <"@ + email@ + ">"@);
    }
    r
}

/// A plain-text RFC 822 draft message.
pub fn compose_rfc822(
    from_name: &str,
    from_email: &str,
    to: &str,
    subject: &str,
    date: &str,
    body: &str,
) -> (r: String)
    ensures
        r@ == "From: "@ + from_name@ + " <"@ + from_email@ + ">\r\nTo: "@ + to@ + "\r\nSubject: "@
            + subject@ + "\r\nDate: "@ + date@
            + "\r\nMIME-Version: 1.0\r\nContent-Type: text/plain; charset=UTF-8\r\n\r\n"@ + body@,
{
    let mut r = String::from_str("From: ");
    r.append(from_name);
    r.append(" <");
    r.append(from_email);
    r.append(">\r\nTo: ");
    r.append(to);
    r.append("\r\nSubject: ");
    r.append(subject);
    r.append("\r\nDate: ");
    r.append(date);
    r.append("\r\nMIME-Version: 1.0\r\nContent-Type: text/plain; charset=UTF-8\r\n\r\n");
    r.append(body);
    proof {
        assert(r@ =~= "From: "@ + from_name@ + " <"@ + from_email@ + ">\r\nTo: "@ + to@
            + "\r\nSubject: "@ + subject@ + "\r\nDate: "@ + date@
            + "\r\nMIME-Version: 1.0\r\nContent-Type: text/plain; charset=UTF-8\r\n\r\n"@ + body@);
    }
    r
}

/// The server folder names tried for a UI folder when synchronizing.
pub open spec fn spec_sync_folder_candidates(f: Seq<char>) -> Seq<Seq<char>> {
    if f == "INBOX"@ {
        seq!["INBOX"@]
    } else if f == "Drafts"@ {
        seq!["Drafts"@, "INBOX.Drafts"@, "Draft"@, "INBOX.Draft"@, "[Gmail]/Drafts"@]
    } else if f == "Sent"@ {
        seq!["Sent"@, "INBOX.Sent"@, "Sent Messages"@, "[Gmail]/Sent Mail"@]
    } else if f == "Archive"@ {
        seq!["Archive"@, "INBOX.Archive"@, "[Gmail]/All Mail"@]
    } else if f == "Trash"@ {
        seq!["Trash"@, "INBOX.Trash"@, "[Gmail]/Trash"@]
    } else {
        seq![f]
    }
}

/// The server folder names tried for a UI folder when deleting.
pub open spec fn spec_delete_folder_candidates(f: Seq<char>) -> Seq<Seq<char>> {
    if f == "INBOX"@ {
        seq!["INBOX"@]
    } else if f == "Drafts"@ {
        seq!["Drafts"@, "INBOX.Drafts"@, "Draft"@, "INBOX.Draft"@]
    } else if f == "Sent"@ {
        seq!["Sent"@, "INBOX.Sent"@, "Sent Messages"@]
    } else if f == "Trash"@ {
        seq!["Trash"@, "INBOX.Trash"@]
    } else {
        seq![f]
    }
}

fn push_lit(v: &mut Vec<String>, s: &str)
    ensures
        final(v)@.len() == old(v)@.len() + 1,
        final(v)@.drop_last() == old(v)@,
        final(v)@.last()@ == s@,
{
    v.push(String::from_str(s));
}

/// Folder candidates for synchronizing.
pub fn sync_folder_candidates(folder: &str) -> (r: Vec<String>)
    ensures
        r@.map_values(|s: String| s@) == spec_sync_folder_candidates(folder@),
{
    let mut r: Vec<String> = Vec::new();
    if crate::text::str_eq(folder, "INBOX") {
        push_lit(&mut r, "INBOX");
    } else if crate::text::str_eq(folder, "Drafts") {
        push_lit(&mut r, "Drafts");
        push_lit(&mut r, "INBOX.Drafts");
        push_lit(&mut r, "Draft");
        push_lit(&mut r, "INBOX.Draft");
        push_lit(&mut r, "[Gmail]/Drafts");
    } else if crate::text::str_eq(folder, "Sent") {
        push_lit(&mut r, "Sent");
        push_lit(&mut r, "INBOX.Sent");
        push_lit(&mut r, "Sent Messages");
        push_lit(&mut r, "[Gmail]/Sent Mail");
    } else if crate::text::str_eq(folder, "Archive") {
        push_lit(&mut r, "Archive");
        push_lit(&mut r, "INBOX.Archive");
        push_lit(&mut r, "[Gmail]/All Mail");
    } else if crate::text::str_eq(folder, "Trash") {
        push_lit(&mut r, "Trash");
        push_lit(&mut r, "INBOX.Trash");
        push_lit(&mut r, "[Gmail]/Trash");
    } else {
        r.push(String::from_str(folder));
    }
    proof {
        assert(r@.map_values(|s: String| s@) =~= spec_sync_folder_candidates(folder@));
    }
    r
}

/// Folder candidates for deleting.
pub fn delete_folder_candidates(folder: &str) -> (r: Vec<String>)
    ensures
        r@.map_values(|s: String| s@) == spec_delete_folder_candidates(folder@),
{
    let mut r: Vec<String> = Vec::new();
    if crate::text::str_eq(folder, "INBOX") {
        push_lit(&mut r, "INBOX");
    } else if crate::text::str_eq(folder, "Drafts") {
        push_lit(&mut r, "Drafts");
        push_lit(&mut r, "INBOX.Drafts");
        push_lit(&mut r, "Draft");
        push_lit(&mut r, "INBOX.Draft");
    } else if crate::text::str_eq(folder, "Sent") {
        push_lit(&mut r, "Sent");
        push_lit(&mut r, "INBOX.Sent");
        push_lit(&mut r, "Sent Messages");
    } else if crate::text::str_eq(folder, "Trash") {
        push_lit(&mut r, "Trash");
        push_lit(&mut r, "INBOX.Trash");
    } else {
        r.push(String::from_str(folder));
    }
    proof {
        assert(r@.map_values(|s: String| s@) =~= spec_delete_folder_candidates(folder@));
    }
    r
}

/// An address assembled from its mailbox and host parts.
pub fn format_address(mailbox: &str, host: &str) -> (r: String)
    ensures
        r@ == mailbox@ + "@"@ + host@,
{
    let mut r = String::from_str(mailbox);
    r.append("@");
    r.append(host);
    proof {
        assert(r@ =~= mailbox@ + "@"@ + host@);
    }
    r
}

/// The display name of a sender: the envelope name when present, else the
/// address itself.
pub fn sender_display(name: Option<String>, address: &str) -> (r: String)
    ensures
        r@ == (match name {
            Some(n) => n@,
            None => address@,
        }),
{
    match name {
        Some(n) => n,
        None => String::from_str(address),
    }
}

/// The local record id of a synchronized message: account id and uid.
pub fn email_record_id(account_id: &str, uid: u64) -> (r: String)
    ensures
        r@ == account_id@ + "_"@ + spec_decimal(uid as nat),
{
    let mut r = String::from_str(account_id);
    r.append("_");
    let d = u64_to_string(uid);
    r.append(d.as_str());
    proof {
        assert(r@ =~= account_id@ + "_"@ + spec_decimal(uid as nat));
    }
    r
}

/// A comma-separated uid set for one IMAP store command.
pub open spec fn spec_uid_set(uids: Seq<u64>) -> Seq<char>
    decreases uids.len(),
{
    if uids.len() == 0 {
        Seq::empty()
    } else if uids.len() == 1 {
        spec_decimal(uids[0] as nat)
    } else {
        spec_decimal(uids[0] as nat) + ","@ + spec_uid_set(uids.drop_first())
    }
}

/// Formats the uid set, comma separated.
pub fn uid_set(uids: &Vec<u64>) -> (r: String)
    ensures
        r@ == spec_uid_set(uids@),
{
    let r = uid_set_from(uids, 0);
    proof {
        assert(uids@.skip(0) =~= uids@);
    }
    r
}

fn uid_set_from(uids: &Vec<u64>, i: usize) -> (r: String)
    requires
        i <= uids@.len(),
    ensures
        r@ == spec_uid_set(uids@.skip(i as int)),
    decreases uids@.len() - i,
{
    if i >= uids.len() {
        proof {
            assert(uids@.skip(i as int).len() == 0);
        }
        String::new()
    } else {
        let mut r = u64_to_string(uids[i]);
        proof {
            assert(uids@.skip(i as int)[0] == uids@[i as int]);
        }
        if i + 1 < uids.len() {
            r.append(",");
            let rest = uid_set_from(uids, i + 1);
            r.append(rest.as_str());
            proof {
                assert(uids@.skip(i as int).drop_first() =~= uids@.skip(i + 1));
                assert(r@ =~= spec_decimal(uids@[i as int] as nat) + ","@ + spec_uid_set(
                    uids@.skip(i + 1),
                ));
            }
        } else {
            proof {
                assert(uids@.skip(i as int).len() == 1);
            }
        }
        r
    }
}

} // verus!
