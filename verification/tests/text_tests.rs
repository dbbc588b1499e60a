use zero_air::datetime::parse_rfc2822_to_iso;
use zero_air::html::strip_html_tags;
use zero_air::mail::{
    compose_rfc822, delete_folder_candidates, email_record_id, format_address, format_mailbox,
    make_snippet, sender_display, sync_folder_candidates, uid_set,
};
use zero_air::text::{clip_chars, str_eq, u64_to_string};

#[test]
fn tags_are_stripped_and_whitespace_collapsed() {
    assert_eq!(
        strip_html_tags("<p>Hello&nbsp;<b>world</b></p>"),
        "Hello world"
    );
    assert_eq!(
        strip_html_tags("<div>  one\n\n two  </div>"),
        "one two"
    );
}

#[test]
fn style_and_script_contents_are_dropped() {
    assert_eq!(
        strip_html_tags("<style>p { color: red }</style>text<script>alert(1)</script>end"),
        "textend"
    );
    // Case-insensitive element matching.
    assert_eq!(strip_html_tags("<STYLE>x</STYLE>ok"), "ok");
}

#[test]
fn entities_decode_in_replacement_order() {
    assert_eq!(strip_html_tags("a &amp; b &lt;c&gt; &quot;d&quot; &#39;e&#39;"), "a & b <c> \"d\" 'e'");
    // Sequential replacement double-decodes a nested ampersand entity.
    assert_eq!(strip_html_tags("&amp;lt;"), "<");
}

#[test]
fn decimal_formatting() {
    assert_eq!(u64_to_string(0), "0");
    assert_eq!(u64_to_string(7), "7");
    assert_eq!(u64_to_string(42), "42");
    assert_eq!(u64_to_string(10500), "10500");
    assert_eq!(u64_to_string(u64::MAX), "18446744073709551615");
}

#[test]
fn clipping_by_characters() {
    assert_eq!(clip_chars("hello", 10), "hello");
    assert_eq!(clip_chars("hello", 3), "hel");
    assert_eq!(clip_chars("ééé", 2), "éé");
}

#[test]
fn string_equality_by_characters() {
    assert!(str_eq("abc", "abc"));
    assert!(!str_eq("abc", "abd"));
    assert!(str_eq("", ""));
}

#[test]
fn rfc2822_dates_normalize_to_iso() {
    assert_eq!(
        parse_rfc2822_to_iso("Tue, 1 Jul 2003 10:52:37 +0200"),
        "2003-07-01T10:52:37+0200"
    );
    // Unparseable text falls back to the original.
    assert_eq!(parse_rfc2822_to_iso("yesterday-ish"), "yesterday-ish");
    assert_eq!(parse_rfc2822_to_iso(""), "");
}

#[test]
fn snippet_prefers_plain_text() {
    assert_eq!(make_snippet("plain body", "<b>html body</b>"), "plain body");
    assert_eq!(make_snippet("", "<b>html body</b>"), "html body");
    let long = "y".repeat(400);
    assert_eq!(make_snippet(&long, "").len(), 150);
}

#[test]
fn mailbox_and_rfc822_composition() {
    assert_eq!(format_mailbox("Alice", "a@x.com"), "Alice <a@x.com>");
    let msg = compose_rfc822("Alice", "a@x.com", "b@y.com", "Hi", "Tue, 1 Jul 2003 10:52:37 +0200", "Body text");
    assert_eq!(
        msg,
        "From: Alice <a@x.com>\r\nTo: b@y.com\r\nSubject: Hi\r\nDate: Tue, 1 Jul 2003 10:52:37 +0200\r\nMIME-Version: 1.0\r\nContent-Type: text/plain; charset=UTF-8\r\n\r\nBody text"
    );
}

#[test]
fn folder_candidates_match_the_server_variants() {
    assert_eq!(sync_folder_candidates("INBOX"), vec!["INBOX"]);
    assert_eq!(
        sync_folder_candidates("Drafts"),
        vec!["Drafts", "INBOX.Drafts", "Draft", "INBOX.Draft", "[Gmail]/Drafts"]
    );
    assert_eq!(
        sync_folder_candidates("Sent"),
        vec!["Sent", "INBOX.Sent", "Sent Messages", "[Gmail]/Sent Mail"]
    );
    assert_eq!(
        sync_folder_candidates("Archive"),
        vec!["Archive", "INBOX.Archive", "[Gmail]/All Mail"]
    );
    assert_eq!(sync_folder_candidates("Custom"), vec!["Custom"]);
    assert_eq!(delete_folder_candidates("Sent"), vec!["Sent", "INBOX.Sent", "Sent Messages"]);
    assert_eq!(delete_folder_candidates("Trash"), vec!["Trash", "INBOX.Trash"]);
}

#[test]
fn uid_sets_join_with_commas() {
    assert_eq!(uid_set(&vec![]), "");
    assert_eq!(uid_set(&vec![7]), "7");
    assert_eq!(uid_set(&vec![3, 1, 400]), "3,1,400");
}

#[test]
fn sender_address_assembly() {
    assert_eq!(format_address("alice", "example.com"), "alice@example.com");
    assert_eq!(sender_display(Some("Alice".to_string()), "alice@example.com"), "Alice");
    assert_eq!(sender_display(None, "alice@example.com"), "alice@example.com");
    assert_eq!(email_record_id("acct", 42), "acct_42");
}
