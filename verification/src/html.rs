//! Plain-text extraction from HTML for snippet generation: a character-level
//! scanner that drops tags and the contents of style and script elements,
//! decodes the common character entities, and collapses whitespace runs.

use vstd::prelude::*;

use crate::text::{chars_of, is_ws, spec_is_ws, string_of};

verus! {

/// ASCII lowercasing of one character (tag names are ASCII).
pub open spec fn spec_ascii_lower(c: char) -> char {
    if 'A' <= c && c <= 'Z' {
        ((c as u8) + 32) as char
    } else {
        c
    }
}

pub fn ascii_lower(c: char) -> (r: char)
    ensures
        r == spec_ascii_lower(c),
{
    if 'A' <= c && c <= 'Z' {
        ((c as u8) + 32) as char
    } else {
        c
    }
}

/// Whether `p` is a prefix of `s`.
pub open spec fn spec_starts_with(s: Seq<char>, p: Seq<char>) -> bool {
    s.len() >= p.len() && s.take(p.len() as int) == p
}

/// The scanner's tag flags after seeing a `<` at position `i` of the
/// lowercased text.
pub open spec fn spec_style_flag(low: Seq<char>, i: int, in_style: bool) -> bool {
    let rem = low.skip(i);
    if spec_starts_with(rem, "<style"@) {
        true
    } else if spec_starts_with(rem, "<script"@) {
        in_style
    } else if spec_starts_with(rem, "</style"@) {
        false
    } else {
        in_style
    }
}

pub open spec fn spec_script_flag(low: Seq<char>, i: int, in_style: bool, in_script: bool) -> bool {
    let rem = low.skip(i);
    if spec_starts_with(rem, "<style"@) {
        in_script
    } else if spec_starts_with(rem, "<script"@) {
        true
    } else if spec_starts_with(rem, "</style"@) {
        in_script
    } else if spec_starts_with(rem, "</script"@) {
        false
    } else {
        in_script
    }
}

/// The scanner over `s` (with `low` its lowercased copy) from position `i`:
/// text outside tags, style elements and script elements is kept.
pub open spec fn spec_strip_rec(
    s: Seq<char>,
    low: Seq<char>,
    i: int,
    in_tag: bool,
    in_style: bool,
    in_script: bool,
) -> Seq<char>
    decreases s.len() - i,
{
    if i < 0 || i >= s.len() {
        Seq::empty()
    } else {
        let c = s[i];
        if !in_tag && c == '<' {
            spec_strip_rec(
                s,
                low,
                i + 1,
                true,
                spec_style_flag(low, i, in_style),
                spec_script_flag(low, i, in_style, in_script),
            )
        } else if in_tag && c == '>' {
            spec_strip_rec(s, low, i + 1, false, in_style, in_script)
        } else if !in_tag && !in_style && !in_script {
            seq![c] + spec_strip_rec(s, low, i + 1, in_tag, in_style, in_script)
        } else {
            spec_strip_rec(s, low, i + 1, in_tag, in_style, in_script)
        }
    }
}

/// `s` with every non-overlapping occurrence of `pat` replaced by `sub`,
/// left to right.
pub open spec fn spec_replace_all(s: Seq<char>, pat: Seq<char>, sub: Seq<char>) -> Seq<char>
    decreases s.len(),
{
    if pat.len() == 0 {
        s
    } else if s.len() < pat.len() {
        s
    } else if s.take(pat.len() as int) == pat {
        sub + spec_replace_all(s.skip(pat.len() as int), pat, sub)
    } else {
        seq![s[0]] + spec_replace_all(s.drop_first(), pat, sub)
    }
}

/// Whitespace collapsing from position `i`: words are joined by single
/// spaces, leading and trailing whitespace dropped. `started` records that a
/// word was emitted; `pending` that whitespace was seen since.
pub open spec fn spec_collapse_rec(s: Seq<char>, i: int, started: bool, pending: bool) -> Seq<char>
    decreases s.len() - i,
{
    if i < 0 || i >= s.len() {
        Seq::empty()
    } else {
        let c = s[i];
        if spec_is_ws(c) {
            spec_collapse_rec(s, i + 1, started, started)
        } else if pending {
            seq![' ', c] + spec_collapse_rec(s, i + 1, true, false)
        } else {
            seq![c] + spec_collapse_rec(s, i + 1, true, false)
        }
    }
}

/// The whole extraction: scan out tags and style/script contents, decode the
/// six common entities in order, then collapse whitespace.
pub open spec fn spec_strip_html_tags(s: Seq<char>) -> Seq<char> {
    let stripped = spec_strip_rec(s, s.map_values(|c: char| spec_ascii_lower(c)), 0, false, false, false);
    let decoded = spec_replace_all(
        spec_replace_all(
            spec_replace_all(
                spec_replace_all(
                    spec_replace_all(spec_replace_all(stripped, "&amp;"@, "&"@), "&lt;"@, "<"@),
                    "&gt;"@,
                    ">"@,
                ),
                "&quot;"@,
                "\""@,
            ),
            "&#39;"@,
            "'"@,
        ),
        "&nbsp;"@,
        " "@,
    );
    spec_collapse_rec(decoded, 0, false, false)
}

/// Whether `p` occurs in `v` at `off` (false when it would overrun).
fn has_at(v: &Vec<char>, off: usize, p: &Vec<char>) -> (r: bool)
    requires
        off <= v@.len(),
    ensures
        r == spec_starts_with(v@.skip(off as int), p@),
{
    let n = v.len();
    let m = p.len();
    if m > n - off {
        proof {
            assert(v@.skip(off as int).len() < p@.len());
        }
        return false;
    }
    let mut k: usize = 0;
    while k < m
        invariant_except_break
            k <= m,
            m == p@.len(),
            n == v@.len(),
            off + m <= n,
            forall|j: int| 0 <= j < k ==> v@[off + j] == p@[j],
        ensures
            m == p@.len(),
            n == v@.len(),
            off + m <= n,
            k <= m,
            k < m ==> v@[off + k] != p@[k as int],
            k >= m ==> forall|j: int| 0 <= j < m ==> v@[off + j] == p@[j],
        decreases m - k,
    {
        if v[off + k] != p[k] {
            break ;
        }
        k = k + 1;
    }
    proof {
        let rem = v@.skip(off as int);
        if k < m {
            assert(rem.take(m as int)[k as int] == v@[off + k]);
        } else {
            assert(rem.take(m as int) =~= p@);
        }
    }
    k >= m
}

/// Replaces every occurrence of `pat` by `sub`, left to right.
pub fn replace_all_chars(v: &Vec<char>, pat: &Vec<char>, sub: &Vec<char>) -> (r: Vec<char>)
    ensures
        r@ == spec_replace_all(v@, pat@, sub@),
{
    let n = v.len();
    let m = pat.len();
    if m == 0 {
        let mut r: Vec<char> = Vec::new();
        let mut i: usize = 0;
        while i < n
            invariant
                i <= n,
                n == v@.len(),
                r@ == v@.take(i as int),
            decreases n - i,
        {
            r.push(v[i]);
            assert(r@ =~= v@.take(i + 1));
            i = i + 1;
        }
        proof {
            assert(v@.take(n as int) =~= v@);
        }
        return r;
    }
    let mut out: Vec<char> = Vec::new();
    let mut i: usize = 0;
    proof {
        assert(v@.skip(0) =~= v@);
    }
    while i < n
        invariant
            i <= n,
            n == v@.len(),
            m == pat@.len(),
            m > 0,
            spec_replace_all(v@, pat@, sub@) == out@ + spec_replace_all(
                v@.skip(i as int),
                pat@,
                sub@,
            ),
        decreases n - i,
    {
        let ghost rem = v@.skip(i as int);
        if has_at(v, i, pat) {
            let mut k2: usize = 0;
            let ghost before = out@;
            while k2 < sub.len()
                invariant
                    k2 <= sub@.len(),
                    out@ == before + sub@.take(k2 as int),
                decreases sub@.len() - k2,
            {
                out.push(sub[k2]);
                assert(out@ =~= before + sub@.take(k2 + 1));
                k2 = k2 + 1;
            }
            proof {
                assert(out@ =~= before + sub@);
                assert(rem.take(m as int) =~= pat@);
                assert(rem.skip(m as int) =~= v@.skip(i + m));
            }
            i = i + m;
        } else {
            out.push(v[i]);
            proof {
                assert(rem[0] == v@[i as int]);
                assert(rem.drop_first() =~= v@.skip(i + 1));
                assert(out@ =~= out@.drop_last() + seq![v@[i as int]]);
            }
            i = i + 1;
        }
    }
    proof {
        assert(v@.skip(n as int).len() == 0);
        assert(out@ + Seq::<char>::empty() =~= out@);
    }
    out
}

/// Collapses whitespace runs into single spaces and trims the ends.
fn collapse_ws_chars(v: &Vec<char>) -> (r: Vec<char>)
    ensures
        r@ == spec_collapse_rec(v@, 0, false, false),
{
    let n = v.len();
    let mut out: Vec<char> = Vec::new();
    let mut started = false;
    let mut pending = false;
    let mut i: usize = 0;
    while i < n
        invariant
            i <= n,
            n == v@.len(),
            pending ==> started,
            spec_collapse_rec(v@, 0, false, false) == out@ + spec_collapse_rec(
                v@,
                i as int,
                started,
                pending,
            ),
        decreases n - i,
    {
        let c = v[i];
        if is_ws(c) {
            pending = started;
        } else if pending {
            out.push(' ');
            out.push(c);
            proof {
                assert(out@ =~= out@.subrange(0, out@.len() - 2) + seq![' ', v@[i as int]]);
            }
            started = true;
            pending = false;
        } else {
            out.push(c);
            proof {
                assert(out@ =~= out@.drop_last() + seq![v@[i as int]]);
            }
            started = true;
        }
        i = i + 1;
    }
    proof {
        assert(out@ + Seq::<char>::empty() =~= out@);
    }
    out
}

/// Strips HTML for snippet generation: drops tags and the contents of style
/// and script elements (matched case-insensitively), decodes the six common
/// character entities, and collapses whitespace runs to single spaces.
pub fn strip_html_tags(html: &str) -> (r: String)
    ensures
        r@ == spec_strip_html_tags(html@),
{
    let v = chars_of(html);
    let n = v.len();
    let mut low: Vec<char> = Vec::new();
    let mut i: usize = 0;
    while i < n
        invariant
            i <= n,
            n == v@.len(),
            low@ == v@.take(i as int).map_values(|c: char| spec_ascii_lower(c)),
        decreases n - i,
    {
        low.push(ascii_lower(v[i]));
        proof {
            assert(low@ =~= v@.take(i + 1).map_values(|c: char| spec_ascii_lower(c)));
        }
        i = i + 1;
    }
    proof {
        assert(v@.take(n as int) =~= v@);
    }

    let pat_style = chars_of("<style");
    let pat_script = chars_of("<script");
    let pat_close_style = chars_of("</style");
    let pat_close_script = chars_of("</script");

    let mut out: Vec<char> = Vec::new();
    let mut in_tag = false;
    let mut in_style = false;
    let mut in_script = false;
    let mut j: usize = 0;
    while j < n
        invariant
            j <= n,
            n == v@.len(),
            v@ == html@,
            low@ == v@.map_values(|c: char| spec_ascii_lower(c)),
            pat_style@ == "<style"@,
            pat_script@ == "<script"@,
            pat_close_style@ == "</style"@,
            pat_close_script@ == "</script"@,
            spec_strip_rec(v@, low@, 0, false, false, false) == out@ + spec_strip_rec(
                v@,
                low@,
                j as int,
                in_tag,
                in_style,
                in_script,
            ),
        decreases n - j,
    {
        let c = v[j];
        if !in_tag && c == '<' {
            let st = if has_at(&low, j, &pat_style) {
                true
            } else if has_at(&low, j, &pat_script) {
                in_style
            } else if has_at(&low, j, &pat_close_style) {
                false
            } else {
                in_style
            };
            let sc = if has_at(&low, j, &pat_style) {
                in_script
            } else if has_at(&low, j, &pat_script) {
                true
            } else if has_at(&low, j, &pat_close_style) {
                in_script
            } else if has_at(&low, j, &pat_close_script) {
                false
            } else {
                in_script
            };
            in_tag = true;
            in_style = st;
            in_script = sc;
        } else if in_tag && c == '>' {
            in_tag = false;
        } else if !in_tag && !in_style && !in_script {
            out.push(c);
            proof {
                assert(out@ =~= out@.drop_last() + seq![v@[j as int]]);
            }
        }
        j = j + 1;
    }
    proof {
        assert(out@ + Seq::<char>::empty() =~= out@);
    }

    let amp_pat = chars_of("&amp;");
    let amp_sub = chars_of("&");
    let lt_pat = chars_of("&lt;");
    let lt_sub = chars_of("<");
    let gt_pat = chars_of("&gt;");
    let gt_sub = chars_of(">");
    let quot_pat = chars_of("&quot;");
    let quot_sub = chars_of("\"");
    let apos_pat = chars_of("&#39;");
    let apos_sub = chars_of("'");
    let nbsp_pat = chars_of("&nbsp;");
    let nbsp_sub = chars_of(" ");
    let out = replace_all_chars(&out, &amp_pat, &amp_sub);
    let out = replace_all_chars(&out, &lt_pat, &lt_sub);
    let out = replace_all_chars(&out, &gt_pat, &gt_sub);
    let out = replace_all_chars(&out, &quot_pat, &quot_sub);
    let out = replace_all_chars(&out, &apos_pat, &apos_sub);
    let out = replace_all_chars(&out, &nbsp_pat, &nbsp_sub);
    let out = collapse_ws_chars(&out);
    string_of(&out)
}

} // verus!
