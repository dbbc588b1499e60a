//! Character-level text helpers: string equality, decimal formatting, and
//! clipping, shared by the prompt builders and the snippet generator.

use vstd::prelude::*;
use vstd::string::StringExecFns;
use vstd::string::StrSliceExecFns;

verus! {

/// Relies on std's `String::push`: appends the character to the end.
pub assume_specification[ String::push ](s: &mut String, c: char)
    ensures
        final(s)@ == old(s)@.push(c),
;

/// Equality of two string slices by their character sequences.
pub fn str_eq(a: &str, b: &str) -> (r: bool)
    ensures
        r == (a@ == b@),
{
    let sa = String::from_str(a);
    let sb = String::from_str(b);
    sa == sb
}

/// The characters of `s`, in order.
pub fn chars_of(s: &str) -> (r: Vec<char>)
    ensures
        r@ == s@,
{
    let n = s.unicode_len();
    let mut r: Vec<char> = Vec::new();
    let mut i: usize = 0;
    while i < n
        invariant
            i <= n,
            n == s@.len(),
            r@ == s@.take(i as int),
        decreases n - i,
    {
        r.push(s.get_char(i));
        assert(r@ =~= s@.take(i + 1));
        i = i + 1;
    }
    assert(r@ =~= s@);
    r
}

/// A `String` holding exactly the characters of `v`.
pub fn string_of(v: &Vec<char>) -> (r: String)
    ensures
        r@ == v@,
{
    let mut r = String::new();
    let mut i: usize = 0;
    while i < v.len()
        invariant
            i <= v.len(),
            r@ == v@.take(i as int),
        decreases v.len() - i,
    {
        r.push(v[i]);
        assert(r@ =~= v@.take(i + 1));
        i = i + 1;
    }
    assert(r@ =~= v@);
    r
}

/// The decimal digit character for `d` in 0..=9.
pub open spec fn spec_digit_char(d: int) -> char {
    ((d + 48) as u8) as char
}

/// Decimal representation of `n`, most significant digit first.
pub open spec fn spec_decimal(n: nat) -> Seq<char>
    decreases n,
{
    if n < 10 {
        seq![spec_digit_char(n as int)]
    } else {
        spec_decimal((n / 10) as nat).push(spec_digit_char((n % 10) as int))
    }
}

/// Formats `n` in decimal.
pub fn u64_to_string(n: u64) -> (r: String)
    ensures
        r@ == spec_decimal(n as nat),
    decreases n,
{
    if n < 10 {
        let mut s = String::new();
        s.push((48 + n as u8) as char);
        s
    } else {
        let mut s = u64_to_string(n / 10);
        s.push((48 + (n % 10) as u8) as char);
        s
    }
}

/// The first `limit` characters of `s` (all of them when it is shorter).
pub open spec fn spec_clip(s: Seq<char>, limit: int) -> Seq<char> {
    if s.len() <= limit {
        s
    } else {
        s.take(limit)
    }
}

/// Clips `s` to at most `limit` characters.
pub fn clip_chars(s: &str, limit: usize) -> (r: String)
    ensures
        r@ == spec_clip(s@, limit as int),
{
    let n = s.unicode_len();
    if n <= limit {
        String::from_str(s)
    } else {
        String::from_str(s.substring_char(0, limit))
    }
}

/// A decimal digit character.
pub open spec fn spec_is_digit(c: char) -> bool {
    '0' <= c && c <= '9'
}

/// Every character is a decimal digit.
pub open spec fn spec_all_digits(s: Seq<char>) -> bool {
    forall|i: int| 0 <= i < s.len() ==> spec_is_digit(#[trigger] s[i])
}

/// The number a digit string denotes.
pub open spec fn spec_digits_to_int(s: Seq<char>) -> int
    decreases s.len(),
{
    if s.len() == 0 {
        0
    } else {
        spec_digits_to_int(s.drop_last()) * 10 + (s.last() as int - 48)
    }
}

pub open spec fn spec_pow10(n: nat) -> int
    decreases n,
{
    if n == 0 {
        1
    } else {
        10 * spec_pow10((n - 1) as nat)
    }
}

/// A digit string's value is bounded by the power of ten of its length.
pub proof fn lemma_digits_to_int_bounds(s: Seq<char>)
    requires
        spec_all_digits(s),
    ensures
        0 <= spec_digits_to_int(s) < spec_pow10(s.len()),
    decreases s.len(),
{
    if s.len() > 0 {
        assert forall|i: int| 0 <= i < s.drop_last().len() implies spec_is_digit(
            #[trigger] s.drop_last()[i],
        ) by {
            assert(s.drop_last()[i] == s[i]);
        }
        lemma_digits_to_int_bounds(s.drop_last());
        assert(spec_is_digit(s.last()));
        assert('0' as int == 48 && '9' as int == 57);
    }
}

pub proof fn lemma_pow10_mono(a: nat, b: nat)
    requires
        a <= b,
    ensures
        spec_pow10(a) <= spec_pow10(b),
        spec_pow10(a) >= 1,
    decreases b,
{
    if b > 0 {
        if a == b {
            lemma_pow10_mono((a - 1) as nat, (b - 1) as nat);
        } else {
            lemma_pow10_mono(a, (b - 1) as nat);
        }
    }
}

/// ASCII whitespace, as the response cleaner understands it.
pub open spec fn spec_is_ws(c: char) -> bool {
    c == ' ' || c == '\t' || c == '\n' || c == '\r'
}

pub fn is_ws(c: char) -> (r: bool)
    ensures
        r == spec_is_ws(c),
{
    c == ' ' || c == '\t' || c == '\n' || c == '\r'
}

/// `s` without its leading whitespace.
pub open spec fn spec_trim_start(s: Seq<char>) -> Seq<char>
    decreases s.len(),
{
    if s.len() > 0 && spec_is_ws(s[0]) {
        spec_trim_start(s.drop_first())
    } else {
        s
    }
}

/// `s` without its trailing whitespace.
pub open spec fn spec_trim_end(s: Seq<char>) -> Seq<char>
    decreases s.len(),
{
    if s.len() > 0 && spec_is_ws(s.last()) {
        spec_trim_end(s.drop_last())
    } else {
        s
    }
}

/// `s` without leading or trailing whitespace.
pub open spec fn spec_trim(s: Seq<char>) -> Seq<char> {
    spec_trim_end(spec_trim_start(s))
}

proof fn lemma_trim_start_skip(s: Seq<char>, i: int)
    requires
        0 <= i <= s.len(),
        forall|j: int| 0 <= j < i ==> spec_is_ws(#[trigger] s[j]),
        i == s.len() || !spec_is_ws(s[i]),
    ensures
        spec_trim_start(s) == s.skip(i),
    decreases i,
{
    if i == 0 {
        assert(s.skip(0) =~= s);
    } else {
        assert(s.drop_first() =~= s.skip(1));
        assert forall|j: int| 0 <= j < i - 1 implies spec_is_ws(#[trigger] s.skip(1)[j]) by {
            assert(s.skip(1)[j] == s[j + 1]);
        }
        lemma_trim_start_skip(s.skip(1), i - 1);
        assert(s.skip(1).skip(i - 1) =~= s.skip(i));
    }
}

proof fn lemma_trim_end_take(s: Seq<char>, e: int)
    requires
        0 <= e <= s.len(),
        forall|j: int| e <= j < s.len() ==> spec_is_ws(#[trigger] s[j]),
        e == 0 || !spec_is_ws(s[e - 1]),
    ensures
        spec_trim_end(s) == s.take(e),
    decreases s.len(),
{
    if e == s.len() {
        assert(s.take(e) =~= s);
    } else {
        assert(spec_is_ws(s.last()));
        assert forall|j: int| e <= j < s.drop_last().len() implies spec_is_ws(
            #[trigger] s.drop_last()[j],
        ) by {
            assert(s.drop_last()[j] == s[j]);
        }
        lemma_trim_end_take(s.drop_last(), e);
        assert(s.drop_last().take(e) =~= s.take(e));
    }
}

/// Drops leading and trailing whitespace.
pub fn trim_chars(v: &Vec<char>) -> (r: Vec<char>)
    ensures
        r@ == spec_trim(v@),
{
    let n = v.len();
    let mut start: usize = 0;
    while start < n && is_ws(v[start])
        invariant
            start <= n,
            n == v@.len(),
            forall|j: int| 0 <= j < start ==> spec_is_ws(#[trigger] v@[j]),
        decreases n - start,
    {
        start = start + 1;
    }
    let mut end: usize = n;
    while end > start && is_ws(v[end - 1])
        invariant
            start <= end <= n,
            n == v@.len(),
            forall|j: int| 0 <= j < start ==> spec_is_ws(#[trigger] v@[j]),
            forall|j: int| end <= j < n ==> spec_is_ws(#[trigger] v@[j]),
        decreases end,
    {
        end = end - 1;
    }
    let mut r: Vec<char> = Vec::new();
    let mut i: usize = start;
    while i < end
        invariant
            start <= i <= end <= n,
            n == v@.len(),
            r@ == v@.subrange(start as int, i as int),
        decreases end - i,
    {
        r.push(v[i]);
        assert(r@ =~= v@.subrange(start as int, i + 1));
        i = i + 1;
    }
    proof {
        lemma_trim_start_skip(v@, start as int);
        let mid = v@.skip(start as int);
        assert forall|j: int| end - start <= j < mid.len() implies spec_is_ws(
            #[trigger] mid[j],
        ) by {
            assert(mid[j] == v@[j + start]);
        }
        if end > start {
            assert(mid[end - start - 1] == v@[end - 1]);
        }
        lemma_trim_end_take(mid, end - start);
        assert(mid.take(end - start) =~= v@.subrange(start as int, end as int));
    }
    r
}

/// `s` with every leading repetition of `p` removed.
pub open spec fn spec_strip_prefix_all(s: Seq<char>, p: Seq<char>) -> Seq<char>
    decreases s.len(),
{
    if p.len() > 0 && s.len() >= p.len() && s.take(p.len() as int) == p {
        spec_strip_prefix_all(s.skip(p.len() as int), p)
    } else {
        s
    }
}

/// `s` with every trailing repetition of `p` removed.
pub open spec fn spec_strip_suffix_all(s: Seq<char>, p: Seq<char>) -> Seq<char>
    decreases s.len(),
{
    if p.len() > 0 && s.len() >= p.len() && s.skip(s.len() - p.len()) == p {
        spec_strip_suffix_all(s.take(s.len() - p.len()), p)
    } else {
        s
    }
}

/// A completion reply after whitespace trimming and removal of an optional
/// markdown code fence, in the order the cleaner applies them.
pub open spec fn spec_clean_response_of(s: Seq<char>) -> Seq<char> {
    spec_trim(
        spec_strip_suffix_all(
            spec_strip_prefix_all(spec_strip_prefix_all(spec_trim(s), "```json"@), "```"@),
            "```"@,
        ),
    )
}

/// Whether `p` occurs in `v` starting at `off`.
fn matches_at(v: &Vec<char>, off: usize, p: &Vec<char>) -> (r: bool)
    requires
        off + p@.len() <= v@.len(),
    ensures
        r == (v@.subrange(off as int, off + p@.len()) == p@),
{
    let n = v.len();
    let m = p.len();
    let mut k: usize = 0;
    while k < m
        invariant
            k <= m,
            m == p@.len(),
            n == v@.len(),
            off + m <= n,
            forall|j: int| 0 <= j < k ==> v@[off + j] == p@[j],
        decreases m - k,
    {
        if v[off + k] != p[k] {
            proof {
                assert(v@.subrange(off as int, off + p@.len())[k as int] == v@[off + k]);
            }
            return false;
        }
        k = k + 1;
    }
    proof {
        assert(v@.subrange(off as int, off + p@.len()) =~= p@);
    }
    true
}

/// Removes every leading repetition of `p`.
pub fn strip_prefix_all(v: &Vec<char>, p: &Vec<char>) -> (r: Vec<char>)
    ensures
        r@ == spec_strip_prefix_all(v@, p@),
{
    let n = v.len();
    let m = p.len();
    let mut off: usize = 0;
    proof {
        assert(v@.skip(0) =~= v@);
    }
    loop
        invariant
            off <= n,
            n == v@.len(),
            m == p@.len(),
            spec_strip_prefix_all(v@, p@) == spec_strip_prefix_all(v@.skip(off as int), p@),
        ensures
            off <= n,
            n == v@.len(),
            spec_strip_prefix_all(v@, p@) == v@.skip(off as int),
        decreases n - off,
    {
        if m > 0 && m <= n - off && matches_at(v, off, p) {
            proof {
                let rem = v@.skip(off as int);
                assert(rem.take(m as int) =~= v@.subrange(off as int, off + m));
                assert(rem.skip(m as int) =~= v@.skip(off + m));
            }
            off = off + m;
        } else {
            proof {
                let rem = v@.skip(off as int);
                if m > 0 && off + m <= n {
                    assert(rem.take(m as int) =~= v@.subrange(off as int, off + m));
                }
                assert(spec_strip_prefix_all(rem, p@) == rem);
            }
            break ;
        }
    }
    let mut r: Vec<char> = Vec::new();
    let mut i: usize = off;
    while i < n
        invariant
            off <= i <= n,
            n == v@.len(),
            r@ == v@.subrange(off as int, i as int),
        decreases n - i,
    {
        r.push(v[i]);
        assert(r@ =~= v@.subrange(off as int, i + 1));
        i = i + 1;
    }
    proof {
        assert(r@ =~= v@.skip(off as int));
    }
    r
}

/// Removes every trailing repetition of `p`.
pub fn strip_suffix_all(v: &Vec<char>, p: &Vec<char>) -> (r: Vec<char>)
    ensures
        r@ == spec_strip_suffix_all(v@, p@),
{
    let n = v.len();
    let m = p.len();
    let mut end: usize = n;
    proof {
        assert(v@.take(n as int) =~= v@);
    }
    loop
        invariant
            end <= n,
            n == v@.len(),
            m == p@.len(),
            spec_strip_suffix_all(v@, p@) == spec_strip_suffix_all(v@.take(end as int), p@),
        ensures
            end <= n,
            n == v@.len(),
            spec_strip_suffix_all(v@, p@) == v@.take(end as int),
        decreases end,
    {
        if m > 0 && end >= m && matches_at(v, end - m, p) {
            proof {
                let rem = v@.take(end as int);
                assert(rem.skip(rem.len() - m) =~= v@.subrange(end - m, end as int));
                assert(rem.take(rem.len() - m) =~= v@.take(end - m));
            }
            end = end - m;
        } else {
            proof {
                let rem = v@.take(end as int);
                if m > 0 && end >= m {
                    assert(rem.skip(rem.len() - m) =~= v@.subrange(end - m, end as int));
                }
                assert(spec_strip_suffix_all(rem, p@) == rem);
            }
            break ;
        }
    }
    let mut r: Vec<char> = Vec::new();
    let mut i: usize = 0;
    while i < end
        invariant
            i <= end <= n,
            n == v@.len(),
            r@ == v@.subrange(0, i as int),
        decreases end - i,
    {
        r.push(v[i]);
        assert(r@ =~= v@.subrange(0, i + 1));
        i = i + 1;
    }
    proof {
        assert(r@ =~= v@.take(end as int));
    }
    r
}

} // verus!
