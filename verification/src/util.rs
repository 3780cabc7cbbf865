//! Prompt name validation: rejects path traversal and related tricks.
//!
//! A name is checked raw, then after up to three rounds of percent
//! decoding, then after Unicode NFC normalization: what remains must be a
//! relative path whose segments hide no `..` climb.

use vstd::prelude::*;
use vstd::string::*;
use crate::error::DotpromptError;
use crate::text::{blank, blank_range, chars_of};
use unicode_normalization::UnicodeNormalization;

verus! {

broadcast use vstd::std_specs::vec::group_vec_axioms;

/// The percent-decoding of a text, when the decoded bytes are valid text.
pub uninterp spec fn percent_decoded(s: Seq<char>) -> Option<Seq<char>>;

/// Relies on `urlencoding::decode`: percent decoding is a function of the
/// text alone, it fails only when the decoded bytes are not valid UTF-8,
/// and a text without `%` decodes to itself.
#[verifier::external_body]
fn url_decode(s: &str) -> (r: Option<String>)
    ensures
        match r {
            Some(d) => percent_decoded(s@) == Some(d@) && ((forall|i: int|
                0 <= i < s@.len() ==> s@[i] != '%') ==> d@ == s@),
            None => percent_decoded(s@) is None && (exists|i: int|
                0 <= i < s@.len() && s@[i] == '%'),
        },
{
    match urlencoding::decode(s) {
        Ok(d) => Some(d.into_owned()),
        Err(_) => None,
    }
}

/// The Unicode NFC normalization of a text.
pub uninterp spec fn nfc_of(s: Seq<char>) -> Seq<char>;

/// Relies on `unicode_normalization::UnicodeNormalization::nfc`: the
/// canonical composition is a function of the characters alone.
#[verifier::external_body]
fn nfc_normalize(s: &str) -> (r: String)
    ensures
        r@ == nfc_of(s@),
{
    s.nfc().collect()
}

/// Whether a character has the Unicode `Alphabetic` property.
pub uninterp spec fn is_alpha_char(c: char) -> bool;

/// Relies on `char::is_alphabetic`: membership in the Unicode
/// `Alphabetic` class is a function of the character alone.
#[verifier::external_body]
fn alpha_char(c: char) -> (r: bool)
    ensures
        r == is_alpha_char(c),
{
    c.is_alphabetic()
}

/// What up to `k` rounds of percent decoding leave: decoding stops early
/// at a fixed point or a failure.
pub open spec fn decode_rounds(s: Seq<char>, k: nat) -> Seq<char>
    decreases k,
{
    if k == 0 {
        s
    } else {
        match percent_decoded(s) {
            Some(d) => if d == s {
                s
            } else {
                decode_rounds(d, (k - 1) as nat)
            },
            None => s,
        }
    }
}

/// Whether a character occurs in a text.
pub open spec fn has_char(s: Seq<char>, c: char) -> bool {
    exists|i: int| 0 <= i < s.len() && s[i] == c
}

/// Whether two characters occur adjacently in a text.
pub open spec fn has_pair(s: Seq<char>, a: char, b: char) -> bool {
    exists|i: int| 0 <= i && i + 1 < s.len() && #[trigger] s[i] == a && s[i + 1] == b
}

/// The text with every backslash replaced by a slash.
pub open spec fn slashes_of(s: Seq<char>) -> Seq<char> {
    Seq::new(s.len(), |i: int| if s[i] == '\\' { '/' } else { s[i] })
}

/// The end of the path segment starting at `i`: the next slash or the end.
pub open spec fn seg_end(s: Seq<char>, i: int) -> int
    decreases s.len() - i when 0 <= i <= s.len()
{
    if i >= s.len() {
        s.len() as int
    } else if s[i] == '/' {
        i
    } else {
        seg_end(s, i + 1)
    }
}

/// Whether one path segment is harmless: it is not made of two or more
/// dots alone, does not begin with exactly `..`, and does not end with
/// `..` unless it ends with `...`.
pub open spec fn seg_ok(seg: Seq<char>) -> bool {
    let l = seg.len() as int;
    &&& !(l >= 2 && (forall|k: int| 0 <= k < l ==> seg[k] == '.'))
    &&& !(l > 2 && seg[0] == '.' && seg[1] == '.' && seg[2] != '.')
    &&& !(l > 2 && seg[l - 1] == '.' && seg[l - 2] == '.' && seg[l - 3] != '.')
}

/// Whether every path segment at or after `i` is harmless.
pub open spec fn segments_ok(s: Seq<char>, i: int) -> bool
    decreases s.len() - i when 0 <= i <= s.len() via segments_ok_decreases
{
    let e = seg_end(s, i);
    &&& seg_ok(s.subrange(i, e))
    &&& (e < s.len() ==> segments_ok(s, e + 1))
}

/// `seg_end` stays in bounds.
pub proof fn lemma_seg_end(s: Seq<char>, i: int)
    requires
        0 <= i <= s.len(),
    ensures
        i <= seg_end(s, i) <= s.len(),
        forall|k: int| i <= k < seg_end(s, i) ==> s[k] != '/',
        seg_end(s, i) < s.len() ==> s[seg_end(s, i)] == '/',
    decreases s.len() - i,
{
    if i < s.len() && s[i] != '/' {
        lemma_seg_end(s, i + 1);
    }
}

#[via_fn]
proof fn segments_ok_decreases(s: Seq<char>, i: int) {
    lemma_seg_end(s, i);
}

/// Whether a normalized name passes the path checks: no current-directory
/// reference, harmless segments, no absolute path, no trailing slash, no
/// drive letter, and no UNC prefix.
pub open spec fn normalized_ok(ns: Seq<char>) -> bool {
    &&& !has_pair(ns, '.', '/')
    &&& !has_pair(ns, '.', '\\')
    &&& segments_ok(slashes_of(ns), 0)
    &&& !(ns.len() > 0 && ns[0] == '/')
    &&& !(slashes_of(ns).len() > 0 && slashes_of(ns)[slashes_of(ns).len() - 1] == '/')
    &&& !(ns.len() > 1 && ns[1] == ':' && is_alpha_char(ns[0]))
    &&& !(ns.len() >= 2 && ns[0] == '\\' && ns[1] == '\\')
}

/// Whether a raw name passes the checks made before decoding: it is not
/// empty or whitespace-only and holds no null byte and no `\0` escape.
pub open spec fn raw_name_ok(s: Seq<char>) -> bool {
    &&& s.len() > 0
    &&& !blank(s)
    &&& !has_char(s, '\u{0}')
    &&& !has_pair(s, '\\', '0')
}

/// Whether a name is valid: the raw checks pass, at most three rounds of
/// percent decoding leave no `%`, and the NFC normalization of the decoded
/// name passes the path checks.
pub open spec fn name_valid(s: Seq<char>) -> bool {
    &&& raw_name_ok(s)
    &&& !has_char(decode_rounds(s, 3), '%')
    &&& normalized_ok(nfc_of(decode_rounds(s, 3)))
}

/// Decides whether a character occurs in `cs`.
#[verifier::loop_isolation(false)]
fn contains_char(cs: &Vec<char>, c: char) -> (r: bool)
    ensures
        r == has_char(cs@, c),
{
    let mut i: usize = 0;
    while i < cs.len()
        invariant
            i <= cs@.len(),
            forall|j: int| 0 <= j < i as int ==> cs@[j] != c,
        decreases cs@.len() - i,
    {
        if cs[i] == c {
            return true;
        }
        i = i + 1;
    }
    false
}

/// Decides whether two characters occur adjacently in `cs`.
#[verifier::loop_isolation(false)]
fn contains_pair(cs: &Vec<char>, a: char, b: char) -> (r: bool)
    ensures
        r == has_pair(cs@, a, b),
{
    if cs.len() < 2 {
        return false;
    }
    let mut i: usize = 0;
    while i + 1 < cs.len()
        invariant
            i + 1 <= cs@.len(),
            forall|j: int| 0 <= j < i as int ==> !(#[trigger] cs@[j] == a && cs@[j + 1] == b),
        decreases cs@.len() - i,
    {
        if cs[i] == a && cs[i + 1] == b {
            return true;
        }
        i = i + 1;
    }
    false
}

/// Decides whether the range `[i, e)` of `cs` is dots alone.
#[verifier::loop_isolation(false)]
fn range_all_dots(cs: &Vec<char>, i: usize, e: usize) -> (r: bool)
    requires
        i <= e <= cs@.len(),
    ensures
        r == (forall|m: int| i as int <= m < e as int ==> cs@[m] == '.'),
{
    let mut k: usize = i;
    while k < e
        invariant
            i <= k <= e,
            forall|m: int| i as int <= m < k as int ==> cs@[m] == '.',
        decreases e - k,
    {
        if cs[k] != '.' {
            return false;
        }
        k = k + 1;
    }
    true
}

/// Checks the path segments of `cs` from `i` on, per `segments_ok`.
#[verifier::loop_isolation(false)]
fn segments_ok_exec(cs: &Vec<char>, i: usize) -> (r: bool)
    requires
        i <= cs@.len(),
    ensures
        r == segments_ok(cs@, i as int),
    decreases cs@.len() - i,
{
    proof {
        lemma_seg_end(cs@, i as int);
    }
    let mut e: usize = i;
    while e < cs.len() && cs[e] != '/'
        invariant
            i <= e <= cs@.len(),
            seg_end(cs@, i as int) == seg_end(cs@, e as int),
        decreases cs@.len() - e,
    {
        e = e + 1;
    }
    let ghost seg = cs@.subrange(i as int, e as int);
    let l = e - i;
    let dots = if l >= 2 {
        range_all_dots(cs, i, e)
    } else {
        false
    };
    proof {
        if l >= 2 {
            assert forall|m: int| 0 <= m < seg.len() implies seg[m] == cs@[i + m] by {}
            if dots {
                assert forall|k: int| 0 <= k < seg.len() implies seg[k] == '.' by {
                    assert(cs@[i + k] == '.');
                }
            } else {
                let w = choose|m: int| i as int <= m < e as int && cs@[m] != '.';
                assert(seg[w - i] != '.');
            }
        }
    }
    let c2 = l > 2 && cs[i] == '.' && cs[i + 1] == '.' && cs[i + 2] != '.';
    let c3 = l > 2 && cs[e - 1] == '.' && cs[e - 2] == '.' && cs[e - 3] != '.';
    proof {
        if l > 2 {
            assert(seg[0] == cs@[i as int]);
            assert(seg[1] == cs@[i as int + 1]);
            assert(seg[2] == cs@[i as int + 2]);
            assert(seg[seg.len() - 1] == cs@[e as int - 1]);
            assert(seg[seg.len() - 2] == cs@[e as int - 2]);
            assert(seg[seg.len() - 3] == cs@[e as int - 3]);
        }
    }
    let ok = !dots && !c2 && !c3;
    proof {
        assert(ok == seg_ok(seg));
    }
    if !ok {
        return false;
    }
    if e < cs.len() {
        segments_ok_exec(cs, e + 1)
    } else {
        true
    }
}

/// Decides whether an already-normalized name passes the path checks.
///
/// This is the part of name validation that needs no decoding or
/// normalization: it works on the text as given.
pub fn check_normalized_name(normalized: &str) -> (r: bool)
    ensures
        r == normalized_ok(normalized@),
{
    let cs = chars_of(normalized);
    if contains_pair(&cs, '.', '/') || contains_pair(&cs, '.', '\\') {
        return false;
    }
    let n = cs.len();
    let mut slashed: Vec<char> = Vec::new();
    let mut i: usize = 0;
    proof {
        assert(slashed@ =~= slashes_of(cs@).take(0));
    }
    #[verifier::loop_isolation(false)]
    while i < n
        invariant
            i <= n,
            n == cs@.len(),
            slashed@ =~= slashes_of(cs@).take(i as int),
        decreases n - i,
    {
        let c = cs[i];
        slashed.push(if c == '\\' { '/' } else { c });
        proof {
            assert(slashed@ =~= slashes_of(cs@).take(i + 1));
        }
        i = i + 1;
    }
    proof {
        assert(slashed@ =~= slashes_of(cs@));
    }
    if !segments_ok_exec(&slashed, 0) {
        return false;
    }
    if n > 0 && cs[0] == '/' {
        return false;
    }
    if slashed.len() > 0 && slashed[slashed.len() - 1] == '/' {
        return false;
    }
    if n > 1 && cs[1] == ':' && alpha_char(cs[0]) {
        return false;
    }
    if n >= 2 && cs[0] == '\\' && cs[1] == '\\' {
        return false;
    }
    true
}

/// Validates a prompt name: rejects empty or whitespace-only names, null
/// bytes and `\0` escapes, names still holding `%` after up to three
/// rounds of percent decoding, and normalized names whose path would
/// climb, be absolute, end in a slash, or name a drive or UNC share.
pub fn validate_prompt_name(name: &str) -> (r: Result<(), DotpromptError>)
    ensures
        r is Ok <==> name_valid(name@),
        r matches Err(e) ==> e is InvalidPromptName,
{
    let cs = chars_of(name);
    let n = cs.len();
    if n == 0 {
        return Err(DotpromptError::InvalidPromptName(String::from_str(
            "prompt name cannot be empty",
        )));
    }
    if blank_range(&cs, 0, n) {
        proof {
            assert(cs@.subrange(0, n as int) =~= name@);
        }
        return Err(DotpromptError::InvalidPromptName(String::from_str("invalid prompt name")));
    }
    proof {
        assert(cs@.subrange(0, n as int) =~= name@);
    }
    if contains_char(&cs, '\u{0}') {
        return Err(DotpromptError::InvalidPromptName(String::from_str("invalid prompt name")));
    }
    if contains_pair(&cs, '\\', '0') {
        return Err(DotpromptError::InvalidPromptName(String::from_str(
            "null byte escape sequence not allowed",
        )));
    }
    let mut decoded = name.to_owned();
    let mut round: usize = 0;
    while round < 3
        invariant
            round <= 3,
            decode_rounds(name@, 3) == decode_rounds(decoded@, (3 - round) as nat),
        decreases 3 - round,
    {
        match url_decode(decoded.as_str()) {
            Some(nd) => {
                if nd.as_str().eq(decoded.as_str()) {
                    proof {
                        assert(decode_rounds(decoded@, (3 - round) as nat) == decoded@);
                    }
                    round = 3;
                } else {
                    decoded = nd;
                    round = round + 1;
                }
            },
            None => {
                proof {
                    assert(decode_rounds(decoded@, (3 - round) as nat) == decoded@);
                }
                round = 3;
            },
        }
    }
    proof {
        assert(decode_rounds(name@, 3) == decoded@);
    }
    let dcs = chars_of(decoded.as_str());
    if contains_char(&dcs, '%') {
        return Err(DotpromptError::InvalidPromptName(String::from_str(
            "encoded characters not allowed",
        )));
    }
    let normalized = nfc_normalize(decoded.as_str());
    if !check_normalized_name(normalized.as_str()) {
        return Err(DotpromptError::InvalidPromptName(String::from_str(
            "path traversal not allowed",
        )));
    }
    Ok(())
}

} // verus!
