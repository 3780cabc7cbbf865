//! Character-level text utilities: whitespace, trimming, and substring
//! matching over sequences of characters.
//!
//! The template grammar is defined over characters, so executable code
//! works on `Vec<char>` mirrors of the input strings and converts back to
//! `String` at the boundaries.

use vstd::prelude::*;
use vstd::string::*;

verus! {

broadcast use vstd::std_specs::vec::group_vec_axioms;

/// A Unicode code point with the `White_Space` property: the set that
/// `char::is_whitespace` accepts, which is also the whitespace class used
/// when splitting frontmatter and trimming text.
pub open spec fn is_space(c: char) -> bool {
    c == ' ' || c == '\t' || c == '\n' || c == '\r' || c == '\u{b}' || c == '\u{c}'
        || c == '\u{85}' || c == '\u{a0}' || c == '\u{1680}'
        || ('\u{2000}' <= c && c <= '\u{200a}') || c == '\u{2028}' || c == '\u{2029}'
        || c == '\u{202f}' || c == '\u{205f}' || c == '\u{3000}'
}

/// Relies on `str` equality: two string slices are equal exactly when they
/// hold the same characters.
pub assume_specification[ <str as PartialEq<str>>::eq ](a: &str, b: &str) -> (r: bool)
    ensures
        r == (a@ == b@),
;

/// Decides whether `c` is whitespace.
pub fn space_char(c: char) -> (r: bool)
    ensures
        r == is_space(c),
{
    c == ' ' || c == '\t' || c == '\n' || c == '\r' || c == '\u{b}' || c == '\u{c}'
        || c == '\u{85}' || c == '\u{a0}' || c == '\u{1680}'
        || ('\u{2000}' <= c && c <= '\u{200a}') || c == '\u{2028}' || c == '\u{2029}'
        || c == '\u{202f}' || c == '\u{205f}' || c == '\u{3000}'
}

/// Whether a text is empty or made of whitespace alone.
pub open spec fn blank(s: Seq<char>) -> bool {
    forall|i: int| 0 <= i < s.len() ==> is_space(#[trigger] s[i])
}

/// The first index at or after `i` holding a non-whitespace character
/// (or the length when there is none).
pub open spec fn skip_spaces(s: Seq<char>, i: int) -> int
    decreases s.len() - i when 0 <= i <= s.len()
{
    if i >= s.len() {
        s.len() as int
    } else if is_space(s[i]) {
        skip_spaces(s, i + 1)
    } else {
        i
    }
}

/// The end of the text up to `j` once trailing whitespace is dropped.
pub open spec fn trim_end_at(s: Seq<char>, j: int) -> int
    decreases j when 0 <= j <= s.len()
{
    if j <= 0 {
        0
    } else if is_space(s[j - 1]) {
        trim_end_at(s, j - 1)
    } else {
        j
    }
}

/// The text with leading and trailing whitespace removed.
pub open spec fn trim_of(s: Seq<char>) -> Seq<char> {
    let a = skip_spaces(s, 0);
    let b = trim_end_at(s, s.len() as int);
    if a >= b {
        Seq::empty()
    } else {
        s.subrange(a, b)
    }
}

/// `skip_spaces` stays in bounds and everything it skips is whitespace.
pub proof fn lemma_skip_spaces(s: Seq<char>, i: int)
    requires
        0 <= i <= s.len(),
    ensures
        i <= skip_spaces(s, i) <= s.len(),
        forall|k: int| i <= k < skip_spaces(s, i) ==> is_space(#[trigger] s[k]),
        skip_spaces(s, i) < s.len() ==> !is_space(s[skip_spaces(s, i)]),
    decreases s.len() - i,
{
    if i < s.len() && is_space(s[i]) {
        lemma_skip_spaces(s, i + 1);
    }
}

/// `trim_end_at` stays in bounds and everything it drops is whitespace.
pub proof fn lemma_trim_end_at(s: Seq<char>, j: int)
    requires
        0 <= j <= s.len(),
    ensures
        0 <= trim_end_at(s, j) <= j,
        forall|k: int| trim_end_at(s, j) <= k < j ==> is_space(#[trigger] s[k]),
        trim_end_at(s, j) > 0 ==> !is_space(s[trim_end_at(s, j) - 1]),
    decreases j,
{
    if j > 0 && is_space(s[j - 1]) {
        lemma_trim_end_at(s, j - 1);
    }
}

/// A text is blank exactly when its trim is empty.
pub proof fn lemma_blank_trim(s: Seq<char>)
    ensures
        blank(s) <==> trim_of(s).len() == 0,
{
    lemma_skip_spaces(s, 0);
    lemma_trim_end_at(s, s.len() as int);
    if skip_spaces(s, 0) == s.len() {
        assert(blank(s));
    }
    if trim_of(s).len() == 0 {
        let a = skip_spaces(s, 0);
        let b = trim_end_at(s, s.len() as int);
        if a < s.len() {
            assert(!is_space(s[a]));
            assert(a < b);
        }
    }
}

/// Whether `pat` occurs in `s` starting at index `i`.
pub open spec fn has_at(s: Seq<char>, i: int, pat: Seq<char>) -> bool {
    0 <= i && i + pat.len() <= s.len() && s.subrange(i, i + pat.len() as int) == pat
}

/// `has_at` holds exactly when the characters agree pointwise.
pub proof fn lemma_has_at(s: Seq<char>, i: int, pat: Seq<char>)
    requires
        0 <= i,
        i + pat.len() <= s.len(),
    ensures
        has_at(s, i, pat) <==> forall|k: int| 0 <= k < pat.len() ==> s[i + k] == #[trigger] pat[k],
{
    if forall|k: int| 0 <= k < pat.len() ==> s[i + k] == #[trigger] pat[k] {
        assert(s.subrange(i, i + pat.len() as int) =~= pat);
    }
    if has_at(s, i, pat) {
        assert forall|k: int| 0 <= k < pat.len() implies s[i + k] == #[trigger] pat[k] by {
            assert(s.subrange(i, i + pat.len() as int)[k] == s[i + k]);
        }
    }
}

/// Collects the characters of a string.
#[verifier::loop_isolation(false)]
pub fn chars_of(s: &str) -> (r: Vec<char>)
    ensures
        r@ == s@,
{
    let n = s.unicode_len();
    let mut r: Vec<char> = Vec::new();
    let mut i: usize = 0;
    while i < n
        invariant
            i <= n,
            r@ =~= s@.subrange(0, i as int),
        decreases n - i,
    {
        r.push(s.get_char(i));
        proof {
            assert(r@ =~= s@.subrange(0, i + 1 as int));
        }
        i = i + 1;
    }
    proof {
        assert(r@ =~= s@);
    }
    r
}

/// Appends one character to a string.
///
/// Relies on `String::push`: the string becomes the old text followed by
/// the pushed character.
#[verifier::external_body]
pub fn push_char(s: &mut String, c: char)
    ensures
        final(s)@ == old(s)@.push(c),
{
    s.push(c);
}

/// Builds a string out of a range of a character vector.
#[verifier::loop_isolation(false)]
pub fn string_of_range(cs: &Vec<char>, from: usize, to: usize) -> (r: String)
    requires
        from <= to <= cs@.len(),
    ensures
        r@ == cs@.subrange(from as int, to as int),
{
    let mut r = String::new();
    let mut i: usize = from;
    while i < to
        invariant
            from <= i <= to,
            r@ =~= cs@.subrange(from as int, i as int),
        decreases to - i,
    {
        push_char(&mut r, cs[i]);
        proof {
            assert(r@ =~= cs@.subrange(from as int, i + 1 as int));
        }
        i = i + 1;
    }
    r
}

/// Builds a string out of a whole character vector.
pub fn string_of_chars(cs: &Vec<char>) -> (r: String)
    ensures
        r@ == cs@,
{
    let r = string_of_range(cs, 0, cs.len());
    proof {
        assert(cs@.subrange(0, cs@.len() as int) =~= cs@);
    }
    r
}

/// Decides whether `pat` occurs in `cs` starting at index `i`.
#[verifier::loop_isolation(false)]
pub fn has_at_exec(cs: &Vec<char>, i: usize, pat: &Vec<char>) -> (r: bool)
    ensures
        r == has_at(cs@, i as int, pat@),
{
    proof {
        lemma_has_at_bounds(cs@, i as int, pat@);
    }
    if pat.len() > cs.len() || i > cs.len() - pat.len() {
        return false;
    }
    let mut k: usize = 0;
    while k < pat.len()
        invariant
            i + pat@.len() <= cs@.len(),
            k <= pat@.len(),
            forall|m: int| 0 <= m < k as int ==> cs@[i + m] == #[trigger] pat@[m],
        decreases pat@.len() - k,
    {
        if cs[i + k] != pat[k] {
            proof {
                lemma_has_at(cs@, i as int, pat@);
            }
            return false;
        }
        k = k + 1;
    }
    proof {
        lemma_has_at(cs@, i as int, pat@);
    }
    true
}

/// `has_at` forces the pattern to fit inside the text.
pub proof fn lemma_has_at_bounds(s: Seq<char>, i: int, pat: Seq<char>)
    ensures
        has_at(s, i, pat) ==> i + pat.len() <= s.len(),
{
}

/// Decides whether the range `[from, to)` of `cs` is blank.
#[verifier::loop_isolation(false)]
pub fn blank_range(cs: &Vec<char>, from: usize, to: usize) -> (r: bool)
    requires
        from <= to <= cs@.len(),
    ensures
        r == blank(cs@.subrange(from as int, to as int)),
{
    let ghost sub = cs@.subrange(from as int, to as int);
    let mut i: usize = from;
    while i < to
        invariant
            from <= i <= to,
            forall|k: int| from as int <= k < i as int ==> is_space(#[trigger] cs@[k]),
        decreases to - i,
    {
        if !space_char(cs[i]) {
            proof {
                assert(sub[i - from as int] == cs@[i as int]);
            }
            return false;
        }
        i = i + 1;
    }
    proof {
        assert forall|k: int| 0 <= k < sub.len() implies is_space(#[trigger] sub[k]) by {
            assert(sub[k] == cs@[from as int + k]);
        }
    }
    true
}

/// Returns the first index at or after `from` (and below `to`) holding a
/// non-whitespace character, as `skip_spaces` names it on the subrange.
#[verifier::loop_isolation(false)]
pub fn skip_spaces_exec(cs: &Vec<char>, from: usize, to: usize) -> (r: usize)
    requires
        from <= to <= cs@.len(),
    ensures
        from <= r <= to,
        r - from == skip_spaces(cs@.subrange(from as int, to as int), 0),
        forall|k: int| from as int <= k < r as int ==> is_space(#[trigger] cs@[k]),
        r < to ==> !is_space(cs@[r as int]),
{
    let ghost sub = cs@.subrange(from as int, to as int);
    let mut i: usize = from;
    while i < to
        invariant
            from <= i <= to,
            skip_spaces(sub, 0) == skip_spaces(sub, i - from as int),
            forall|k: int| from as int <= k < i as int ==> is_space(#[trigger] cs@[k]),
        decreases to - i,
    {
        proof {
            assert(sub[i - from as int] == cs@[i as int]);
        }
        if !space_char(cs[i]) {
            return i;
        }
        i = i + 1;
    }
    i
}

/// Returns the end of the text in `[from, to)` once trailing whitespace is
/// dropped, as `trim_end_at` names it on the subrange.
#[verifier::loop_isolation(false)]
pub fn trim_end_exec(cs: &Vec<char>, from: usize, to: usize) -> (r: usize)
    requires
        from <= to <= cs@.len(),
    ensures
        from <= r <= to,
        r - from == trim_end_at(
            cs@.subrange(from as int, to as int),
            to as int - from as int,
        ),
        forall|k: int| r as int <= k < to as int ==> is_space(#[trigger] cs@[k]),
        r > from ==> !is_space(cs@[r as int - 1]),
{
    let ghost sub = cs@.subrange(from as int, to as int);
    let mut j: usize = to;
    while j > from
        invariant
            from <= j <= to,
            trim_end_at(sub, to - from as int) == trim_end_at(sub, j - from as int),
            forall|k: int| j as int <= k < to as int ==> is_space(#[trigger] cs@[k]),
        decreases j,
    {
        proof {
            assert(sub[j - 1 - from as int] == cs@[j as int - 1]);
        }
        if !space_char(cs[j - 1]) {
            return j;
        }
        j = j - 1;
    }
    j
}

/// The first index at or after `i` holding a whitespace character (or the
/// length when there is none): the end of the token starting at `i`.
pub open spec fn skip_non_spaces(s: Seq<char>, i: int) -> int
    decreases s.len() - i when 0 <= i <= s.len()
{
    if i >= s.len() {
        s.len() as int
    } else if !is_space(s[i]) {
        skip_non_spaces(s, i + 1)
    } else {
        i
    }
}

/// `skip_non_spaces` stays in bounds and the token is non-whitespace.
pub proof fn lemma_skip_non_spaces(s: Seq<char>, i: int)
    requires
        0 <= i <= s.len(),
    ensures
        i <= skip_non_spaces(s, i) <= s.len(),
        forall|k: int| i <= k < skip_non_spaces(s, i) ==> !is_space(#[trigger] s[k]),
        skip_non_spaces(s, i) < s.len() ==> is_space(s[skip_non_spaces(s, i)]),
    decreases s.len() - i,
{
    if i < s.len() && !is_space(s[i]) {
        lemma_skip_non_spaces(s, i + 1);
    }
}

/// Returns `skip_spaces(cs@, from)`.
#[verifier::loop_isolation(false)]
pub fn skip_spaces_from(cs: &Vec<char>, from: usize) -> (r: usize)
    requires
        from <= cs@.len(),
    ensures
        r == skip_spaces(cs@, from as int),
        from <= r <= cs@.len(),
{
    proof {
        lemma_skip_spaces(cs@, from as int);
    }
    let mut i: usize = from;
    while i < cs.len()
        invariant
            from <= i <= cs@.len(),
            skip_spaces(cs@, from as int) == skip_spaces(cs@, i as int),
        decreases cs@.len() - i,
    {
        if !space_char(cs[i]) {
            return i;
        }
        i = i + 1;
    }
    i
}

/// Returns `skip_non_spaces(cs@, from)`.
#[verifier::loop_isolation(false)]
pub fn skip_non_spaces_from(cs: &Vec<char>, from: usize) -> (r: usize)
    requires
        from <= cs@.len(),
    ensures
        r == skip_non_spaces(cs@, from as int),
        from <= r <= cs@.len(),
{
    proof {
        lemma_skip_non_spaces(cs@, from as int);
    }
    let mut i: usize = from;
    while i < cs.len()
        invariant
            from <= i <= cs@.len(),
            skip_non_spaces(cs@, from as int) == skip_non_spaces(cs@, i as int),
        decreases cs@.len() - i,
    {
        if space_char(cs[i]) {
            return i;
        }
        i = i + 1;
    }
    i
}

/// Copies the range `[from, to)` of a character vector.
#[verifier::loop_isolation(false)]
pub fn subvec(cs: &Vec<char>, from: usize, to: usize) -> (r: Vec<char>)
    requires
        from <= to <= cs@.len(),
    ensures
        r@ == cs@.subrange(from as int, to as int),
{
    let mut r: Vec<char> = Vec::new();
    let mut i: usize = from;
    while i < to
        invariant
            from <= i <= to,
            r@ =~= cs@.subrange(from as int, i as int),
        decreases to - i,
    {
        r.push(cs[i]);
        proof {
            assert(r@ =~= cs@.subrange(from as int, i + 1 as int));
        }
        i = i + 1;
    }
    r
}

/// Builds the trim of the range `[from, to)` of `cs`.
pub fn trim_range(cs: &Vec<char>, from: usize, to: usize) -> (r: String)
    requires
        from <= to <= cs@.len(),
    ensures
        r@ == trim_of(cs@.subrange(from as int, to as int)),
{
    let ghost sub = cs@.subrange(from as int, to as int);
    let a = skip_spaces_exec(cs, from, to);
    let b = trim_end_exec(cs, from, to);
    proof {
        lemma_skip_spaces(sub, 0);
        lemma_trim_end_at(sub, sub.len() as int);
    }
    if a >= b {
        String::new()
    } else {
        let r = string_of_range(cs, a, b);
        proof {
            assert(cs@.subrange(a as int, b as int) =~= sub.subrange(
                a - from as int,
                b - from as int,
            ));
        }
        r
    }
}

} // verus!
