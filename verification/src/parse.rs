//! Template parsing: frontmatter extraction and the marker-protocol
//! decoder that turns expanded template text into conversation messages.
//!
//! Markers are literal tokens written during template expansion:
//! `<<<dotprompt:role:user>>>`, `<<<dotprompt:history>>>`,
//! `<<<dotprompt:media:url URL [TYPE]>>>` and
//! `<<<dotprompt:section NAME>>>`.  The decoder splits the expanded text on
//! role and history markers to form messages, then splits each message's
//! text on media and section markers to form content parts.

use vstd::prelude::*;
use vstd::string::*;
use crate::text::{
    blank, blank_range, chars_of, has_at, has_at_exec, is_space, skip_non_spaces,
    skip_non_spaces_from, skip_spaces, skip_spaces_from, space_char, string_of_range, subvec,
    trim_of, trim_range,
};
use crate::types::{
    assoc_get, assoc_set, duplicate_messages, duplicate_meta, duplicate_opt_meta,
    duplicate_parts, map_model, meta_get, meta_set, messages_model, opt_map_model, parts_model,
    DataArgument, MediaContent, MediaContentV, Message, MessageV, Part, PartV, Role,
};
use crate::value::{Val, ValV};

verus! {

broadcast use vstd::std_specs::vec::group_vec_axioms;

/// The delimiter line text that fences a frontmatter block.
pub open spec fn fm_dashes() -> Seq<char> {
    "---"@
}

/// Whether `c` is a line break character.
pub open spec fn is_break(c: char) -> bool {
    c == '\n' || c == '\r'
}

/// Whether the whitespace run starting at `p` contains a line break before
/// any non-whitespace character: what the closing delimiter line must be
/// followed by.
pub open spec fn tail_has_break(s: Seq<char>, p: int) -> bool
    decreases s.len() - p when 0 <= p <= s.len()
{
    if p >= s.len() {
        false
    } else if !is_space(s[p]) {
        false
    } else if is_break(s[p]) {
        true
    } else {
        tail_has_break(s, p + 1)
    }
}

/// Whether a closing frontmatter delimiter stands at `d` using a line
/// terminator of length `t`: the terminator (`\r\n` when `t` is 2, else
/// `\r` or `\n`), then `---`, then whitespace holding a line break.
pub open spec fn fm_close_with(s: Seq<char>, d: int, t: int) -> bool {
    &&& if t == 2 {
        d + 2 <= s.len() && s[d] == '\r' && s[d + 1] == '\n'
    } else {
        t == 1 && d + 1 <= s.len() && is_break(s[d])
    }
    &&& has_at(s, d + t, fm_dashes())
    &&& tail_has_break(s, d + t + fm_dashes().len())
}

/// Whether a closing frontmatter delimiter stands at `d`.
pub open spec fn fm_close_at(s: Seq<char>, d: int) -> bool {
    fm_close_with(s, d, 2) || fm_close_with(s, d, 1)
}

/// Where the text after the closing delimiter's `---` starts, preferring
/// the two-character terminator as the matcher does.
pub open spec fn fm_close_rest(s: Seq<char>, d: int) -> int {
    if fm_close_with(s, d, 2) {
        d + 2 + fm_dashes().len()
    } else {
        d + 1 + fm_dashes().len()
    }
}

/// The first closing delimiter at or after `d`.
pub open spec fn fm_first_close(s: Seq<char>, d: int) -> Option<int>
    decreases s.len() - d when 0 <= d <= s.len()
{
    if d >= s.len() {
        None
    } else if fm_close_at(s, d) {
        Some(d)
    } else {
        fm_first_close(s, d + 1)
    }
}

/// Whether the frontmatter block can start at `e`: the text between the
/// opening `---` and `e` is whitespace whose last character is a line
/// break.
pub open spec fn fm_open_candidate(s: Seq<char>, e: int) -> bool {
    4 <= e <= skip_spaces(s, 3) && is_break(s[e - 1])
}

/// The start of the frontmatter block: the greedy matcher takes the
/// largest candidate start position from which a closing delimiter can
/// still be found.
pub open spec fn fm_pick_open(s: Seq<char>, e: int) -> Option<int>
    decreases e when e >= 3
{
    if e < 4 {
        None
    } else if fm_open_candidate(s, e) && fm_first_close(s, e) is Some {
        Some(e)
    } else {
        fm_pick_open(s, e - 1)
    }
}

/// The frontmatter split of a document: `None` when the text has no
/// well-formed frontmatter; otherwise the YAML block (the text between the
/// opening delimiter line and the earliest closing delimiter) and the body
/// (the text after the closing delimiter line, trimmed).
pub open spec fn fm_split(s: Seq<char>) -> Option<(Seq<char>, Seq<char>)> {
    if !has_at(s, 0, fm_dashes()) {
        None
    } else {
        match fm_pick_open(s, skip_spaces(s, 3)) {
            None => None,
            Some(e) => {
                let d = fm_first_close(s, e)->Some_0;
                let yaml = s.subrange(e, d);
                let body = trim_of(s.subrange(fm_close_rest(s, d), s.len() as int));
                Some((yaml, body))
            },
        }
    }
}

/// Decides whether the whitespace run starting at `p` holds a line break.
#[verifier::loop_isolation(false)]
fn tail_has_break_exec(cs: &Vec<char>, p: usize) -> (r: bool)
    requires
        p <= cs@.len(),
    ensures
        r == tail_has_break(cs@, p as int),
{
    let mut k: usize = p;
    while k < cs.len()
        invariant
            p <= k <= cs@.len(),
            tail_has_break(cs@, p as int) == tail_has_break(cs@, k as int),
        decreases cs@.len() - k,
    {
        if cs[k] == '\n' || cs[k] == '\r' {
            return true;
        }
        if !space_char(cs[k]) {
            return false;
        }
        k = k + 1;
    }
    false
}

/// Decides whether a closing frontmatter delimiter stands at `d`,
/// returning where the text after its `---` starts.
fn fm_close_exec(cs: &Vec<char>, dashes: &Vec<char>, d: usize) -> (r: Option<usize>)
    requires
        d <= cs@.len(),
        dashes@ == fm_dashes(),
    ensures
        match r {
            Some(p) => fm_close_at(cs@, d as int) && p == fm_close_rest(cs@, d as int)
                && d < p <= cs@.len(),
            None => !fm_close_at(cs@, d as int),
        },
{
    proof {
        reveal_strlit("---");
    }
    let n = cs.len();
    if d < n && cs[d] == '\r' && d + 1 < n && cs[d + 1] == '\n' && has_at_exec(cs, d + 2, dashes) {
        if tail_has_break_exec(cs, d + 5) {
            return Some(d + 5);
        }
    }
    proof {
        assert(!fm_close_with(cs@, d as int, 2));
    }
    if d < n && (cs[d] == '\n' || cs[d] == '\r') && has_at_exec(cs, d + 1, dashes) {
        if tail_has_break_exec(cs, d + 4) {
            return Some(d + 4);
        }
    }
    proof {
        assert(!fm_close_with(cs@, d as int, 1));
    }
    None
}

/// Finds the first closing delimiter at or after `e`, returning it with
/// the start of the text after its `---`.
#[verifier::loop_isolation(false)]
fn fm_first_close_exec(cs: &Vec<char>, dashes: &Vec<char>, e: usize) -> (r: Option<(usize, usize)>)
    requires
        e <= cs@.len(),
        dashes@ == fm_dashes(),
    ensures
        match r {
            Some(m) => fm_first_close(cs@, e as int) == Some(m.0 as int) && m.1
                == fm_close_rest(cs@, m.0 as int) && e <= m.0 < m.1 <= cs@.len(),
            None => fm_first_close(cs@, e as int) is None,
        },
{
    let mut d: usize = e;
    while d < cs.len()
        invariant
            e <= d <= cs@.len(),
            fm_first_close(cs@, e as int) == fm_first_close(cs@, d as int),
        decreases cs@.len() - d,
    {
        match fm_close_exec(cs, dashes, d) {
            Some(p) => {
                return Some((d, p));
            },
            None => {
                d = d + 1;
            },
        }
    }
    None
}

/// Extracts the YAML frontmatter block and the template body.
///
/// When the source opens with a `---` delimiter line and a later `---`
/// delimiter line closes the block, the text between them is the YAML
/// block and everything after the closing line, trimmed, is the body.
/// Otherwise the YAML block is empty and the body is the whole source,
/// untouched.
#[verifier::loop_isolation(false)]
pub fn extract_frontmatter_and_body(source: &str) -> (r: crate::error::Result<(String, String)>)
    ensures
        r matches Ok(p) && match fm_split(source@) {
            Some(sp) => p.0@ == sp.0 && p.1@ == sp.1,
            None => p.0@ == Seq::<char>::empty() && p.1@ == source@,
        },
{
    let cs = chars_of(source);
    let dashes = chars_of("---");
    let n = cs.len();
    if !has_at_exec(&cs, 0, &dashes) {
        return Ok((String::new(), source.to_owned()));
    }
    proof {
        reveal_strlit("---");
    }
    let run_end = skip_spaces_from(&cs, 3);
    let mut e: usize = run_end;
    while e >= 4
        invariant
            3 <= e <= run_end || (run_end < 4 && e == run_end),
            e <= run_end,
            fm_pick_open(cs@, run_end as int) == fm_pick_open(cs@, e as int),
        decreases e,
    {
        if cs[e - 1] == '\n' || cs[e - 1] == '\r' {
            match fm_first_close_exec(&cs, &dashes, e) {
                Some((d, p)) => {
                    proof {
                        assert(fm_pick_open(cs@, e as int) == Some(e as int));
                    }
                    let yaml = string_of_range(&cs, e, d);
                    let body = trim_range(&cs, p, n);
                    proof {
                        assert(cs@.subrange(p as int, n as int) =~= cs@.subrange(
                            fm_close_rest(cs@, d as int),
                            cs@.len() as int,
                        ));
                    }
                    return Ok((yaml, body));
                },
                None => {},
            }
        }
        e = e - 1;
    }
    proof {
        if run_end >= 4 {
            assert(fm_pick_open(cs@, run_end as int) == fm_pick_open(cs@, e as int));
        }
        assert(fm_pick_open(cs@, run_end as int) is None);
        assert(fm_split(source@) is None);
    }
    Ok((String::new(), source.to_owned()))
}

/// The text a role marker starts with; the role name and `>>>` follow.
pub open spec fn role_prefix() -> Seq<char> {
    "<<<dotprompt:role:"@
}

/// The text a history marker starts with; `>>>` follows.
pub open spec fn history_prefix() -> Seq<char> {
    "<<<dotprompt:history"@
}

/// The text a media marker starts with; the URL, an optional content type,
/// and `>>>` follow.
pub open spec fn media_prefix() -> Seq<char> {
    "<<<dotprompt:media:url"@
}

/// The text a section marker starts with; the section name and `>>>` follow.
pub open spec fn section_prefix() -> Seq<char> {
    "<<<dotprompt:section"@
}

/// The text that closes every marker.
pub open spec fn marker_close() -> Seq<char> {
    ">>>"@
}

/// A lowercase ASCII letter: the characters a role name is made of.
pub open spec fn is_lower(c: char) -> bool {
    'a' <= c && c <= 'z'
}

/// The end of the maximal run of lowercase letters starting at `i`.
pub open spec fn lower_run_end(s: Seq<char>, i: int) -> int
    decreases s.len() - i when 0 <= i <= s.len()
{
    if i >= s.len() {
        i
    } else if is_lower(s[i]) {
        lower_run_end(s, i + 1)
    } else {
        i
    }
}

/// `lower_run_end` stays in bounds; the run is lowercase and maximal.
pub proof fn lemma_lower_run_end(s: Seq<char>, i: int)
    requires
        0 <= i <= s.len(),
    ensures
        i <= lower_run_end(s, i) <= s.len(),
        forall|k: int| i <= k < lower_run_end(s, i) ==> is_lower(#[trigger] s[k]),
        lower_run_end(s, i) < s.len() ==> !is_lower(s[lower_run_end(s, i)]),
    decreases s.len() - i,
{
    if i < s.len() && is_lower(s[i]) {
        lemma_lower_run_end(s, i + 1);
    }
}

/// A role or history marker starting at `i`: returns the end of the kept
/// delimiter text (everything but `>>>`) and the position after `>>>`.
///
/// A role marker is the role prefix, one or more lowercase letters, and
/// `>>>`; a history marker is the history prefix followed by `>>>`.
pub open spec fn rh_match_at(s: Seq<char>, i: int) -> Option<(int, int)> {
    if has_at(s, i, role_prefix()) {
        let j = i + role_prefix().len();
        let e = lower_run_end(s, j);
        if e > j && has_at(s, e, marker_close()) {
            Some((e, e + marker_close().len() as int))
        } else {
            None
        }
    } else if has_at(s, i, history_prefix()) && has_at(
        s,
        i + history_prefix().len(),
        marker_close(),
    ) {
        let e = i + history_prefix().len();
        Some((e, e + marker_close().len() as int))
    } else {
        None
    }
}

/// A marker's delimiter text ends after `i` and the match ends in bounds.
pub proof fn lemma_rh_match_bounds(s: Seq<char>, i: int)
    requires
        0 <= i <= s.len(),
    ensures
        rh_match_at(s, i) matches Some(m) ==> i < m.0 && m.0 < m.1 <= s.len(),
{
    reveal_strlit("<<<dotprompt:role:");
    reveal_strlit("<<<dotprompt:history");
    reveal_strlit(">>>");
    if rh_match_at(s, i) is Some {
        if has_at(s, i, role_prefix()) {
            lemma_lower_run_end(s, i + role_prefix().len());
        }
    }
}

/// The first role or history marker at or after `i`: its start, the end of
/// its delimiter text, and the position after `>>>`.
pub open spec fn find_rh(s: Seq<char>, i: int) -> Option<(int, int, int)>
    decreases s.len() - i when 0 <= i <= s.len()
{
    if i >= s.len() {
        None
    } else if rh_match_at(s, i) is Some {
        let m = rh_match_at(s, i)->Some_0;
        Some((i, m.0, m.1))
    } else {
        find_rh(s, i + 1)
    }
}

/// What `find_rh` returns: the earliest match, within bounds.
pub proof fn lemma_find_rh(s: Seq<char>, i: int)
    requires
        0 <= i <= s.len(),
    ensures
        match find_rh(s, i) {
            Some(m) => i <= m.0 < s.len() && rh_match_at(s, m.0) == Some((m.1, m.2)) && m.0 < m.1
                && m.1 < m.2 <= s.len() && (forall|k: int|
                i <= k < m.0 ==> #[trigger] rh_match_at(s, k) is None),
            None => forall|k: int| i <= k < s.len() ==> #[trigger] rh_match_at(s, k) is None,
        },
    decreases s.len() - i,
{
    if i < s.len() {
        if rh_match_at(s, i) is Some {
            lemma_rh_match_bounds(s, i);
        } else {
            lemma_find_rh(s, i + 1);
        }
    }
}

/// The pieces that splitting `s` at or after `i` on role and history
/// markers produces: literal runs that are not whitespace-only, and the
/// markers' delimiter texts (without `>>>`), in order.
pub open spec fn split_rh(s: Seq<char>, i: int) -> Seq<Seq<char>>
    decreases s.len() - i when 0 <= i <= s.len() via split_rh_decreases
{
    match find_rh(s, i) {
        None => {
            let rest = s.subrange(i, s.len() as int);
            if blank(rest) {
                Seq::empty()
            } else {
                seq![rest]
            }
        },
        Some(m) => {
            let pre = s.subrange(i, m.0);
            let delim = s.subrange(m.0, m.1);
            let tail = split_rh(s, m.2);
            if blank(pre) {
                seq![delim] + tail
            } else {
                seq![pre, delim] + tail
            }
        },
    }
}

#[via_fn]
proof fn split_rh_decreases(s: Seq<char>, i: int) {
    lemma_find_rh(s, i);
}

/// Splits rendered text on role and history markers, keeping the markers'
/// delimiter texts as pieces and dropping whitespace-only literal runs.
#[verifier::loop_isolation(false)]
pub fn split_by_role_and_history_markers(rendered_string: &str) -> (r: Vec<String>)
    ensures
        r.deep_view() == split_rh(rendered_string@, 0),
{
    let cs = chars_of(rendered_string);
    let role_pat = chars_of("<<<dotprompt:role:");
    let hist_pat = chars_of("<<<dotprompt:history");
    let close_pat = chars_of(">>>");
    let n = cs.len();
    let mut out: Vec<String> = Vec::new();
    let mut i: usize = 0;
    let mut j: usize = 0;
    proof {
        assert(out.deep_view() =~= Seq::<Seq<char>>::empty());
    }
    while j < n
        invariant
            i <= j <= n,
            n == cs@.len(),
            cs@ == rendered_string@,
            role_pat@ == role_prefix(),
            hist_pat@ == history_prefix(),
            close_pat@ == marker_close(),
            forall|k: int| i as int <= k < j as int ==> #[trigger] rh_match_at(cs@, k) is None,
            split_rh(cs@, 0) == out.deep_view() + split_rh(cs@, i as int),
        decreases n - j,
    {
        let m = rh_match_exec(&cs, &role_pat, &hist_pat, &close_pat, j);
        match m {
            Some((pe, rs)) => {
                proof {
                    lemma_find_rh_from(cs@, i as int, j as int);
                    assert(find_rh(cs@, i as int) == Some((j as int, pe as int, rs as int)));
                }
                if !blank_range(&cs, i, j) {
                    let pre = string_of_range(&cs, i, j);
                    out.push(pre);
                }
                let delim = string_of_range(&cs, j, pe);
                out.push(delim);
                proof {
                    assert(split_rh(cs@, 0) =~= out.deep_view() + split_rh(cs@, rs as int));
                }
                i = rs;
                j = rs;
            },
            None => {
                j = j + 1;
            },
        }
    }
    proof {
        lemma_find_rh_from(cs@, i as int, n as int);
        assert(find_rh(cs@, i as int) is None);
    }
    if !blank_range(&cs, i, n) {
        let rest = string_of_range(&cs, i, n);
        out.push(rest);
        proof {
            assert(split_rh(cs@, i as int) =~= seq![cs@.subrange(i as int, n as int)]);
            assert(out.deep_view() =~= split_rh(cs@, 0));
        }
    } else {
        proof {
            assert(split_rh(cs@, i as int) =~= Seq::<Seq<char>>::empty());
            assert(out.deep_view() =~= out.deep_view() + split_rh(cs@, i as int));
        }
    }
    out
}

/// When no marker starts in `[i, j)`, the first marker at or after `i` is
/// the first one at or after `j`.
pub proof fn lemma_find_rh_from(s: Seq<char>, i: int, j: int)
    requires
        0 <= i <= j <= s.len(),
        forall|k: int| i <= k < j ==> #[trigger] rh_match_at(s, k) is None,
    ensures
        find_rh(s, i) == find_rh(s, j),
    decreases j - i,
{
    if i < j {
        lemma_find_rh_from(s, i + 1, j);
    }
}

/// Decides whether a role or history marker starts at `j`, returning the
/// end of its delimiter text and the position after `>>>`.
#[verifier::loop_isolation(false)]
pub fn rh_match_exec(
    cs: &Vec<char>,
    role_pat: &Vec<char>,
    hist_pat: &Vec<char>,
    close_pat: &Vec<char>,
    j: usize,
) -> (r: Option<(usize, usize)>)
    requires
        j <= cs@.len(),
        role_pat@ == role_prefix(),
        hist_pat@ == history_prefix(),
        close_pat@ == marker_close(),
    ensures
        match r {
            Some(m) => rh_match_at(cs@, j as int) == Some((m.0 as int, m.1 as int))
                && j < m.0 < m.1 <= cs@.len(),
            None => rh_match_at(cs@, j as int) is None,
        },
{
    proof {
        lemma_rh_match_bounds(cs@, j as int);
    }
    let total = cs.len();
    if has_at_exec(cs, j, role_pat) {
        proof {
            assert(j as int + role_pat@.len() <= cs@.len());
            assert(cs@.len() == total as int);
        }
        let start = j + role_pat.len();
        let mut e: usize = start;
        while e < cs.len() && cs[e] >= 'a' && cs[e] <= 'z'
            invariant
                start <= e <= cs@.len(),
                lower_run_end(cs@, start as int) == lower_run_end(cs@, e as int),
            decreases cs@.len() - e,
        {
            e = e + 1;
        }
        proof {
            assert(lower_run_end(cs@, e as int) == e as int);
        }
        if e > start && has_at_exec(cs, e, close_pat) {
            proof {
                reveal_strlit(">>>");
            }
            Some((e, e + 3))
        } else {
            None
        }
    } else if has_at_exec(cs, j, hist_pat) {
        proof {
            assert(j as int + hist_pat@.len() <= cs@.len());
            assert(cs@.len() == total as int);
        }
        if has_at_exec(cs, j + hist_pat.len(), close_pat) {
            proof {
                reveal_strlit(">>>");
                assert(j as int + hist_pat@.len() + close_pat@.len() <= cs@.len());
            }
            Some((j + hist_pat.len(), j + hist_pat.len() + 3))
        } else {
            None
        }
    } else {
        None
    }
}

/// The position of the first `>>>` reachable from `k` without crossing a
/// line break: a media or section marker's body may not span lines.
pub open spec fn ms_close(s: Seq<char>, k: int) -> Option<int>
    decreases s.len() - k when 0 <= k <= s.len()
{
    if has_at(s, k, marker_close()) {
        Some(k)
    } else if k >= s.len() || s[k] == '\n' {
        None
    } else {
        ms_close(s, k + 1)
    }
}

/// `ms_close` stays in bounds.
pub proof fn lemma_ms_close(s: Seq<char>, k: int)
    requires
        0 <= k <= s.len(),
    ensures
        ms_close(s, k) matches Some(c) ==> k <= c && c + marker_close().len() <= s.len(),
    decreases s.len() - k,
{
    if !has_at(s, k, marker_close()) && k < s.len() && s[k] != '\n' {
        lemma_ms_close(s, k + 1);
    }
}

/// A media or section marker starting at `i`: returns the end of the kept
/// delimiter text (everything but `>>>`) and the position after `>>>`.
pub open spec fn ms_match_at(s: Seq<char>, i: int) -> Option<(int, int)> {
    if has_at(s, i, media_prefix()) {
        match ms_close(s, i + media_prefix().len()) {
            Some(c) => Some((c, c + marker_close().len() as int)),
            None => None,
        }
    } else if has_at(s, i, section_prefix()) {
        match ms_close(s, i + section_prefix().len()) {
            Some(c) => Some((c, c + marker_close().len() as int)),
            None => None,
        }
    } else {
        None
    }
}

/// A media or section marker's delimiter ends after `i`, in bounds.
pub proof fn lemma_ms_match_bounds(s: Seq<char>, i: int)
    requires
        0 <= i <= s.len(),
    ensures
        ms_match_at(s, i) matches Some(m) ==> i < m.0 && m.0 < m.1 <= s.len(),
{
    reveal_strlit("<<<dotprompt:media:url");
    reveal_strlit("<<<dotprompt:section");
    reveal_strlit(">>>");
    if has_at(s, i, media_prefix()) {
        lemma_ms_close(s, i + media_prefix().len());
    } else if has_at(s, i, section_prefix()) {
        lemma_ms_close(s, i + section_prefix().len());
    }
}

/// The first media or section marker at or after `i`.
pub open spec fn find_ms(s: Seq<char>, i: int) -> Option<(int, int, int)>
    decreases s.len() - i when 0 <= i <= s.len()
{
    if i >= s.len() {
        None
    } else if ms_match_at(s, i) is Some {
        let m = ms_match_at(s, i)->Some_0;
        Some((i, m.0, m.1))
    } else {
        find_ms(s, i + 1)
    }
}

/// What `find_ms` returns: the earliest match, within bounds.
pub proof fn lemma_find_ms(s: Seq<char>, i: int)
    requires
        0 <= i <= s.len(),
    ensures
        match find_ms(s, i) {
            Some(m) => i <= m.0 < s.len() && ms_match_at(s, m.0) == Some((m.1, m.2)) && m.0 < m.1
                && m.1 < m.2 <= s.len() && (forall|k: int|
                i <= k < m.0 ==> #[trigger] ms_match_at(s, k) is None),
            None => forall|k: int| i <= k < s.len() ==> #[trigger] ms_match_at(s, k) is None,
        },
    decreases s.len() - i,
{
    if i < s.len() {
        if ms_match_at(s, i) is Some {
            lemma_ms_match_bounds(s, i);
        } else {
            lemma_find_ms(s, i + 1);
        }
    }
}

/// When no marker starts in `[i, j)`, the first media or section marker at
/// or after `i` is the first one at or after `j`.
pub proof fn lemma_find_ms_from(s: Seq<char>, i: int, j: int)
    requires
        0 <= i <= j <= s.len(),
        forall|k: int| i <= k < j ==> #[trigger] ms_match_at(s, k) is None,
    ensures
        find_ms(s, i) == find_ms(s, j),
    decreases j - i,
{
    if i < j {
        lemma_find_ms_from(s, i + 1, j);
    }
}

/// The pieces that splitting `s` at or after `i` on media and section
/// markers produces.
pub open spec fn split_ms(s: Seq<char>, i: int) -> Seq<Seq<char>>
    decreases s.len() - i when 0 <= i <= s.len() via split_ms_decreases
{
    match find_ms(s, i) {
        None => {
            let rest = s.subrange(i, s.len() as int);
            if blank(rest) {
                Seq::empty()
            } else {
                seq![rest]
            }
        },
        Some(m) => {
            let pre = s.subrange(i, m.0);
            let delim = s.subrange(m.0, m.1);
            let tail = split_ms(s, m.2);
            if blank(pre) {
                seq![delim] + tail
            } else {
                seq![pre, delim] + tail
            }
        },
    }
}

#[via_fn]
proof fn split_ms_decreases(s: Seq<char>, i: int) {
    lemma_find_ms(s, i);
}

/// Decides whether a media or section marker starts at `j`, returning the
/// end of its delimiter text and the position after `>>>`.
#[verifier::loop_isolation(false)]
fn ms_match_exec(
    cs: &Vec<char>,
    media_pat: &Vec<char>,
    section_pat: &Vec<char>,
    close_pat: &Vec<char>,
    j: usize,
) -> (r: Option<(usize, usize)>)
    requires
        j <= cs@.len(),
        media_pat@ == media_prefix(),
        section_pat@ == section_prefix(),
        close_pat@ == marker_close(),
    ensures
        match r {
            Some(m) => ms_match_at(cs@, j as int) == Some((m.0 as int, m.1 as int))
                && j < m.0 < m.1 <= cs@.len(),
            None => ms_match_at(cs@, j as int) is None,
        },
{
    proof {
        lemma_ms_match_bounds(cs@, j as int);
    }
    let total = cs.len();
    let body_start: usize;
    if has_at_exec(cs, j, media_pat) {
        proof {
            assert(j as int + media_pat@.len() <= cs@.len());
            assert(cs@.len() == total as int);
        }
        body_start = j + media_pat.len();
    } else if has_at_exec(cs, j, section_pat) {
        proof {
            assert(j as int + section_pat@.len() <= cs@.len());
            assert(cs@.len() == total as int);
        }
        body_start = j + section_pat.len();
    } else {
        return None;
    }
    let mut k: usize = body_start;
    loop
        invariant
            body_start <= k <= total,
            ms_close(cs@, body_start as int) == ms_close(cs@, k as int),
        decreases total - k,
    {
        if has_at_exec(cs, k, close_pat) {
            proof {
                reveal_strlit(">>>");
            }
            return Some((k, k + 3));
        }
        if k >= total || cs[k] == '\n' {
            return None;
        }
        k = k + 1;
    }
}

/// Splits message text on media and section markers, keeping the markers'
/// delimiter texts as pieces and dropping whitespace-only literal runs.
#[verifier::loop_isolation(false)]
pub fn split_by_media_and_section_markers(source: &str) -> (r: Vec<String>)
    ensures
        r.deep_view() == split_ms(source@, 0),
{
    let cs = chars_of(source);
    let media_pat = chars_of("<<<dotprompt:media:url");
    let section_pat = chars_of("<<<dotprompt:section");
    let close_pat = chars_of(">>>");
    let n = cs.len();
    let mut out: Vec<String> = Vec::new();
    let mut i: usize = 0;
    let mut j: usize = 0;
    proof {
        assert(out.deep_view() =~= Seq::<Seq<char>>::empty());
    }
    while j < n
        invariant
            i <= j <= n,
            n == cs@.len(),
            cs@ == source@,
            media_pat@ == media_prefix(),
            section_pat@ == section_prefix(),
            close_pat@ == marker_close(),
            forall|k: int| i as int <= k < j as int ==> #[trigger] ms_match_at(cs@, k) is None,
            split_ms(cs@, 0) == out.deep_view() + split_ms(cs@, i as int),
        decreases n - j,
    {
        let m = ms_match_exec(&cs, &media_pat, &section_pat, &close_pat, j);
        match m {
            Some((pe, rs)) => {
                proof {
                    lemma_find_ms_from(cs@, i as int, j as int);
                    assert(find_ms(cs@, i as int) == Some((j as int, pe as int, rs as int)));
                }
                if !blank_range(&cs, i, j) {
                    let pre = string_of_range(&cs, i, j);
                    out.push(pre);
                }
                let delim = string_of_range(&cs, j, pe);
                out.push(delim);
                proof {
                    assert(split_ms(cs@, 0) =~= out.deep_view() + split_ms(cs@, rs as int));
                }
                i = rs;
                j = rs;
            },
            None => {
                j = j + 1;
            },
        }
    }
    proof {
        lemma_find_ms_from(cs@, i as int, n as int);
        assert(find_ms(cs@, i as int) is None);
    }
    if !blank_range(&cs, i, n) {
        let rest = string_of_range(&cs, i, n);
        out.push(rest);
        proof {
            assert(split_ms(cs@, i as int) =~= seq![cs@.subrange(i as int, n as int)]);
            assert(out.deep_view() =~= split_ms(cs@, 0));
        }
    } else {
        proof {
            assert(split_ms(cs@, i as int) =~= Seq::<Seq<char>>::empty());
            assert(out.deep_view() =~= out.deep_view() + split_ms(cs@, i as int));
        }
    }
    out
}

/// The media part a media marker's delimiter text decodes to: the first
/// whitespace-separated token after the prefix is the URL (empty when there
/// is none), the second, when present, the content type.
pub open spec fn media_part_of(piece: Seq<char>) -> PartV {
    let content = piece.skip(media_prefix().len() as int);
    let t1s = skip_spaces(content, 0);
    let t1e = skip_non_spaces(content, t1s);
    let t2s = skip_spaces(content, t1e);
    let t2e = skip_non_spaces(content, t2s);
    let url = content.subrange(t1s, t1e);
    let content_type = if t2s < content.len() {
        Some(content.subrange(t2s, t2e))
    } else {
        None
    };
    PartV::Media(MediaContentV { url, content_type }, None)
}

/// The pending part a section marker's delimiter text decodes to: its
/// metadata binds "purpose" to the trimmed section name and "pending" to
/// true.
pub open spec fn section_part_of(piece: Seq<char>) -> PartV {
    let purpose = trim_of(piece.skip(section_prefix().len() as int));
    PartV::Pending(seq![("purpose"@, ValV::Str(purpose)), ("pending"@, ValV::Bool(true))])
}

/// The part a piece decodes to, by its prefix: a media part, a pending
/// part, or plain text.
pub open spec fn part_of_piece(piece: Seq<char>) -> PartV {
    if has_at(piece, 0, media_prefix()) {
        media_part_of(piece)
    } else if has_at(piece, 0, section_prefix()) {
        section_part_of(piece)
    } else {
        PartV::Text(piece, None)
    }
}

/// The parts that message text decodes to: the text is split on media and
/// section markers and each piece becomes one part.
pub open spec fn to_parts_model(s: Seq<char>) -> Seq<PartV> {
    split_ms(s, 0).map_values(|p: Seq<char>| part_of_piece(p))
}

/// Decodes one piece into a content part by its prefix.
pub fn parse_part(piece: &str) -> (r: Part)
    ensures
        r@ == part_of_piece(piece@),
{
    let cs = chars_of(piece);
    let media_pat = chars_of("<<<dotprompt:media:url");
    let section_pat = chars_of("<<<dotprompt:section");
    if has_at_exec(&cs, 0, &media_pat) {
        let content = subvec(&cs, media_pat.len(), cs.len());
        proof {
            assert(content@ =~= piece@.skip(media_prefix().len() as int));
        }
        let t1s = skip_spaces_from(&content, 0);
        let t1e = skip_non_spaces_from(&content, t1s);
        let t2s = skip_spaces_from(&content, t1e);
        let t2e = skip_non_spaces_from(&content, t2s);
        let url = string_of_range(&content, t1s, t1e);
        let content_type = if t2s < content.len() {
            Some(string_of_range(&content, t2s, t2e))
        } else {
            None
        };
        Part::Media(MediaContent { url, content_type }, None)
    } else if has_at_exec(&cs, 0, &section_pat) {
        let purpose = trim_range(&cs, section_pat.len(), cs.len());
        proof {
            assert(cs@.subrange(section_prefix().len() as int, cs@.len() as int) =~= piece@.skip(
                section_prefix().len() as int,
            ));
        }
        let mut metadata: Vec<(String, Val)> = Vec::new();
        metadata.push((String::from_str("purpose"), Val::Str(purpose)));
        metadata.push((String::from_str("pending"), Val::Bool(true)));
        let r = Part::Pending(metadata);
        proof {
            assert(r@ matches PartV::Pending(m) && m =~= section_part_of(piece@)->Pending_0);
        }
        r
    } else {
        Part::Text(piece.to_owned(), None)
    }
}

/// A message being assembled while decoding rendered text.
pub struct MessageSource {
    /// Role of the message.
    pub role: Role,
    /// Literal text gathered so far.
    pub source: String,
    /// Pre-built content, set only for injected history messages.
    pub content: Option<Vec<Part>>,
    /// Optional metadata.
    pub metadata: Option<Vec<(String, Val)>>,
}

/// The model of a message being assembled.
#[verifier::ext_equal]
pub struct SourceV {
    /// Role of the message.
    pub role: Role,
    /// Literal text gathered so far.
    pub source: Seq<char>,
    /// Pre-built content, set only for injected history messages.
    pub content: Option<Seq<PartV>>,
    /// Optional metadata.
    pub metadata: Option<Seq<(Seq<char>, ValV)>>,
}

impl View for MessageSource {
    type V = SourceV;

    open spec fn view(&self) -> SourceV {
        SourceV {
            role: self.role,
            source: self.source@,
            content: match self.content {
                Some(c) => Some(parts_model(c@)),
                None => None,
            },
            metadata: opt_map_model(self.metadata),
        }
    }
}

impl MessageSource {
    /// A fresh accumulator for the given role: empty text, no content, no
    /// metadata.
    pub fn new(role: Role) -> (r: MessageSource)
        ensures
            r@ == fresh_source(role),
    {
        MessageSource { role, source: String::new(), content: None, metadata: None }
    }

    /// Whether this accumulator will survive as a message: it has pre-built
    /// content or text that is not whitespace-only.
    pub fn has_content(&self) -> (r: bool)
        ensures
            r == source_has_content(self@),
    {
        let cs = chars_of(self.source.as_str());
        let n = cs.len();
        proof {
            assert(cs@.subrange(0, n as int) =~= self.source@);
        }
        !blank_range(&cs, 0, n) || self.content.is_some()
    }
}

/// A fresh accumulator model for the given role.
pub open spec fn fresh_source(role: Role) -> SourceV {
    SourceV { role, source: Seq::empty(), content: None, metadata: None }
}

/// Whether an accumulator will survive as a message.
pub open spec fn source_has_content(sv: SourceV) -> bool {
    !blank(sv.source) || sv.content is Some
}

/// The role a role marker's delimiter text names: `model`, `tool` and
/// `system` are recognized; anything else is `user`.
pub open spec fn role_of_marker(piece: Seq<char>) -> Role {
    let rest = piece.skip(role_prefix().len() as int);
    if rest == "model"@ {
        Role::Model
    } else if rest == "tool"@ {
        Role::Tool
    } else if rest == "system"@ {
        Role::System
    } else {
        Role::User
    }
}

/// The accumulator a history message is injected as: its content is
/// pre-built and its metadata binds "purpose" to "history".
pub open spec fn history_source_of(m: MessageV) -> SourceV {
    let base = match m.metadata {
        Some(md) => md,
        None => Seq::empty(),
    };
    SourceV {
        role: m.role,
        source: Seq::empty(),
        content: Some(m.content),
        metadata: Some(assoc_set(base, "purpose"@, ValV::Str("history"@))),
    }
}

/// The accumulators the history messages are injected as, in order.
pub open spec fn history_sources_of(history: Option<Seq<MessageV>>) -> Seq<SourceV> {
    match history {
        Some(h) => Seq::new(h.len(), |i: int| history_source_of(h[i])),
        None => Seq::empty(),
    }
}

/// Walks the pieces from index `k` with the current accumulator `cur` and
/// the finished accumulators `out`, and returns every accumulator, the
/// final one included:
///
/// - a piece starting like a role marker changes the current role in place
///   when no text has been gathered, and otherwise finishes the current
///   accumulator and starts a fresh one with the new role;
/// - a piece starting like a history marker finishes the current
///   accumulator when it has text, injects the history messages, and starts
///   a fresh accumulator with role `model`;
/// - any other piece is literal text appended to the current accumulator.
pub open spec fn decode_sources(
    pieces: Seq<Seq<char>>,
    k: int,
    cur: SourceV,
    out: Seq<SourceV>,
    history: Option<Seq<MessageV>>,
) -> Seq<SourceV>
    decreases pieces.len() - k when 0 <= k <= pieces.len()
{
    if k >= pieces.len() {
        out.push(cur)
    } else {
        let p = pieces[k];
        if has_at(p, 0, role_prefix()) {
            let role = role_of_marker(p);
            if blank(cur.source) {
                decode_sources(pieces, k + 1, SourceV { role, ..cur }, out, history)
            } else {
                decode_sources(pieces, k + 1, fresh_source(role), out.push(cur), history)
            }
        } else if has_at(p, 0, history_prefix()) {
            let out1 = if !blank(cur.source) {
                out.push(cur)
            } else {
                out
            };
            decode_sources(
                pieces,
                k + 1,
                fresh_source(Role::Model),
                out1 + history_sources_of(history),
                history,
            )
        } else {
            decode_sources(pieces, k + 1, SourceV { source: cur.source + p, ..cur }, out, history)
        }
    }
}

/// The message an accumulator becomes: pre-built content is kept, and
/// gathered text is decoded into parts.
pub open spec fn message_of_source(sv: SourceV) -> MessageV {
    MessageV {
        role: sv.role,
        content: match sv.content {
            Some(c) => c,
            None => to_parts_model(sv.source),
        },
        metadata: sv.metadata,
    }
}

/// The messages the accumulators become, keeping those with content.
pub open spec fn sources_to_messages_model(svs: Seq<SourceV>) -> Seq<MessageV>
    decreases svs.len(),
{
    if svs.len() == 0 {
        Seq::empty()
    } else {
        let rest = sources_to_messages_model(svs.drop_first());
        if source_has_content(svs[0]) {
            seq![message_of_source(svs[0])] + rest
        } else {
            rest
        }
    }
}

/// Whether a message is tagged as injected history.
pub open spec fn is_history_message(m: MessageV) -> bool {
    match m.metadata {
        Some(md) => assoc_get(md, "purpose"@) == Some(ValV::Str("history"@)),
        None => false,
    }
}

/// Whether any message in the list is tagged as injected history.
pub open spec fn messages_have_history_model(ms: Seq<MessageV>) -> bool {
    exists|i: int| 0 <= i < ms.len() && is_history_message(#[trigger] ms[i])
}

/// Where `insert_history` places the history:
///
/// - absent or empty history leaves the messages unchanged;
/// - a list already tagged with history is left unchanged;
/// - an empty list becomes the history itself, untagged;
/// - when the last message is a user turn, the history goes right before
///   it; otherwise it is appended.
pub open spec fn insert_history_model(
    ms: Seq<MessageV>,
    history: Option<Seq<MessageV>>,
) -> Seq<MessageV> {
    match history {
        None => ms,
        Some(h) => if h.len() == 0 {
            ms
        } else if messages_have_history_model(ms) {
            ms
        } else if ms.len() == 0 {
            h
        } else if ms.last().role == Role::User {
            ms.drop_last() + h + seq![ms.last()]
        } else {
            ms + h
        },
    }
}

/// The history carried by an optional data argument.
pub open spec fn history_model_of(data: Option<&DataArgument>) -> Option<Seq<MessageV>> {
    match data {
        Some(d) => match d.messages {
            Some(h) => Some(messages_model(h@)),
            None => None,
        },
        None => None,
    }
}

/// The messages rendered text decodes to: the text is split on role and
/// history markers, folded into accumulators, the accumulators become
/// messages, and the history is merged in.
pub open spec fn to_messages_model(s: Seq<char>, history: Option<Seq<MessageV>>) -> Seq<MessageV> {
    let pieces = split_rh(s, 0);
    let sources = decode_sources(pieces, 0, fresh_source(Role::User), Seq::empty(), history);
    insert_history_model(sources_to_messages_model(sources), history)
}

/// Decodes message text into content parts.
#[verifier::loop_isolation(false)]
pub fn to_parts(source: &str) -> (r: Vec<Part>)
    ensures
        parts_model(r@) == to_parts_model(source@),
{
    let pieces = split_by_media_and_section_markers(source);
    let mut r: Vec<Part> = Vec::new();
    let mut i: usize = 0;
    while i < pieces.len()
        invariant
            i <= pieces@.len(),
            r@.len() == i as int,
            pieces.deep_view() == split_ms(source@, 0),
            forall|k: int| 0 <= k < i as int ==> (#[trigger] r@[k])@ == part_of_piece(
                pieces@[k]@,
            ),
        decreases pieces@.len() - i,
    {
        let p = parse_part(pieces[i].as_str());
        r.push(p);
        i = i + 1;
    }
    proof {
        assert(parts_model(r@) =~= to_parts_model(source@));
    }
    r
}

/// The model of an accumulator list.
pub open spec fn sources_model(svs: Seq<MessageSource>) -> Seq<SourceV> {
    Seq::new(svs.len(), |i: int| svs[i]@)
}

/// The history-tagged copy of a message: its metadata binds "purpose" to
/// "history".
pub open spec fn history_message_of(m: MessageV) -> MessageV {
    let base = match m.metadata {
        Some(md) => md,
        None => Seq::empty(),
    };
    MessageV {
        role: m.role,
        content: m.content,
        metadata: Some(assoc_set(base, "purpose"@, ValV::Str("history"@))),
    }
}

/// Copies messages, tagging each as history by binding "purpose" to
/// "history" in its metadata.
#[verifier::loop_isolation(false)]
pub fn transform_messages_to_history(messages: &Vec<Message>) -> (r: Vec<Message>)
    ensures
        r@.len() == messages@.len(),
        forall|i: int| 0 <= i < messages@.len() ==> (#[trigger] r@[i])@ == history_message_of(
            messages@[i]@,
        ),
{
    let mut out: Vec<Message> = Vec::new();
    let mut i: usize = 0;
    while i < messages.len()
        invariant
            i <= messages@.len(),
            out@.len() == i as int,
            forall|j: int| 0 <= j < i as int ==> (#[trigger] out@[j])@ == history_message_of(
                messages@[j]@,
            ),
        decreases messages@.len() - i,
    {
        let m = &messages[i];
        let mut md = match &m.metadata {
            Some(md0) => duplicate_meta(md0),
            None => Vec::new(),
        };
        proof {
            if m.metadata is None {
                assert(map_model(md@) =~= Seq::<(Seq<char>, ValV)>::empty());
            }
        }
        meta_set(&mut md, String::from_str("purpose"), Val::Str(String::from_str("history")));
        let tagged = Message {
            role: m.role,
            content: duplicate_parts(&m.content),
            metadata: Some(md),
        };
        proof {
            assert(tagged@ =~= history_message_of(m@));
        }
        out.push(tagged);
        i = i + 1;
    }
    out
}

/// Decides whether a message is tagged as injected history.
pub fn message_is_history(m: &Message) -> (r: bool)
    ensures
        r == is_history_message(m@),
{
    match &m.metadata {
        Some(md) => match meta_get(md, "purpose") {
            Some(v) => match v {
                Val::Str(s) => s.as_str().eq("history"),
                _ => false,
            },
            None => false,
        },
        None => false,
    }
}

/// Decides whether any message in the list is tagged as injected history.
#[verifier::loop_isolation(false)]
pub fn messages_have_history(messages: &Vec<Message>) -> (r: bool)
    ensures
        r == messages_have_history_model(messages_model(messages@)),
{
    let ghost ms = messages_model(messages@);
    let mut i: usize = 0;
    while i < messages.len()
        invariant
            i <= messages@.len(),
            forall|j: int| 0 <= j < i as int ==> !is_history_message(#[trigger] ms[j]),
        decreases messages@.len() - i,
    {
        if message_is_history(&messages[i]) {
            proof {
                assert(is_history_message(ms[i as int]));
            }
            return true;
        }
        i = i + 1;
    }
    false
}

/// Splices prior conversation turns into a decoded message list.
///
/// Absent or empty history, or a list already tagged with history, is left
/// unchanged; an empty list becomes the history itself; when the last
/// message is a user turn the history goes right before it; otherwise the
/// history is appended.  The spliced messages are not tagged.
pub fn insert_history(messages: Vec<Message>, history: Option<&Vec<Message>>) -> (r: Vec<Message>)
    ensures
        messages_model(r@) == insert_history_model(
            messages_model(messages@),
            match history {
                Some(h) => Some(messages_model(h@)),
                None => None,
            },
        ),
{
    let h = match history {
        Some(h) => {
            if h.len() == 0 {
                return messages;
            }
            h
        },
        None => {
            return messages;
        },
    };
    if messages_have_history(&messages) {
        return messages;
    }
    if messages.len() == 0 {
        let r = duplicate_messages(h);
        proof {
            assert(messages_model(messages@) =~= Seq::<MessageV>::empty());
        }
        return r;
    }
    let ghost ms = messages_model(messages@);
    let mut rest = messages;
    let last = rest.pop().unwrap();
    proof {
        assert(messages_model(rest@) =~= ms.drop_last());
        assert(last@ == ms.last());
    }
    if matches!(last.role, Role::User) {
        let mut hdup = duplicate_messages(h);
        let mut r = rest;
        r.append(&mut hdup);
        r.push(last);
        proof {
            assert(messages_model(r@) =~= ms.drop_last() + messages_model(h@) + seq![ms.last()]);
        }
        r
    } else {
        let mut hdup = duplicate_messages(h);
        let mut r = rest;
        r.push(last);
        proof {
            assert(messages_model(r@) =~= ms);
        }
        r.append(&mut hdup);
        proof {
            assert(messages_model(r@) =~= ms + messages_model(h@));
        }
        r
    }
}

/// Turns finished accumulators into messages, keeping those with content.
#[verifier::loop_isolation(false)]
pub fn message_sources_to_messages(sources: Vec<MessageSource>) -> (r: Vec<Message>)
    ensures
        messages_model(r@) == sources_to_messages_model(sources_model(sources@)),
{
    let ghost orig = sources_model(sources@);
    let mut rest = sources;
    let mut out: Vec<Message> = Vec::new();
    while rest.len() > 0
        invariant
            sources_to_messages_model(orig) == messages_model(out@) + sources_to_messages_model(
                sources_model(rest@),
            ),
        decreases rest@.len(),
    {
        let ghost before = sources_model(rest@);
        let sv = rest.remove(0);
        proof {
            assert(sources_model(rest@) =~= before.drop_first());
            assert(sv@ == before[0]);
        }
        let keep = sv.has_content();
        let MessageSource { role, source, content, metadata } = sv;
        if keep {
            let parts = match content {
                Some(c) => c,
                None => to_parts(source.as_str()),
            };
            let msg = Message { role, content: parts, metadata };
            proof {
                assert(msg@ =~= message_of_source(before[0]));
            }
            out.push(msg);
            proof {
                assert(messages_model(out@) =~= messages_model(out@.drop_last()).push(msg@));
                assert(messages_model(out@) + sources_to_messages_model(before.drop_first())
                    =~= messages_model(out@.drop_last()) + sources_to_messages_model(before));
            }
        }
    }
    proof {
        assert(sources_model(rest@) =~= Seq::<SourceV>::empty());
        assert(sources_to_messages_model(sources_model(rest@)) =~= Seq::<MessageV>::empty());
        assert(messages_model(out@) =~= messages_model(out@) + sources_to_messages_model(
            sources_model(rest@),
        ));
    }
    out
}

/// Decodes rendered template text into messages, injecting the prior turns
/// carried by `data` at an explicit history marker or, failing that, at the
/// position the history-merge policy picks.
#[verifier::loop_isolation(false)]
pub fn to_messages(rendered_string: &str, data: Option<&DataArgument>) -> (r: Vec<Message>)
    ensures
        messages_model(r@) == to_messages_model(rendered_string@, history_model_of(data)),
{
    let ghost hist = history_model_of(data);
    let pieces = split_by_role_and_history_markers(rendered_string);
    let ghost pv = pieces.deep_view();
    let role_pat = chars_of("<<<dotprompt:role:");
    let hist_pat = chars_of("<<<dotprompt:history");
    let mut cur = MessageSource::new(Role::User);
    let mut sources: Vec<MessageSource> = Vec::new();
    let mut k: usize = 0;
    proof {
        assert(sources_model(sources@) =~= Seq::<SourceV>::empty());
    }
    while k < pieces.len()
        invariant
            k <= pieces@.len(),
            pv == pieces.deep_view(),
            role_pat@ == role_prefix(),
            hist_pat@ == history_prefix(),
            decode_sources(pv, 0, fresh_source(Role::User), Seq::empty(), hist) == decode_sources(
                pv,
                k as int,
                cur@,
                sources_model(sources@),
                hist,
            ),
        decreases pieces@.len() - k,
    {
        let ghost prev_cur = cur@;
        let ghost prev_out = sources_model(sources@);
        let piece = &pieces[k];
        let pcs = chars_of(piece.as_str());
        proof {
            assert(pcs@ == pv[k as int]);
        }
        let src_cs = chars_of(cur.source.as_str());
        let src_blank = blank_range(&src_cs, 0, src_cs.len());
        proof {
            assert(src_cs@.subrange(0, src_cs@.len() as int) =~= cur.source@);
        }
        if has_at_exec(&pcs, 0, &role_pat) {
            let rest = string_of_range(&pcs, role_pat.len(), pcs.len());
            proof {
                assert(rest@ =~= pv[k as int].skip(role_prefix().len() as int));
            }
            let role = if rest.as_str().eq("model") {
                Role::Model
            } else if rest.as_str().eq("tool") {
                Role::Tool
            } else if rest.as_str().eq("system") {
                Role::System
            } else {
                Role::User
            };
            proof {
                assert(role == role_of_marker(pv[k as int]));
            }
            if src_blank {
                cur.role = role;
                proof {
                    assert(cur@ =~= (SourceV { role, ..prev_cur }));
                }
            } else {
                sources.push(cur);
                cur = MessageSource::new(role);
                proof {
                    assert(sources_model(sources@) =~= prev_out.push(prev_cur));
                }
            }
        } else if has_at_exec(&pcs, 0, &hist_pat) {
            if !src_blank {
                sources.push(cur);
                proof {
                    assert(sources_model(sources@) =~= prev_out.push(prev_cur));
                }
            }
            let ghost out1 = sources_model(sources@);
            match data {
                Some(d) => match &d.messages {
                    Some(hmsgs) => {
                        let tms = transform_messages_to_history(hmsgs);
                        let mut j: usize = 0;
                        proof {
                            assert(sources_model(sources@) =~= out1 + history_sources_of(
                                hist,
                            ).take(0));
                        }
                        while j < tms.len()
                            invariant
                                j <= tms@.len(),
                                tms@.len() == hmsgs@.len(),
                                history_sources_of(hist).len() == hmsgs@.len(),
                                forall|t: int| 0 <= t < tms@.len() ==> (#[trigger] tms@[t])@
                                    == history_message_of(hmsgs@[t]@),
                                sources_model(sources@) == out1 + history_sources_of(hist).take(
                                    j as int,
                                ),
                            decreases tms@.len() - j,
                        {
                            let ghost before = sources_model(sources@);
                            let m = &tms[j];
                            let src = MessageSource {
                                role: m.role,
                                source: String::new(),
                                content: Some(duplicate_parts(&m.content)),
                                metadata: duplicate_opt_meta(&m.metadata),
                            };
                            proof {
                                assert(history_sources_of(hist)[j as int] == history_source_of(
                                    messages_model(hmsgs@)[j as int],
                                ));
                                assert(src@ =~= history_source_of(hmsgs@[j as int]@));
                            }
                            sources.push(src);
                            proof {
                                assert(sources_model(sources@) =~= before.push(src@));
                                assert(before.push(src@) =~= out1 + history_sources_of(hist).take(
                                    j + 1,
                                ));
                            }
                            j = j + 1;
                        }
                        proof {
                            assert(history_sources_of(hist).take(hmsgs@.len() as int)
                                =~= history_sources_of(hist));
                        }
                    },
                    None => {
                        proof {
                            assert(sources_model(sources@) =~= out1 + history_sources_of(hist));
                        }
                    },
                },
                None => {
                    proof {
                        assert(sources_model(sources@) =~= out1 + history_sources_of(hist));
                    }
                },
            }
            cur = MessageSource::new(Role::Model);
        } else {
            cur.source.append(piece.as_str());
            proof {
                assert(cur@ =~= (SourceV { source: prev_cur.source + pv[k as int], ..prev_cur }));
            }
        }
        k = k + 1;
    }
    let ghost final_cur = cur@;
    let ghost final_out = sources_model(sources@);
    sources.push(cur);
    proof {
        assert(sources_model(sources@) =~= final_out.push(final_cur));
    }
    let msgs = message_sources_to_messages(sources);
    let href: Option<&Vec<Message>> = match data {
        Some(d) => match &d.messages {
            Some(h) => Some(h),
            None => None,
        },
        None => None,
    };
    insert_history(msgs, href)
}

} // verus!
