//! Laws of the pipeline, stated and proved once and for all: where the
//! history merge places prior turns, what marker-free text decodes to, how
//! a leading role marker shapes the first message, and that the
//! frontmatter splitter recovers the YAML block a document was built from.

use vstd::prelude::*;
use crate::parse::{
    decode_sources, find_ms, find_rh, fm_close_rest, fm_close_with, fm_dashes, fm_first_close,
    fm_open_candidate, fm_pick_open, fm_split, fresh_source, history_prefix, insert_history_model,
    is_break, lemma_find_ms, lemma_find_rh, marker_close, media_prefix, message_of_source,
    messages_have_history_model, ms_match_at, rh_match_at, role_of_marker, role_prefix,
    section_prefix, sources_to_messages_model, split_ms, split_rh, tail_has_break,
    to_messages_model, to_parts_model,
};
use crate::text::{
    blank, has_at, is_space, lemma_skip_spaces, lemma_trim_end_at, skip_spaces, trim_end_at,
    trim_of,
};
use crate::types::{MessageV, PartV, Role};

verus! {

/// Where the history is merged when the messages are untagged: an empty
/// list becomes the history itself, and a list ending in a user turn keeps
/// that turn last, with the history spliced right before it.
pub proof fn lemma_insert_history_positions(ms: Seq<MessageV>, h: Seq<MessageV>)
    requires
        h.len() > 0,
        !messages_have_history_model(ms),
    ensures
        ms.len() == 0 ==> insert_history_model(ms, Some(h)) == h,
        ms.len() > 0 && ms.last().role == Role::User ==> insert_history_model(ms, Some(h)).len()
            == ms.len() + h.len() && insert_history_model(ms, Some(h)).last() == ms.last(),
{
    if ms.len() > 0 && ms.last().role == Role::User {
        let r = insert_history_model(ms, Some(h));
        assert(r == ms.drop_last() + h + seq![ms.last()]);
        assert(r.last() == ms.last());
    }
}

/// A message list already tagged as holding history is left unchanged by
/// the history merge.
pub proof fn lemma_insert_history_already_tagged(ms: Seq<MessageV>, h: Seq<MessageV>)
    requires
        messages_have_history_model(ms),
    ensures
        insert_history_model(ms, Some(h)) == ms,
{
}

/// When no role or history marker starts anywhere in a text, the first
/// marker search finds nothing.
proof fn lemma_no_rh_matches(s: Seq<char>)
    requires
        forall|k: int| 0 <= k < s.len() ==> #[trigger] rh_match_at(s, k) is None,
    ensures
        find_rh(s, 0) is None,
{
    lemma_find_rh(s, 0);
    if find_rh(s, 0) is Some {
        assert(rh_match_at(s, find_rh(s, 0)->Some_0.0) is Some);
    }
}

/// When no media or section marker starts anywhere in a text, the first
/// marker search finds nothing.
proof fn lemma_no_ms_matches(s: Seq<char>)
    requires
        forall|k: int| 0 <= k < s.len() ==> #[trigger] ms_match_at(s, k) is None,
    ensures
        find_ms(s, 0) is None,
{
    lemma_find_ms(s, 0);
    if find_ms(s, 0) is Some {
        assert(ms_match_at(s, find_ms(s, 0)->Some_0.0) is Some);
    }
}

/// Marker-free, non-blank text decodes to its one text part.
pub proof fn lemma_plain_text_parts(s: Seq<char>)
    requires
        !blank(s),
        forall|k: int| 0 <= k < s.len() ==> #[trigger] ms_match_at(s, k) is None,
        !has_at(s, 0, media_prefix()),
        !has_at(s, 0, section_prefix()),
    ensures
        to_parts_model(s) == seq![PartV::Text(s, None)],
{
    lemma_no_ms_matches(s);
    assert(s.subrange(0, s.len() as int) =~= s);
    assert(split_ms(s, 0) == seq![s]);
    assert(to_parts_model(s) =~= seq![PartV::Text(s, None)]);
}

/// Rendered text with no markers at all — no role, history, media or
/// section marker anywhere, and no text that begins like one — decodes,
/// with no history supplied, to exactly one message: role `user`, with the
/// whole text as its single text part.
pub proof fn lemma_plain_text_single_message(s: Seq<char>)
    requires
        !blank(s),
        forall|k: int| 0 <= k < s.len() ==> #[trigger] rh_match_at(s, k) is None,
        forall|k: int| 0 <= k < s.len() ==> #[trigger] ms_match_at(s, k) is None,
        !has_at(s, 0, role_prefix()),
        !has_at(s, 0, history_prefix()),
        !has_at(s, 0, media_prefix()),
        !has_at(s, 0, section_prefix()),
    ensures
        to_messages_model(s, None) == seq![
            MessageV { role: Role::User, content: seq![PartV::Text(s, None)], metadata: None },
        ],
{
    lemma_no_rh_matches(s);
    assert(s.subrange(0, s.len() as int) =~= s);
    let pieces = split_rh(s, 0);
    assert(pieces == seq![s]);
    let init = fresh_source(Role::User);
    let after = crate::parse::SourceV { source: init.source + s, ..init };
    assert(decode_sources(pieces, 0, init, Seq::empty(), None) == decode_sources(
        pieces,
        1,
        after,
        Seq::empty(),
        None,
    ));
    let svs = decode_sources(pieces, 0, init, Seq::empty(), None);
    assert(svs == Seq::empty().push(after));
    assert(after.source =~= s);
    let msgs = sources_to_messages_model(svs);
    assert(svs[0] == after);
    assert(svs.drop_first() =~= Seq::<crate::parse::SourceV>::empty());
    lemma_plain_text_parts(s);
    assert(sources_to_messages_model(Seq::<crate::parse::SourceV>::empty()) =~= Seq::<
        MessageV,
    >::empty());
    assert(msgs =~= seq![message_of_source(after)]);
    assert(message_of_source(after) == (MessageV {
        role: Role::User,
        content: seq![PartV::Text(s, None)],
        metadata: None,
    }));
    assert(!messages_have_history_model(msgs) ==> insert_history_model(msgs, None) == msgs);
    assert(to_messages_model(s, None) =~= msgs);
}

/// Rendered text that opens with a role marker and continues with
/// marker-free, non-blank content decodes, with no history supplied, to
/// exactly one message: the marker's role, with the content as its single
/// text part.  No empty leading message is produced.
pub proof fn lemma_leading_role_marker(s: Seq<char>, rname: Seq<char>, rest: Seq<char>)
    requires
        s == role_prefix() + rname + marker_close() + rest,
        rname.len() >= 1,
        forall|k: int| 0 <= k < rname.len() ==> crate::parse::is_lower(#[trigger] rname[k]),
        !blank(rest),
        forall|k: int| 1 <= k < s.len() ==> #[trigger] rh_match_at(s, k) is None,
        forall|k: int| 0 <= k < rest.len() ==> #[trigger] ms_match_at(rest, k) is None,
        !has_at(rest, 0, role_prefix()),
        !has_at(rest, 0, history_prefix()),
        !has_at(rest, 0, media_prefix()),
        !has_at(rest, 0, section_prefix()),
    ensures
        to_messages_model(s, None) == seq![
            MessageV {
                role: role_of_marker(role_prefix() + rname),
                content: seq![PartV::Text(rest, None)],
                metadata: None,
            },
        ],
{
    reveal_strlit(">>>");
    let pe = role_prefix().len() + rname.len() as int;
    let rs = pe + marker_close().len() as int;
    assert(has_at(s, 0, role_prefix())) by {
        assert(s.subrange(0, role_prefix().len() as int) =~= role_prefix());
    }
    assert forall|k: int| role_prefix().len() <= k < pe implies crate::parse::is_lower(
        #[trigger] s[k],
    ) by {
        assert(s[k] == rname[k - role_prefix().len()]);
    }
    assert(has_at(s, pe, marker_close())) by {
        assert(s.subrange(pe, pe + marker_close().len() as int) =~= marker_close());
    }
    assert(s[pe] == marker_close()[0]) by {
        assert(s.subrange(pe, pe + marker_close().len() as int)[0] == s[pe]);
    }
    assert(!crate::parse::is_lower(s[pe]));
    lemma_lower_run_stops(s, role_prefix().len() as int, pe);
    assert(rh_match_at(s, 0) == Some((pe, rs)));
    assert(find_rh(s, 0) == Some((0int, pe, rs)));
    let delim = s.subrange(0, pe);
    assert(delim =~= role_prefix() + rname);
    // the tail after the marker is exactly `rest`, and it holds no marker
    assert(s.subrange(rs, s.len() as int) =~= rest);
    lemma_find_rh_shift(s, rs, rest);
    assert(blank(s.subrange(0, 0)));
    assert(split_rh(s, 0) == seq![delim] + split_rh(s, rs));
    assert(find_rh(s, rs) is None);
    assert(split_rh(s, rs) == seq![rest]);
    let pieces = split_rh(s, 0);
    assert(pieces =~= seq![delim, rest]);
    let init = fresh_source(Role::User);
    // first piece: a role marker with an empty accumulator changes the role
    assert(has_at(delim, 0, role_prefix())) by {
        assert(delim.subrange(0, role_prefix().len() as int) =~= role_prefix());
    }
    assert(blank(init.source));
    let role = role_of_marker(delim);
    let turned = crate::parse::SourceV { role, ..init };
    assert(decode_sources(pieces, 0, init, Seq::empty(), None) == decode_sources(
        pieces,
        1,
        turned,
        Seq::empty(),
        None,
    ));
    // second piece: literal text
    assert(!has_at(rest, 0, role_prefix()) && !has_at(rest, 0, history_prefix()));
    let filled = crate::parse::SourceV { source: turned.source + rest, ..turned };
    assert(decode_sources(pieces, 1, turned, Seq::empty(), None) == decode_sources(
        pieces,
        2,
        filled,
        Seq::empty(),
        None,
    ));
    let svs = decode_sources(pieces, 0, init, Seq::empty(), None);
    assert(svs == Seq::empty().push(filled));
    assert(filled.source =~= rest);
    assert(svs[0] == filled);
    assert(svs.drop_first() =~= Seq::<crate::parse::SourceV>::empty());
    lemma_plain_text_parts(rest);
    let msgs = sources_to_messages_model(svs);
    assert(sources_to_messages_model(Seq::<crate::parse::SourceV>::empty()) =~= Seq::<
        MessageV,
    >::empty());
    assert(msgs =~= seq![message_of_source(filled)]);
    assert(to_messages_model(s, None) =~= msgs);
}

/// A run of lowercase letters ends exactly at the first character that is
/// not one.
proof fn lemma_lower_run_stops(s: Seq<char>, j: int, e: int)
    requires
        0 <= j <= e < s.len(),
        forall|k: int| j <= k < e ==> crate::parse::is_lower(#[trigger] s[k]),
        !crate::parse::is_lower(s[e]),
    ensures
        crate::parse::lower_run_end(s, j) == e,
    decreases e - j,
{
    if j < e {
        lemma_lower_run_stops(s, j + 1, e);
    }
}

/// `skip_spaces` lands exactly where the whitespace run ends.
proof fn lemma_skip_spaces_eq(s: Seq<char>, i: int, r: int)
    requires
        0 <= i <= r <= s.len(),
        forall|k: int| i <= k < r ==> is_space(#[trigger] s[k]),
        r < s.len() ==> !is_space(s[r]),
    ensures
        skip_spaces(s, i) == r,
    decreases r - i,
{
    if i < r {
        lemma_skip_spaces_eq(s, i + 1, r);
    }
}

/// When no closing delimiter stands in `[i, j)`, the first close at or
/// after `i` is the first one at or after `j`.
proof fn lemma_first_close_scan(s: Seq<char>, i: int, j: int)
    requires
        0 <= i <= j <= s.len(),
        forall|d: int| i <= d < j ==> !#[trigger] crate::parse::fm_close_at(s, d),
    ensures
        fm_first_close(s, i) == fm_first_close(s, j),
    decreases j - i,
{
    if i < j {
        lemma_first_close_scan(s, i + 1, j);
    }
}

/// When no position in `(lo, hi]` opens the block, the greedy open search
/// from `hi` reaches `lo`.
proof fn lemma_pick_open_scan(s: Seq<char>, lo: int, hi: int)
    requires
        3 <= lo <= hi,
        forall|e: int| lo < e <= hi ==> !(#[trigger] fm_open_candidate(s, e) && fm_first_close(
            s,
            e,
        ) is Some),
    ensures
        fm_pick_open(s, hi) == fm_pick_open(s, lo),
    decreases hi - lo,
{
    if lo < hi {
        lemma_pick_open_scan(s, lo, hi - 1);
    }
}

/// Whitespace skipping shifts across a one-character prefix.
proof fn lemma_skip_spaces_shift(c: char, s: Seq<char>, i: int)
    requires
        0 <= i <= s.len(),
    ensures
        skip_spaces(seq![c] + s, 1 + i) == 1 + skip_spaces(s, i),
    decreases s.len() - i,
{
    let cs = seq![c] + s;
    assert(cs[1 + i] == s[i] || i == s.len());
    if i < s.len() && is_space(s[i]) {
        lemma_skip_spaces_shift(c, s, i + 1);
    }
}

/// Trailing-whitespace trimming shifts across a one-character prefix.
proof fn lemma_trim_end_shift(c: char, s: Seq<char>, j: int)
    requires
        0 <= j <= s.len(),
        is_space(c),
    ensures
        trim_end_at(seq![c] + s, 1 + j) == (if trim_end_at(s, j) == 0 {
            0int
        } else {
            1 + trim_end_at(s, j)
        }),
    decreases j,
{
    let cs = seq![c] + s;
    if j == 0 {
        assert(cs[0] == c);
        assert(trim_end_at(cs, 1) == trim_end_at(cs, 0));
    } else {
        assert(cs[j] == s[j - 1]);
        if is_space(s[j - 1]) {
            lemma_trim_end_shift(c, s, j - 1);
            assert(trim_end_at(cs, 1 + j) == trim_end_at(cs, j));
            assert(trim_end_at(s, j) == trim_end_at(s, j - 1));
        } else {
            assert(trim_end_at(cs, 1 + j) == 1 + j);
            assert(trim_end_at(s, j) == j);
        }
    }
}

/// Trimming ignores a leading whitespace character.
pub proof fn lemma_trim_cons_space(c: char, s: Seq<char>)
    requires
        is_space(c),
    ensures
        trim_of(seq![c] + s) == trim_of(s),
{
    let cs = seq![c] + s;
    assert(cs[0] == c);
    lemma_skip_spaces_shift(c, s, 0);
    assert(skip_spaces(cs, 0) == skip_spaces(cs, 1));
    lemma_trim_end_shift(c, s, s.len() as int);
    let a = skip_spaces(s, 0);
    let bb = trim_end_at(s, s.len() as int);
    lemma_skip_spaces(s, 0);
    lemma_trim_end_at(s, s.len() as int);
    if a >= bb {
        assert(trim_of(cs) =~= trim_of(s));
    } else {
        assert(cs.subrange(1 + a, 1 + bb) =~= s.subrange(a, bb));
    }
}

/// Re-joining split frontmatter recovers the block: a document built as a
/// `---` line, a YAML block, a `---` line and a body splits back into
/// exactly that block (so a second parse sees the same text) and the
/// trimmed body.  The block must be non-blank, must not hide a delimiter
/// line — no line break followed by `---`, no line break among its leading
/// whitespace — and must not end in a bare carriage return.
#[verifier::rlimit(80)]
pub proof fn lemma_frontmatter_round_trip(y: Seq<char>, b: Seq<char>)
    requires
        !blank(y),
        forall|k: int| 0 <= k < skip_spaces(y, 0) ==> !is_break(#[trigger] y[k]),
        forall|k: int| 0 <= k < y.len() && is_break(#[trigger] y[k]) ==> !has_at(
            y,
            k + 1,
            fm_dashes(),
        ),
        y[y.len() - 1] != '\r',
    ensures
        fm_split(fm_dashes() + seq!['\n'] + y + seq!['\n'] + fm_dashes() + seq!['\n'] + b)
            == Some((y, trim_of(b))),
{
    reveal_strlit("---");
    let doc = fm_dashes() + seq!['\n'] + y + seq!['\n'] + fm_dashes() + seq!['\n'] + b;
    let n = y.len() as int;
    assert(doc.len() == n + b.len() + 9);
    assert(n >= 1);
    assert forall|i: int| 0 <= i < n implies doc[4 + i] == y[i] by {}
    assert(doc[3] == '\n');
    assert(doc[4 + n] == '\n');
    assert(doc[8 + n] == '\n');
    assert(has_at(doc, 0, fm_dashes())) by {
        assert(doc.subrange(0, 3) =~= fm_dashes());
    }
    assert(has_at(doc, 5 + n, fm_dashes())) by {
        assert(doc.subrange(5 + n, 8 + n) =~= fm_dashes());
    }
    // where the whitespace run after the opening line ends
    let w = skip_spaces(y, 0);
    lemma_skip_spaces(y, 0);
    assert(w < n) by {
        if w == n {
            assert(blank(y));
        }
    }
    assert(skip_spaces(doc, 3) == 4 + w) by {
        lemma_skip_spaces_eq(doc, 3, 4 + w);
    }
    // the intended closing delimiter
    assert(tail_has_break(doc, 8 + n));
    assert(fm_close_with(doc, 4 + n, 1));
    // no closing delimiter inside the block
    assert forall|d: int| 4 <= d < 4 + n implies !#[trigger] crate::parse::fm_close_at(
        doc,
        d,
    ) by {
        if fm_close_with(doc, d, 1) {
            assert(is_break(y[d - 4]));
            if d + 4 <= 4 + n {
                assert(has_at(y, d - 3, fm_dashes())) by {
                    assert(y.subrange(d - 3, d  as int) =~= doc.subrange(d + 1, d + 4));
                    assert(doc.subrange(d + 1, d + 4) =~= fm_dashes());
                }
            } else {
                assert(doc.subrange(d + 1, d + 4)[4 + n - (d + 1)] == doc[4 + n]);
                assert(fm_dashes()[4 + n - (d + 1)] == '\n');
            }
        }
        if fm_close_with(doc, d, 2) {
            assert(doc[d] == '\r');
            assert(y[d - 4] == '\r');
            if d + 1 == 4 + n {
                assert(y[n - 1] == '\r');
            } else {
                assert(is_break(y[d - 3]));
                if d + 5 <= 4 + n {
                    assert(has_at(y, d - 2, fm_dashes())) by {
                        assert(y.subrange(d - 2, d + 1) =~= doc.subrange(d + 2, d + 5));
                        assert(doc.subrange(d + 2, d + 5) =~= fm_dashes());
                    }
                } else {
                    assert(doc.subrange(d + 2, d + 5)[4 + n - (d + 2)] == doc[4 + n]);
                    assert(fm_dashes()[4 + n - (d + 2)] == '\n');
                }
            }
        }
    }
    lemma_first_close_scan(doc, 4, 4 + n);
    assert(fm_first_close(doc, 4 + n) == Some(4 + n));
    assert(fm_first_close(doc, 4) == Some(4 + n));
    // the greedy open search lands right after the opening line
    assert forall|e: int| 4 < e <= 4 + w implies !(#[trigger] fm_open_candidate(doc, e)
        && fm_first_close(doc, e) is Some) by {
        if fm_open_candidate(doc, e) {
            assert(doc[e - 1] == y[e - 5]);
            assert(!is_break(y[e - 5]));
        }
    }
    lemma_pick_open_scan(doc, 4, 4 + w);
    assert(fm_open_candidate(doc, 4));
    assert(fm_pick_open(doc, 4) == Some(4int));
    assert(fm_pick_open(doc, skip_spaces(doc, 3)) == Some(4int));
    // the split
    assert(!fm_close_with(doc, 4 + n, 2));
    assert(fm_close_rest(doc, 4 + n) == 8 + n);
    assert(doc.subrange(4, 4 + n) =~= y);
    assert(doc.subrange(8 + n, doc.len() as int) =~= seq!['\n'] + b);
    lemma_trim_cons_space('\n', b);
    assert(fm_split(doc) == Some((y, trim_of(b))));
}

/// When the tail of `s` from `i` equals `t` and `t` holds no marker, the
/// search in `s` from `i` finds nothing.
proof fn lemma_find_rh_shift(s: Seq<char>, i: int, t: Seq<char>)
    requires
        0 <= i <= s.len(),
        s.subrange(i, s.len() as int) == t,
        forall|k: int| i <= k < s.len() ==> #[trigger] rh_match_at(s, k) is None,
    ensures
        find_rh(s, i) is None,
    decreases s.len() - i,
{
    lemma_find_rh(s, i);
    if find_rh(s, i) is Some {
        assert(rh_match_at(s, find_rh(s, i)->Some_0.0) is Some);
    }
}

} // verus!
