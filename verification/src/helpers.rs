//! The compute cores of the built-in template helpers: marker tokens,
//! JSON serialization, and structural equality.
//!
//! The helpers themselves are registered into the template expander by the
//! surrounding application; each one writes what these functions build.

use vstd::prelude::*;
use vstd::string::*;
use crate::parse::{history_prefix, marker_close, media_prefix, role_prefix, section_prefix};
use crate::text::push_char;
use crate::value::{arr_model, lemma_arr_model, lemma_obj_model, obj_model, Val, ValV};

verus! {

broadcast use vstd::std_specs::vec::group_vec_axioms;

/// Builds the role marker token for a role name.
pub fn role_marker(role: &str) -> (r: String)
    ensures
        r@ == role_prefix() + role@ + marker_close(),
{
    let mut s = String::from_str("<<<dotprompt:role:");
    s.append(role);
    s.append(">>>");
    s
}

/// Builds the history marker token.
pub fn history_marker() -> (r: String)
    ensures
        r@ == history_prefix() + marker_close(),
{
    let mut s = String::from_str("<<<dotprompt:history");
    s.append(">>>");
    s
}

/// Builds the section marker token for a section name.
pub fn section_marker(name: &str) -> (r: String)
    ensures
        r@ == section_prefix() + seq![' '] + name@ + marker_close(),
{
    let mut s = String::from_str("<<<dotprompt:section");
    push_char(&mut s, ' ');
    s.append(name);
    s.append(">>>");
    s
}

/// Builds the media marker token for a URL and an optional content type.
pub fn media_marker(url: &str, content_type: Option<&str>) -> (r: String)
    ensures
        r@ == media_prefix() + seq![' '] + url@ + (match content_type {
            Some(ct) => seq![' '] + ct@,
            None => Seq::empty(),
        }) + marker_close(),
{
    let mut s = String::from_str("<<<dotprompt:media:url");
    push_char(&mut s, ' ');
    s.append(url);
    match content_type {
        Some(ct) => {
            push_char(&mut s, ' ');
            s.append(ct);
        },
        None => {},
    }
    s.append(">>>");
    proof {
        if content_type is None {
            assert(media_prefix() + seq![' '] + url@ + Seq::<char>::empty() =~= media_prefix()
                + seq![' '] + url@);
        }
    }
    s
}

/// The escape of one character in a JSON string: quote, backslash and
/// control characters are escaped the way a JSON serializer prints them.
pub open spec fn esc_char(c: char) -> Seq<char> {
    if c == '"' {
        seq!['\\', '"']
    } else if c == '\\' {
        seq!['\\', '\\']
    } else if c == '\u{8}' {
        seq!['\\', 'b']
    } else if c == '\u{c}' {
        seq!['\\', 'f']
    } else if c == '\n' {
        seq!['\\', 'n']
    } else if c == '\r' {
        seq!['\\', 'r']
    } else if c == '\t' {
        seq!['\\', 't']
    } else if (c as u32) < 32 {
        seq!['\\', 'u', '0', '0', (if (c as u32) < 16 { '0' } else { '1' }), hex_digit(
            ((c as u32) % 16) as int,
        )]
    } else {
        seq![c]
    }
}

/// The lowercase hexadecimal digit for a value below sixteen.
pub open spec fn hex_digit(d: int) -> char {
    if d == 0 { '0' }
    else if d == 1 { '1' }
    else if d == 2 { '2' }
    else if d == 3 { '3' }
    else if d == 4 { '4' }
    else if d == 5 { '5' }
    else if d == 6 { '6' }
    else if d == 7 { '7' }
    else if d == 8 { '8' }
    else if d == 9 { '9' }
    else if d == 10 { 'a' }
    else if d == 11 { 'b' }
    else if d == 12 { 'c' }
    else if d == 13 { 'd' }
    else if d == 14 { 'e' }
    else { 'f' }
}

/// Produces the lowercase hexadecimal digit for a value below sixteen.
pub fn hex_digit_exec(d: u32) -> (r: char)
    requires
        d < 16,
    ensures
        r == hex_digit(d as int),
{
    if d == 0 { '0' }
    else if d == 1 { '1' }
    else if d == 2 { '2' }
    else if d == 3 { '3' }
    else if d == 4 { '4' }
    else if d == 5 { '5' }
    else if d == 6 { '6' }
    else if d == 7 { '7' }
    else if d == 8 { '8' }
    else if d == 9 { '9' }
    else if d == 10 { 'a' }
    else if d == 11 { 'b' }
    else if d == 12 { 'c' }
    else if d == 13 { 'd' }
    else if d == 14 { 'e' }
    else { 'f' }
}

/// The JSON escape of a string's characters.
pub open spec fn json_escape(s: Seq<char>) -> Seq<char>
    decreases s.len(),
{
    if s.len() == 0 {
        Seq::empty()
    } else {
        esc_char(s[0]) + json_escape(s.drop_first())
    }
}

/// The compact JSON text of a value: no spaces, object entries as
/// `"key":value`, strings escaped per `esc_char`, numbers verbatim.
pub open spec fn json_text(v: ValV) -> Seq<char>
    decreases v,
{
    match v {
        ValV::Null => "null"@,
        ValV::Bool(b) => if b {
            "true"@
        } else {
            "false"@
        },
        ValV::Num(s) => s,
        ValV::Str(s) => seq!['"'] + json_escape(s) + seq!['"'],
        ValV::Arr(items) => seq!['['] + json_items(items) + seq![']'],
        ValV::Obj(pairs) => seq!['{'] + json_entries(pairs) + seq!['}'],
    }
}

/// The comma-joined compact JSON texts of a value list.
pub open spec fn json_items(items: Seq<ValV>) -> Seq<char>
    decreases items,
{
    if items.len() == 0 {
        Seq::empty()
    } else if items.len() == 1 {
        json_text(items[0])
    } else {
        json_text(items[0]) + seq![','] + json_items(items.drop_first())
    }
}

/// The comma-joined compact JSON texts of an object's entries.
pub open spec fn json_entries(pairs: Seq<(Seq<char>, ValV)>) -> Seq<char>
    decreases pairs,
{
    if pairs.len() == 0 {
        Seq::empty()
    } else {
        let entry = seq!['"'] + json_escape(pairs[0].0) + seq!['"', ':'] + json_text(pairs[0].1);
        if pairs.len() == 1 {
            entry
        } else {
            entry + seq![','] + json_entries(pairs.drop_first())
        }
    }
}

/// Appends the JSON escape of a string to the output.
#[verifier::loop_isolation(false)]
fn write_escaped(s: &str, out: &mut String)
    ensures
        final(out)@ == old(out)@ + json_escape(s@),
{
    let cs = crate::text::chars_of(s);
    let mut i: usize = 0;
    proof {
        assert(s@.skip(0) =~= s@);
    }
    let ghost target = out@ + json_escape(s@);
    while i < cs.len()
        invariant
            i <= cs@.len(),
            cs@ == s@,
            target == out@ + json_escape(s@.skip(i as int)),
        decreases cs@.len() - i,
    {
        proof {
            assert(s@.skip(i as int)[0] == s@[i as int]);
            assert(s@.skip(i as int).drop_first() =~= s@.skip(i + 1));
        }
        let ghost prev = out@;
        let c = cs[i];
        if c == '"' {
            push_char(out, '\\');
            push_char(out, '"');
        } else if c == '\\' {
            push_char(out, '\\');
            push_char(out, '\\');
        } else if c == '\u{8}' {
            push_char(out, '\\');
            push_char(out, 'b');
        } else if c == '\u{c}' {
            push_char(out, '\\');
            push_char(out, 'f');
        } else if c == '\n' {
            push_char(out, '\\');
            push_char(out, 'n');
        } else if c == '\r' {
            push_char(out, '\\');
            push_char(out, 'r');
        } else if c == '\t' {
            push_char(out, '\\');
            push_char(out, 't');
        } else if (c as u32) < 32 {
            push_char(out, '\\');
            push_char(out, 'u');
            push_char(out, '0');
            push_char(out, '0');
            let code = c as u32;
            push_char(out, if code < 16 { '0' } else { '1' });
            push_char(out, hex_digit_exec(code % 16));
        } else {
            push_char(out, c);
        }
        proof {
            assert(out@ =~= prev + esc_char(s@[i as int]));
            assert(target =~= out@ + json_escape(s@.skip(i + 1)));
        }
        i = i + 1;
    }
    proof {
        assert(s@.skip(s@.len() as int) =~= Seq::<char>::empty());
        assert(json_escape(Seq::<char>::empty()) =~= Seq::<char>::empty());
        assert(out@ =~= target);
    }
}

/// Appends the compact JSON text of a value to the output.
#[verifier::loop_isolation(false)]
pub fn write_json(v: &Val, out: &mut String)
    ensures
        final(out)@ == old(out)@ + json_text(v@),
    decreases *v, 0int,
{
    match v {
        Val::Null => {
            out.append("null");
        },
        Val::Bool(b) => {
            if *b {
                out.append("true");
            } else {
                out.append("false");
            }
        },
        Val::Num(s) => {
            out.append(s.as_str());
        },
        Val::Str(s) => {
            push_char(out, '"');
            write_escaped(s.as_str(), out);
            push_char(out, '"');
            proof {
                assert(out@ =~= old(out)@ + (seq!['"'] + json_escape(s@) + seq!['"']));
            }
        },
        Val::Arr(items) => {
            proof {
                lemma_arr_model(items@);
                assert(decreases_to!(*v => v->Arr_0));
            }
            push_char(out, '[');
            write_items(items, 0, out);
            push_char(out, ']');
            proof {
                assert(arr_model(items@).skip(0) =~= arr_model(items@));
                assert(out@ =~= old(out)@ + (seq!['['] + json_items(arr_model(items@))
                    + seq![']']));
            }
        },
        Val::Obj(pairs) => {
            proof {
                lemma_obj_model(pairs@);
                assert(decreases_to!(*v => v->Obj_0));
            }
            push_char(out, '{');
            write_entries(pairs, 0, out);
            push_char(out, '}');
            proof {
                assert(obj_model(pairs@).skip(0) =~= obj_model(pairs@));
                assert(out@ =~= old(out)@ + (seq!['{'] + json_entries(obj_model(pairs@))
                    + seq!['}']));
            }
        },
    }
}

/// Appends the comma-joined JSON texts of the items from `i` on.
#[verifier::loop_isolation(false)]
fn write_items(items: &Vec<Val>, i: usize, out: &mut String)
    requires
        i <= items@.len(),
    ensures
        final(out)@ == old(out)@ + json_items(arr_model(items@).skip(i as int)),
    decreases *items, items@.len() - i,
{
    proof {
        lemma_arr_model(items@);
    }
    let ghost av = arr_model(items@);
    if i == items.len() {
        proof {
            assert(av.skip(i as int) =~= Seq::<ValV>::empty());
            assert(out@ =~= out@ + json_items(av.skip(i as int)));
        }
        return ;
    }
    proof {
        assert(av.skip(i as int)[0] == items@[i as int]@);
        assert(av.skip(i as int).drop_first() =~= av.skip(i + 1));
        assert(decreases_to!(*items => items[i as int]));
    }
    write_json(&items[i], out);
    if i + 1 == items.len() {
        proof {
            assert(av.skip(i as int).len() == 1);
        }
        return ;
    }
    push_char(out, ',');
    write_items(items, i + 1, out);
    proof {
        assert(final(out)@ =~= old(out)@ + json_items(av.skip(i as int)));
    }
}

/// Appends the comma-joined JSON texts of the entries from `i` on.
#[verifier::loop_isolation(false)]
fn write_entries(pairs: &Vec<(String, Val)>, i: usize, out: &mut String)
    requires
        i <= pairs@.len(),
    ensures
        final(out)@ == old(out)@ + json_entries(obj_model(pairs@).skip(i as int)),
    decreases *pairs, pairs@.len() - i,
{
    proof {
        lemma_obj_model(pairs@);
    }
    let ghost ov = obj_model(pairs@);
    if i == pairs.len() {
        proof {
            assert(ov.skip(i as int) =~= Seq::<(Seq<char>, ValV)>::empty());
            assert(out@ =~= out@ + json_entries(ov.skip(i as int)));
        }
        return ;
    }
    proof {
        assert(ov.skip(i as int)[0] == (pairs@[i as int].0@, pairs@[i as int].1@));
        assert(ov.skip(i as int).drop_first() =~= ov.skip(i + 1));
        assert(decreases_to!(*pairs => pairs[i as int]));
        assert(decreases_to!(pairs[i as int] => pairs[i as int].1));
    }
    push_char(out, '"');
    write_escaped(pairs[i].0.as_str(), out);
    push_char(out, '"');
    push_char(out, ':');
    write_json(&pairs[i].1, out);
    if i + 1 == pairs.len() {
        proof {
            assert(ov.skip(i as int).len() == 1);
            assert(final(out)@ =~= old(out)@ + json_entries(ov.skip(i as int)));
        }
        return ;
    }
    push_char(out, ',');
    write_entries(pairs, i + 1, out);
    proof {
        assert(final(out)@ =~= old(out)@ + json_entries(ov.skip(i as int)));
    }
}

/// Serializes a value as compact JSON text.
pub fn value_to_json(v: &Val) -> (r: String)
    ensures
        r@ == json_text(v@),
{
    let mut out = String::new();
    write_json(v, &mut out);
    proof {
        assert(out@ =~= json_text(v@));
    }
    out
}

/// The pretty JSON text of a value under an indent unit `ind` and a
/// current prefix `cur`: arrays and objects put each element on its own
/// line, one indent unit deeper, and close on a line at the current
/// prefix; empty ones print as `[]` and `{}`; object entries read
/// `"key": value`.
pub open spec fn json_pretty(v: ValV, ind: Seq<char>, cur: Seq<char>) -> Seq<char>
    decreases v,
{
    match v {
        ValV::Null => "null"@,
        ValV::Bool(b) => if b {
            "true"@
        } else {
            "false"@
        },
        ValV::Num(s) => s,
        ValV::Str(s) => seq!['"'] + json_escape(s) + seq!['"'],
        ValV::Arr(items) => if items.len() == 0 {
            "[]"@
        } else {
            seq!['['] + pretty_items(items, ind, cur + ind) + seq!['\n'] + cur + seq![']']
        },
        ValV::Obj(pairs) => if pairs.len() == 0 {
            "{}"@
        } else {
            seq!['{'] + pretty_entries(pairs, ind, cur + ind) + seq!['\n'] + cur + seq!['}']
        },
    }
}

/// The pretty lines of a value list, each starting on a fresh line at the
/// inner prefix.
pub open spec fn pretty_items(items: Seq<ValV>, ind: Seq<char>, inner: Seq<char>) -> Seq<char>
    decreases items,
{
    if items.len() == 0 {
        Seq::empty()
    } else {
        let entry = seq!['\n'] + inner + json_pretty(items[0], ind, inner);
        if items.len() == 1 {
            entry
        } else {
            entry + seq![','] + pretty_items(items.drop_first(), ind, inner)
        }
    }
}

/// The pretty lines of an object's entries.
pub open spec fn pretty_entries(
    pairs: Seq<(Seq<char>, ValV)>,
    ind: Seq<char>,
    inner: Seq<char>,
) -> Seq<char>
    decreases pairs,
{
    if pairs.len() == 0 {
        Seq::empty()
    } else {
        let entry = seq!['\n'] + inner + seq!['"'] + json_escape(pairs[0].0) + seq!['"', ':', ' ']
            + json_pretty(pairs[0].1, ind, inner);
        if pairs.len() == 1 {
            entry
        } else {
            entry + seq![','] + pretty_entries(pairs.drop_first(), ind, inner)
        }
    }
}

/// Appends the pretty JSON text of a value to the output.
#[verifier::loop_isolation(false)]
pub fn write_json_pretty(v: &Val, ind: &str, cur: &str, out: &mut String)
    ensures
        final(out)@ == old(out)@ + json_pretty(v@, ind@, cur@),
    decreases *v, 0int,
{
    match v {
        Val::Null => {
            out.append("null");
        },
        Val::Bool(b) => {
            if *b {
                out.append("true");
            } else {
                out.append("false");
            }
        },
        Val::Num(s) => {
            out.append(s.as_str());
        },
        Val::Str(s) => {
            push_char(out, '"');
            write_escaped(s.as_str(), out);
            push_char(out, '"');
            proof {
                assert(out@ =~= old(out)@ + (seq!['"'] + json_escape(s@) + seq!['"']));
            }
        },
        Val::Arr(items) => {
            proof {
                lemma_arr_model(items@);
                assert(decreases_to!(*v => v->Arr_0));
            }
            if items.len() == 0 {
                out.append("[]");
            } else {
                let mut inner = String::from_str(cur);
                inner.append(ind);
                push_char(out, '[');
                write_items_pretty(items, 0, ind, inner.as_str(), out);
                push_char(out, '\n');
                out.append(cur);
                push_char(out, ']');
                proof {
                    assert(arr_model(items@).skip(0) =~= arr_model(items@));
                    assert(out@ =~= old(out)@ + (seq!['['] + pretty_items(
                        arr_model(items@),
                        ind@,
                        cur@ + ind@,
                    ) + seq!['\n'] + cur@ + seq![']']));
                }
            }
        },
        Val::Obj(pairs) => {
            proof {
                lemma_obj_model(pairs@);
                assert(decreases_to!(*v => v->Obj_0));
            }
            if pairs.len() == 0 {
                out.append("{}");
            } else {
                let mut inner = String::from_str(cur);
                inner.append(ind);
                push_char(out, '{');
                write_entries_pretty(pairs, 0, ind, inner.as_str(), out);
                push_char(out, '\n');
                out.append(cur);
                push_char(out, '}');
                proof {
                    assert(obj_model(pairs@).skip(0) =~= obj_model(pairs@));
                    assert(out@ =~= old(out)@ + (seq!['{'] + pretty_entries(
                        obj_model(pairs@),
                        ind@,
                        cur@ + ind@,
                    ) + seq!['\n'] + cur@ + seq!['}']));
                }
            }
        },
    }
}

/// Appends the pretty lines of the items from `i` on.
#[verifier::loop_isolation(false)]
fn write_items_pretty(items: &Vec<Val>, i: usize, ind: &str, inner: &str, out: &mut String)
    requires
        i <= items@.len(),
    ensures
        final(out)@ == old(out)@ + pretty_items(arr_model(items@).skip(i as int), ind@, inner@),
    decreases *items, items@.len() - i,
{
    proof {
        lemma_arr_model(items@);
    }
    let ghost av = arr_model(items@);
    if i == items.len() {
        proof {
            assert(av.skip(i as int) =~= Seq::<ValV>::empty());
            assert(out@ =~= out@ + pretty_items(av.skip(i as int), ind@, inner@));
        }
        return ;
    }
    proof {
        assert(av.skip(i as int)[0] == items@[i as int]@);
        assert(av.skip(i as int).drop_first() =~= av.skip(i + 1));
        assert(decreases_to!(*items => items[i as int]));
    }
    push_char(out, '\n');
    out.append(inner);
    write_json_pretty(&items[i], ind, inner, out);
    if i + 1 == items.len() {
        proof {
            assert(av.skip(i as int).len() == 1);
            assert(final(out)@ =~= old(out)@ + pretty_items(av.skip(i as int), ind@, inner@));
        }
        return ;
    }
    push_char(out, ',');
    write_items_pretty(items, i + 1, ind, inner, out);
    proof {
        assert(final(out)@ =~= old(out)@ + pretty_items(av.skip(i as int), ind@, inner@));
    }
}

/// Appends the pretty lines of the entries from `i` on.
#[verifier::loop_isolation(false)]
fn write_entries_pretty(
    pairs: &Vec<(String, Val)>,
    i: usize,
    ind: &str,
    inner: &str,
    out: &mut String,
)
    requires
        i <= pairs@.len(),
    ensures
        final(out)@ == old(out)@ + pretty_entries(obj_model(pairs@).skip(i as int), ind@, inner@),
    decreases *pairs, pairs@.len() - i,
{
    proof {
        lemma_obj_model(pairs@);
    }
    let ghost ov = obj_model(pairs@);
    if i == pairs.len() {
        proof {
            assert(ov.skip(i as int) =~= Seq::<(Seq<char>, ValV)>::empty());
            assert(out@ =~= out@ + pretty_entries(ov.skip(i as int), ind@, inner@));
        }
        return ;
    }
    proof {
        assert(ov.skip(i as int)[0] == (pairs@[i as int].0@, pairs@[i as int].1@));
        assert(ov.skip(i as int).drop_first() =~= ov.skip(i + 1));
        assert(decreases_to!(*pairs => pairs[i as int]));
        assert(decreases_to!(pairs[i as int] => pairs[i as int].1));
    }
    push_char(out, '\n');
    out.append(inner);
    push_char(out, '"');
    write_escaped(pairs[i].0.as_str(), out);
    push_char(out, '"');
    push_char(out, ':');
    push_char(out, ' ');
    write_json_pretty(&pairs[i].1, ind, inner, out);
    if i + 1 == pairs.len() {
        proof {
            assert(ov.skip(i as int).len() == 1);
            assert(final(out)@ =~= old(out)@ + pretty_entries(ov.skip(i as int), ind@, inner@));
        }
        return ;
    }
    push_char(out, ',');
    write_entries_pretty(pairs, i + 1, ind, inner, out);
    proof {
        assert(final(out)@ =~= old(out)@ + pretty_entries(ov.skip(i as int), ind@, inner@));
    }
}

/// The indent unit of a given width: that many spaces.
pub open spec fn indent_spaces(n: nat) -> Seq<char> {
    Seq::new(n, |i: int| ' ')
}

/// Serializes a value as JSON text: compact when `indent` is zero, pretty
/// with `indent` spaces per level otherwise.
pub fn value_to_json_indented(v: &Val, indent: usize) -> (r: String)
    ensures
        indent == 0 ==> r@ == json_text(v@),
        indent > 0 ==> r@ == json_pretty(v@, indent_spaces(indent as nat), Seq::empty()),
{
    if indent == 0 {
        value_to_json(v)
    } else {
        let mut ind = String::new();
        let mut i: usize = 0;
        #[verifier::loop_isolation(false)]
        while i < indent
            invariant
                i <= indent,
                ind@ =~= indent_spaces(i as nat),
            decreases indent - i,
        {
            push_char(&mut ind, ' ');
            proof {
                assert(ind@ =~= indent_spaces((i + 1) as nat));
            }
            i = i + 1;
        }
        let mut out = String::new();
        write_json_pretty(v, ind.as_str(), "", &mut out);
        proof {
            reveal_strlit("");
            assert(""@ =~= Seq::<char>::empty());
            assert(out@ =~= json_pretty(v@, indent_spaces(indent as nat), Seq::empty()));
        }
        out
    }
}

/// Decides structural equality of two values: two values are equal exactly
/// when their models are, so a number is never equal to its string form and
/// null equals only null.
#[verifier::loop_isolation(false)]
pub fn values_equal(a: &Val, b: &Val) -> (r: bool)
    ensures
        r == (a@ == b@),
    decreases *a, 0int,
{
    match (a, b) {
        (Val::Null, Val::Null) => true,
        (Val::Bool(x), Val::Bool(y)) => x == y,
        (Val::Num(x), Val::Num(y)) => x.as_str().eq(y.as_str()),
        (Val::Str(x), Val::Str(y)) => x.as_str().eq(y.as_str()),
        (Val::Arr(xs), Val::Arr(ys)) => {
            proof {
                lemma_arr_model(xs@);
                lemma_arr_model(ys@);
                assert(decreases_to!(*a => a->Arr_0));
                assert(arr_model(xs@).take(0) =~= arr_model(ys@).take(0));
            }
            arrays_equal(xs, ys, 0)
        },
        (Val::Obj(xs), Val::Obj(ys)) => {
            proof {
                lemma_obj_model(xs@);
                lemma_obj_model(ys@);
                assert(decreases_to!(*a => a->Obj_0));
                assert(obj_model(xs@).take(0) =~= obj_model(ys@).take(0));
            }
            objects_equal(xs, ys, 0)
        },
        _ => {
            proof {
                assert(a@ != b@);
            }
            false
        },
    }
}

/// Decides pointwise equality of two value lists from `i` on.
#[verifier::loop_isolation(false)]
fn arrays_equal(xs: &Vec<Val>, ys: &Vec<Val>, i: usize) -> (r: bool)
    requires
        i <= xs@.len(),
        i <= ys@.len(),
        arr_model(xs@).take(i as int) == arr_model(ys@).take(i as int),
    ensures
        r == (arr_model(xs@) == arr_model(ys@)),
    decreases *xs, xs@.len() - i,
{
    proof {
        lemma_arr_model(xs@);
        lemma_arr_model(ys@);
    }
    if i == xs.len() && i == ys.len() {
        proof {
            assert(arr_model(xs@) =~= arr_model(xs@).take(i as int));
            assert(arr_model(ys@) =~= arr_model(ys@).take(i as int));
        }
        return true;
    }
    if i == xs.len() || i == ys.len() {
        proof {
            assert(arr_model(xs@).len() != arr_model(ys@).len());
        }
        return false;
    }
    proof {
        assert(decreases_to!(*xs => xs[i as int]));
    }
    if values_equal(&xs[i], &ys[i]) {
        proof {
            assert(arr_model(xs@).take(i + 1) =~= arr_model(xs@).take(i as int).push(
                xs@[i as int]@,
            ));
            assert(arr_model(ys@).take(i + 1) =~= arr_model(ys@).take(i as int).push(
                ys@[i as int]@,
            ));
        }
        arrays_equal(xs, ys, i + 1)
    } else {
        proof {
            assert(arr_model(xs@)[i as int] != arr_model(ys@)[i as int]);
        }
        false
    }
}

/// Decides pointwise equality of two entry lists from `i` on.
#[verifier::loop_isolation(false)]
fn objects_equal(xs: &Vec<(String, Val)>, ys: &Vec<(String, Val)>, i: usize) -> (r: bool)
    requires
        i <= xs@.len(),
        i <= ys@.len(),
        obj_model(xs@).take(i as int) == obj_model(ys@).take(i as int),
    ensures
        r == (obj_model(xs@) == obj_model(ys@)),
    decreases *xs, xs@.len() - i,
{
    proof {
        lemma_obj_model(xs@);
        lemma_obj_model(ys@);
    }
    if i == xs.len() && i == ys.len() {
        proof {
            assert(obj_model(xs@) =~= obj_model(xs@).take(i as int));
            assert(obj_model(ys@) =~= obj_model(ys@).take(i as int));
        }
        return true;
    }
    if i == xs.len() || i == ys.len() {
        proof {
            assert(obj_model(xs@).len() != obj_model(ys@).len());
        }
        return false;
    }
    proof {
        assert(decreases_to!(*xs => xs[i as int]));
        assert(decreases_to!(xs[i as int] => xs[i as int].1));
    }
    if xs[i].0.as_str().eq(ys[i].0.as_str()) && values_equal(&xs[i].1, &ys[i].1) {
        proof {
            assert(obj_model(xs@).take(i + 1) =~= obj_model(xs@).take(i as int).push(
                (xs@[i as int].0@, xs@[i as int].1@),
            ));
            assert(obj_model(ys@).take(i + 1) =~= obj_model(ys@).take(i as int).push(
                (ys@[i as int].0@, ys@[i as int].1@),
            ));
            assert(obj_model(xs@)[i as int] == obj_model(ys@)[i as int]);
        }
        objects_equal(xs, ys, i + 1)
    } else {
        proof {
            assert(obj_model(xs@)[i as int] != obj_model(ys@)[i as int]);
        }
        false
    }
}

} // verus!
