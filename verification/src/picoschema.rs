//! Picoschema: a compact schema shorthand compiled into full schema
//! objects.
//!
//! A schema value is taken as already expanded when it is an object with a
//! `type` or `properties` key; a plain object is compiled key by key into
//! an object schema; a string uses the shorthand grammar: `T[]` is an array
//! of `T`, `A | B` is a union, and the bare keywords `string`, `number`,
//! `integer`, `boolean`, `object`, `array` and `null` name primitive types.
//! Anything else fails, naming the offending token.

use vstd::prelude::*;
use vstd::string::*;
use crate::error::DotpromptError;
use crate::text::{
    chars_of, lemma_skip_spaces, lemma_trim_end_at, skip_spaces_exec, string_of_chars,
    string_of_range, subvec, trim_end_exec, trim_of,
};
use crate::types::assoc_get;
use crate::value::{Val, ValV};

verus! {

broadcast use vstd::std_specs::vec::group_vec_axioms;

/// The error text prefix a picoschema failure carries before the token.
pub open spec fn pico_error_prefix() -> Seq<char> {
    "unknown picoschema type: "@
}

/// The position of the first `|` at or after `from`.
pub open spec fn find_pipe(t: Seq<char>, from: int) -> Option<int>
    decreases t.len() - from when 0 <= from <= t.len()
{
    if from >= t.len() {
        None
    } else if t[from] == '|' {
        Some(from)
    } else {
        find_pipe(t, from + 1)
    }
}

/// `find_pipe` finds the earliest `|`, within bounds.
pub proof fn lemma_find_pipe(t: Seq<char>, from: int)
    requires
        0 <= from <= t.len(),
    ensures
        match find_pipe(t, from) {
            Some(k) => from <= k < t.len() && t[k] == '|' && (forall|j: int|
                from <= j < k ==> t[j] != '|'),
            None => forall|j: int| from <= j < t.len() ==> t[j] != '|',
        },
    decreases t.len() - from,
{
    if from < t.len() && t[from] != '|' {
        lemma_find_pipe(t, from + 1);
    }
}

/// The trim of a text is no longer than the text.
pub proof fn lemma_trim_len(s: Seq<char>)
    ensures
        trim_of(s).len() <= s.len(),
{
    lemma_skip_spaces(s, 0);
    lemma_trim_end_at(s, s.len() as int);
}

/// Whether a trimmed shorthand names an array: it ends in `[]`.
pub open spec fn has_array_suffix(t: Seq<char>) -> bool {
    t.len() >= 2 && t[t.len() - 2] == '[' && t[t.len() - 1] == ']'
}

/// Whether a trimmed shorthand is a primitive type keyword.
pub open spec fn is_pico_keyword(t: Seq<char>) -> bool {
    t == "string"@ || t == "number"@ || t == "integer"@ || t == "boolean"@ || t == "object"@
        || t == "array"@ || t == "null"@
}

/// The schema a shorthand string compiles to, or the offending token.
///
/// On the trimmed string, in this order: a trailing `[]` makes an array
/// schema of the compiled rest; a top-level `|` makes an `anyOf` of the
/// compiled alternatives; a bare keyword makes `{"type": keyword}`;
/// anything else is an error naming the trimmed token.
pub open spec fn pico_of_str(s: Seq<char>) -> Result<ValV, Seq<char>>
    decreases s.len(), s.len() + 1 via pico_of_str_decreases
{
    let t = trim_of(s);
    if has_array_suffix(t) {
        match pico_of_str(t.take(t.len() - 2)) {
            Ok(inner) => Ok(
                ValV::Obj(
                    seq![
                        ("type"@, ValV::Str("array"@)),
                        ("items"@, inner),
                    ],
                ),
            ),
            Err(e) => Err(e),
        }
    } else if find_pipe(t, 0) is Some {
        match pico_union_from(t, 0) {
            Ok(items) => Ok(ValV::Obj(seq![("anyOf"@, ValV::Arr(items))])),
            Err(e) => Err(e),
        }
    } else if is_pico_keyword(t) {
        Ok(ValV::Obj(seq![("type"@, ValV::Str(t))]))
    } else {
        Err(t)
    }
}

/// The compiled alternatives of the `|`-separated pieces of `t` from
/// position `from` on.
pub open spec fn pico_union_from(t: Seq<char>, from: int) -> Result<Seq<ValV>, Seq<char>>
    decreases t.len(), t.len() - from
        when 0 <= from <= t.len() && (from == 0 ==> find_pipe(t, 0) is Some)
        via pico_union_from_decreases
{
    match find_pipe(t, from) {
        Some(k) => match pico_of_str(t.subrange(from, k)) {
            Ok(v) => match pico_union_from(t, k + 1) {
                Ok(rest) => Ok(seq![v] + rest),
                Err(e) => Err(e),
            },
            Err(e) => Err(e),
        },
        None => match pico_of_str(t.subrange(from, t.len() as int)) {
            Ok(v) => Ok(seq![v]),
            Err(e) => Err(e),
        },
    }
}

#[via_fn]
proof fn pico_of_str_decreases(s: Seq<char>) {
    lemma_trim_len(s);
}

#[via_fn]
proof fn pico_union_from_decreases(t: Seq<char>, from: int) {
    lemma_find_pipe(t, from);
}

/// The schema a value compiles to, or the offending token.
///
/// An object with a `type` or `properties` key is already a schema and is
/// returned unchanged; any other object is compiled key by key into an
/// object schema; a string uses the shorthand grammar; everything else is
/// returned unchanged.
pub open spec fn pico_of_value(v: ValV) -> Result<ValV, Seq<char>>
    decreases v,
{
    match v {
        ValV::Obj(m) => if assoc_get(m, "type"@) is Some || assoc_get(m, "properties"@)
            is Some {
            Ok(v)
        } else {
            match pico_obj(m) {
                Ok(props) => Ok(
                    ValV::Obj(
                        seq![
                            ("type"@, ValV::Str("object"@)),
                            ("properties"@, ValV::Obj(props)),
                        ],
                    ),
                ),
                Err(e) => Err(e),
            }
        },
        ValV::Str(s) => pico_of_str(s),
        _ => Ok(v),
    }
}

/// The entries of a plain object, each value compiled.
pub open spec fn pico_obj(m: Seq<(Seq<char>, ValV)>) -> Result<
    Seq<(Seq<char>, ValV)>,
    Seq<char>,
>
    decreases m,
{
    if m.len() == 0 {
        Ok(Seq::empty())
    } else {
        match pico_of_value(m[0].1) {
            Ok(v) => match pico_obj(m.drop_first()) {
                Ok(rest) => Ok(seq![(m[0].0, v)] + rest),
                Err(e) => Err(e),
            },
            Err(e) => Err(e),
        }
    }
}

/// Builds the picoschema error for an offending token.
fn pico_error(token: String) -> (r: DotpromptError)
    ensures
        r matches DotpromptError::PicoschemaError(m) && m@ == pico_error_prefix() + token@,
{
    DotpromptError::PicoschemaError(
        String::from_str("unknown picoschema type: ").concat(token.as_str()),
    )
}

/// Compiles a shorthand string, per `pico_of_str`.
#[verifier::loop_isolation(false)]
fn parse_picoschema_string(s: &str) -> (r: Result<Val, DotpromptError>)
    ensures
        match pico_of_str(s@) {
            Ok(out) => r matches Ok(v) && v@ == out,
            Err(tok) => r matches Err(e) && e matches DotpromptError::PicoschemaError(m) && m@
                == pico_error_prefix() + tok,
        },
    decreases s@.len(), s@.len() + 1,
{
    proof {
        lemma_trim_len(s@);
    }
    let cs = chars_of(s);
    let n = cs.len();
    let a = skip_spaces_exec(&cs, 0, n);
    let b = trim_end_exec(&cs, 0, n);
    let t: Vec<char> = if a >= b {
        Vec::new()
    } else {
        subvec(&cs, a, b)
    };
    proof {
        assert(cs@.subrange(0, n as int) =~= s@);
        if a >= b {
            assert(t@ =~= trim_of(s@));
        } else {
            assert(t@ =~= trim_of(s@));
        }
    }
    let tn = t.len();
    if tn >= 2 && t[tn - 2] == '[' && t[tn - 1] == ']' {
        let inner = string_of_range(&t, 0, tn - 2);
        proof {
            assert(inner@ =~= trim_of(s@).take(trim_of(s@).len() - 2));
            assert(inner@.len() < s@.len());
        }
        match parse_picoschema_string(inner.as_str()) {
            Ok(inner_v) => {
                let ghost innerm = inner_v@;
                let mut entries: Vec<(String, Val)> = Vec::new();
                entries.push((String::from_str("type"), Val::Str(String::from_str("array"))));
                entries.push((String::from_str("items"), inner_v));
                let out = Val::Obj(entries);
                proof {
                    crate::value::lemma_obj_model(entries@);
                    let t_spec = trim_of(s@);
                    assert(t@ == t_spec);
                    assert(has_array_suffix(t_spec));
                    assert(pico_of_str(inner@) matches Ok(x) && x == innerm);
                    assert(pico_of_str(s@) is Ok);
                    assert(pico_of_str(s@)->Ok_0 == ValV::Obj(
                        seq![("type"@, ValV::Str("array"@)), ("items"@, innerm)],
                    ));
                    assert(entries@[0].0@ == "type"@ && entries@[0].1@ == ValV::Str("array"@));
                    assert(entries@[1].0@ == "items"@ && entries@[1].1@ == innerm);
                    assert(crate::value::obj_model(entries@).len() == 2);
                    assert(out@ matches ValV::Obj(m) && m =~= pico_of_str(
                        s@,
                    )->Ok_0->Obj_0);
                }
                Ok(out)
            },
            Err(e) => Err(e),
        }
    } else {
        let mut has_pipe = false;
        let mut j: usize = 0;
        while j < tn
            invariant
                j <= tn,
                has_pipe ==> find_pipe(t@, 0) is Some,
                !has_pipe ==> find_pipe(t@, 0) == find_pipe(t@, j as int),
            decreases tn - j,
        {
            if t[j] == '|' {
                has_pipe = true;
                proof {
                    lemma_find_pipe(t@, 0);
                }
                j = tn;
            } else {
                j = j + 1;
            }
        }
        if has_pipe {
            match pico_union_exec(&t, 0) {
                Ok(items) => {
                    let ghost itemsv = items@;
                    let mut entries: Vec<(String, Val)> = Vec::new();
                    entries.push((String::from_str("anyOf"), Val::Arr(items)));
                    let out = Val::Obj(entries);
                    proof {
                        crate::value::lemma_obj_model(entries@);
                        crate::value::lemma_arr_model(itemsv);
                        assert(entries@[0].0@ == "anyOf"@);
                        assert(entries@[0].1@ == ValV::Arr(crate::value::arr_model(itemsv)));
                        assert(out@ matches ValV::Obj(m) && m =~= pico_of_str(
                            s@,
                        )->Ok_0->Obj_0);
                    }
                    Ok(out)
                },
                Err(e) => Err(e),
            }
        } else {
            let ts = string_of_chars(&t);
            let tstr = ts.as_str();
            if tstr.eq("string") || tstr.eq("number") || tstr.eq("integer") || tstr.eq("boolean")
                || tstr.eq("object") || tstr.eq("array") || tstr.eq("null") {
                let mut entries: Vec<(String, Val)> = Vec::new();
                entries.push((String::from_str("type"), Val::Str(ts)));
                let out = Val::Obj(entries);
                proof {
                    crate::value::lemma_obj_model(entries@);
                    assert(entries@[0].0@ == "type"@ && entries@[0].1@ == ValV::Str(t@));
                    assert(out@ matches ValV::Obj(m) && m =~= pico_of_str(
                        s@,
                    )->Ok_0->Obj_0);
                }
                Ok(out)
            } else {
                Err(pico_error(ts))
            }
        }
    }
}

/// Compiles the `|`-separated alternatives of `t` from `from` on, per
/// `pico_union_from`.
#[verifier::loop_isolation(false)]
fn pico_union_exec(t: &Vec<char>, from: usize) -> (r: Result<Vec<Val>, DotpromptError>)
    requires
        from <= t@.len(),
        from == 0 ==> find_pipe(t@, 0) is Some,
    ensures
        match pico_union_from(t@, from as int) {
            Ok(out) => r matches Ok(items) && crate::value::arr_model(items@) == out,
            Err(tok) => r matches Err(e) && e matches DotpromptError::PicoschemaError(m) && m@
                == pico_error_prefix() + tok,
        },
    decreases t@.len(), t@.len() - from,
{
    proof {
        lemma_find_pipe(t@, from as int);
    }
    let tn = t.len();
    let mut k: usize = from;
    let mut found = false;
    while k < tn && !found
        invariant
            from <= k <= tn,
            found ==> k < tn && find_pipe(t@, from as int) == Some(k as int),
            !found ==> find_pipe(t@, from as int) == find_pipe(t@, k as int),
        decreases tn - k + (if found { 0int } else { 1int }),
    {
        if t[k] == '|' {
            found = true;
        } else {
            k = k + 1;
        }
    }
    if found {
        let piece = string_of_range(t, from, k);
        proof {
            assert(piece@ == t@.subrange(from as int, k as int));
            assert(piece@.len() < t@.len());
        }
        match parse_picoschema_string(piece.as_str()) {
            Ok(v) => match pico_union_exec(t, k + 1) {
                Ok(rest) => {
                    let mut items: Vec<Val> = Vec::new();
                    items.push(v);
                    let mut rest_items = rest;
                    let ghost restv = rest_items@;
                    items.append(&mut rest_items);
                    proof {
                        crate::value::lemma_arr_model(items@);
                        crate::value::lemma_arr_model(restv);
                        assert(items@ =~= seq![items@[0]] + restv);
                        assert forall|q: int| 0 <= q < items@.len() implies crate::value::arr_model(
                            items@,
                        )[q] == (seq![pico_of_str(t@.subrange(from as int, k as int))->Ok_0]
                            + pico_union_from(t@, k + 1)->Ok_0)[q] by {
                            assert(crate::value::arr_model(items@)[q] == items@[q]@);
                            if q > 0 {
                                assert(items@[q]@ == restv[q - 1]@);
                                assert(crate::value::arr_model(restv)[q - 1] == restv[q - 1]@);
                            }
                        }
                        assert(crate::value::arr_model(items@) =~= pico_union_from(
                            t@,
                            from as int,
                        )->Ok_0);
                    }
                    Ok(items)
                },
                Err(e) => Err(e),
            },
            Err(e) => Err(e),
        }
    } else {
        let piece = string_of_range(t, from, tn);
        proof {
            assert(piece@ == t@.subrange(from as int, t@.len() as int));
            assert(from > 0);
            assert(piece@.len() < t@.len());
        }
        match parse_picoschema_string(piece.as_str()) {
            Ok(v) => {
                let mut items: Vec<Val> = Vec::new();
                items.push(v);
                proof {
                    crate::value::lemma_arr_model(items@);
                    assert(crate::value::arr_model(items@) =~= pico_union_from(
                        t@,
                        from as int,
                    )->Ok_0);
                }
                Ok(items)
            },
            Err(e) => Err(e),
        }
    }
}

/// Compiles a picoschema value into a full schema, per `pico_of_value`.
pub fn picoschema_to_json_schema(schema: &Val) -> (r: Result<Val, DotpromptError>)
    ensures
        match pico_of_value(schema@) {
            Ok(out) => r matches Ok(v) && v@ == out,
            Err(tok) => r matches Err(e) && e matches DotpromptError::PicoschemaError(m) && m@
                == pico_error_prefix() + tok,
        },
    decreases *schema, 0int,
{
    match schema {
        Val::Obj(pairs) => {
            proof {
                crate::value::lemma_obj_model(pairs@);
                assert(crate::value::obj_model(pairs@) =~= crate::types::map_model(pairs@));
            }
            let has_type = crate::types::meta_get(pairs, "type").is_some();
            let has_props = crate::types::meta_get(pairs, "properties").is_some();
            if has_type || has_props {
                Ok(schema.duplicate())
            } else {
                proof {
                    assert(decreases_to!(*schema => schema->Obj_0));
                }
                match pico_obj_exec(pairs, 0) {
                    Ok(props) => {
                        proof {
                            assert(crate::types::map_model(pairs@).skip(0)
                                =~= crate::value::obj_model(pairs@));
                        }
                        let ghost propsv = props@;
                        let mut entries: Vec<(String, Val)> = Vec::new();
                        entries.push(
                            (String::from_str("type"), Val::Str(String::from_str("object"))),
                        );
                        entries.push((String::from_str("properties"), Val::Obj(props)));
                        let out = Val::Obj(entries);
                        proof {
                            crate::value::lemma_obj_model(entries@);
                            crate::value::lemma_obj_model(propsv);
                            assert forall|q: int| 0 <= q < propsv.len() implies crate::value::obj_model(
                                propsv,
                            )[q] == crate::types::map_model(propsv)[q] by {
                                assert(crate::value::obj_model(propsv)[q] == (propsv[q].0@, propsv[q].1@));
                            }
                            assert(crate::value::obj_model(propsv) =~= crate::types::map_model(
                                propsv,
                            ));
                            assert(entries@[0].0@ == "type"@ && entries@[0].1@ == ValV::Str(
                                "object"@,
                            ));
                            assert(entries@[1].0@ == "properties"@ && entries@[1].1@
                                == ValV::Obj(crate::value::obj_model(propsv)));
                            assert(out@ matches ValV::Obj(m) && m =~= pico_of_value(
                                schema@,
                            )->Ok_0->Obj_0);
                        }
                        Ok(out)
                    },
                    Err(e) => {
                        proof {
                            assert(crate::types::map_model(pairs@).skip(0)
                                =~= crate::value::obj_model(pairs@));
                        }
                        Err(e)
                    },
                }
            }
        },
        Val::Str(s) => parse_picoschema_string(s.as_str()),
        _ => Ok(schema.duplicate()),
    }
}

/// Compiles the entries of a plain object from index `i` on, per
/// `pico_obj` of the remaining entries.
#[verifier::loop_isolation(false)]
fn pico_obj_exec(pairs: &Vec<(String, Val)>, i: usize) -> (r: Result<
    Vec<(String, Val)>,
    DotpromptError,
>)
    requires
        i <= pairs@.len(),
    ensures
        match pico_obj(crate::types::map_model(pairs@).skip(i as int)) {
            Ok(out) => r matches Ok(es) && crate::types::map_model(es@) == out,
            Err(tok) => r matches Err(e) && e matches DotpromptError::PicoschemaError(m) && m@
                == pico_error_prefix() + tok,
        },
    decreases *pairs, pairs@.len() - i,
{
    let ghost m = crate::types::map_model(pairs@).skip(i as int);
    if i == pairs.len() {
        proof {
            assert(m =~= Seq::<(Seq<char>, ValV)>::empty());
            assert(crate::types::map_model(Seq::<(String, Val)>::empty()) =~= Seq::<
                (Seq<char>, ValV),
            >::empty());
        }
        Ok(Vec::new())
    } else {
        proof {
            assert(m[0] == (pairs@[i as int].0@, pairs@[i as int].1@));
            assert(decreases_to!(*pairs => pairs[i as int]));
            assert(decreases_to!(pairs[i as int] => pairs[i as int].1));
        }
        match picoschema_to_json_schema(&pairs[i].1) {
            Ok(v) => {
                let ghost vm = v@;
                match pico_obj_exec(pairs, i + 1) {
                    Ok(rest) => {
                        let ghost restv = rest@;
                        let mut out: Vec<(String, Val)> = Vec::new();
                        out.push((pairs[i].0.clone(), v));
                        let mut rest_items = rest;
                        out.append(&mut rest_items);
                        proof {
                            assert(m.drop_first() =~= crate::types::map_model(pairs@).skip(
                                i + 1,
                            ));
                            assert(out@ =~= seq![out@[0]] + restv);
                            assert(pico_obj(m) == Ok::<_, Seq<char>>(
                                seq![(m[0].0, vm)] + pico_obj(m.drop_first())->Ok_0,
                            ));
                            assert forall|q: int| 0 <= q < out@.len()
                                implies crate::types::map_model(out@)[q] == (seq![(m[0].0, vm)]
                                + pico_obj(m.drop_first())->Ok_0)[q] by {
                                if q > 0 {
                                    assert(out@[q] == restv[q - 1]);
                                    assert(crate::types::map_model(restv)[q - 1] == (restv[q
                                        - 1].0@, restv[q - 1].1@));
                                }
                            }
                            assert(crate::types::map_model(out@) =~= pico_obj(m)->Ok_0);
                        }
                        Ok(out)
                    },
                    Err(e) => {
                        proof {
                            assert(m.drop_first() =~= crate::types::map_model(pairs@).skip(
                                i + 1,
                            ));
                        }
                        Err(e)
                    },
                }
            },
            Err(e) => Err(e),
        }
    }
}

} // verus!
