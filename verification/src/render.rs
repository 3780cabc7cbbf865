//! The compute side of rendering: rewriting reserved `@state` references
//! for the expander and building the render context from the caller's
//! input and context state.
//!
//! The expansion itself is the external expander's work; these functions
//! prepare exactly what it is handed.

use vstd::prelude::*;
use vstd::string::*;
use crate::text::{chars_of, has_at, has_at_exec, string_of_range};
use crate::types::{assoc_get, assoc_set, map_model, meta_get, meta_set, duplicate_meta};
use crate::value::{lemma_obj_model, obj_model, Val, ValV};

verus! {

broadcast use vstd::std_specs::vec::group_vec_axioms;

/// The first occurrence of `pat` at or after `i`.
pub open spec fn find_sub(s: Seq<char>, pat: Seq<char>, i: int) -> Option<int>
    decreases s.len() - i when 0 <= i <= s.len() && pat.len() > 0
{
    if i > s.len() - pat.len() {
        None
    } else if has_at(s, i, pat) {
        Some(i)
    } else {
        find_sub(s, pat, i + 1)
    }
}

/// What `find_sub` returns: the earliest occurrence, in bounds.
pub proof fn lemma_find_sub(s: Seq<char>, pat: Seq<char>, i: int)
    requires
        0 <= i <= s.len(),
        pat.len() > 0,
    ensures
        match find_sub(s, pat, i) {
            Some(j) => i <= j && j + pat.len() <= s.len() && has_at(s, j, pat) && (forall|k: int|
                i <= k < j ==> !(#[trigger] has_at(s, k, pat))),
            None => forall|k: int| i <= k < s.len() ==> !(#[trigger] has_at(s, k, pat)),
        },
    decreases s.len() - i,
{
    if i <= s.len() - pat.len() && !has_at(s, i, pat) {
        lemma_find_sub(s, pat, i + 1);
    }
}

/// The text from `i` on with every occurrence of `pat` replaced by `rep`,
/// scanning left to right without overlap.
pub open spec fn replace_from(s: Seq<char>, pat: Seq<char>, rep: Seq<char>, i: int) -> Seq<char>
    decreases s.len() - i when 0 <= i <= s.len() && pat.len() > 0 via replace_from_decreases
{
    match find_sub(s, pat, i) {
        None => s.skip(i),
        Some(j) => s.subrange(i, j) + rep + replace_from(s, pat, rep, j + pat.len() as int),
    }
}

#[via_fn]
proof fn replace_from_decreases(s: Seq<char>, pat: Seq<char>, rep: Seq<char>, i: int) {
    lemma_find_sub(s, pat, i);
}

/// The text with every occurrence of `pat` replaced by `rep`.
pub open spec fn replace_all(s: Seq<char>, pat: Seq<char>, rep: Seq<char>) -> Seq<char> {
    replace_from(s, pat, rep, 0)
}

/// When no occurrence starts in `[i, j)`, the first occurrence at or after
/// `i` is the first one at or after `j`.
proof fn lemma_find_sub_from(s: Seq<char>, pat: Seq<char>, i: int, j: int)
    requires
        0 <= i <= j <= s.len(),
        pat.len() > 0,
        forall|k: int| i <= k < j ==> !(#[trigger] has_at(s, k, pat)),
    ensures
        find_sub(s, pat, i) == find_sub(s, pat, j),
    decreases j - i,
{
    if i < j {
        lemma_find_sub_from(s, pat, i + 1, j);
    }
}

/// Replaces every occurrence of `pat` in `cs` by `rep`.
#[verifier::loop_isolation(false)]
fn replace_all_exec(cs: &Vec<char>, pat: &Vec<char>, rep: &str) -> (r: String)
    requires
        pat@.len() > 0,
    ensures
        r@ == replace_all(cs@, pat@, rep@),
{
    let n = cs.len();
    let mut out = String::new();
    let mut i: usize = 0;
    let mut j: usize = 0;
    proof {
        lemma_find_sub(cs@, pat@, 0);
    }
    while j < n
        invariant
            i <= j <= n,
            n == cs@.len(),
            forall|k: int| i as int <= k < j as int ==> !(#[trigger] has_at(cs@, k, pat@)),
            replace_all(cs@, pat@, rep@) == out@ + replace_from(cs@, pat@, rep@, i as int),
        decreases n - j,
    {
        if has_at_exec(cs, j, pat) {
            proof {
                lemma_find_sub_from(cs@, pat@, i as int, j as int);
                assert(find_sub(cs@, pat@, i as int) == Some(j as int));
            }
            let piece = string_of_range(cs, i, j);
            out.append(piece.as_str());
            out.append(rep);
            proof {
                assert(replace_all(cs@, pat@, rep@) =~= out@ + replace_from(
                    cs@,
                    pat@,
                    rep@,
                    j + pat@.len(),
                ));
            }
            i = j + pat.len();
            j = i;
        } else {
            j = j + 1;
        }
    }
    proof {
        lemma_find_sub_from(cs@, pat@, i as int, n as int);
        lemma_find_sub(cs@, pat@, n as int);
        assert(find_sub(cs@, pat@, i as int) is None);
    }
    let tail = string_of_range(cs, i, n);
    out.append(tail.as_str());
    proof {
        assert(cs@.subrange(i as int, n as int) =~= cs@.skip(i as int));
        assert(out@ =~= replace_all(cs@, pat@, rep@));
    }
    out
}

/// The template with reserved state references rewritten to the plain
/// property path the expander can resolve: first `{{@state.` becomes
/// `{{__state.`, then `{{ @state.` becomes `{{ __state.`.
pub open spec fn state_refs_rewritten(t: Seq<char>) -> Seq<char> {
    replace_all(
        replace_all(t, "{{@state."@, "{{__state."@),
        "{{ @state."@,
        "{{ __state."@,
    )
}

/// Rewrites reserved `@state` references for the expander.
pub fn rewrite_state_refs(template: &str) -> (r: String)
    ensures
        r@ == state_refs_rewritten(template@),
{
    proof {
        reveal_strlit("{{@state.");
        reveal_strlit("{{ @state.");
    }
    let cs = chars_of(template);
    let pat1 = chars_of("{{@state.");
    let first = replace_all_exec(&cs, &pat1, "{{__state.");
    let cs2 = chars_of(first.as_str());
    let pat2 = chars_of("{{ @state.");
    replace_all_exec(&cs2, &pat2, "{{ __state.")
}

/// How one state field lands in the context: it is merged into the
/// reserved entry's object when that entry is absent or already an object,
/// and dropped when something else sits there.
pub open spec fn merge_state_field(
    m: Seq<(Seq<char>, ValV)>,
    k: Seq<char>,
    v: ValV,
) -> Seq<(Seq<char>, ValV)> {
    match assoc_get(m, "__state"@) {
        Some(ValV::Obj(sm)) => assoc_set(m, "__state"@, ValV::Obj(assoc_set(sm, k, v))),
        Some(_) => m,
        None => assoc_set(m, "__state"@, ValV::Obj(assoc_set(Seq::empty(), k, v))),
    }
}

/// How all state fields land in the context, in order.
pub open spec fn merge_state_fields(
    m: Seq<(Seq<char>, ValV)>,
    fields: Seq<(Seq<char>, ValV)>,
) -> Seq<(Seq<char>, ValV)>
    decreases fields.len(),
{
    if fields.len() == 0 {
        m
    } else {
        merge_state_fields(merge_state_field(m, fields[0].0, fields[0].1), fields.drop_first())
    }
}

/// The render context the expander is handed: the caller's input (an empty
/// object when absent); when it is an object and the caller's context binds
/// `state`, an object state is merged field by field under the reserved
/// entry and any other state value is bound to it directly.
pub open spec fn render_context_model(
    input: Option<ValV>,
    context: Option<Seq<(Seq<char>, ValV)>>,
) -> ValV {
    let base = match input {
        Some(v) => v,
        None => ValV::Obj(Seq::empty()),
    };
    match (base, context) {
        (ValV::Obj(m), Some(c)) => match assoc_get(c, "state"@) {
            Some(ValV::Obj(sfields)) => ValV::Obj(merge_state_fields(m, sfields)),
            Some(st) => ValV::Obj(assoc_set(m, "__state"@, st)),
            None => ValV::Obj(m),
        },
        _ => base,
    }
}

/// Builds the render context from the caller's input and context.
#[verifier::loop_isolation(false)]
pub fn build_render_context(input: Option<&Val>, context: Option<&Vec<(String, Val)>>) -> (r: Val)
    ensures
        r@ == render_context_model(
            match input {
                Some(v) => Some(v@),
                None => None,
            },
            match context {
                Some(c) => Some(map_model(c@)),
                None => None,
            },
        ),
{
    let base: Val = match input {
        Some(v) => v.duplicate(),
        None => Val::Obj(Vec::new()),
    };
    proof {
        if input is None {
            assert(obj_model(Seq::<(String, Val)>::empty()) =~= Seq::<(Seq<char>, ValV)>::empty());
        }
    }
    let ctx = match context {
        Some(c) => c,
        None => {
            return base;
        },
    };
    let mut m: Vec<(String, Val)> = match base {
        Val::Obj(entries) => entries,
        other => {
            return other;
        },
    };
    proof {
        crate::metadata::lemma_obj_map_bridge(m@);
    }
    match meta_get(ctx, "state") {
        Some(Val::Obj(sfields)) => {
            proof {
                crate::metadata::lemma_obj_map_bridge(sfields@);
            }
            let ghost target = merge_state_fields(map_model(m@), map_model(sfields@));
            proof {
                assert(map_model(sfields@).skip(0) =~= map_model(sfields@));
            }
            let mut i: usize = 0;
            while i < sfields.len()
                invariant
                    i <= sfields@.len(),
                    target == merge_state_fields(
                        map_model(m@),
                        map_model(sfields@).skip(i as int),
                    ),
                decreases sfields@.len() - i,
            {
                proof {
                    assert(map_model(sfields@).skip(i as int)[0] == (sfields@[i as int].0@,
                    sfields@[i as int].1@));
                    assert(map_model(sfields@).skip(i as int).drop_first() =~= map_model(
                        sfields@,
                    ).skip(i + 1));
                }
                let key = sfields[i].0.clone();
                let value = sfields[i].1.duplicate();
                let ghost mm = map_model(m@);
                let ghost fk = sfields@[i as int].0@;
                let ghost fv = sfields@[i as int].1@;
                let existing_is_obj = match meta_get(&m, "__state") {
                    Some(Val::Obj(_)) => true,
                    Some(_) => false,
                    None => true,
                };
                if existing_is_obj {
                    let mut inner: Vec<(String, Val)> = match meta_get(&m, "__state") {
                        Some(Val::Obj(sm)) => {
                            proof {
                                crate::metadata::lemma_obj_map_bridge(sm@);
                            }
                            duplicate_meta(sm)
                        },
                        _ => Vec::new(),
                    };
                    proof {
                        match assoc_get(mm, "__state"@) {
                            Some(sv) => {
                                assert(sv matches ValV::Obj(s0) && map_model(inner@) == s0);
                            },
                            None => {
                                assert(map_model(inner@) =~= Seq::<(Seq<char>, ValV)>::empty());
                            },
                        }
                    }
                    meta_set(&mut inner, key, value);
                    let ghost innerm = map_model(inner@);
                    proof {
                        crate::metadata::lemma_obj_map_bridge(inner@);
                    }
                    meta_set(&mut m, String::from_str("__state"), Val::Obj(inner));
                    proof {
                        match assoc_get(mm, "__state"@) {
                            Some(sv) => {
                                assert(map_model(m@) == assoc_set(
                                    mm,
                                    "__state"@,
                                    ValV::Obj(assoc_set(sv->Obj_0, fk, fv)),
                                ));
                            },
                            None => {
                                assert(map_model(m@) == assoc_set(
                                    mm,
                                    "__state"@,
                                    ValV::Obj(assoc_set(Seq::empty(), fk, fv)),
                                ));
                            },
                        }
                        assert(map_model(m@) == merge_state_field(mm, fk, fv));
                    }
                } else {
                    proof {
                        assert(map_model(m@) == merge_state_field(mm, fk, fv));
                    }
                }
                i = i + 1;
            }
            proof {
                assert(map_model(sfields@).skip(sfields@.len() as int) =~= Seq::<
                    (Seq<char>, ValV),
                >::empty());
            }
            let ghost mv = m@;
            let r = Val::Obj(m);
            proof {
                crate::metadata::lemma_obj_map_bridge(mv);
            }
            r
        },
        Some(st) => {
            let stv = st.duplicate();
            meta_set(&mut m, String::from_str("__state"), stv);
            let ghost mv = m@;
            let r = Val::Obj(m);
            proof {
                crate::metadata::lemma_obj_map_bridge(mv);
            }
            r
        },
        None => {
            let ghost mv = m@;
            let r = Val::Obj(m);
            proof {
                crate::metadata::lemma_obj_map_bridge(mv);
            }
            r
        },
    }
}

} // verus!
