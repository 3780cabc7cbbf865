//! A self-contained structured value: the data model for YAML frontmatter,
//! schema definitions, and message metadata.
//!
//! Numbers are carried as their JSON text (the form a JSON serializer would
//! print), so that values of any numeric kind pass through the pipeline
//! unchanged.

use vstd::prelude::*;

verus! {

broadcast use vstd::std_specs::vec::group_vec_axioms;

/// A structured value, as parsed from YAML or JSON.
#[derive(Debug, PartialEq)]
pub enum Val {
    /// The null value.
    Null,
    /// A boolean.
    Bool(bool),
    /// A number, carried as its JSON text (e.g. `"42"`, `"0.5"`).
    Num(String),
    /// A string.
    Str(String),
    /// An array of values.
    Arr(Vec<Val>),
    /// An object: ordered key/value pairs.
    Obj(Vec<(String, Val)>),
}

/// The mathematical model of a [`Val`].
#[verifier::ext_equal]
pub enum ValV {
    /// The null value.
    Null,
    /// A boolean.
    Bool(bool),
    /// A number, as its JSON text.
    Num(Seq<char>),
    /// A string.
    Str(Seq<char>),
    /// An array of values.
    Arr(Seq<ValV>),
    /// An object: ordered key/value pairs.
    Obj(Seq<(Seq<char>, ValV)>),
}

/// The model of a sequence of values.
pub open spec fn arr_model(items: Seq<Val>) -> Seq<ValV>
    decreases items,
{
    if items.len() == 0 {
        Seq::empty()
    } else {
        arr_model(items.drop_last()).push(items.last().view())
    }
}

/// The model of a sequence of key/value pairs.
pub open spec fn obj_model(pairs: Seq<(String, Val)>) -> Seq<(Seq<char>, ValV)>
    decreases pairs,
{
    if pairs.len() == 0 {
        Seq::empty()
    } else {
        obj_model(pairs.drop_last()).push((pairs.last().0@, pairs.last().1.view()))
    }
}

impl View for Val {
    type V = ValV;

    open spec fn view(&self) -> ValV
        decreases self,
    {
        match self {
            Val::Null => ValV::Null,
            Val::Bool(b) => ValV::Bool(*b),
            Val::Num(s) => ValV::Num(s@),
            Val::Str(s) => ValV::Str(s@),
            Val::Arr(items) => ValV::Arr(arr_model(items@)),
            Val::Obj(pairs) => ValV::Obj(obj_model(pairs@)),
        }
    }
}

/// The model of a value sequence indexes pointwise into the elements' models.
pub proof fn lemma_arr_model(items: Seq<Val>)
    ensures
        arr_model(items).len() == items.len(),
        forall|i: int| 0 <= i < items.len() ==> arr_model(items)[i] == #[trigger] items[i]@,
    decreases items,
{
    if items.len() == 0 {
        assert(arr_model(items) =~= Seq::<ValV>::empty());
    } else {
        lemma_arr_model(items.drop_last());
        assert(arr_model(items) == arr_model(items.drop_last()).push(items.last()@));
        assert forall|i: int| 0 <= i < items.len() implies arr_model(items)[i]
            == #[trigger] items[i]@ by {
            if i < items.len() - 1 {
                assert(items.drop_last()[i] == items[i]);
            }
        }
    }
}

/// The model of a pair sequence indexes pointwise into the pairs' models.
pub proof fn lemma_obj_model(pairs: Seq<(String, Val)>)
    ensures
        obj_model(pairs).len() == pairs.len(),
        forall|i: int| 0 <= i < pairs.len() ==> obj_model(pairs)[i] == (
            #[trigger] pairs[i].0@,
            pairs[i].1@,
        ),
    decreases pairs,
{
    if pairs.len() == 0 {
        assert(obj_model(pairs) =~= Seq::<(Seq<char>, ValV)>::empty());
    } else {
        lemma_obj_model(pairs.drop_last());
        assert(obj_model(pairs) == obj_model(pairs.drop_last()).push(
            (pairs.last().0@, pairs.last().1@),
        ));
        assert forall|i: int| 0 <= i < pairs.len() implies obj_model(pairs)[i] == (
            #[trigger] pairs[i].0@,
            pairs[i].1@,
        ) by {
            if i < pairs.len() - 1 {
                assert(pairs.drop_last()[i] == pairs[i]);
            }
        }
    }
}

impl DeepView for Val {
    type V = ValV;

    open spec fn deep_view(&self) -> ValV {
        self.view()
    }
}

impl Val {
    /// Returns a copy of this value whose model is the same.
    #[verifier::loop_isolation(false)]
    pub fn duplicate(&self) -> (r: Val)
        ensures
            r@ == self@,
        decreases *self,
    {
        match self {
            Val::Null => Val::Null,
            Val::Bool(b) => Val::Bool(*b),
            Val::Num(s) => Val::Num(s.clone()),
            Val::Str(s) => Val::Str(s.clone()),
            Val::Arr(items) => {
                let mut out: Vec<Val> = Vec::new();
                let n = items.len();
                let mut i: usize = 0;
                while i < n
                    invariant
                        n == items.len(),
                        i <= n,
                        out@.len() == i as int,
                        forall|j: int| 0 <= j < i as int ==> out@[j]@ == #[trigger] items@[j]@,
                    decreases n - i,
                {
                    proof {
                        assert(decreases_to!(*self => self->Arr_0));
                        assert(decreases_to!(self->Arr_0 => items[i as int]));
                    }
                    let c = items[i].duplicate();
                    out.push(c);
                    i = i + 1;
                }
                proof {
                    lemma_arr_model(out@);
                    lemma_arr_model(items@);
                    assert forall|j: int| 0 <= j < n as int implies arr_model(out@)[j]
                        == arr_model(items@)[j] by {
                        assert(out@[j]@ == items@[j]@);
                    }
                    assert(arr_model(out@) =~= arr_model(items@));
                }
                Val::Arr(out)
            },
            Val::Obj(pairs) => {
                let mut out: Vec<(String, Val)> = Vec::new();
                let n = pairs.len();
                let mut i: usize = 0;
                while i < n
                    invariant
                        n == pairs.len(),
                        i <= n,
                        out@.len() == i as int,
                        forall|j: int| 0 <= j < i as int ==> (#[trigger] out@[j]).0@ == pairs@[j].0@
                            && out@[j].1@ == pairs@[j].1@,
                    decreases n - i,
                {
                    proof {
                        assert(decreases_to!(*self => self->Obj_0));
                        assert(decreases_to!(self->Obj_0 => pairs[i as int]));
                        assert(decreases_to!(pairs[i as int] => pairs[i as int].1));
                    }
                    let k = pairs[i].0.clone();
                    let v = pairs[i].1.duplicate();
                    out.push((k, v));
                    i = i + 1;
                }
                proof {
                    lemma_obj_model(out@);
                    lemma_obj_model(pairs@);
                    assert forall|j: int| 0 <= j < n as int implies obj_model(out@)[j]
                        == obj_model(pairs@)[j] by {
                        assert(out@[j].0@ == pairs@[j].0@ && out@[j].1@ == pairs@[j].1@);
                    }
                    assert(obj_model(out@) =~= obj_model(pairs@));
                }
                Val::Obj(out)
            },
        }
    }
}

} // verus!
