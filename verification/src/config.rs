//! Runtime lint configuration: allowed and denied rules, merged from a
//! configuration file and command-line flags.

use vstd::prelude::*;
use vstd::string::*;

verus! {

broadcast use vstd::std_specs::vec::group_vec_axioms;

/// Whether a rule name occurs in a list.
pub open spec fn str_in(v: Seq<String>, k: Seq<char>) -> bool {
    exists|i: int| 0 <= i < v.len() && (#[trigger] v[i])@ == k
}

/// Runtime configuration: rule sets and flags.
///
/// The `allow` and `deny` lists are kept free of duplicates and behave as
/// sets of rule names.
#[derive(Debug, Clone, PartialEq)]
pub struct Config {
    /// Rules to allow (disable).
    pub allow: Vec<String>,
    /// Rules to deny (enable as errors).
    pub deny: Vec<String>,
    /// Treat warnings as errors.
    pub warnings_as_errors: bool,
    /// File patterns to ignore.
    pub ignore: Vec<String>,
}

/// Decides whether a rule name occurs in a list.
#[verifier::loop_isolation(false)]
pub fn list_contains(v: &Vec<String>, k: &str) -> (r: bool)
    ensures
        r == str_in(v@, k@),
{
    let mut i: usize = 0;
    while i < v.len()
        invariant
            i <= v@.len(),
            forall|j: int| 0 <= j < i as int ==> (#[trigger] v@[j])@ != k@,
        decreases v@.len() - i,
    {
        if v[i].as_str().eq(k) {
            return true;
        }
        i = i + 1;
    }
    false
}

/// Adds a rule name to a list when it is absent.
#[verifier::loop_isolation(false)]
pub fn list_insert(v: &mut Vec<String>, k: String)
    ensures
        forall|x: Seq<char>| #[trigger] str_in(final(v)@, x) <==> str_in(old(v)@, x) || x == k@,
{
    if !list_contains(v, k.as_str()) {
        let ghost prev = v@;
        v.push(k);
        proof {
            assert forall|x: Seq<char>| #[trigger] str_in(v@, x) implies str_in(prev, x) || x
                == k@ by {
                let i = choose|i: int| 0 <= i < v@.len() && (#[trigger] v@[i])@ == x;
                if i < prev.len() {
                    assert(prev[i]@ == x);
                }
            }
            assert forall|x: Seq<char>| str_in(prev, x) || x == k@ implies #[trigger] str_in(
                v@,
                x,
            ) by {
                if str_in(prev, x) {
                    let i = choose|i: int| 0 <= i < prev.len() && (#[trigger] prev[i])@ == x;
                    assert(v@[i]@ == x);
                } else {
                    assert(v@[v@.len() - 1]@ == x);
                }
            }
        }
    } else {
        proof {
            assert forall|x: Seq<char>| #[trigger] str_in(v@, x) <==> str_in(v@, x) || x == k@ by {
            }
        }
    }
}

/// Removes every occurrence of a rule name from a list.
#[verifier::loop_isolation(false)]
pub fn list_remove(v: &mut Vec<String>, k: &str)
    ensures
        forall|x: Seq<char>| #[trigger] str_in(final(v)@, x) <==> str_in(old(v)@, x) && x != k@,
{
    let mut out: Vec<String> = Vec::new();
    let n = v.len();
    let mut i: usize = 0;
    while i < n
        invariant
            i <= n,
            n == old(v)@.len(),
            v@ == old(v)@,
            forall|j: int| 0 <= j < out@.len() ==> (#[trigger] out@[j])@ != k@ && str_in(
                old(v)@.take(i as int),
                out@[j]@,
            ),
            forall|j: int| 0 <= j < i as int ==> ((#[trigger] old(v)@[j])@ == k@ || str_in(
                out@,
                old(v)@[j]@,
            )),
        decreases n - i,
    {
        if !v[i].as_str().eq(k) {
            let item = v[i].clone();
            let ghost prev = out@;
            out.push(item);
            proof {
                assert(out@[out@.len() - 1]@ == old(v)@[i as int]@);
                assert forall|j: int| 0 <= j < out@.len() implies (#[trigger] out@[j])@ != k@
                    && str_in(old(v)@.take(i + 1), out@[j]@) by {
                    if j < prev.len() {
                        let w = choose|w: int| 0 <= w < i as int && (#[trigger] old(v)@.take(
                            i as int,
                        )[w])@ == prev[j]@;
                        assert(old(v)@.take(i + 1)[w]@ == prev[j]@);
                    } else {
                        assert(old(v)@.take(i + 1)[i as int]@ == out@[j]@);
                    }
                }
                assert forall|j: int| 0 <= j < i + 1 implies ((#[trigger] old(v)@[j])@ == k@
                    || str_in(out@, old(v)@[j]@)) by {
                    if j < i as int && old(v)@[j]@ != k@ {
                        let w = choose|w: int| 0 <= w < prev.len() && (#[trigger] prev[w])@ == old(
                            v,
                        )@[j]@;
                        assert(out@[w]@ == old(v)@[j]@);
                    }
                }
            }
        }
        i = i + 1;
    }
    *v = out;
    proof {
        assert forall|x: Seq<char>| #[trigger] str_in(v@, x) implies str_in(old(v)@, x) && x
            != k@ by {
            let j = choose|j: int| 0 <= j < v@.len() && (#[trigger] v@[j])@ == x;
            let w = choose|w: int| 0 <= w < n as int && (#[trigger] old(v)@.take(n as int)[w])@
                == x;
            assert(old(v)@[w]@ == x);
        }
        assert forall|x: Seq<char>| str_in(old(v)@, x) && x != k@ implies #[trigger] str_in(
            v@,
            x,
        ) by {
            let j = choose|j: int| 0 <= j < old(v)@.len() && (#[trigger] old(v)@[j])@ == x;
        }
    }
}

impl Config {
    /// Creates a new empty configuration.
    pub fn new() -> (r: Config)
        ensures
            r.allow@.len() == 0,
            r.deny@.len() == 0,
            !r.warnings_as_errors,
            r.ignore@.len() == 0,
    {
        Config { allow: Vec::new(), deny: Vec::new(), warnings_as_errors: false, ignore: Vec::new() }
    }

    /// Merges command-line flags into this configuration; flags take
    /// precedence over what a configuration file set: a rule both allowed
    /// earlier and denied now is denied, and the other way round.
    #[verifier::loop_isolation(false)]
    pub fn merge_cli(&mut self, allow: &Vec<String>, deny: &Vec<String>, strict: bool)
        ensures
            forall|x: Seq<char>| #[trigger] str_in(final(self).allow@, x) <==> (str_in(
                old(self).allow@,
                x,
            ) || str_in(allow@, x)) && !str_in(deny@, x),
            forall|x: Seq<char>| #[trigger] str_in(final(self).deny@, x) <==> (str_in(
                old(self).deny@,
                x,
            ) && !str_in(allow@, x)) || str_in(deny@, x),
            final(self).warnings_as_errors == (old(self).warnings_as_errors || strict),
            final(self).ignore == old(self).ignore,
    {
        let mut i: usize = 0;
        while i < allow.len()
            invariant
                i <= allow@.len(),
                self.ignore == old(self).ignore,
                self.warnings_as_errors == old(self).warnings_as_errors,
                forall|x: Seq<char>| #[trigger] str_in(self.allow@, x) <==> str_in(
                    old(self).allow@,
                    x,
                ) || str_in(allow@.take(i as int), x),
                forall|x: Seq<char>| #[trigger] str_in(self.deny@, x) <==> str_in(
                    old(self).deny@,
                    x,
                ) && !str_in(allow@.take(i as int), x),
            decreases allow@.len() - i,
    {
            let rule = allow[i].clone();
            proof {
                lemma_take_extend(allow@, i as int);
            }
            list_insert(&mut self.allow, rule);
            list_remove(&mut self.deny, allow[i].as_str());
            i = i + 1;
        }
        proof {
            assert(allow@.take(allow@.len() as int) =~= allow@);
        }
        let mut j: usize = 0;
        let ghost allow_mid = self.allow@;
        let ghost deny_mid = self.deny@;
        while j < deny.len()
            invariant
                j <= deny@.len(),
                self.ignore == old(self).ignore,
                self.warnings_as_errors == old(self).warnings_as_errors,
                forall|x: Seq<char>| #[trigger] str_in(self.deny@, x) <==> str_in(deny_mid, x)
                    || str_in(deny@.take(j as int), x),
                forall|x: Seq<char>| #[trigger] str_in(self.allow@, x) <==> str_in(allow_mid, x)
                    && !str_in(deny@.take(j as int), x),
            decreases deny@.len() - j,
        {
            let rule = deny[j].clone();
            proof {
                lemma_take_extend(deny@, j as int);
            }
            list_insert(&mut self.deny, rule);
            list_remove(&mut self.allow, deny[j].as_str());
            j = j + 1;
        }
        proof {
            assert(deny@.take(deny@.len() as int) =~= deny@);
        }
        if strict {
            self.warnings_as_errors = true;
        }
    }

    /// Whether a rule is allowed (disabled).
    pub fn is_allowed(&self, rule: &str) -> (r: bool)
        ensures
            r == str_in(self.allow@, rule@),
    {
        list_contains(&self.allow, rule)
    }

    /// Whether a rule is explicitly denied.
    pub fn is_denied(&self, rule: &str) -> (r: bool)
        ensures
            r == str_in(self.deny@, rule@),
    {
        list_contains(&self.deny, rule)
    }
}

/// Extending a prefix by one element extends what occurs in it by exactly
/// that element.
proof fn lemma_take_extend(v: Seq<String>, i: int)
    requires
        0 <= i < v.len(),
    ensures
        forall|x: Seq<char>| #[trigger] str_in(v.take(i + 1), x) <==> str_in(v.take(i), x) || x
            == v[i]@,
{
    assert forall|x: Seq<char>| #[trigger] str_in(v.take(i + 1), x) implies str_in(v.take(i), x)
        || x == v[i]@ by {
        let j = choose|j: int| 0 <= j < i + 1 && (#[trigger] v.take(i + 1)[j])@ == x;
        if j < i {
            assert(v.take(i)[j]@ == x);
        }
    }
    assert forall|x: Seq<char>| str_in(v.take(i), x) || x == v[i]@ implies #[trigger] str_in(
        v.take(i + 1),
        x,
    ) by {
        if str_in(v.take(i), x) {
            let j = choose|j: int| 0 <= j < i && (#[trigger] v.take(i)[j])@ == x;
            assert(v.take(i + 1)[j]@ == x);
        } else {
            assert(v.take(i + 1)[i]@ == x);
        }
    }
}

} // verus!
