//! Feature reconciliation: merging the declared feature list with the
//! grafting feature inferred from the manifest, without duplication.

use crate::status::copy_string_vec;
use vstd::prelude::*;
use vstd::string::StringExecFns;

verus! {

/// The characters of the inferred feature name.
pub open spec fn grafting_feature() -> Seq<char> {
    seq!['g', 'r', 'a', 'f', 't', 'i', 'n', 'g']
}

/// The declared list with every occurrence of the grafting feature removed.
pub open spec fn without_grafting(declared: Seq<Seq<char>>) -> Seq<Seq<char>> {
    declared.filter(|f: Seq<char>| f != grafting_feature())
}

/// The effective feature list: order-preserving and starting from the
/// declared list (upstream duplicates of other features pass through). When
/// a graft was detected and the grafting feature is absent it is appended;
/// when no graft was detected every occurrence of it is removed.
pub open spec fn reconciled(declared: Seq<Seq<char>>, graft: bool) -> Seq<Seq<char>> {
    if graft {
        if declared.contains(grafting_feature()) {
            declared
        } else {
            declared.push(grafting_feature())
        }
    } else {
        without_grafting(declared)
    }
}

/// How many entries of a feature list are the grafting feature.
pub open spec fn grafting_count(features: Seq<Seq<char>>) -> int {
    features.filter(|f: Seq<char>| f == grafting_feature()).len() as int
}

/// Filtering a list extended by one element keeps the filtered prefix and
/// appends the element exactly when it satisfies the predicate.
proof fn lemma_filter_push(s: Seq<Seq<char>>, x: Seq<char>, pred: spec_fn(Seq<char>) -> bool)
    ensures
        s.push(x).filter(pred) == if pred(x) {
            s.filter(pred).push(x)
        } else {
            s.filter(pred)
        },
{
    reveal(Seq::filter);
    assert(s.push(x).drop_last() =~= s);
}

/// Filtering is idempotent.
proof fn lemma_filter_idempotent(s: Seq<Seq<char>>, pred: spec_fn(Seq<char>) -> bool)
    ensures
        s.filter(pred).filter(pred) == s.filter(pred),
    decreases s.len(),
{
    reveal(Seq::filter);
    if s.len() == 0 {
    } else {
        lemma_filter_idempotent(s.drop_last(), pred);
        lemma_filter_push(s.drop_last(), s.last(), pred);
        assert(s.drop_last().push(s.last()) =~= s);
        if pred(s.last()) {
            lemma_filter_push(s.drop_last().filter(pred), s.last(), pred);
        }
    }
}

/// True exactly when this string is the grafting feature.
fn is_grafting(s: &String) -> (b: bool)
    ensures
        b == (s@ == grafting_feature()),
{
    let g: String = String::from_str("grafting");
    let b = s.eq(&g);
    proof {
        reveal_strlit("grafting");
        assert("grafting"@ =~= grafting_feature());
    }
    b
}

/// True exactly when the list holds the grafting feature.
fn contains_grafting(features: &Vec<String>) -> (b: bool)
    ensures
        b == features.deep_view().contains(grafting_feature()),
{
    let ghost dv = features.deep_view();
    let mut i: usize = 0;
    while i < features.len()
        invariant
            dv == features.deep_view(),
            dv.len() == features@.len(),
            i <= features@.len(),
            forall|k: int| 0 <= k < i ==> dv[k] != grafting_feature(),
        decreases features@.len() - i,
    {
        proof {
            assert(dv[i as int] == features@[i as int]@);
        }
        if is_grafting(&features[i]) {
            proof {
                assert(dv[i as int] == grafting_feature());
            }
            return true;
        }
        i = i + 1;
    }
    false
}

/// Merges the declared features with the graft finding: appends the
/// grafting feature when a graft was detected and it is absent, removes all
/// its occurrences when no graft was detected, and otherwise returns the
/// declared list unchanged, order preserved.
pub fn reconcile(declared_features: &Vec<String>, graft: bool) -> (r: Vec<String>)
    ensures
        r.deep_view() == reconciled(declared_features.deep_view(), graft),
{
    let ghost dv = declared_features.deep_view();
    if graft {
        let mut out = copy_string_vec(declared_features);
        proof {
            assert(out.deep_view() =~= dv);
        }
        if !contains_grafting(declared_features) {
            let g = String::from_str("grafting");
            proof {
                reveal_strlit("grafting");
                assert("grafting"@ =~= grafting_feature());
            }
            out.push(g);
            proof {
                assert(out.deep_view() =~= dv.push(grafting_feature()));
            }
        }
        out
    } else {
        let mut out: Vec<String> = Vec::new();
        let mut i: usize = 0;
        while i < declared_features.len()
            invariant
                dv == declared_features.deep_view(),
                dv.len() == declared_features@.len(),
                i <= declared_features@.len(),
                out.deep_view() == without_grafting(dv.subrange(0, i as int)),
            decreases declared_features@.len() - i,
        {
            let ghost prefix = dv.subrange(0, i as int);
            proof {
                assert(dv[i as int] == declared_features@[i as int]@);
                assert(dv.subrange(0, i + 1) =~= prefix.push(dv[i as int]));
                lemma_filter_push(prefix, dv[i as int], |f: Seq<char>| f != grafting_feature());
            }
            if !is_grafting(&declared_features[i]) {
                let ghost before = out.deep_view();
                out.push(declared_features[i].clone());
                proof {
                    assert(out.deep_view() =~= before.push(dv[i as int]));
                }
            }
            i = i + 1;
        }
        proof {
            assert(dv.subrange(0, dv.len() as int) =~= dv);
        }
        out
    }
}

/// Reconciliation is idempotent: applying it twice with the same graft
/// state yields the same feature list as applying it once.
pub proof fn lemma_reconcile_idempotent(declared: Seq<Seq<char>>, graft: bool)
    ensures
        reconciled(reconciled(declared, graft), graft) == reconciled(declared, graft),
{
    if graft {
        if !declared.contains(grafting_feature()) {
            assert(declared.push(grafting_feature())[declared.len() as int]
                == grafting_feature());
            assert(declared.push(grafting_feature()).contains(grafting_feature()));
        }
    } else {
        lemma_filter_idempotent(declared, |f: Seq<char>| f != grafting_feature());
    }
}

/// The effective list holds the grafting feature exactly once when a graft
/// was detected and not at all otherwise, provided the declared list did
/// not itself hold it more than once.
pub proof fn lemma_reconcile_grafting_count(declared: Seq<Seq<char>>, graft: bool)
    requires
        grafting_count(declared) <= 1,
    ensures
        grafting_count(reconciled(declared, graft)) == if graft {
            1int
        } else {
            0int
        },
{
    let eq_pred = |f: Seq<char>| f == grafting_feature();
    let ne_pred = |f: Seq<char>| f != grafting_feature();
    if graft {
        if declared.contains(grafting_feature()) {
            let i = choose|i: int|
                0 <= i < declared.len() && declared[i] == grafting_feature();
            declared.lemma_filter_contains(eq_pred, i);
            assert(declared.filter(eq_pred).len() >= 1);
        } else {
            lemma_filter_push(declared, grafting_feature(), eq_pred);
            if declared.filter(eq_pred).len() > 0 {
                assert(declared.filter(eq_pred).contains(declared.filter(eq_pred)[0]));
                declared.lemma_filter_contains_rev(eq_pred, declared.filter(eq_pred)[0]);
                assert(declared.contains(grafting_feature()));
            }
        }
    } else {
        let removed = declared.filter(ne_pred);
        assert forall|i: int| 0 <= i < removed.len() implies !eq_pred(removed[i]) by {
            declared.lemma_filter_pred(ne_pred, i);
        }
        removed.lemma_all_neg_filter_empty(eq_pred);
    }
}

} // verus!
