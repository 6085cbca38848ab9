//! Deterministic ordering of the listing: records sorted ascending by
//! service name, and the proof that a sorted listing over distinct names
//! is canonical — fully determined by which records are present,
//! independent of the order in which they were discovered.

use vstd::prelude::*;
use vstd::multiset::Multiset;
use crate::model::{ServiceInfo, ServiceInfoView};
use crate::order::{
    lex_le, lemma_lex_le_antisymmetric, lemma_lex_le_reflexive, lemma_lex_le_total,
    lemma_lex_le_transitive, str_le,
};

verus! {

/// The views of a sequence of records.
pub open spec fn recs(s: Seq<ServiceInfo>) -> Seq<ServiceInfoView> {
    s.map_values(|r: ServiceInfo| r@)
}

/// Records are in ascending name order.
pub open spec fn sorted_by_name(s: Seq<ServiceInfoView>) -> bool {
    forall|i: int, j: int| 0 <= i < j < s.len() ==> #[trigger] lex_le(s[i].name, s[j].name)
}

/// No two records share a name.
pub open spec fn distinct_names(s: Seq<ServiceInfoView>) -> bool {
    forall|i: int, j: int| 0 <= i < j < s.len() ==> s[i].name != s[j].name
}

/// Taking the views of a sequence commutes with removing an element.
proof fn lemma_recs_remove(s: Seq<ServiceInfo>, i: int)
    requires
        0 <= i < s.len(),
    ensures
        recs(s.remove(i)) == recs(s).remove(i),
{
    assert(recs(s.remove(i)) =~= recs(s).remove(i));
}

/// Taking the views of a sequence commutes with appending an element.
proof fn lemma_recs_push(s: Seq<ServiceInfo>, x: ServiceInfo)
    ensures
        recs(s.push(x)) == recs(s).push(x@),
{
    assert(recs(s.push(x)) =~= recs(s).push(x@));
}

/// Sorts the records ascending by name. The result holds exactly the
/// records given (as a multiset of views), in ascending name order.
pub fn sort_by_name(input: Vec<ServiceInfo>) -> (out: Vec<ServiceInfo>)
    ensures
        sorted_by_name(recs(out@)),
        recs(out@).to_multiset() == recs(input@).to_multiset(),
        out@.len() == input@.len(),
{
    broadcast use vstd::seq_lib::group_to_multiset_ensures;
    broadcast use vstd::multiset::group_multiset_axioms;

    let ghost whole: Seq<ServiceInfo> = input@;
    let mut rest = input;
    let mut out: Vec<ServiceInfo> = Vec::new();
    while rest.len() > 0
        invariant
            out@.len() + rest@.len() == whole.len(),
            recs(out@).to_multiset().add(recs(rest@).to_multiset()) == recs(whole).to_multiset(),
            sorted_by_name(recs(out@)),
            forall|i: int, j: int|
                0 <= i < out@.len() && 0 <= j < rest@.len() ==> #[trigger] lex_le(
                    recs(out@)[i].name,
                    recs(rest@)[j].name,
                ),
        decreases rest@.len(),
    {
        proof {
            lemma_lex_le_reflexive(recs(rest@)[0].name);
        }
        let mut m: usize = 0;
        let mut k: usize = 1;
        while k < rest.len()
            invariant
                m < k,
                k <= rest@.len(),
                forall|j: int| 0 <= j < k ==> #[trigger] lex_le(recs(rest@)[m as int].name, recs(rest@)[j].name),
            decreases rest@.len() - k,
        {
            if !str_le(rest[m].name.as_str(), rest[k].name.as_str()) {
                proof {
                    lemma_lex_le_total(rest@[m as int].name@, rest@[k as int].name@);
                    assert forall|j: int| 0 <= j < k + 1 implies #[trigger] lex_le(
                        recs(rest@)[k as int].name,
                        recs(rest@)[j].name,
                    ) by {
                        if j < k {
                            lemma_lex_le_transitive(
                                recs(rest@)[k as int].name,
                                recs(rest@)[m as int].name,
                                recs(rest@)[j].name,
                            );
                        } else {
                            lemma_lex_le_reflexive(recs(rest@)[k as int].name);
                        }
                    }
                }
                m = k;
            }
            k += 1;
        }
        let ghost rest_before: Seq<ServiceInfo> = rest@;
        let ghost out_before: Seq<ServiceInfo> = out@;
        let x = rest.remove(m);
        out.push(x);
        proof {
            let rv = recs(rest_before);
            let ov = recs(out_before);
            lemma_recs_remove(rest_before, m as int);
            lemma_recs_push(out_before, x);
            assert(x@ == rv[m as int]);
            assert(recs(out@) == ov.push(x@));
            assert(recs(rest@) == rv.remove(m as int));
            vstd::seq_lib::to_multiset_build(ov, x@);
            vstd::seq_lib::to_multiset_remove(rv, m as int);
            assert(rv.contains(rv[m as int]));
            vstd::seq_lib::to_multiset_contains(rv, rv[m as int]);
            assert(recs(out@).to_multiset() == ov.to_multiset().insert(rv[m as int]));
            assert(recs(rest@).to_multiset() == rv.to_multiset().remove(rv[m as int]));
            assert(recs(out@).to_multiset().add(recs(rest@).to_multiset()) =~= ov.to_multiset().add(
                rv.to_multiset(),
            ));
            // the appended record follows everything already emitted and
            // precedes everything still waiting
            assert forall|i: int, j: int|
                0 <= i < out@.len() && 0 <= j < rest@.len() implies #[trigger] lex_le(
                recs(out@)[i].name,
                recs(rest@)[j].name,
            ) by {
                let jj: int = if j < m as int {
                    j
                } else {
                    j + 1
                };
                assert(recs(rest@)[j] == rv[jj]);
                if i < out@.len() - 1 {
                    assert(lex_le(ov[i].name, rv[jj].name));
                } else {
                    assert(recs(out@)[i] == rv[m as int]);
                    assert(lex_le(rv[m as int].name, rv[jj].name));
                }
            }
            assert forall|i: int, j: int| 0 <= i < j < recs(out@).len() implies #[trigger] lex_le(
                recs(out@)[i].name,
                recs(out@)[j].name,
            ) by {
                if j < out@.len() - 1 {
                    assert(lex_le(ov[i].name, ov[j].name));
                } else {
                    assert(recs(out@)[j] == rv[m as int]);
                    assert(lex_le(ov[i].name, rv[m as int].name));
                }
            }
        }
    }
    proof {
        assert(recs(rest@).to_multiset() =~= Multiset::<ServiceInfoView>::empty());
        assert(recs(out@).to_multiset() =~= recs(whole).to_multiset());
        vstd::seq_lib::to_multiset_len(recs(out@));
        vstd::seq_lib::to_multiset_len(recs(whole));
    }
    out
}

/// A sorted listing over distinct names is canonical: any two name-sorted
/// record sequences that hold the same records — in whatever discovery
/// order they arose — are identical. Together with the postcondition of
/// `api::list_services`, this says listing output does not depend on
/// enumeration order, and that repeated listings over unchanged probe
/// outcomes agree exactly.
pub proof fn lemma_sorted_listing_canonical(a: Seq<ServiceInfoView>, b: Seq<ServiceInfoView>)
    requires
        sorted_by_name(a),
        sorted_by_name(b),
        a.to_multiset() == b.to_multiset(),
        distinct_names(a),
    ensures
        a == b,
    decreases a.len(),
{
    broadcast use vstd::seq_lib::group_to_multiset_ensures;
    broadcast use vstd::multiset::group_multiset_axioms;

    vstd::seq_lib::to_multiset_len(a);
    vstd::seq_lib::to_multiset_len(b);
    if a.len() == 0 {
        assert(b.to_multiset().len() == 0);
        assert(a =~= b);
    } else {
        assert(b.len() > 0);
        // each head occurs in the other sequence, so the heads' names
        // bound each other and must coincide
        assert(a.contains(a[0]));
        vstd::seq_lib::to_multiset_contains(a, a[0]);
        vstd::seq_lib::to_multiset_contains(b, a[0]);
        assert(b.contains(a[0]));
        let jb = choose|j: int| 0 <= j < b.len() && b[j] == a[0];
        assert(b.contains(b[0]));
        vstd::seq_lib::to_multiset_contains(b, b[0]);
        vstd::seq_lib::to_multiset_contains(a, b[0]);
        assert(a.contains(b[0]));
        let ja = choose|j: int| 0 <= j < a.len() && a[j] == b[0];
        if jb > 0 {
            assert(lex_le(b[0].name, b[jb].name));
        } else {
            lemma_lex_le_reflexive(b[0].name);
        }
        if ja > 0 {
            assert(lex_le(a[0].name, a[ja].name));
        } else {
            lemma_lex_le_reflexive(a[0].name);
        }
        lemma_lex_le_antisymmetric(a[0].name, b[0].name);
        assert(a[0].name == b[0].name);
        // distinct names force the witness of `b`'s head in `a` to be the head
        if ja > 0 {
            assert(a[0].name != a[ja].name);
        }
        assert(ja == 0);
        assert(a[0] == b[0]);
        // peel the heads and recurse
        assert(a.remove(0) =~= a.drop_first());
        assert(b.remove(0) =~= b.drop_first());
        vstd::seq_lib::to_multiset_remove(a, 0);
        vstd::seq_lib::to_multiset_remove(b, 0);
        assert(a.drop_first().to_multiset() == a.to_multiset().remove(a[0]));
        assert(b.drop_first().to_multiset() == b.to_multiset().remove(b[0]));
        assert(a.drop_first().to_multiset() == b.drop_first().to_multiset());
        assert forall|i: int, j: int| 0 <= i < j < a.drop_first().len() implies #[trigger] lex_le(
            a.drop_first()[i].name,
            a.drop_first()[j].name,
        ) by {
            assert(a.drop_first()[i] == a[i + 1]);
            assert(a.drop_first()[j] == a[j + 1]);
        }
        assert forall|i: int, j: int| 0 <= i < j < b.drop_first().len() implies #[trigger] lex_le(
            b.drop_first()[i].name,
            b.drop_first()[j].name,
        ) by {
            assert(b.drop_first()[i] == b[i + 1]);
            assert(b.drop_first()[j] == b[j + 1]);
        }
        assert(distinct_names(a.drop_first())) by {
            assert forall|i: int, j: int| 0 <= i < j < a.drop_first().len() implies a.drop_first()[i].name
                != a.drop_first()[j].name by {
                assert(a.drop_first()[i] == a[i + 1]);
                assert(a.drop_first()[j] == a[j + 1]);
            }
        }
        lemma_sorted_listing_canonical(a.drop_first(), b.drop_first());
        assert(a.len() == b.len());
        assert forall|i: int| 0 <= i < a.len() implies a[i] == b[i] by {
            if i >= 1 {
                assert(a[i] == a.drop_first()[i - 1]);
                assert(b[i] == b.drop_first()[i - 1]);
            }
        }
        assert(a =~= b);
    }
}

} // verus!
