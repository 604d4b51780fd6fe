use crate::diagnostic::{Diagnostic, LintOutcome};
use crate::order::{
    in_order, is_sorted, lemma_in_order_antisymmetric, lemma_stable_sorted, same_key,
    stable_sorted,
};
use crate::pipeline::{all_findings, total_weight};
use crate::session::{findings_of, weight};
use vstd::prelude::*;

verus! {

/// Diagnostics of the sequence that have the same key are the same diagnostic.
pub open spec fn ties_are_identical(s: Seq<Diagnostic>) -> bool {
    forall|x: Diagnostic, y: Diagnostic|
        #[trigger] s.contains(x) && #[trigger] s.contains(y) && same_key(x, y) ==> x == y
}

/// There is one way only to put a collection of diagnostics in order, as
/// long as no two different ones share a key.
pub proof fn lemma_sorted_order_is_unique(a: Seq<Diagnostic>, b: Seq<Diagnostic>)
    requires
        is_sorted(a),
        is_sorted(b),
        a.to_multiset() == b.to_multiset(),
        ties_are_identical(a),
    ensures
        a == b,
    decreases a.len(),
{
    broadcast use vstd::seq_lib::to_multiset_contains;

    vstd::seq_lib::to_multiset_len(a);
    vstd::seq_lib::to_multiset_len(b);
    if a.len() == 0 {
        assert(a =~= b);
    } else {
        let x = a[0];
        let y = b[0];
        assert(a.contains(x));
        assert(b.contains(y));
        assert(a.to_multiset().count(y) > 0);
        assert(a.contains(y));
        assert(b.to_multiset().count(x) > 0);
        assert(b.contains(x));
        let m = choose|m: int| 0 <= m < a.len() && a[m] == y;
        let k = choose|k: int| 0 <= k < b.len() && b[k] == x;
        if x != y {
            assert(m > 0 && k > 0);
            assert(in_order(a[0], a[m]));
            assert(in_order(b[0], b[k]));
            lemma_in_order_antisymmetric(x, y);
        }
        assert(x == y);
        let a1 = a.remove(0);
        let b1 = b.remove(0);
        vstd::seq_lib::to_multiset_remove(a, 0);
        vstd::seq_lib::to_multiset_remove(b, 0);
        assert(a1.to_multiset() =~= b1.to_multiset());
        assert(is_sorted(a1)) by {
            assert forall|i: int, j: int| 0 <= i < j < a1.len() implies in_order(
                #[trigger] a1[i],
                #[trigger] a1[j],
            ) by {
                assert(a1[i] == a[i + 1] && a1[j] == a[j + 1]);
            }
        }
        assert(is_sorted(b1)) by {
            assert forall|i: int, j: int| 0 <= i < j < b1.len() implies in_order(
                #[trigger] b1[i],
                #[trigger] b1[j],
            ) by {
                assert(b1[i] == b[i + 1] && b1[j] == b[j + 1]);
            }
        }
        assert(ties_are_identical(a1)) by {
            assert forall|p: Diagnostic, q: Diagnostic| #[trigger]
                a1.contains(p) && #[trigger] a1.contains(q) && same_key(p, q) implies p == q by {
                let i = choose|i: int| 0 <= i < a1.len() && a1[i] == p;
                let j = choose|j: int| 0 <= j < a1.len() && a1[j] == q;
                assert(a[i + 1] == p && a[j + 1] == q);
                assert(a.contains(p) && a.contains(q));
            }
        }
        lemma_sorted_order_is_unique(a1, b1);
        assert(a =~= seq![x] + a1);
        assert(b =~= seq![y] + b1);
    }
}

/// The order in which the structured reporter hands out its diagnostics does
/// not depend on the order in which they arrived, as long as no two different
/// ones share file, start line and start column.
pub proof fn lemma_final_order_ignores_arrival(a: Seq<Diagnostic>, b: Seq<Diagnostic>)
    requires
        a.to_multiset() == b.to_multiset(),
        ties_are_identical(a),
    ensures
        stable_sorted(a) == stable_sorted(b),
{
    broadcast use vstd::seq_lib::to_multiset_contains;

    lemma_stable_sorted(a);
    lemma_stable_sorted(b);
    let sa = stable_sorted(a);
    assert(ties_are_identical(sa)) by {
        assert forall|p: Diagnostic, q: Diagnostic| #[trigger]
            sa.contains(p) && #[trigger] sa.contains(q) && same_key(p, q) implies p == q by {
            assert(a.to_multiset().count(p) > 0 && a.to_multiset().count(q) > 0);
            assert(a.contains(p) && a.contains(q));
        }
    }
    lemma_sorted_order_is_unique(sa, stable_sorted(b));
}

/// Sorting twice gives what sorting once gives.
pub proof fn lemma_sorting_again_changes_nothing(s: Seq<Diagnostic>)
    ensures
        stable_sorted(stable_sorted(s)) == stable_sorted(s),
{
    lemma_stable_sorted(s);
    lemma_sorted_stays(stable_sorted(s));
}

/// A sorted sequence is its own stable ordering.
pub proof fn lemma_sorted_stays(s: Seq<Diagnostic>)
    requires
        is_sorted(s),
    ensures
        stable_sorted(s) == s,
    decreases s.len(),
{
    if s.len() > 0 {
        let t = s.drop_last();
        assert(is_sorted(t)) by {
            assert forall|i: int, j: int| 0 <= i < j < t.len() implies in_order(
                #[trigger] t[i],
                #[trigger] t[j],
            ) by {
                assert(t[i] == s[i] && t[j] == s[j]);
            }
        }
        lemma_sorted_stays(t);
        if t.len() > 0 {
            assert(t.last() == s[t.len() - 1]);
            assert(in_order(s[t.len() - 1], s[s.len() - 1]));
        }
        assert(t.insert(t.len() as int, s.last()) =~= s);
    }
}

/// Every finding of every file reaches the report, whatever the outcomes of
/// the other files are: a failure of one file takes nothing away from another.
pub proof fn lemma_every_finding_is_reported(
    outcomes: Seq<(String, LintOutcome)>,
    i: int,
    d: Diagnostic,
)
    requires
        0 <= i < outcomes.len(),
        findings_of(outcomes[i].1).contains(d),
    ensures
        all_findings(outcomes).contains(d),
        stable_sorted(all_findings(outcomes)).contains(d),
    decreases outcomes.len(),
{
    broadcast use vstd::seq_lib::to_multiset_contains;

    let front = all_findings(outcomes.drop_last());
    let back = findings_of(outcomes.last().1);
    if i == outcomes.len() - 1 {
        let k = choose|k: int| 0 <= k < back.len() && back[k] == d;
        assert((front + back)[front.len() + k] == d);
    } else {
        assert(outcomes.drop_last()[i] == outcomes[i]);
        lemma_every_finding_is_reported(outcomes.drop_last(), i, d);
        let k = choose|k: int| 0 <= k < front.len() && front[k] == d;
        assert((front + back)[k] == d);
    }
    lemma_stable_sorted(all_findings(outcomes));
    assert(all_findings(outcomes).to_multiset().count(d) > 0);
}

/// A session records nothing exactly when every file was analysed and none
/// has a finding; so its result tells a failure exactly when some file has a
/// finding or could not be analysed.
pub proof fn lemma_clean_session(outcomes: Seq<(String, LintOutcome)>)
    ensures
        total_weight(outcomes) == 0 <==> forall|i: int|
            0 <= i < outcomes.len() ==> weight((#[trigger] outcomes[i]).1) == 0,
    decreases outcomes.len(),
{
    if outcomes.len() > 0 {
        let t = outcomes.drop_last();
        lemma_clean_session(t);
        assert(forall|i: int| 0 <= i < t.len() ==> t[i] == outcomes[i]);
        if total_weight(outcomes) == 0 {
            assert forall|i: int| 0 <= i < outcomes.len() implies weight(
                (#[trigger] outcomes[i]).1,
            ) == 0 by {
                if i < t.len() {
                    assert(t[i] == outcomes[i]);
                }
            }
        }
        if forall|i: int| 0 <= i < outcomes.len() ==> weight((#[trigger] outcomes[i]).1) == 0 {
            assert(weight(outcomes[outcomes.len() - 1].1) == 0);
            assert forall|i: int| 0 <= i < t.len() implies weight((#[trigger] t[i]).1) == 0 by {
                assert(t[i] == outcomes[i]);
            }
        }
    }
}

/// Taking one outcome away takes its findings away and no others.
pub proof fn lemma_findings_without(outcomes: Seq<(String, LintOutcome)>, k: int)
    requires
        0 <= k < outcomes.len(),
    ensures
        all_findings(outcomes).to_multiset() == all_findings(outcomes.remove(k)).to_multiset().add(
            findings_of(outcomes[k].1).to_multiset(),
        ),
    decreases outcomes.len(),
{
    broadcast use vstd::multiset::group_multiset_axioms;

    let front = outcomes.drop_last();
    let last = outcomes.last();
    vstd::seq_lib::lemma_multiset_commutative(all_findings(front), findings_of(last.1));
    if k == outcomes.len() - 1 {
        assert(outcomes.remove(k) =~= front);
    } else {
        lemma_findings_without(front, k);
        let r = outcomes.remove(k);
        assert(r.drop_last() =~= front.remove(k));
        assert(r.last() == last);
        assert(front[k] == outcomes[k]);
        vstd::seq_lib::lemma_multiset_commutative(
            all_findings(r.drop_last()),
            findings_of(last.1),
        );
        assert(all_findings(outcomes).to_multiset() =~= all_findings(r).to_multiset().add(
            findings_of(outcomes[k].1).to_multiset(),
        ));
    }
}

/// The findings that a session collects are the same collection whatever the
/// order in which the outcomes of its files arrive.
pub proof fn lemma_findings_of_any_order(
    a: Seq<(String, LintOutcome)>,
    b: Seq<(String, LintOutcome)>,
)
    requires
        a.to_multiset() == b.to_multiset(),
    ensures
        all_findings(a).to_multiset() == all_findings(b).to_multiset(),
    decreases a.len(),
{
    broadcast use vstd::seq_lib::to_multiset_contains;
    broadcast use vstd::multiset::group_multiset_axioms;

    vstd::seq_lib::to_multiset_len(a);
    vstd::seq_lib::to_multiset_len(b);
    if a.len() == 0 {
        assert(b.len() == 0);
    } else {
        let x = a.last();
        assert(a.contains(x));
        assert(b.to_multiset().count(x) > 0);
        assert(b.contains(x));
        let k = choose|k: int| 0 <= k < b.len() && b[k] == x;
        let a1 = a.drop_last();
        let b1 = b.remove(k);
        assert(a1 =~= a.remove(a.len() - 1));
        vstd::seq_lib::to_multiset_remove(a, a.len() - 1);
        vstd::seq_lib::to_multiset_remove(b, k);
        assert(a1.to_multiset() =~= b1.to_multiset());
        lemma_findings_of_any_order(a1, b1);
        lemma_findings_without(b, k);
        vstd::seq_lib::lemma_multiset_commutative(all_findings(a1), findings_of(x.1));
    }
}

/// The diagnostics that the structured reporter hands out when it is closed
/// are in the same order whatever the order in which the files were finished,
/// as long as no two different diagnostics share file, start line and start
/// column.
pub proof fn lemma_report_ignores_completion_order(
    a: Seq<(String, LintOutcome)>,
    b: Seq<(String, LintOutcome)>,
)
    requires
        a.to_multiset() == b.to_multiset(),
        ties_are_identical(all_findings(a)),
    ensures
        stable_sorted(all_findings(a)) == stable_sorted(all_findings(b)),
{
    lemma_findings_of_any_order(a, b);
    lemma_final_order_ignores_arrival(all_findings(a), all_findings(b));
}

} // verus!
