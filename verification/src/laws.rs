//! Protocol-level guarantees of the conditional-apply engine, proved against
//! the store model: version monotonicity, mutual exclusion of concurrent
//! writers, and the refusal of deletes aimed at absent entities.

use vstd::prelude::*;
use crate::engine::{ApplyOutcome, Classifier, WriteStepView, spec_interpret};
use crate::store::{
    StoreView, mutation_fires, apply_mutation, spec_reasons, bump_ok, step_condition_ok,
    row_index,
};

verus! {

/// A chain of mutation attempts, each of which commits against the state the
/// previous one left behind.
pub open spec fn all_fire(s: StoreView, reqs: Seq<(u64, u64, Seq<WriteStepView>)>) -> bool
    decreases reqs.len(),
{
    if reqs.len() == 0 {
        true
    } else {
        &&& mutation_fires(s, reqs[0].0, reqs[0].1, reqs[0].2)
        &&& reqs[0].0 < u64::MAX
        &&& all_fire(apply_mutation(s, reqs[0].0, reqs[0].2), reqs.skip(1))
    }
}

proof fn lemma_successive_clients(s: StoreView, reqs: Seq<(u64, u64, Seq<WriteStepView>)>, k: int)
    requires
        all_fire(s, reqs),
        1 <= k < reqs.len(),
    ensures
        reqs[k].0 == reqs[k - 1].0 + 1,
    decreases k,
{
    let s2 = apply_mutation(s, reqs[0].0, reqs[0].2);
    if k == 1 {
        assert(all_fire(s2, reqs.skip(1)));
        assert(reqs.skip(1).len() > 0);
        assert(mutation_fires(s2, reqs.skip(1)[0].0, reqs.skip(1)[0].1, reqs.skip(1)[0].2));
        assert(reqs.skip(1)[0] == reqs[1]);
        assert(s2.version == Some((reqs[0].0 + 1) as u64));
    } else {
        lemma_successive_clients(s2, reqs.skip(1), k - 1);
        assert(reqs.skip(1)[k - 1] == reqs[k]);
        assert(reqs.skip(1)[k - 2] == reqs[k - 1]);
    }
}

/// Monotonicity: along any chain of successful mutations on one dataset, the
/// versions returned to the clients are strictly increasing.
pub proof fn lemma_mutation_versions_increase(
    s: StoreView,
    reqs: Seq<(u64, u64, Seq<WriteStepView>)>,
    i: int,
    j: int,
)
    requires
        all_fire(s, reqs),
        0 <= i < j < reqs.len(),
    ensures
        reqs[i].0 + 1 < reqs[j].0 + 1,
    decreases j - i,
{
    lemma_successive_clients(s, reqs, i + 1);
    if i + 1 < j {
        lemma_mutation_versions_increase(s, reqs, i + 1, j);
    }
}

/// Mutual exclusion: after one of two mutation attempts carrying the same
/// client version commits, the other cannot, and is answered with a conflict
/// whatever its steps, its clock reading, or its classifier.
pub proof fn lemma_mutual_exclusion(
    s: StoreView,
    c: u64,
    n1: u64,
    st1: Seq<WriteStepView>,
    n2: u64,
    st2: Seq<WriteStepView>,
    cl: Classifier,
)
    requires
        c < u64::MAX,
        mutation_fires(s, c, n1, st1),
    ensures
        !mutation_fires(apply_mutation(s, c, st1), c, n2, st2),
        spec_interpret(c, n2, spec_reasons(apply_mutation(s, c, st1), c, n2, st2), cl)
            == ApplyOutcome::Conflict,
{
    let s2 = apply_mutation(s, c, st1);
    assert(s2.version == Some((c + 1) as u64));
    assert(!bump_ok(s2.version, s2.locked_until, c, n2));
    let reasons = spec_reasons(s2, c, n2, st2);
    assert(reasons[0].check_failed);
}

/// A delete aimed at an entity that never existed, or at one already
/// tombstoned, is refused with not-found: it never commits and never passes
/// silently.
pub proof fn lemma_delete_refused(s: StoreView, c: u64, now: u64, key: Seq<char>)
    requires
        bump_ok(s.version, s.locked_until, c, now),
        match row_index(s.rows, key) {
            Some(i) => s.rows[i].data is Tombstone,
            None => true,
        },
    ensures
        !mutation_fires(s, c, now, seq![WriteStepView::Tombstone { key }]),
        spec_interpret(
            c,
            now,
            spec_reasons(s, c, now, seq![WriteStepView::Tombstone { key }]),
            Classifier::NotFoundOnFirst,
        ) == ApplyOutcome::NotFound,
{
    let steps = seq![WriteStepView::Tombstone { key }];
    assert(!step_condition_ok(s.rows, steps[0]));
    let reasons = spec_reasons(s, c, now, steps);
    assert(!reasons[0].check_failed);
    assert(reasons.len() == 2);
    assert(reasons.skip(1)[0] == reasons[1]);
    assert(reasons[1].check_failed);
}

} // verus!
