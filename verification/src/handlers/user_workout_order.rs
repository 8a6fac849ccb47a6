//! The endpoint that reorders the exercises of a workout: one order update
//! per listed exercise, each conditioned on that exercise being present and
//! live, behind a check that the workout itself exists.

use vstd::prelude::*;
use crate::engine::{ApplyOutcome, Classifier, WriteStep, WriteStepView};
use crate::keys::{
    spec_collection_of, spec_collection_prefix, collection_from_version, get_collection_prefix,
    MAX_COLLECTION,
};
use crate::model::{Workout, Exercise, VersionModifyReq, MAX_EXERCISES, views_of};
use crate::store::UserStore;
use crate::validate::{spec_is_uuid, is_uuid, Uuid, MaxLenVec, ValidationError};
use crate::version::{StoreEntity, spec_key_for, apply_contract, make_key_from_id, lemma_version_bound};

verus! {

/// The exercise list of an order request: at most the cap, UUIDs only.
pub type OrderReq = MaxLenVec<Uuid, MAX_EXERCISES>;

/// The order-update step for the exercise at one position of the list.
pub open spec fn order_step(
    prefix: Seq<char>,
    workout_id: Seq<char>,
    uuid: Seq<char>,
    position: int,
) -> WriteStepView {
    WriteStepView::SetOrder {
        key: spec_key_for::<Exercise>(prefix, workout_id + "#"@ + uuid),
        order: position as u32,
    }
}

/// The full step list of an order request: the workout check, then one order
/// update per listed exercise.
pub open spec fn order_steps(
    prefix: Seq<char>,
    workout_id: Seq<char>,
    uuids: Seq<Seq<char>>,
) -> Seq<WriteStepView> {
    seq![WriteStepView::CheckExists { key: spec_key_for::<Workout>(prefix, workout_id) }]
        + Seq::new(uuids.len(), |i: int| order_step(prefix, workout_id, uuids[i], i))
}

/// The views of the listed exercise UUIDs.
pub open spec fn uuid_views(uuids: Seq<Uuid>) -> Seq<Seq<char>> {
    uuids.map_values(|u: Uuid| u.0@)
}

/// Why an order put is rejected before touching the store, if it is.
pub open spec fn put_error(workout_id: Seq<char>, item: &OrderReq) -> Option<ValidationError> {
    if !spec_is_uuid(workout_id) {
        Some(ValidationError::InvalidUuid)
    } else if item.0@.len() > MAX_EXERCISES {
        Some(ValidationError::TooMany)
    } else if !(forall|i: int| 0 <= i < item.0@.len() ==> spec_is_uuid(
        (#[trigger] uuid_views(item.0@)[i]),
    )) {
        Some(ValidationError::InvalidUuid)
    } else {
        None
    }
}

/// Rewrites the order of the listed exercises within the workout named by
/// the path. A failed workout check is answered not-found; a listed exercise
/// that is absent or tombstoned is named in the answer.
pub fn put(store: &mut UserStore, now: u64, workout_id: &str, req: &VersionModifyReq<OrderReq>)
    -> (res: Result<ApplyOutcome, ValidationError>)
    requires
        old(store).wf(),
    ensures
        final(store).wf(),
        match put_error(workout_id@, &req.item) {
            Some(e) => res == Err::<ApplyOutcome, ValidationError>(e) && final(store)@ == old(
                store,
            )@,
            None => res is Ok && apply_contract(
                old(store)@,
                final(store)@,
                req.version,
                now,
                order_steps(
                    spec_collection_prefix(spec_collection_of(req.version)),
                    workout_id@,
                    uuid_views(req.item.0@),
                ),
                Classifier::OrderSteps,
                res->Ok_0,
            ),
        },
{
    if !is_uuid(workout_id) {
        return Err(ValidationError::InvalidUuid);
    }
    if req.item.0.len() > MAX_EXERCISES {
        return Err(ValidationError::TooMany);
    }
    let mut i: usize = 0;
    while i < req.item.0.len()
        invariant
            *store == *old(store),
            old(store).wf(),
            spec_is_uuid(workout_id@),
            req.item.0@.len() <= MAX_EXERCISES,
            i <= req.item.0@.len(),
            forall|j: int| 0 <= j < i ==> spec_is_uuid((#[trigger] uuid_views(req.item.0@)[j])),
        decreases req.item.0@.len() - i,
    {
        if !is_uuid(req.item.0[i].0.as_str()) {
            proof {
                assert(uuid_views(req.item.0@)[i as int] == req.item.0@[i as int].0@);
                assert(!(forall|j: int| 0 <= j < req.item.0@.len() ==> spec_is_uuid(
                    (#[trigger] uuid_views(req.item.0@)[j]),
                )));
            }
            return Err(ValidationError::InvalidUuid);
        }
        i = i + 1;
    }
    let collection = collection_from_version(req.version);
    if collection > MAX_COLLECTION {
        return Ok(ApplyOutcome::Conflict);
    }
    let ghost prefix_spec = spec_collection_prefix(spec_collection_of(req.version));
    let ghost uuids = uuid_views(req.item.0@);
    let prefix = get_collection_prefix(collection);
    let workout_key = make_key_from_id::<Workout>(prefix.as_str(), workout_id);
    let mut steps: Vec<WriteStep> = Vec::new();
    steps.push(WriteStep::CheckExists { key: workout_key });
    let mut i: usize = 0;
    while i < req.item.0.len()
        invariant
            prefix_spec == spec_collection_prefix(spec_collection_of(req.version)),
            uuids == uuid_views(req.item.0@),
            prefix@ == prefix_spec,
            workout_id@.len() == 36,
            req.item.0@.len() <= MAX_EXERCISES,
            i <= req.item.0@.len(),
            *store == *old(store),
            old(store).wf(),
            steps@.len() == i + 1,
            views_of(steps@)[0] == (WriteStepView::CheckExists {
                key: spec_key_for::<Workout>(prefix_spec, workout_id@),
            }),
            forall|j: int| 1 <= j <= i ==> #[trigger] views_of(steps@)[j] == order_step(
                prefix_spec,
                workout_id@,
                uuids[j - 1],
                j - 1,
            ),
        decreases req.item.0@.len() - i,
    {
        let mut local_id = String::from_str(workout_id);
        local_id.append("#");
        local_id.append(req.item.0[i].0.as_str());
        let key = make_key_from_id::<Exercise>(prefix.as_str(), local_id.as_str());
        let ghost prev = steps@;
        steps.push(WriteStep::SetOrder { key, order: i as u32 });
        proof {
            assert(uuids[i as int] == req.item.0@[i as int].0@);
            assert forall|j: int| 1 <= j <= i + 1 implies #[trigger] views_of(steps@)[j]
                == order_step(prefix_spec, workout_id@, uuids[j - 1], j - 1) by {
                if j <= i {
                    assert(views_of(prev)[j] == order_step(
                        prefix_spec,
                        workout_id@,
                        uuids[j - 1],
                        j - 1,
                    ));
                    assert(steps@[j] == prev[j]);
                } else {
                    assert(steps@[j]@ == order_step(
                        prefix_spec,
                        workout_id@,
                        uuids[i as int],
                        i as int,
                    ));
                }
            }
            assert(views_of(steps@)[0] == views_of(prev)[0]);
        }
        i = i + 1;
    }
    proof {
        lemma_version_bound(req.version);
        assert(views_of(steps@) =~= order_steps(prefix_spec, workout_id@, uuids));
        assert forall|k: int| 0 <= k < views_of(steps@).len() implies crate::store::step_wf(
            #[trigger] views_of(steps@)[k],
        ) by {
            reveal_strlit("#");
            Exercise::lemma_tag_len();
            if k >= 1 {
                assert(views_of(steps@)[k] == order_step(
                    prefix_spec,
                    workout_id@,
                    uuids[k - 1],
                    k - 1,
                ));
            }
        }
    }
    Ok(store.version_apply(req.version, now, &steps, Classifier::OrderSteps))
}

} // verus!
