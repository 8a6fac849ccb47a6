//! Endpoints for exercises, keyed by workout UUID and exercise UUID joined by
//! `#`. Every mutation checks that the owning workout is present and live.

use vstd::prelude::*;
use crate::engine::{ApplyOutcome, Classifier, WriteStep, WriteStepView};
use crate::keys::{
    spec_collection_of, spec_collection_prefix, collection_from_version, get_collection_prefix,
    MAX_COLLECTION,
};
use crate::model::{
    Exercise, ExerciseSetView, Workout, VersionDeleteReq, VersionModifyReq, MAX_NOTES_LEN,
    MAX_TYPE_LEN, MAX_SETS, views_of,
};
use crate::store::UserStore;
use crate::validate::{spec_is_uuid, is_uuid, ValidationError};
use crate::version::{
    StoreEntity, spec_key_for, apply_contract, version_put_item, make_key_from_id,
    lemma_version_bound,
};
use vstd::string::StrSliceExecFns;

verus! {

/// The composite local id of an exercise: the workout UUID, `#`, the
/// exercise UUID.
pub open spec fn spec_exercise_id(workout_id: Seq<char>, exercise_id: Seq<char>) -> Seq<char> {
    workout_id + "#"@ + exercise_id
}

fn exercise_local_id(workout_id: &str, exercise_id: &str) -> (s: String)
    ensures
        s@ == spec_exercise_id(workout_id@, exercise_id@),
{
    let mut s = String::from_str(workout_id);
    s.append("#");
    s.append(exercise_id);
    s
}

/// Every set of an exercise carries a well-formed UUID.
pub open spec fn sets_ok(sets: Seq<ExerciseSetView>) -> bool {
    forall|i: int| 0 <= i < sets.len() ==> spec_is_uuid((#[trigger] sets[i]).set_id)
}

/// Why an exercise put is rejected before touching the store, if it is.
pub open spec fn put_error(
    workout_id: Seq<char>,
    exercise_id: Seq<char>,
    item: &Exercise,
) -> Option<ValidationError> {
    if !(spec_is_uuid(workout_id) && spec_is_uuid(exercise_id)) {
        Some(ValidationError::InvalidUuid)
    } else if item.exercise_type@.len() > MAX_TYPE_LEN || item.notes@.len() > MAX_NOTES_LEN {
        Some(ValidationError::TooLong)
    } else if item.sets@.len() > MAX_SETS {
        Some(ValidationError::TooMany)
    } else if !sets_ok(views_of(item.sets@)) {
        Some(ValidationError::InvalidUuid)
    } else {
        None
    }
}

/// Writes the exercise named by the path, after checking that its workout
/// exists and is not tombstoned: a condition check on the workout row plus
/// one put step, guarded by the version bump.
pub fn put(
    store: &mut UserStore,
    now: u64,
    workout_id: &str,
    exercise_id: &str,
    req: &VersionModifyReq<Exercise>,
) -> (res: Result<ApplyOutcome, ValidationError>)
    requires
        old(store).wf(),
    ensures
        final(store).wf(),
        match put_error(workout_id@, exercise_id@, &req.item) {
            Some(e) => res == Err::<ApplyOutcome, ValidationError>(e) && final(store)@ == old(
                store,
            )@,
            None => res is Ok && apply_contract(
                old(store)@,
                final(store)@,
                req.version,
                now,
                seq![
                    WriteStepView::CheckExists {
                        key: spec_key_for::<Workout>(
                            spec_collection_prefix(spec_collection_of(req.version)),
                            workout_id@,
                        ),
                    },
                    WriteStepView::Put {
                        key: spec_key_for::<Exercise>(
                            spec_collection_prefix(spec_collection_of(req.version)),
                            spec_exercise_id(workout_id@, exercise_id@),
                        ),
                        payload: req.item.payload_view(),
                    },
                ],
                Classifier::NotFoundOnFirst,
                res->Ok_0,
            ),
        },
{
    if !is_uuid(workout_id) || !is_uuid(exercise_id) {
        return Err(ValidationError::InvalidUuid);
    }
    if req.item.exercise_type.as_str().unicode_len() > MAX_TYPE_LEN || req.item.notes.as_str()
        .unicode_len() > MAX_NOTES_LEN {
        return Err(ValidationError::TooLong);
    }
    if req.item.sets.len() > MAX_SETS {
        return Err(ValidationError::TooMany);
    }
    let mut i: usize = 0;
    while i < req.item.sets.len()
        invariant
            *store == *old(store),
            old(store).wf(),
            spec_is_uuid(workout_id@),
            spec_is_uuid(exercise_id@),
            req.item.exercise_type@.len() <= MAX_TYPE_LEN,
            req.item.notes@.len() <= MAX_NOTES_LEN,
            req.item.sets@.len() <= MAX_SETS,
            i <= req.item.sets@.len(),
            forall|j: int| 0 <= j < i ==> spec_is_uuid(
                (#[trigger] views_of(req.item.sets@)[j]).set_id,
            ),
        decreases req.item.sets@.len() - i,
    {
        if !is_uuid(req.item.sets[i].set_id.as_str()) {
            proof {
                assert(views_of(req.item.sets@)[i as int] == req.item.sets@[i as int]@);
                assert(!sets_ok(views_of(req.item.sets@)));
            }
            return Err(ValidationError::InvalidUuid);
        }
        i = i + 1;
    }
    let collection = collection_from_version(req.version);
    if collection > MAX_COLLECTION {
        return Ok(ApplyOutcome::Conflict);
    }
    let prefix = get_collection_prefix(collection);
    let workout_key = make_key_from_id::<Workout>(prefix.as_str(), workout_id);
    let local_id = exercise_local_id(workout_id, exercise_id);
    proof {
        reveal_strlit("#");
    }
    let step = version_put_item::<Exercise>(prefix.as_str(), local_id.as_str(), &req.item);
    let mut steps: Vec<WriteStep> = Vec::new();
    steps.push(WriteStep::CheckExists { key: workout_key });
    steps.push(step);
    proof {
        lemma_version_bound(req.version);
        assert(views_of(steps@) =~= seq![
            WriteStepView::CheckExists {
                key: spec_key_for::<Workout>(
                    spec_collection_prefix(spec_collection_of(req.version)),
                    workout_id@,
                ),
            },
            WriteStepView::Put {
                key: spec_key_for::<Exercise>(
                    spec_collection_prefix(spec_collection_of(req.version)),
                    spec_exercise_id(workout_id@, exercise_id@),
                ),
                payload: req.item.payload_view(),
            },
        ]);
    }
    Ok(store.version_apply(req.version, now, &steps, Classifier::NotFoundOnFirst))
}

/// Tombstones the exercise named by the path, after checking that its workout
/// exists and is live. Malformed UUIDs in the path are answered not-found, as
/// is a missing workout or a missing or already-tombstoned exercise.
pub fn delete(
    store: &mut UserStore,
    now: u64,
    workout_id: &str,
    exercise_id: &str,
    req: &VersionDeleteReq,
) -> (out: ApplyOutcome)
    requires
        old(store).wf(),
    ensures
        final(store).wf(),
        if !(spec_is_uuid(workout_id@) && spec_is_uuid(exercise_id@)) {
            out == ApplyOutcome::NotFound && final(store)@ == old(store)@
        } else {
            apply_contract(
                old(store)@,
                final(store)@,
                req.version,
                now,
                seq![
                    WriteStepView::CheckExists {
                        key: spec_key_for::<Workout>(
                            spec_collection_prefix(spec_collection_of(req.version)),
                            workout_id@,
                        ),
                    },
                    WriteStepView::Tombstone {
                        key: spec_key_for::<Exercise>(
                            spec_collection_prefix(spec_collection_of(req.version)),
                            spec_exercise_id(workout_id@, exercise_id@),
                        ),
                    },
                ],
                Classifier::NotFoundOnAny,
                out,
            )
        },
{
    if !is_uuid(workout_id) || !is_uuid(exercise_id) {
        return ApplyOutcome::NotFound;
    }
    let collection = collection_from_version(req.version);
    if collection > MAX_COLLECTION {
        return ApplyOutcome::Conflict;
    }
    let prefix = get_collection_prefix(collection);
    let workout_key = make_key_from_id::<Workout>(prefix.as_str(), workout_id);
    let local_id = exercise_local_id(workout_id, exercise_id);
    let exercise_key = make_key_from_id::<Exercise>(prefix.as_str(), local_id.as_str());
    let mut steps: Vec<WriteStep> = Vec::new();
    steps.push(WriteStep::CheckExists { key: workout_key });
    steps.push(WriteStep::Tombstone { key: exercise_key });
    proof {
        lemma_version_bound(req.version);
        assert(views_of(steps@) =~= seq![
            WriteStepView::CheckExists {
                key: spec_key_for::<Workout>(
                    spec_collection_prefix(spec_collection_of(req.version)),
                    workout_id@,
                ),
            },
            WriteStepView::Tombstone {
                key: spec_key_for::<Exercise>(
                    spec_collection_prefix(spec_collection_of(req.version)),
                    spec_exercise_id(workout_id@, exercise_id@),
                ),
            },
        ]);
    }
    store.version_apply(req.version, now, &steps, Classifier::NotFoundOnAny)
}

} // verus!
