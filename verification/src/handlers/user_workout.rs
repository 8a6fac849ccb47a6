//! Endpoints for workouts, keyed by UUID.

use vstd::prelude::*;
use crate::engine::{ApplyOutcome, Classifier, WriteStep, WriteStepView};
use crate::keys::{
    spec_collection_of, spec_collection_prefix, collection_from_version, get_collection_prefix,
    MAX_COLLECTION,
};
use crate::model::{Workout, VersionDeleteReq, VersionModifyReq, MAX_NOTES_LEN, opt_view, views_of};
use crate::store::UserStore;
use crate::validate::{spec_is_uuid, is_uuid, is_timestamp, is_datetime, ValidationError};
use crate::version::{
    StoreEntity, spec_key_for, apply_contract, version_delete, version_put_item,
    lemma_version_bound,
};
use vstd::string::StrSliceExecFns;

verus! {

/// A start or finish time is either absent or a well-formed timestamp.
pub open spec fn opt_time_ok(o: Option<Seq<char>>) -> bool {
    match o {
        Some(t) => is_timestamp(t),
        None => true,
    }
}

/// Checks an optional time field.
pub fn check_opt_time(o: &Option<String>) -> (r: bool)
    ensures
        r == opt_time_ok(opt_view(*o)),
{
    match o {
        Some(t) => is_datetime(t.as_str()),
        None => true,
    }
}

/// Why a workout put is rejected before touching the store, if it is.
pub open spec fn put_error(id: Seq<char>, item: &Workout) -> Option<ValidationError> {
    if !spec_is_uuid(id) {
        Some(ValidationError::InvalidUuid)
    } else if !(opt_time_ok(opt_view(item.start_time)) && opt_time_ok(opt_view(item.finish_time))) {
        Some(ValidationError::InvalidDate)
    } else if item.notes@.len() > MAX_NOTES_LEN {
        Some(ValidationError::TooLong)
    } else {
        None
    }
}

/// Writes the workout named by the path: one put step under the client's
/// collection, guarded by the version bump.
pub fn put(store: &mut UserStore, now: u64, workout_id: &str, req: &VersionModifyReq<Workout>)
    -> (res: Result<ApplyOutcome, ValidationError>)
    requires
        old(store).wf(),
    ensures
        final(store).wf(),
        match put_error(workout_id@, &req.item) {
            Some(e) => res == Err::<ApplyOutcome, ValidationError>(e) && final(store)@ == old(
                store,
            )@,
            None => res is Ok && apply_contract(
                old(store)@,
                final(store)@,
                req.version,
                now,
                seq![
                    WriteStepView::Put {
                        key: spec_key_for::<Workout>(
                            spec_collection_prefix(spec_collection_of(req.version)),
                            workout_id@,
                        ),
                        payload: req.item.payload_view(),
                    },
                ],
                Classifier::Ignore,
                res->Ok_0,
            ),
        },
{
    if !is_uuid(workout_id) {
        return Err(ValidationError::InvalidUuid);
    }
    if !check_opt_time(&req.item.start_time) || !check_opt_time(&req.item.finish_time) {
        return Err(ValidationError::InvalidDate);
    }
    if req.item.notes.as_str().unicode_len() > MAX_NOTES_LEN {
        return Err(ValidationError::TooLong);
    }
    let collection = collection_from_version(req.version);
    if collection > MAX_COLLECTION {
        return Ok(ApplyOutcome::Conflict);
    }
    let prefix = get_collection_prefix(collection);
    let step = version_put_item::<Workout>(prefix.as_str(), workout_id, &req.item);
    let mut steps: Vec<WriteStep> = Vec::new();
    steps.push(step);
    proof {
        lemma_version_bound(req.version);
        assert(views_of(steps@) =~= seq![
            WriteStepView::Put {
                key: spec_key_for::<Workout>(
                    spec_collection_prefix(spec_collection_of(req.version)),
                    workout_id@,
                ),
                payload: req.item.payload_view(),
            },
        ]);
    }
    Ok(store.version_apply(req.version, now, &steps, Classifier::Ignore))
}

/// Tombstones the workout named by the path. A path that is no UUID is
/// answered not-found, as is a workout that does not exist or is already
/// tombstoned.
pub fn delete(store: &mut UserStore, now: u64, workout_id: &str, req: &VersionDeleteReq) -> (out:
    ApplyOutcome)
    requires
        old(store).wf(),
    ensures
        final(store).wf(),
        if !spec_is_uuid(workout_id@) {
            out == ApplyOutcome::NotFound && final(store)@ == old(store)@
        } else {
            apply_contract(
                old(store)@,
                final(store)@,
                req.version,
                now,
                seq![
                    WriteStepView::Tombstone {
                        key: spec_key_for::<Workout>(
                            spec_collection_prefix(spec_collection_of(req.version)),
                            workout_id@,
                        ),
                    },
                ],
                Classifier::NotFoundOnFirst,
                out,
            )
        },
{
    if !is_uuid(workout_id) {
        return ApplyOutcome::NotFound;
    }
    version_delete::<Workout>(store, now, workout_id, req.version)
}

} // verus!
