//! Endpoints for measurement sets, keyed by capture date.

use vstd::prelude::*;
use crate::engine::{ApplyOutcome, Classifier, WriteStep, WriteStepView};
use crate::keys::{
    spec_collection_of, spec_collection_prefix, collection_from_version, get_collection_prefix,
    MAX_COLLECTION, DATE_LEN,
};
use crate::model::{MeasurementSet, VersionDeleteReq, VersionModifyReq, MAX_NOTES_LEN, views_of};
use crate::store::UserStore;
use crate::validate::{is_calendar_date, is_date, ValidationError};
use crate::version::{
    StoreEntity, spec_key_for, apply_contract, version_delete, version_put_item,
    lemma_version_bound,
};
use vstd::string::StrSliceExecFns;

verus! {

/// Why a measurement-set put is rejected before touching the store, if it is.
pub open spec fn put_error(id: Seq<char>, item: &MeasurementSet) -> Option<ValidationError> {
    if !(is_calendar_date(id) && id.len() == DATE_LEN) {
        Some(ValidationError::InvalidDate)
    } else if item.notes@.len() > MAX_NOTES_LEN {
        Some(ValidationError::TooLong)
    } else {
        None
    }
}

/// Writes the measurement set captured on the date named by the path: one put
/// step under the client's collection, guarded by the version bump.
pub fn put(
    store: &mut UserStore,
    now: u64,
    measurement_id: &str,
    req: &VersionModifyReq<MeasurementSet>,
) -> (res: Result<ApplyOutcome, ValidationError>)
    requires
        old(store).wf(),
    ensures
        final(store).wf(),
        match put_error(measurement_id@, &req.item) {
            Some(e) => res == Err::<ApplyOutcome, ValidationError>(e) && final(store)@ == old(
                store,
            )@,
            None => res is Ok && apply_contract(
                old(store)@,
                final(store)@,
                req.version,
                now,
                seq![
                    WriteStepView::Put {
                        key: spec_key_for::<MeasurementSet>(
                            spec_collection_prefix(spec_collection_of(req.version)),
                            measurement_id@,
                        ),
                        payload: req.item.payload_view(),
                    },
                ],
                Classifier::Ignore,
                res->Ok_0,
            ),
        },
{
    if !is_date(measurement_id) || measurement_id.unicode_len() != DATE_LEN {
        return Err(ValidationError::InvalidDate);
    }
    if req.item.notes.as_str().unicode_len() > MAX_NOTES_LEN {
        return Err(ValidationError::TooLong);
    }
    let collection = collection_from_version(req.version);
    if collection > MAX_COLLECTION {
        return Ok(ApplyOutcome::Conflict);
    }
    let prefix = get_collection_prefix(collection);
    let step = version_put_item::<MeasurementSet>(prefix.as_str(), measurement_id, &req.item);
    let mut steps: Vec<WriteStep> = Vec::new();
    steps.push(step);
    proof {
        lemma_version_bound(req.version);
        assert(views_of(steps@) =~= seq![
            WriteStepView::Put {
                key: spec_key_for::<MeasurementSet>(
                    spec_collection_prefix(spec_collection_of(req.version)),
                    measurement_id@,
                ),
                payload: req.item.payload_view(),
            },
        ]);
    }
    Ok(store.version_apply(req.version, now, &steps, Classifier::Ignore))
}

/// Tombstones the measurement set captured on the date named by the path. A
/// path that names no calendar date is answered not-found, as is a set that
/// does not exist or is already tombstoned.
pub fn delete(store: &mut UserStore, now: u64, measurement_id: &str, req: &VersionDeleteReq)
    -> (out: ApplyOutcome)
    requires
        old(store).wf(),
    ensures
        final(store).wf(),
        if !is_calendar_date(measurement_id@) {
            out == ApplyOutcome::NotFound && final(store)@ == old(store)@
        } else {
            apply_contract(
                old(store)@,
                final(store)@,
                req.version,
                now,
                seq![
                    WriteStepView::Tombstone {
                        key: spec_key_for::<MeasurementSet>(
                            spec_collection_prefix(spec_collection_of(req.version)),
                            measurement_id@,
                        ),
                    },
                ],
                Classifier::NotFoundOnFirst,
                out,
            )
        },
{
    if !is_date(measurement_id) {
        return ApplyOutcome::NotFound;
    }
    version_delete::<MeasurementSet>(store, now, measurement_id, req.version)
}

} // verus!
