//! The read protocols: the incremental change query over the
//! modified-version index, and the validated full-snapshot read.
//!
//! Against the live backend both reads bracket their row queries with two
//! reads of the dataset version; the pure checks that compare the two reads
//! stand here, and the row classification is shared with the store model.

use vstd::prelude::*;
use crate::keys::{
    spec_collection_of, spec_collection_prefix, collection_from_version, get_collection_prefix,
    MAX_COLLECTION, MEASUREMENT_KEY_LEN, WORKOUT_KEY_LEN, EXERCISE_KEY_LEN, MEASUREMENT_ID_START,
    WORKOUT_ID_START,
};
use crate::model::{User, views_of};
use crate::row::{
    Row, RowView, db_to_user, as_live_measurement, as_live_workout, as_live_exercise,
    as_tombstone, key_in_collection, key_has_prefix, row_shape_ok, rows_wf, clone_row,
};
use crate::store::UserStore;

verus! {

/// The recorded dataset version, or zero when nothing was written yet.
pub open spec fn version_or_zero(v: Option<u64>) -> u64 {
    match v {
        Some(x) => x,
        None => 0,
    }
}

impl UserStore {
    /// Reads the dataset-version record; a dataset never written reads as
    /// version zero.
    pub fn get_version(&self) -> (v: u64)
        ensures
            v == version_or_zero(self@.version),
    {
        match self.version {
            Some(v) => v,
            None => 0,
        }
    }
}

/// The rows the modified-version index returns for a change query: those
/// written after the client's version, in store order.
pub open spec fn changed_rows(rows: Seq<RowView>, client_version: u64) -> Seq<RowView> {
    rows.filter_map(
        |r: RowView| if r.modified_version > client_version {
            Some(r)
        } else {
            None
        },
    )
}

/// The rows a snapshot read returns: live rows of the collection, in store
/// order; tombstones are withheld by the backend filter.
pub open spec fn live_collection_rows(rows: Seq<RowView>, prefix: Seq<char>) -> Seq<RowView> {
    rows.filter_map(
        |r: RowView| if key_in_collection(r.key, prefix) && r.data is Live {
            Some(r)
        } else {
            None
        },
    )
}

/// The rows an import reads: every row of the collection, tombstones
/// included, in store order.
pub open spec fn collection_rows(rows: Seq<RowView>, prefix: Seq<char>) -> Seq<RowView> {
    rows.filter_map(
        |r: RowView| if key_in_collection(r.key, prefix) {
            Some(r)
        } else {
            None
        },
    )
}

/// Queries the rows written after the client's version.
pub fn query_modified_since(store: &UserStore, client_version: u64) -> (out: Vec<Row>)
    requires
        store.wf(),
    ensures
        views_of(out@) == changed_rows(store@.rows, client_version),
        forall|i: int| 0 <= i < out@.len() ==> row_shape_ok(#[trigger] views_of(out@)[i]),
{
    let ghost rv = store@.rows;
    let ghost f = |r: RowView| if r.modified_version > client_version {
        Some(r)
    } else {
        None
    };
    let mut out: Vec<Row> = Vec::new();
    let mut i: usize = 0;
    while i < store.rows.len()
        invariant
            store.wf(),
            rv == store@.rows,
            f == (|r: RowView| if r.modified_version > client_version {
                Some(r)
            } else {
                None
            }),
            i <= rv.len(),
            views_of(out@) == rv.take(i as int).filter_map(f),
            forall|k: int| 0 <= k < out@.len() ==> row_shape_ok(#[trigger] views_of(out@)[k]),
        decreases rv.len() - i,
    {
        broadcast use vstd::prelude::Seq::lemma_filter_map_take_succ, vstd::prelude::Seq::add_empty_right;

        let row = &store.rows[i];
        if row.modified_version > client_version {
            out.push(clone_row(row));
            proof {
                assert(views_of(out@) =~= rv.take(i + 1).filter_map(f));
            }
        } else {
            proof {
                assert(views_of(out@) =~= rv.take(i + 1).filter_map(f));
            }
        }
        i = i + 1;
    }
    proof {
        assert(rv.take(rv.len() as int) =~= rv);
    }
    out
}

/// Queries the rows of one collection: all of them, or the live ones only,
/// as the backend filter asks.
pub fn query_collection(store: &UserStore, collection_prefix: &str, live_only: bool) -> (out: Vec<
    Row,
>)
    requires
        store.wf(),
    ensures
        live_only ==> views_of(out@) == live_collection_rows(store@.rows, collection_prefix@),
        !live_only ==> views_of(out@) == collection_rows(store@.rows, collection_prefix@),
        forall|i: int| 0 <= i < out@.len() ==> row_shape_ok(#[trigger] views_of(out@)[i]),
{
    let ghost rv = store@.rows;
    let ghost f_live = |r: RowView| if key_in_collection(r.key, collection_prefix@) && r.data
        is Live {
        Some(r)
    } else {
        None
    };
    let ghost f_all = |r: RowView| if key_in_collection(r.key, collection_prefix@) {
        Some(r)
    } else {
        None
    };
    let mut out: Vec<Row> = Vec::new();
    let mut i: usize = 0;
    while i < store.rows.len()
        invariant
            store.wf(),
            rv == store@.rows,
            f_live == (|r: RowView| if key_in_collection(r.key, collection_prefix@) && r.data
                is Live {
                Some(r)
            } else {
                None
            }),
            f_all == (|r: RowView| if key_in_collection(r.key, collection_prefix@) {
                Some(r)
            } else {
                None
            }),
            i <= rv.len(),
            live_only ==> views_of(out@) == rv.take(i as int).filter_map(f_live),
            !live_only ==> views_of(out@) == rv.take(i as int).filter_map(f_all),
            forall|k: int| 0 <= k < out@.len() ==> row_shape_ok(#[trigger] views_of(out@)[k]),
        decreases rv.len() - i,
    {
        broadcast use vstd::prelude::Seq::lemma_filter_map_take_succ, vstd::prelude::Seq::add_empty_right;

        let row = &store.rows[i];
        let keep = key_has_prefix(row.key.as_str(), collection_prefix) && (!live_only || matches!(
            row.data,
            crate::row::RowData::Live(_),
        ));
        if keep {
            out.push(clone_row(row));
        }
        proof {
            if live_only {
                assert(views_of(out@) =~= rv.take(i + 1).filter_map(f_live));
            } else {
                assert(views_of(out@) =~= rv.take(i + 1).filter_map(f_all));
            }
        }
        i = i + 1;
    }
    proof {
        assert(rv.take(rv.len() as int) =~= rv);
    }
    out
}

/// Whether a change query may trust what it read: the collection implied by
/// the second version read must be the one the first read named; otherwise
/// an import completed mid-query and the rows may be partial.
pub fn change_query_check(first_version: u64, second_version: u64) -> (consistent: bool)
    ensures
        consistent == (spec_collection_of(first_version) == spec_collection_of(second_version)),
{
    collection_from_version(first_version) == collection_from_version(second_version)
}

/// Whether a snapshot read may trust what it read: the dataset version must
/// not have moved at all between the two reads bracketing it; otherwise the
/// caller is told to retry rather than be handed partial data.
pub fn snapshot_version_check(first_version: u64, second_version: u64) -> (consistent: bool)
    ensures
        consistent == (first_version == second_version),
{
    first_version == second_version
}

/// Hands a snapshot out only when the dataset version did not move between
/// the two reads bracketing it; otherwise the rows are withheld and the
/// caller is asked to retry at once.
pub fn validate_snapshot_read(user: User, first_version: u64, second_version: u64) -> (r: Result<
    User,
    u64,
>)
    ensures
        first_version == second_version ==> r == Ok::<User, u64>(user),
        first_version != second_version ==> r == Err::<User, u64>(0u64),
{
    if first_version == second_version {
        Ok(user)
    } else {
        Err(0)
    }
}

/// Hands a change-query result out only when no import switched the
/// collection between the two version reads bracketing it; otherwise the
/// rows are withheld and the caller is asked to retry at once.
pub fn validate_change_query(user: User, first_version: u64, second_version: u64) -> (r: Result<
    User,
    u64,
>)
    ensures
        spec_collection_of(first_version) == spec_collection_of(second_version) ==> r == Ok::<
            User,
            u64,
        >(user),
        spec_collection_of(first_version) != spec_collection_of(second_version) ==> r == Err::<
            User,
            u64,
        >(0u64),
{
    if change_query_check(first_version, second_version) {
        Ok(user)
    } else {
        Err(0)
    }
}

/// Fetches everything written after the client's version, grouped by kind,
/// tombstones included. When the client is already at the current version,
/// nothing is queried and every list comes back empty.
pub fn get_changed(store: &UserStore, client_version: u64) -> (user: User)
    requires
        store.wf(),
        spec_collection_of(version_or_zero(store@.version)) <= MAX_COLLECTION,
    ensures
        ({
            let version = version_or_zero(store@.version);
            let prefix = spec_collection_prefix(spec_collection_of(version));
            &&& user@.version == version
            &&& version <= client_version ==> {
                &&& user@.measurement_sets.len() == 0
                &&& user@.workouts.len() == 0
                &&& user@.exercises.len() == 0
                &&& user@.deleted_measurement_sets.len() == 0
                &&& user@.deleted_workouts.len() == 0
                &&& user@.deleted_exercises.len() == 0
            }
            &&& version > client_version ==> {
                let rows = changed_rows(store@.rows, client_version);
                &&& user@.measurement_sets == rows.filter_map(
                    |r: RowView| as_live_measurement(r, prefix, true),
                )
                &&& user@.workouts == rows.filter_map(
                    |r: RowView| as_live_workout(r, prefix, true),
                )
                &&& user@.exercises == rows.filter_map(
                    |r: RowView| as_live_exercise(r, prefix, true),
                )
                &&& user@.deleted_measurement_sets == rows.filter_map(
                    |r: RowView| as_tombstone(
                        r,
                        prefix,
                        true,
                        true,
                        MEASUREMENT_KEY_LEN as nat,
                        MEASUREMENT_ID_START as nat,
                    ),
                )
                &&& user@.deleted_workouts == rows.filter_map(
                    |r: RowView| as_tombstone(
                        r,
                        prefix,
                        true,
                        true,
                        WORKOUT_KEY_LEN as nat,
                        WORKOUT_ID_START as nat,
                    ),
                )
                &&& user@.deleted_exercises == rows.filter_map(
                    |r: RowView| as_tombstone(
                        r,
                        prefix,
                        true,
                        true,
                        EXERCISE_KEY_LEN as nat,
                        WORKOUT_ID_START as nat,
                    ),
                )
            }
        }),
{
    let version = store.get_version();
    if version <= client_version {
        return User::empty(version);
    }
    let rows = query_modified_since(store, client_version);
    db_to_user(version, true, true, &rows)
}

/// Reads the whole current collection as one consistent snapshot: the live
/// rows under the collection's own key prefix, with no tombstones and no
/// rows of any other collection.
pub fn read_snapshot(store: &UserStore) -> (user: User)
    requires
        store.wf(),
        spec_collection_of(version_or_zero(store@.version)) <= MAX_COLLECTION,
    ensures
        ({
            let version = version_or_zero(store@.version);
            let prefix = spec_collection_prefix(spec_collection_of(version));
            let rows = live_collection_rows(store@.rows, prefix);
            &&& user@.version == version
            &&& user@.measurement_sets == rows.filter_map(
                |r: RowView| as_live_measurement(r, prefix, false),
            )
            &&& user@.workouts == rows.filter_map(|r: RowView| as_live_workout(r, prefix, false))
            &&& user@.exercises == rows.filter_map(|r: RowView| as_live_exercise(r, prefix, false))
            &&& user@.deleted_measurement_sets.len() == 0
            &&& user@.deleted_workouts.len() == 0
            &&& user@.deleted_exercises.len() == 0
        }),
{
    let version = store.get_version();
    let collection = collection_from_version(version);
    let prefix = get_collection_prefix(collection);
    let rows = query_collection(store, prefix.as_str(), true);
    let user = db_to_user(version, false, false, &rows);
    proof {
        let prefix = spec_collection_prefix(spec_collection_of(version));
        lemma_filter_map_none(
            views_of(rows@),
            |r: RowView| as_tombstone(
                r,
                prefix,
                false,
                false,
                MEASUREMENT_KEY_LEN as nat,
                MEASUREMENT_ID_START as nat,
            ),
        );
        lemma_filter_map_none(
            views_of(rows@),
            |r: RowView| as_tombstone(
                r,
                prefix,
                false,
                false,
                WORKOUT_KEY_LEN as nat,
                WORKOUT_ID_START as nat,
            ),
        );
        lemma_filter_map_none(
            views_of(rows@),
            |r: RowView| as_tombstone(
                r,
                prefix,
                false,
                false,
                EXERCISE_KEY_LEN as nat,
                WORKOUT_ID_START as nat,
            ),
        );
    }
    user
}

/// A filter-map whose function yields nothing yields an empty sequence.
proof fn lemma_filter_map_none<B>(rows: Seq<RowView>, f: spec_fn(RowView) -> Option<B>)
    requires
        forall|r: RowView| (#[trigger] f(r)) is None,
    ensures
        rows.filter_map(f).len() == 0,
    decreases rows.len(),
{
    reveal_with_fuel(Seq::filter_map, 2);
    if rows.len() > 0 {
        lemma_filter_map_none(rows.drop_last(), f);
    }
}

} // verus!
