//! The storage-row model and the classifier that turns raw rows back into a
//! user's record set.
//!
//! A row is a sort key plus either a live entity payload or a tombstone
//! marker, stamped with the version at which it was last written. The kind of
//! a row is recovered from the length of its key alone; rows of a foreign
//! collection can be filtered out by their key prefix.

use vstd::prelude::*;
use crate::keys::{
    spec_collection_of, spec_collection_prefix, collection_from_version, get_collection_prefix,
    MAX_COLLECTION, MEASUREMENT_KEY_LEN, WORKOUT_KEY_LEN, EXERCISE_KEY_LEN, MEASUREMENT_ID_START,
    WORKOUT_ID_START,
};
use crate::model::{
    ExerciseSet, ExerciseSetView, MeasurementSet, MeasurementSetView, Workout, WorkoutView,
    Exercise, ExerciseView, Tombstone, TombstoneView, User, views_of, pair_views,
    opt_view, clone_pairs, clone_sets, opt_str_clone,
};
use vstd::string::StrSliceExecFns;

verus! {

/// The kind-specific attributes of a live row.
pub enum Payload {
    Measurement { notes: String, measurements: Vec<(String, String)> },
    Workout { start_time: Option<String>, finish_time: Option<String>, notes: String },
    Exercise { order: u32, exercise_type: String, notes: String, sets: Vec<ExerciseSet> },
}

pub enum PayloadView {
    Measurement { notes: Seq<char>, measurements: Seq<(Seq<char>, Seq<char>)> },
    Workout { start_time: Option<Seq<char>>, finish_time: Option<Seq<char>>, notes: Seq<char> },
    Exercise { order: u32, exercise_type: Seq<char>, notes: Seq<char>, sets: Seq<ExerciseSetView> },
}

impl View for Payload {
    type V = PayloadView;

    open spec fn view(&self) -> PayloadView {
        match self {
            Payload::Measurement { notes, measurements } => PayloadView::Measurement {
                notes: notes@,
                measurements: pair_views(measurements@),
            },
            Payload::Workout { start_time, finish_time, notes } => PayloadView::Workout {
                start_time: opt_view(*start_time),
                finish_time: opt_view(*finish_time),
                notes: notes@,
            },
            Payload::Exercise { order, exercise_type, notes, sets } => PayloadView::Exercise {
                order: *order,
                exercise_type: exercise_type@,
                notes: notes@,
                sets: views_of(sets@),
            },
        }
    }
}

/// What a row records: a live entity or a deletion marker.
pub enum RowData {
    Live(Payload),
    Tombstone,
}

pub enum RowDataView {
    Live(PayloadView),
    Tombstone,
}

impl View for RowData {
    type V = RowDataView;

    open spec fn view(&self) -> RowDataView {
        match self {
            RowData::Live(p) => RowDataView::Live(p@),
            RowData::Tombstone => RowDataView::Tombstone,
        }
    }
}

/// One stored row of a user's table.
pub struct Row {
    /// The sort key: collection prefix, kind tag, local id.
    pub key: String,
    /// The dataset version at which the row was last written.
    pub modified_version: u64,
    pub data: RowData,
}

pub struct RowView {
    pub key: Seq<char>,
    pub modified_version: u64,
    pub data: RowDataView,
}

impl View for Row {
    type V = RowView;

    open spec fn view(&self) -> RowView {
        RowView { key: self.key@, modified_version: self.modified_version, data: self.data@ }
    }
}

pub fn clone_payload(p: &Payload) -> (r: Payload)
    ensures
        r@ == p@,
{
    match p {
        Payload::Measurement { notes, measurements } => Payload::Measurement {
            notes: notes.clone(),
            measurements: clone_pairs(measurements),
        },
        Payload::Workout { start_time, finish_time, notes } => Payload::Workout {
            start_time: opt_str_clone(start_time),
            finish_time: opt_str_clone(finish_time),
            notes: notes.clone(),
        },
        Payload::Exercise { order, exercise_type, notes, sets } => Payload::Exercise {
            order: *order,
            exercise_type: exercise_type.clone(),
            notes: notes.clone(),
            sets: clone_sets(sets),
        },
    }
}

pub fn clone_row(r: &Row) -> (c: Row)
    ensures
        c@ == r@,
{
    Row {
        key: r.key.clone(),
        modified_version: r.modified_version,
        data: match &r.data {
            RowData::Live(p) => RowData::Live(clone_payload(p)),
            RowData::Tombstone => RowData::Tombstone,
        },
    }
}

/// Whether a key lies in the collection with the given prefix.
pub open spec fn key_in_collection(k: Seq<char>, prefix: Seq<char>) -> bool {
    k.len() >= prefix.len() && k.subrange(0, prefix.len() as int) == prefix
}

/// Whether a row survives the collection filter.
pub open spec fn row_kept(r: RowView, prefix: Seq<char>, filter: bool) -> bool {
    !filter || key_in_collection(r.key, prefix)
}

/// A row whose key length agrees with what it stores, so its kind can be read
/// off the length.
pub open spec fn row_shape_ok(r: RowView) -> bool {
    match r.data {
        RowDataView::Live(PayloadView::Measurement { .. }) => r.key.len() == MEASUREMENT_KEY_LEN,
        RowDataView::Live(PayloadView::Workout { .. }) => r.key.len() == WORKOUT_KEY_LEN,
        RowDataView::Live(PayloadView::Exercise { .. }) => r.key.len() == EXERCISE_KEY_LEN,
        RowDataView::Tombstone => r.key.len() == MEASUREMENT_KEY_LEN || r.key.len()
            == WORKOUT_KEY_LEN || r.key.len() == EXERCISE_KEY_LEN,
    }
}

/// Every row that the classifier would keep has a recognizable shape.
pub open spec fn rows_wf(rows: Seq<RowView>, prefix: Seq<char>, filter: bool) -> bool {
    forall|i: int| 0 <= i < rows.len() && row_kept(#[trigger] rows[i], prefix, filter)
        ==> row_shape_ok(rows[i])
}

/// The live measurement set a row contributes, if any.
pub open spec fn as_live_measurement(r: RowView, prefix: Seq<char>, filter: bool) -> Option<
    MeasurementSetView,
> {
    if row_kept(r, prefix, filter) && r.key.len() == MEASUREMENT_KEY_LEN {
        match r.data {
            RowDataView::Live(PayloadView::Measurement { notes, measurements }) => Some(
                MeasurementSetView {
                    date: r.key.skip(MEASUREMENT_ID_START as int),
                    notes: notes,
                    measurements: measurements,
                    modified_version: r.modified_version,
                },
            ),
            _ => None,
        }
    } else {
        None
    }
}

/// The live workout a row contributes, if any.
pub open spec fn as_live_workout(r: RowView, prefix: Seq<char>, filter: bool) -> Option<
    WorkoutView,
> {
    if row_kept(r, prefix, filter) && r.key.len() == WORKOUT_KEY_LEN {
        match r.data {
            RowDataView::Live(PayloadView::Workout { start_time, finish_time, notes }) => Some(
                WorkoutView {
                    workout_id: r.key.skip(WORKOUT_ID_START as int),
                    start_time: start_time,
                    finish_time: finish_time,
                    notes: notes,
                    modified_version: r.modified_version,
                },
            ),
            _ => None,
        }
    } else {
        None
    }
}

/// The live exercise a row contributes, if any.
pub open spec fn as_live_exercise(r: RowView, prefix: Seq<char>, filter: bool) -> Option<
    ExerciseView,
> {
    if row_kept(r, prefix, filter) && r.key.len() == EXERCISE_KEY_LEN {
        match r.data {
            RowDataView::Live(PayloadView::Exercise { order, exercise_type, notes, sets }) => Some(
                ExerciseView {
                    workout_exercise_id: r.key.skip(WORKOUT_ID_START as int),
                    order: order,
                    exercise_type: exercise_type,
                    notes: notes,
                    sets: sets,
                    modified_version: r.modified_version,
                },
            ),
            _ => None,
        }
    } else {
        None
    }
}

/// The tombstone of the given key length a row contributes, if any.
pub open spec fn as_tombstone(
    r: RowView,
    prefix: Seq<char>,
    filter: bool,
    include_deleted: bool,
    key_len: nat,
    id_start: nat,
) -> Option<TombstoneView> {
    if include_deleted && row_kept(r, prefix, filter) && r.key.len() == key_len && r.data
        is Tombstone {
        Some(TombstoneView { id: r.key.skip(id_start as int), modified_version: r.modified_version })
    } else {
        None
    }
}

/// Whether a key starts with the given prefix, checked character by
/// character.
pub fn key_has_prefix(key: &str, prefix: &str) -> (r: bool)
    ensures
        r == key_in_collection(key@, prefix@),
{
    let klen = key.unicode_len();
    let plen = prefix.unicode_len();
    if klen < plen {
        return false;
    }
    let mut i: usize = 0;
    while i < plen
        invariant
            key@.len() >= prefix@.len(),
            plen == prefix@.len(),
            i <= plen,
            forall|j: int| 0 <= j < i ==> key@[j] == prefix@[j],
        decreases plen - i,
    {
        if key.get_char(i) != prefix.get_char(i) {
            proof {
                assert(key@.subrange(0, prefix@.len() as int)[i as int] != prefix@[i as int]);
            }
            return false;
        }
        i = i + 1;
    }
    proof {
        assert(key@.subrange(0, prefix@.len() as int) =~= prefix@);
    }
    true
}

/// Classifies raw rows into the user's record set: live entities and, when
/// asked for, tombstones, grouped by kind in row order; rows of another
/// collection are discarded when `filter_collection` is set. The version
/// passed in names the collection the rows are read against and is returned
/// unchanged.
pub fn db_to_user(version: u64, include_deleted: bool, filter_collection: bool, rows: &Vec<Row>)
    -> (user: User)
    requires
        spec_collection_of(version) <= MAX_COLLECTION,
        rows_wf(
            views_of(rows@),
            spec_collection_prefix(spec_collection_of(version)),
            filter_collection,
        ),
    ensures
        ({
            let rv = views_of(rows@);
            let prefix = spec_collection_prefix(spec_collection_of(version));
            &&& user@.version == version
            &&& user@.measurement_sets == rv.filter_map(
                |r: RowView| as_live_measurement(r, prefix, filter_collection),
            )
            &&& user@.workouts == rv.filter_map(
                |r: RowView| as_live_workout(r, prefix, filter_collection),
            )
            &&& user@.exercises == rv.filter_map(
                |r: RowView| as_live_exercise(r, prefix, filter_collection),
            )
            &&& user@.deleted_measurement_sets == rv.filter_map(
                |r: RowView| as_tombstone(
                    r,
                    prefix,
                    filter_collection,
                    include_deleted,
                    MEASUREMENT_KEY_LEN as nat,
                    MEASUREMENT_ID_START as nat,
                ),
            )
            &&& user@.deleted_workouts == rv.filter_map(
                |r: RowView| as_tombstone(
                    r,
                    prefix,
                    filter_collection,
                    include_deleted,
                    WORKOUT_KEY_LEN as nat,
                    WORKOUT_ID_START as nat,
                ),
            )
            &&& user@.deleted_exercises == rv.filter_map(
                |r: RowView| as_tombstone(
                    r,
                    prefix,
                    filter_collection,
                    include_deleted,
                    EXERCISE_KEY_LEN as nat,
                    WORKOUT_ID_START as nat,
                ),
            )
        }),
{
    let ghost rv = views_of(rows@);
    let ghost prefix = spec_collection_prefix(spec_collection_of(version));
    let ghost f_m = |r: RowView| as_live_measurement(r, prefix, filter_collection);
    let ghost f_w = |r: RowView| as_live_workout(r, prefix, filter_collection);
    let ghost f_e = |r: RowView| as_live_exercise(r, prefix, filter_collection);
    let ghost f_dm = |r: RowView| as_tombstone(
        r,
        prefix,
        filter_collection,
        include_deleted,
        MEASUREMENT_KEY_LEN as nat,
        MEASUREMENT_ID_START as nat,
    );
    let ghost f_dw = |r: RowView| as_tombstone(
        r,
        prefix,
        filter_collection,
        include_deleted,
        WORKOUT_KEY_LEN as nat,
        WORKOUT_ID_START as nat,
    );
    let ghost f_de = |r: RowView| as_tombstone(
        r,
        prefix,
        filter_collection,
        include_deleted,
        EXERCISE_KEY_LEN as nat,
        WORKOUT_ID_START as nat,
    );

    let collection_prefix = get_collection_prefix(collection_from_version(version));

    let mut measurement_sets: Vec<MeasurementSet> = Vec::new();
    let mut workouts: Vec<Workout> = Vec::new();
    let mut exercises: Vec<Exercise> = Vec::new();
    let mut deleted_measurement_sets: Vec<Tombstone> = Vec::new();
    let mut deleted_workouts: Vec<Tombstone> = Vec::new();
    let mut deleted_exercises: Vec<Tombstone> = Vec::new();

    let mut i: usize = 0;
    while i < rows.len()
        invariant
            rv == views_of(rows@),
            prefix == spec_collection_prefix(spec_collection_of(version)),
            collection_prefix@ == prefix,
            rows_wf(rv, prefix, filter_collection),
            f_m == |r: RowView| as_live_measurement(r, prefix, filter_collection),
            f_w == |r: RowView| as_live_workout(r, prefix, filter_collection),
            f_e == |r: RowView| as_live_exercise(r, prefix, filter_collection),
            f_dm == |r: RowView| as_tombstone(
                r,
                prefix,
                filter_collection,
                include_deleted,
                MEASUREMENT_KEY_LEN as nat,
                MEASUREMENT_ID_START as nat,
            ),
            f_dw == |r: RowView| as_tombstone(
                r,
                prefix,
                filter_collection,
                include_deleted,
                WORKOUT_KEY_LEN as nat,
                WORKOUT_ID_START as nat,
            ),
            f_de == |r: RowView| as_tombstone(
                r,
                prefix,
                filter_collection,
                include_deleted,
                EXERCISE_KEY_LEN as nat,
                WORKOUT_ID_START as nat,
            ),
            i <= rows@.len(),
            views_of(measurement_sets@) == rv.take(i as int).filter_map(f_m),
            views_of(workouts@) == rv.take(i as int).filter_map(f_w),
            views_of(exercises@) == rv.take(i as int).filter_map(f_e),
            views_of(deleted_measurement_sets@) == rv.take(i as int).filter_map(f_dm),
            views_of(deleted_workouts@) == rv.take(i as int).filter_map(f_dw),
            views_of(deleted_exercises@) == rv.take(i as int).filter_map(f_de),
        decreases rows@.len() - i,
    {
        broadcast use vstd::prelude::Seq::lemma_filter_map_take_succ;

        let row = &rows[i];
        proof {
            assert(rv[i as int] == rows@[i as int]@);
        }
        let kept = !filter_collection || key_has_prefix(row.key.as_str(), collection_prefix.as_str());
        if kept {
            proof {
                assert(row_kept(rv[i as int], prefix, filter_collection));
                assert(row_shape_ok(rv[i as int]));
            }
            let key_len = row.key.as_str().unicode_len();
            match &row.data {
                RowData::Tombstone => {
                    if include_deleted {
                        let id_start: usize = if key_len == MEASUREMENT_KEY_LEN {
                            MEASUREMENT_ID_START
                        } else {
                            WORKOUT_ID_START
                        };
                        let id = row.key.as_str().substring_char(id_start, key_len);
                        let t = Tombstone {
                            id: id.to_owned(),
                            modified_version: row.modified_version,
                        };
                        if key_len == MEASUREMENT_KEY_LEN {
                            deleted_measurement_sets.push(t);
                            proof {
                                assert(t@ == f_dm(rv[i as int])->Some_0);
                                assert(views_of(deleted_measurement_sets@) =~= rv.take(
                                    i + 1 as int,
                                ).filter_map(f_dm));
                            }
                        } else if key_len == WORKOUT_KEY_LEN {
                            deleted_workouts.push(t);
                            proof {
                                assert(t@ == f_dw(rv[i as int])->Some_0);
                                assert(views_of(deleted_workouts@) =~= rv.take(
                                    i + 1 as int,
                                ).filter_map(f_dw));
                            }
                        } else {
                            deleted_exercises.push(t);
                            proof {
                                assert(t@ == f_de(rv[i as int])->Some_0);
                                assert(views_of(deleted_exercises@) =~= rv.take(
                                    i + 1 as int,
                                ).filter_map(f_de));
                            }
                        }
                    }
                },
                RowData::Live(Payload::Measurement { notes, measurements }) => {
                    let id = row.key.as_str().substring_char(MEASUREMENT_ID_START, key_len);
                    let m = MeasurementSet {
                        date: id.to_owned(),
                        notes: notes.clone(),
                        measurements: clone_pairs(measurements),
                        modified_version: row.modified_version,
                    };
                    measurement_sets.push(m);
                    proof {
                        assert(m@ == f_m(rv[i as int])->Some_0);
                        assert(views_of(measurement_sets@) =~= rv.take(i + 1 as int).filter_map(
                            f_m,
                        ));
                    }
                },
                RowData::Live(Payload::Workout { start_time, finish_time, notes }) => {
                    let id = row.key.as_str().substring_char(WORKOUT_ID_START, key_len);
                    let w = Workout {
                        workout_id: id.to_owned(),
                        start_time: opt_str_clone(start_time),
                        finish_time: opt_str_clone(finish_time),
                        notes: notes.clone(),
                        modified_version: row.modified_version,
                    };
                    workouts.push(w);
                    proof {
                        assert(w@ == f_w(rv[i as int])->Some_0);
                        assert(views_of(workouts@) =~= rv.take(i + 1 as int).filter_map(f_w));
                    }
                },
                RowData::Live(Payload::Exercise { order, exercise_type, notes, sets }) => {
                    let id = row.key.as_str().substring_char(WORKOUT_ID_START, key_len);
                    let e = Exercise {
                        workout_exercise_id: id.to_owned(),
                        order: *order,
                        exercise_type: exercise_type.clone(),
                        notes: notes.clone(),
                        sets: clone_sets(sets),
                        modified_version: row.modified_version,
                    };
                    exercises.push(e);
                    proof {
                        assert(e@ == f_e(rv[i as int])->Some_0);
                        assert(views_of(exercises@) =~= rv.take(i + 1 as int).filter_map(f_e));
                    }
                },
            }
        }
        proof {
            broadcast use vstd::prelude::Seq::add_empty_right;

            assert(views_of(measurement_sets@) =~= rv.take(i + 1).filter_map(f_m));
            assert(views_of(workouts@) =~= rv.take(i + 1).filter_map(f_w));
            assert(views_of(exercises@) =~= rv.take(i + 1).filter_map(f_e));
            assert(views_of(deleted_measurement_sets@) =~= rv.take(i + 1).filter_map(f_dm));
            assert(views_of(deleted_workouts@) =~= rv.take(i + 1).filter_map(f_dw));
            assert(views_of(deleted_exercises@) =~= rv.take(i + 1).filter_map(f_de));
        }
        i = i + 1;
    }
    proof {
        assert(rv.take(rows@.len() as int) =~= rv);
    }
    User {
        version,
        measurement_sets,
        workouts,
        exercises,
        deleted_measurement_sets,
        deleted_workouts,
        deleted_exercises,
    }
}

} // verus!
