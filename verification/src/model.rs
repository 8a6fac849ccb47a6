//! The entity model: measurement sets, workouts, exercises and their sets,
//! tombstones for deleted entities, and the full per-user record set.
//!
//! Each executable type has a mathematical view made of sequences and plain
//! values; contracts elsewhere in the crate speak of those views. A
//! measurement set holds its measurements as an association list with unique
//! keys; two measurement sets are equivalent when the lists denote the same
//! map.

use vstd::prelude::*;
use vstd::set_lib::lemma_subset_equality;
use vstd::string::StrSliceExecFns;

verus! {

/// Cap on the number of exercises a workout order request may list.
pub const MAX_EXERCISES: usize = 25;

/// Cap on the number of sets in one exercise.
pub const MAX_SETS: usize = 25;

/// Cap on the length of an exercise type.
pub const MAX_TYPE_LEN: usize = 100;

/// Cap on the length of free-form notes.
pub const MAX_NOTES_LEN: usize = 10000;

// ---------- small helpers over strings and options ----------

pub open spec fn opt_view(o: Option<String>) -> Option<Seq<char>> {
    match o {
        Some(s) => Some(s@),
        None => None,
    }
}

/// The views of the elements of a sequence.
pub open spec fn views_of<T: View>(s: Seq<T>) -> Seq<T::V> {
    s.map_values(|x: T| x@)
}

pub fn string_eq(a: &String, b: &String) -> (r: bool)
    ensures
        r == (a@ == b@),
{
    a.eq(b)
}

/// Compares two string slices character by character.
pub fn str_eq(a: &str, b: &str) -> (r: bool)
    ensures
        r == (a@ == b@),
{
    let alen = a.unicode_len();
    if alen != b.unicode_len() {
        return false;
    }
    let mut i: usize = 0;
    while i < alen
        invariant
            a@.len() == alen,
            b@.len() == alen,
            i <= alen,
            forall|j: int| 0 <= j < i ==> a@[j] == b@[j],
        decreases alen - i,
    {
        if a.get_char(i) != b.get_char(i) {
            return false;
        }
        i = i + 1;
    }
    proof {
        assert(a@ =~= b@);
    }
    true
}

pub fn opt_str_eq(a: &Option<String>, b: &Option<String>) -> (r: bool)
    ensures
        r == (opt_view(*a) == opt_view(*b)),
{
    match (a, b) {
        (Some(x), Some(y)) => string_eq(x, y),
        (None, None) => true,
        _ => false,
    }
}

pub fn opt_str_clone(o: &Option<String>) -> (r: Option<String>)
    ensures
        opt_view(r) == opt_view(*o),
{
    match o {
        Some(s) => Some(s.clone()),
        None => None,
    }
}

fn opt_u32_eq(a: &Option<u32>, b: &Option<u32>) -> (r: bool)
    ensures
        r == (*a == *b),
{
    match (a, b) {
        (Some(x), Some(y)) => *x == *y,
        (None, None) => true,
        _ => false,
    }
}

// ---------- measurements as an association list ----------

/// The views of an association list of (type, value) measurement pairs.
pub open spec fn pair_views(s: Seq<(String, String)>) -> Seq<(Seq<char>, Seq<char>)> {
    s.map_values(|p: (String, String)| (p.0@, p.1@))
}

/// No two pairs share a key.
pub open spec fn pairs_unique(s: Seq<(Seq<char>, Seq<char>)>) -> bool {
    forall|i: int, j: int| 0 <= i < j < s.len() ==> (#[trigger] s[i]).0 != (#[trigger] s[j]).0
}

/// The map denoted by an association list; a later pair wins over an earlier
/// one with the same key.
pub open spec fn pairs_map(s: Seq<(Seq<char>, Seq<char>)>) -> Map<Seq<char>, Seq<char>>
    decreases s.len(),
{
    if s.len() == 0 {
        Map::empty()
    } else {
        pairs_map(s.drop_last()).insert(s.last().0, s.last().1)
    }
}

pub proof fn lemma_pairs_map_contains(s: Seq<(Seq<char>, Seq<char>)>, k: Seq<char>)
    ensures
        pairs_map(s).dom().contains(k) <==> (exists|i: int|
            0 <= i < s.len() && (#[trigger] s[i]).0 == k),
    decreases s.len(),
{
    if s.len() > 0 {
        lemma_pairs_map_contains(s.drop_last(), k);
        if s.last().0 == k {
            assert(s[s.len() - 1].0 == k);
        } else if pairs_map(s).dom().contains(k) {
            let i = choose|i: int| 0 <= i < s.drop_last().len() && (#[trigger] s.drop_last()[i]).0 == k;
            assert(s[i].0 == k);
        } else {
            assert forall|i: int| 0 <= i < s.len() implies (#[trigger] s[i]).0 != k by {
                if i < s.len() - 1 {
                    assert(s.drop_last()[i] == s[i]);
                }
            }
        }
    }
}

pub proof fn lemma_pairs_map_index(s: Seq<(Seq<char>, Seq<char>)>, i: int)
    requires
        pairs_unique(s),
        0 <= i < s.len(),
    ensures
        pairs_map(s).dom().contains(s[i].0),
        pairs_map(s)[s[i].0] == s[i].1,
    decreases s.len(),
{
    if i < s.len() - 1 {
        assert(s.drop_last()[i] == s[i]);
        lemma_pairs_map_index(s.drop_last(), i);
    }
}

pub proof fn lemma_pairs_map_len(s: Seq<(Seq<char>, Seq<char>)>)
    requires
        pairs_unique(s),
    ensures
        pairs_map(s).dom().finite(),
        pairs_map(s).dom().len() == s.len(),
    decreases s.len(),
{
    if s.len() > 0 {
        lemma_pairs_map_len(s.drop_last());
        lemma_pairs_map_contains(s.drop_last(), s.last().0);
        assert forall|i: int| 0 <= i < s.drop_last().len()
            implies (#[trigger] s.drop_last()[i]).0 != s.last().0 by {
            assert(s.drop_last()[i] == s[i]);
        }
    }
}

/// Looks a measurement type up in an association list with unique keys.
fn lookup_pair<'a>(pairs: &'a Vec<(String, String)>, k: &str) -> (r: Option<&'a String>)
    requires
        pairs_unique(pair_views(pairs@)),
    ensures
        match r {
            Some(v) => pairs_map(pair_views(pairs@)).dom().contains(k@) && v@ == pairs_map(
                pair_views(pairs@),
            )[k@],
            None => !pairs_map(pair_views(pairs@)).dom().contains(k@),
        },
{
    let ghost pv = pair_views(pairs@);
    let mut i: usize = 0;
    while i < pairs.len()
        invariant
            pairs_unique(pv),
            pv == pair_views(pairs@),
            i <= pairs@.len(),
            forall|j: int| 0 <= j < i ==> (#[trigger] pv[j]).0 != k@,
        decreases pairs@.len() - i,
    {
        if string_eq(&pairs[i].0, &String::from_str(k)) {
            proof {
                lemma_pairs_map_index(pv, i as int);
            }
            return Some(&pairs[i].1);
        }
        i = i + 1;
    }
    proof {
        lemma_pairs_map_contains(pv, k@);
    }
    None
}

/// Compares two measurement lists as maps from type to value.
fn measurements_equiv(a: &Vec<(String, String)>, b: &Vec<(String, String)>) -> (r: bool)
    requires
        pairs_unique(pair_views(a@)),
        pairs_unique(pair_views(b@)),
    ensures
        r == (pairs_map(pair_views(a@)) == pairs_map(pair_views(b@))),
{
    let ghost av = pair_views(a@);
    let ghost bv = pair_views(b@);
    let ghost ma = pairs_map(av);
    let ghost mb = pairs_map(bv);
    proof {
        lemma_pairs_map_len(av);
        lemma_pairs_map_len(bv);
    }
    if a.len() != b.len() {
        proof {
            assert(ma.dom().len() != mb.dom().len());
            assert(ma != mb);
        }
        return false;
    }
    let mut i: usize = 0;
    while i < a.len()
        invariant
            pairs_unique(av),
            pairs_unique(bv),
            av == pair_views(a@),
            bv == pair_views(b@),
            ma == pairs_map(av),
            mb == pairs_map(bv),
            i <= a@.len(),
            forall|j: int| 0 <= j < i ==> mb.dom().contains((#[trigger] av[j]).0) && mb[av[j].0]
                == av[j].1,
        decreases a@.len() - i,
    {
        proof {
            lemma_pairs_map_index(av, i as int);
        }
        match lookup_pair(b, a[i].0.as_str()) {
            None => {
                proof {
                    assert(ma.dom().contains(av[i as int].0));
                    assert(ma != mb);
                }
                return false;
            },
            Some(v2) => {
                if !string_eq(v2, &a[i].1) {
                    proof {
                        assert(ma[av[i as int].0] == av[i as int].1);
                        assert(mb[av[i as int].0] != av[i as int].1);
                        assert(ma != mb);
                    }
                    return false;
                }
            },
        }
        i = i + 1;
    }
    proof {
        lemma_pairs_map_len(av);
        lemma_pairs_map_len(bv);
        assert forall|k: Seq<char>| ma.dom().contains(k) implies mb.dom().contains(k) by {
            lemma_pairs_map_contains(av, k);
            let j = choose|j: int| 0 <= j < av.len() && (#[trigger] av[j]).0 == k;
            assert(mb.dom().contains(av[j].0));
        }
        lemma_subset_equality(ma.dom(), mb.dom());
        assert forall|k: Seq<char>| ma.dom().contains(k) implies ma[k] == mb[k] by {
            lemma_pairs_map_contains(av, k);
            let j = choose|j: int| 0 <= j < av.len() && (#[trigger] av[j]).0 == k;
            lemma_pairs_map_index(av, j);
        }
        assert(ma =~= mb);
    }
    true
}

pub fn clone_pairs(pairs: &Vec<(String, String)>) -> (r: Vec<(String, String)>)
    ensures
        pair_views(r@) == pair_views(pairs@),
{
    let mut out: Vec<(String, String)> = Vec::new();
    let mut i: usize = 0;
    while i < pairs.len()
        invariant
            i <= pairs@.len(),
            out@.len() == i,
            forall|j: int| 0 <= j < i ==> pair_views(out@)[j] == pair_views(pairs@)[j],
        decreases pairs@.len() - i,
    {
        out.push((pairs[i].0.clone(), pairs[i].1.clone()));
        i = i + 1;
    }
    proof {
        assert(pair_views(out@) =~= pair_views(pairs@));
    }
    out
}

// ---------- entity kinds and their views ----------

/// One set within an exercise.
pub struct ExerciseSet {
    /// UUID of the set.
    pub set_id: String,
    /// The number of repetitions, for an exercise type that uses it.
    pub repetitions: Option<u32>,
    /// The resistance level, for an exercise type that uses it.
    pub resistance: Option<u32>,
    /// The speed in kilometres per hour, for an exercise type that uses it.
    pub speed: Option<u32>,
    /// The distance in metres, for an exercise type that uses it.
    pub distance: Option<u32>,
    /// The duration in seconds, for an exercise type that uses it.
    pub duration: Option<u32>,
}

pub struct ExerciseSetView {
    pub set_id: Seq<char>,
    pub repetitions: Option<u32>,
    pub resistance: Option<u32>,
    pub speed: Option<u32>,
    pub distance: Option<u32>,
    pub duration: Option<u32>,
}

impl View for ExerciseSet {
    type V = ExerciseSetView;

    open spec fn view(&self) -> ExerciseSetView {
        ExerciseSetView {
            set_id: self.set_id@,
            repetitions: self.repetitions,
            resistance: self.resistance,
            speed: self.speed,
            distance: self.distance,
            duration: self.duration,
        }
    }
}

/// The measurements captured on one day.
pub struct MeasurementSet {
    /// The capture date in ISO 8601, precise to the day.
    pub date: String,
    /// Free-form notes for the day.
    pub notes: String,
    /// The measurements of the day as (type, decimal value) pairs with unique
    /// types.
    pub measurements: Vec<(String, String)>,
    /// The dataset version at which this entity was last written.
    pub modified_version: u64,
}

pub struct MeasurementSetView {
    pub date: Seq<char>,
    pub notes: Seq<char>,
    pub measurements: Seq<(Seq<char>, Seq<char>)>,
    pub modified_version: u64,
}

impl View for MeasurementSet {
    type V = MeasurementSetView;

    open spec fn view(&self) -> MeasurementSetView {
        MeasurementSetView {
            date: self.date@,
            notes: self.notes@,
            measurements: pair_views(self.measurements@),
            modified_version: self.modified_version,
        }
    }
}

/// One workout, identified by UUID.
pub struct Workout {
    /// UUID of the workout.
    pub workout_id: String,
    /// Start time in ISO 8601, precise to the second.
    pub start_time: Option<String>,
    /// Finish time in ISO 8601, precise to the second.
    pub finish_time: Option<String>,
    /// Free-form notes for the workout.
    pub notes: String,
    /// The dataset version at which this entity was last written.
    pub modified_version: u64,
}

pub struct WorkoutView {
    pub workout_id: Seq<char>,
    pub start_time: Option<Seq<char>>,
    pub finish_time: Option<Seq<char>>,
    pub notes: Seq<char>,
    pub modified_version: u64,
}

impl View for Workout {
    type V = WorkoutView;

    open spec fn view(&self) -> WorkoutView {
        WorkoutView {
            workout_id: self.workout_id@,
            start_time: opt_view(self.start_time),
            finish_time: opt_view(self.finish_time),
            notes: self.notes@,
            modified_version: self.modified_version,
        }
    }
}

/// One exercise within a workout, identified by the workout UUID and the
/// exercise UUID joined by `#`.
pub struct Exercise {
    /// UUID of the workout, `#`, UUID of the exercise.
    pub workout_exercise_id: String,
    /// Index of the exercise within the workout.
    pub order: u32,
    /// The exercise type, which gives the set fields their meaning.
    pub exercise_type: String,
    /// Free-form notes for the exercise.
    pub notes: String,
    /// The sets of the exercise.
    pub sets: Vec<ExerciseSet>,
    /// The dataset version at which this entity was last written.
    pub modified_version: u64,
}

pub struct ExerciseView {
    pub workout_exercise_id: Seq<char>,
    pub order: u32,
    pub exercise_type: Seq<char>,
    pub notes: Seq<char>,
    pub sets: Seq<ExerciseSetView>,
    pub modified_version: u64,
}

impl View for Exercise {
    type V = ExerciseView;

    open spec fn view(&self) -> ExerciseView {
        ExerciseView {
            workout_exercise_id: self.workout_exercise_id@,
            order: self.order,
            exercise_type: self.exercise_type@,
            notes: self.notes@,
            sets: views_of(self.sets@),
            modified_version: self.modified_version,
        }
    }
}

/// The marker left behind by a deleted entity.
pub struct Tombstone {
    /// Local id of the deleted entity.
    pub id: String,
    /// The dataset version at which the entity was deleted.
    pub modified_version: u64,
}

pub struct TombstoneView {
    pub id: Seq<char>,
    pub modified_version: u64,
}

impl View for Tombstone {
    type V = TombstoneView;

    open spec fn view(&self) -> TombstoneView {
        TombstoneView { id: self.id@, modified_version: self.modified_version }
    }
}

/// A user's full record set at one dataset version, as returned by snapshot
/// and change reads and as submitted by an import.
pub struct User {
    /// The dataset version the collections below belong to.
    pub version: u64,
    pub measurement_sets: Vec<MeasurementSet>,
    pub workouts: Vec<Workout>,
    pub exercises: Vec<Exercise>,
    /// Measurement sets deleted since the given version.
    pub deleted_measurement_sets: Vec<Tombstone>,
    /// Workouts deleted since the given version.
    pub deleted_workouts: Vec<Tombstone>,
    /// Exercises deleted since the given version.
    pub deleted_exercises: Vec<Tombstone>,
}

pub struct UserView {
    pub version: u64,
    pub measurement_sets: Seq<MeasurementSetView>,
    pub workouts: Seq<WorkoutView>,
    pub exercises: Seq<ExerciseView>,
    pub deleted_measurement_sets: Seq<TombstoneView>,
    pub deleted_workouts: Seq<TombstoneView>,
    pub deleted_exercises: Seq<TombstoneView>,
}

impl View for User {
    type V = UserView;

    open spec fn view(&self) -> UserView {
        UserView {
            version: self.version,
            measurement_sets: views_of(self.measurement_sets@),
            workouts: views_of(self.workouts@),
            exercises: views_of(self.exercises@),
            deleted_measurement_sets: views_of(self.deleted_measurement_sets@),
            deleted_workouts: views_of(self.deleted_workouts@),
            deleted_exercises: views_of(self.deleted_exercises@),
        }
    }
}

impl User {
    /// An empty record set at the given version.
    pub fn empty(version: u64) -> (u: User)
        ensures
            u@.version == version,
            u@.measurement_sets.len() == 0,
            u@.workouts.len() == 0,
            u@.exercises.len() == 0,
            u@.deleted_measurement_sets.len() == 0,
            u@.deleted_workouts.len() == 0,
            u@.deleted_exercises.len() == 0,
    {
        User {
            version,
            measurement_sets: Vec::new(),
            workouts: Vec::new(),
            exercises: Vec::new(),
            deleted_measurement_sets: Vec::new(),
            deleted_workouts: Vec::new(),
            deleted_exercises: Vec::new(),
        }
    }
}

/// Body of a delete request: the client's view of the dataset version.
pub struct VersionDeleteReq {
    pub version: u64,
}

/// Body of a modify request: the client's view of the dataset version and the
/// entity payload.
pub struct VersionModifyReq<T> {
    pub version: u64,
    pub item: T,
}

// ---------- identity and equivalence ----------

/// An entity with a local id that keys it within its kind.
pub trait Identifiable {
    spec fn id_spec(&self) -> Seq<char>;

    /// The primary id of this entity.
    fn get_id(&self) -> (r: &str)
        ensures
            r@ == self.id_spec(),
    ;
}

impl Identifiable for MeasurementSet {
    open spec fn id_spec(&self) -> Seq<char> {
        self.date@
    }

    fn get_id(&self) -> (r: &str) {
        self.date.as_str()
    }
}

impl Identifiable for Workout {
    open spec fn id_spec(&self) -> Seq<char> {
        self.workout_id@
    }

    fn get_id(&self) -> (r: &str) {
        self.workout_id.as_str()
    }
}

impl Identifiable for Exercise {
    open spec fn id_spec(&self) -> Seq<char> {
        self.workout_exercise_id@
    }

    fn get_id(&self) -> (r: &str) {
        self.workout_exercise_id.as_str()
    }
}

/// Payload equality, disregarding the primary id and the modified version.
pub trait Equivalent {
    /// What well-formedness the comparison relies on.
    spec fn eq_wf(&self) -> bool;

    spec fn equiv_spec(&self, other: &Self) -> bool;

    /// Compares this entity's payload to another's.
    fn equiv(&self, other: &Self) -> (r: bool)
        requires
            self.eq_wf(),
            other.eq_wf(),
        ensures
            r == self.equiv_spec(other),
    ;
}

impl Equivalent for ExerciseSet {
    open spec fn eq_wf(&self) -> bool {
        true
    }

    open spec fn equiv_spec(&self, other: &Self) -> bool {
        self@ == other@
    }

    fn equiv(&self, other: &Self) -> (r: bool) {
        let same = string_eq(&self.set_id, &other.set_id) && opt_u32_eq(
            &self.repetitions,
            &other.repetitions,
        ) && opt_u32_eq(&self.resistance, &other.resistance) && opt_u32_eq(
            &self.speed,
            &other.speed,
        ) && opt_u32_eq(&self.distance, &other.distance) && opt_u32_eq(
            &self.duration,
            &other.duration,
        );
        proof {
            if same {
                assert(self@ == other@);
            } else {
                assert(self@ != other@);
            }
            assert(same == self.equiv_spec(other));
        }
        same
    }
}

impl Equivalent for MeasurementSet {
    open spec fn eq_wf(&self) -> bool {
        pairs_unique(pair_views(self.measurements@))
    }

    open spec fn equiv_spec(&self, other: &Self) -> bool {
        self.notes@ == other.notes@ && pairs_map(pair_views(self.measurements@)) == pairs_map(
            pair_views(other.measurements@),
        )
    }

    fn equiv(&self, other: &Self) -> (r: bool) {
        string_eq(&self.notes, &other.notes) && measurements_equiv(
            &self.measurements,
            &other.measurements,
        )
    }
}

impl Equivalent for Workout {
    open spec fn eq_wf(&self) -> bool {
        true
    }

    open spec fn equiv_spec(&self, other: &Self) -> bool {
        opt_view(self.start_time) == opt_view(other.start_time) && opt_view(self.finish_time)
            == opt_view(other.finish_time) && self.notes@ == other.notes@
    }

    fn equiv(&self, other: &Self) -> (r: bool) {
        opt_str_eq(&self.start_time, &other.start_time) && opt_str_eq(
            &self.finish_time,
            &other.finish_time,
        ) && string_eq(&self.notes, &other.notes)
    }
}

impl Equivalent for Exercise {
    open spec fn eq_wf(&self) -> bool {
        true
    }

    open spec fn equiv_spec(&self, other: &Self) -> bool {
        self.order == other.order && self.exercise_type@ == other.exercise_type@ && self.notes@
            == other.notes@ && views_of(self.sets@) == views_of(other.sets@)
    }

    fn equiv(&self, other: &Self) -> (r: bool) {
        if self.order != other.order {
            return false;
        }
        if !string_eq(&self.exercise_type, &other.exercise_type) {
            return false;
        }
        if !string_eq(&self.notes, &other.notes) {
            return false;
        }
        if self.sets.len() != other.sets.len() {
            proof {
                assert(views_of(self.sets@).len() != views_of(other.sets@).len());
            }
            return false;
        }
        let mut i: usize = 0;
        while i < self.sets.len()
            invariant
                i <= self.sets@.len(),
                self.sets@.len() == other.sets@.len(),
                forall|j: int| 0 <= j < i ==> views_of(self.sets@)[j] == views_of(other.sets@)[j],
            decreases self.sets@.len() - i,
        {
            if !self.sets[i].equiv(&other.sets[i]) {
                proof {
                    assert(views_of(self.sets@)[i as int] != views_of(other.sets@)[i as int]);
                }
                return false;
            }
            i = i + 1;
        }
        proof {
            assert(views_of(self.sets@) =~= views_of(other.sets@));
        }
        true
    }
}

// ---------- clones that preserve the view ----------

impl Clone for ExerciseSet {
    fn clone(&self) -> (res: Self)
        ensures
            res@ == self@,
    {
        ExerciseSet {
            set_id: self.set_id.clone(),
            repetitions: self.repetitions,
            resistance: self.resistance,
            speed: self.speed,
            distance: self.distance,
            duration: self.duration,
        }
    }
}

pub fn clone_sets(sets: &Vec<ExerciseSet>) -> (r: Vec<ExerciseSet>)
    ensures
        views_of(r@) == views_of(sets@),
{
    let mut out: Vec<ExerciseSet> = Vec::new();
    let mut i: usize = 0;
    while i < sets.len()
        invariant
            i <= sets@.len(),
            out@.len() == i,
            forall|j: int| 0 <= j < i ==> views_of(out@)[j] == views_of(sets@)[j],
        decreases sets@.len() - i,
    {
        out.push(sets[i].clone());
        i = i + 1;
    }
    proof {
        assert(views_of(out@) =~= views_of(sets@));
    }
    out
}

impl Clone for MeasurementSet {
    fn clone(&self) -> (res: Self)
        ensures
            res@ == self@,
    {
        MeasurementSet {
            date: self.date.clone(),
            notes: self.notes.clone(),
            measurements: clone_pairs(&self.measurements),
            modified_version: self.modified_version,
        }
    }
}

impl Clone for Workout {
    fn clone(&self) -> (res: Self)
        ensures
            res@ == self@,
    {
        Workout {
            workout_id: self.workout_id.clone(),
            start_time: opt_str_clone(&self.start_time),
            finish_time: opt_str_clone(&self.finish_time),
            notes: self.notes.clone(),
            modified_version: self.modified_version,
        }
    }
}

impl Clone for Exercise {
    fn clone(&self) -> (res: Self)
        ensures
            res@ == self@,
    {
        Exercise {
            workout_exercise_id: self.workout_exercise_id.clone(),
            order: self.order,
            exercise_type: self.exercise_type.clone(),
            notes: self.notes.clone(),
            sets: clone_sets(&self.sets),
            modified_version: self.modified_version,
        }
    }
}

impl Clone for Tombstone {
    fn clone(&self) -> (res: Self)
        ensures
            res@ == self@,
    {
        Tombstone { id: self.id.clone(), modified_version: self.modified_version }
    }
}

} // verus!
