//! A model of one user's slice of the transactional key-value store: the
//! dataset-version record with its optional lease, and the entity rows.
//!
//! The dataset-version record is the single linearization point. A mutation
//! is one atomic transaction: a conditional bump of the version plus the
//! caller's steps; it commits only if every condition holds against the
//! pre-state, and otherwise changes nothing and reports one reason per item.

use vstd::prelude::*;
use crate::engine::{
    ApplyOutcome, CancelReason, Classifier, VersionSnapshot, WriteStep, WriteStepView,
    spec_interpret, interpret_cancellation,
};
use crate::keys::{MEASUREMENT_KEY_LEN, WORKOUT_KEY_LEN, EXERCISE_KEY_LEN};
use crate::model::{views_of, string_eq};
use crate::row::{Row, RowView, RowData, RowDataView, Payload, PayloadView, row_shape_ok, clone_payload};

verus! {

/// One user's stored state.
pub struct UserStore {
    /// The recorded dataset version, if any mutation ever committed.
    pub version: Option<u64>,
    /// The import lease expiry, if an import ever set one.
    pub locked_until: Option<u64>,
    /// The entity and tombstone rows, keyed uniquely.
    pub rows: Vec<Row>,
}

pub struct StoreView {
    pub version: Option<u64>,
    pub locked_until: Option<u64>,
    pub rows: Seq<RowView>,
}

impl View for UserStore {
    type V = StoreView;

    open spec fn view(&self) -> StoreView {
        StoreView {
            version: self.version,
            locked_until: self.locked_until,
            rows: views_of(self.rows@),
        }
    }
}

/// Row keys are unique and every row's kind can be read off its key length.
pub open spec fn rows_invariant(rows: Seq<RowView>) -> bool {
    &&& forall|i: int, j: int| 0 <= i < j < rows.len() ==> (#[trigger] rows[i]).key != (
    #[trigger] rows[j]).key
    &&& forall|i: int| 0 <= i < rows.len() ==> row_shape_ok(#[trigger] rows[i])
}

impl UserStore {
    pub open spec fn wf(&self) -> bool {
        rows_invariant(self@.rows)
    }

    /// A store with nothing recorded yet.
    pub fn new() -> (s: UserStore)
        ensures
            s.wf(),
            s@.version is None,
            s@.locked_until is None,
            s@.rows.len() == 0,
    {
        UserStore { version: None, locked_until: None, rows: Vec::new() }
    }
}

/// The index of the row with the given key, if it is present.
pub open spec fn row_index_from(rows: Seq<RowView>, key: Seq<char>, k: int) -> Option<int>
    decreases rows.len() - k,
{
    if k < 0 || k >= rows.len() {
        None
    } else if rows[k].key == key {
        Some(k)
    } else {
        row_index_from(rows, key, k + 1)
    }
}

pub open spec fn row_index(rows: Seq<RowView>, key: Seq<char>) -> Option<int> {
    row_index_from(rows, key, 0)
}

proof fn lemma_row_index_hit(rows: Seq<RowView>, key: Seq<char>, k: int, i: int)
    requires
        0 <= k <= i < rows.len(),
        forall|j: int| k <= j < i ==> (#[trigger] rows[j]).key != key,
        rows[i].key == key,
    ensures
        row_index_from(rows, key, k) == Some(i),
    decreases i - k,
{
    if k < i {
        lemma_row_index_hit(rows, key, k + 1, i);
    }
}

proof fn lemma_row_index_miss(rows: Seq<RowView>, key: Seq<char>, k: int)
    requires
        k >= 0,
        forall|j: int| k <= j < rows.len() ==> (#[trigger] rows[j]).key != key,
    ensures
        row_index_from(rows, key, k) is None,
    decreases rows.len() - k,
{
    if k < rows.len() {
        lemma_row_index_miss(rows, key, k + 1);
    }
}

pub proof fn lemma_row_index_ensures(rows: Seq<RowView>, key: Seq<char>)
    ensures
        match row_index(rows, key) {
            Some(i) => 0 <= i < rows.len() && rows[i].key == key,
            None => forall|j: int| 0 <= j < rows.len() ==> (#[trigger] rows[j]).key != key,
        },
{
    lemma_row_index_from_ensures(rows, key, 0);
}

proof fn lemma_row_index_from_ensures(rows: Seq<RowView>, key: Seq<char>, k: int)
    requires
        k >= 0,
    ensures
        match row_index_from(rows, key, k) {
            Some(i) => k <= i < rows.len() && rows[i].key == key,
            None => forall|j: int| k <= j < rows.len() ==> (#[trigger] rows[j]).key != key,
        },
    decreases rows.len() - k,
{
    if k < rows.len() && rows[k].key != key {
        lemma_row_index_from_ensures(rows, key, k + 1);
    }
}

/// Finds the row with the given key.
pub fn find_row_index(rows: &Vec<Row>, key: &String) -> (r: Option<usize>)
    ensures
        match r {
            Some(i) => i < rows@.len() && row_index(views_of(rows@), key@) == Some(i as int),
            None => row_index(views_of(rows@), key@) is None,
        },
{
    let ghost rv = views_of(rows@);
    let mut i: usize = 0;
    while i < rows.len()
        invariant
            rv == views_of(rows@),
            i <= rows@.len(),
            forall|j: int| 0 <= j < i ==> (#[trigger] rv[j]).key != key@,
        decreases rows@.len() - i,
    {
        if string_eq(&rows[i].key, key) {
            proof {
                lemma_row_index_hit(rv, key@, 0, i as int);
            }
            return Some(i);
        }
        i = i + 1;
    }
    proof {
        lemma_row_index_miss(rv, key@, 0);
    }
    None
}

/// The version-bump condition: no version recorded or the client's, and no
/// active lease.
pub open spec fn bump_ok(
    version: Option<u64>,
    locked_until: Option<u64>,
    client_version: u64,
    now: u64,
) -> bool {
    &&& (version is None || version == Some(client_version))
    &&& (locked_until is None || locked_until->0 <= now)
}

/// Whether a caller step's condition holds against the given rows.
pub open spec fn step_condition_ok(rows: Seq<RowView>, s: WriteStepView) -> bool {
    match s {
        WriteStepView::Put { .. } => true,
        WriteStepView::Tombstone { key } => match row_index(rows, key) {
            Some(i) => rows[i].data is Live,
            None => false,
        },
        WriteStepView::CheckExists { key } => match row_index(rows, key) {
            Some(i) => rows[i].data is Live,
            None => false,
        },
        WriteStepView::SetOrder { key, order } => match row_index(rows, key) {
            Some(i) => rows[i].data is Live,
            None => false,
        },
    }
}

/// The key length that matches a payload's kind.
pub open spec fn payload_kind_len(p: PayloadView) -> nat {
    match p {
        PayloadView::Measurement { .. } => MEASUREMENT_KEY_LEN as nat,
        PayloadView::Workout { .. } => WORKOUT_KEY_LEN as nat,
        PayloadView::Exercise { .. } => EXERCISE_KEY_LEN as nat,
    }
}

/// A step that writes only rows whose kind matches their key length.
pub open spec fn step_wf(s: WriteStepView) -> bool {
    match s {
        WriteStepView::Put { key, payload } => key.len() == payload_kind_len(payload),
        WriteStepView::Tombstone { .. } => true,
        WriteStepView::CheckExists { .. } => true,
        WriteStepView::SetOrder { key, order } => key.len() == EXERCISE_KEY_LEN,
    }
}

pub open spec fn steps_wf(steps: Seq<WriteStepView>) -> bool {
    forall|i: int| 0 <= i < steps.len() ==> step_wf(#[trigger] steps[i])
}

/// The rows after one step, stamped with the new version.
pub open spec fn apply_step(rows: Seq<RowView>, s: WriteStepView, new_version: u64) -> Seq<
    RowView,
> {
    match s {
        WriteStepView::Put { key, payload } => {
            let row = RowView {
                key: key,
                modified_version: new_version,
                data: RowDataView::Live(payload),
            };
            match row_index(rows, key) {
                Some(i) => rows.update(i, row),
                None => rows.push(row),
            }
        },
        WriteStepView::Tombstone { key } => match row_index(rows, key) {
            Some(i) => rows.update(
                i,
                RowView { key: key, modified_version: new_version, data: RowDataView::Tombstone },
            ),
            None => rows,
        },
        WriteStepView::CheckExists { .. } => rows,
        WriteStepView::SetOrder { key, order } => match row_index(rows, key) {
            Some(i) => match rows[i].data {
                RowDataView::Live(PayloadView::Exercise { order: _, exercise_type, notes, sets }) => rows.update(
                    i,
                    RowView {
                        key: key,
                        modified_version: new_version,
                        data: RowDataView::Live(
                            PayloadView::Exercise {
                                order: order,
                                exercise_type: exercise_type,
                                notes: notes,
                                sets: sets,
                            },
                        ),
                    },
                ),
                _ => rows,
            },
            None => rows,
        },
    }
}

/// The rows after a sequence of steps, applied in order.
pub open spec fn apply_steps(rows: Seq<RowView>, steps: Seq<WriteStepView>, new_version: u64)
    -> Seq<RowView>
    decreases steps.len(),
{
    if steps.len() == 0 {
        rows
    } else {
        apply_steps(apply_step(rows, steps[0], new_version), steps.skip(1), new_version)
    }
}

pub proof fn lemma_apply_steps_snoc(
    rows: Seq<RowView>,
    steps: Seq<WriteStepView>,
    s: WriteStepView,
    new_version: u64,
)
    ensures
        apply_steps(rows, steps.push(s), new_version) == apply_step(
            apply_steps(rows, steps, new_version),
            s,
            new_version,
        ),
    decreases steps.len(),
{
    if steps.len() == 0 {
        assert(steps.push(s)[0] == s);
        assert(steps.push(s).skip(1) =~= Seq::<WriteStepView>::empty());
        assert(apply_steps(rows, steps.push(s), new_version) == apply_steps(
            apply_step(rows, s, new_version),
            Seq::<WriteStepView>::empty(),
            new_version,
        ));
        assert(apply_steps(rows, steps, new_version) == rows);
    } else {
        assert(steps.push(s)[0] == steps[0]);
        assert(steps.push(s).skip(1) =~= steps.skip(1).push(s));
        lemma_apply_steps_snoc(apply_step(rows, steps[0], new_version), steps.skip(1), s, new_version);
        assert(apply_steps(rows, steps, new_version) == apply_steps(
            apply_step(rows, steps[0], new_version),
            steps.skip(1),
            new_version,
        ));
    }
}

proof fn lemma_apply_step_invariant(rows: Seq<RowView>, s: WriteStepView, new_version: u64)
    requires
        rows_invariant(rows),
        step_wf(s),
    ensures
        rows_invariant(apply_step(rows, s, new_version)),
{
    match s {
        WriteStepView::Put { key, payload } => {
            lemma_row_index_ensures(rows, key);
        },
        WriteStepView::Tombstone { key } => {
            lemma_row_index_ensures(rows, key);
        },
        WriteStepView::CheckExists { .. } => {},
        WriteStepView::SetOrder { key, order } => {
            lemma_row_index_ensures(rows, key);
        },
    }
}

/// Every condition of the transaction holds against the pre-state.
pub open spec fn mutation_fires(
    s: StoreView,
    client_version: u64,
    now: u64,
    steps: Seq<WriteStepView>,
) -> bool {
    &&& bump_ok(s.version, s.locked_until, client_version, now)
    &&& forall|i: int| 0 <= i < steps.len() ==> step_condition_ok(s.rows, #[trigger] steps[i])
}

/// The store after a committed mutation: the version advanced to the
/// client's successor, every step applied with that stamp.
pub open spec fn apply_mutation(s: StoreView, client_version: u64, steps: Seq<WriteStepView>)
    -> StoreView {
    StoreView {
        version: Some((client_version + 1) as u64),
        locked_until: s.locked_until,
        rows: apply_steps(s.rows, steps, (client_version + 1) as u64),
    }
}

/// The per-item reasons a canceled transaction reports: the bump step first,
/// with the pre-state of the version record, then one reason per caller step.
pub open spec fn spec_reasons(
    s: StoreView,
    client_version: u64,
    now: u64,
    steps: Seq<WriteStepView>,
) -> Seq<CancelReason> {
    seq![
        CancelReason {
            check_failed: !bump_ok(s.version, s.locked_until, client_version, now),
            snapshot: if s.version is Some || s.locked_until is Some {
                Some(VersionSnapshot { version: s.version, locked_until: s.locked_until })
            } else {
                None
            },
        },
    ] + Seq::new(
        steps.len(),
        |i: int| CancelReason {
            check_failed: !step_condition_ok(s.rows, steps[i]),
            snapshot: None,
        },
    )
}

impl UserStore {
    /// Submits one mutation as an atomic conditional transaction: bump the
    /// dataset version from the client's value and apply the caller's steps,
    /// all or nothing. On cancellation the reasons are interpreted: version
    /// mismatch is a conflict, an active lease asks for a retry, and the
    /// caller's classifier reads the rest.
    pub fn version_apply(
        &mut self,
        client_version: u64,
        now: u64,
        steps: &Vec<WriteStep>,
        c: Classifier,
    ) -> (out: ApplyOutcome)
        requires
            old(self).wf(),
            client_version < u64::MAX,
            steps_wf(views_of(steps@)),
        ensures
            final(self).wf(),
            mutation_fires(old(self)@, client_version, now, views_of(steps@)) ==> {
                &&& out == (ApplyOutcome::Success { new_version: (client_version + 1) as u64 })
                &&& final(self)@ == apply_mutation(old(self)@, client_version, views_of(steps@))
            },
            !mutation_fires(old(self)@, client_version, now, views_of(steps@)) ==> {
                &&& final(self)@ == old(self)@
                &&& out == spec_interpret(
                    client_version,
                    now,
                    spec_reasons(old(self)@, client_version, now, views_of(steps@)),
                    c,
                )
                &&& !(out is Success)
            },
    {
        let ghost sv = views_of(steps@);
        let ghost pre = self@;

        // Evaluate every condition against the pre-state.
        let bump = match self.version {
            Some(v) => v == client_version,
            None => true,
        } && match self.locked_until {
            Some(lu) => lu <= now,
            None => true,
        };
        let mut reasons: Vec<CancelReason> = Vec::new();
        let snapshot = if self.version.is_some() || self.locked_until.is_some() {
            Some(VersionSnapshot { version: self.version, locked_until: self.locked_until })
        } else {
            None
        };
        reasons.push(CancelReason { check_failed: !bump, snapshot });

        let mut all_ok = bump;
        let mut j: usize = 0;
        while j < steps.len()
            invariant
                sv == views_of(steps@),
                pre == self@,
                self.wf(),
                j <= steps@.len(),
                reasons@.len() == j + 1,
                forall|k: int| 0 <= k <= j ==> #[trigger] reasons@[k] == spec_reasons(
                    pre,
                    client_version,
                    now,
                    sv,
                )[k],
                all_ok == (bump_ok(pre.version, pre.locked_until, client_version, now)
                    && forall|k: int| 0 <= k < j ==> step_condition_ok(pre.rows, #[trigger] sv[k])),
            decreases steps@.len() - j,
        {
            let cond = match &steps[j] {
                WriteStep::Put { .. } => true,
                WriteStep::Tombstone { key } => match find_row_index(&self.rows, key) {
                    Some(i) => matches!(self.rows[i].data, RowData::Live(_)),
                    None => false,
                },
                WriteStep::CheckExists { key } => match find_row_index(&self.rows, key) {
                    Some(i) => matches!(self.rows[i].data, RowData::Live(_)),
                    None => false,
                },
                WriteStep::SetOrder { key, .. } => match find_row_index(&self.rows, key) {
                    Some(i) => matches!(self.rows[i].data, RowData::Live(_)),
                    None => false,
                },
            };
            proof {
                assert(cond == step_condition_ok(pre.rows, sv[j as int]));
            }
            reasons.push(CancelReason { check_failed: !cond, snapshot: None });
            all_ok = all_ok && cond;
            j = j + 1;
        }

        if !all_ok {
            proof {
                assert(!mutation_fires(pre, client_version, now, sv));
                assert(reasons@ =~= spec_reasons(pre, client_version, now, sv));
            }
            let out = interpret_cancellation(client_version, now, &reasons, c);
            return out;
        }

        // Commit: stamp the new version and apply each step in order.
        proof {
            assert(mutation_fires(pre, client_version, now, sv));
        }
        let new_version = client_version + 1;
        self.version = Some(new_version);
        let mut j: usize = 0;
        while j < steps.len()
            invariant
                sv == views_of(steps@),
                steps_wf(sv),
                j <= steps@.len(),
                self.version == Some(new_version),
                self.locked_until == pre.locked_until,
                rows_invariant(self@.rows),
                self@.rows == apply_steps(pre.rows, sv.take(j as int), new_version),
            decreases steps@.len() - j,
        {
            proof {
                assert(sv.take(j + 1) =~= sv.take(j as int).push(sv[j as int]));
                lemma_apply_steps_snoc(pre.rows, sv.take(j as int), sv[j as int], new_version);
                lemma_apply_step_invariant(self@.rows, sv[j as int], new_version);
            }
            match &steps[j] {
                WriteStep::Put { key, payload } => {
                    let row = Row {
                        key: key.clone(),
                        modified_version: new_version,
                        data: RowData::Live(clone_payload(payload)),
                    };
                    match find_row_index(&self.rows, key) {
                        Some(i) => {
                            self.rows.set(i, row);
                        },
                        None => {
                            self.rows.push(row);
                        },
                    }
                },
                WriteStep::Tombstone { key } => {
                    match find_row_index(&self.rows, key) {
                        Some(i) => {
                            let row = Row {
                                key: key.clone(),
                                modified_version: new_version,
                                data: RowData::Tombstone,
                            };
                            self.rows.set(i, row);
                        },
                        None => {},
                    }
                },
                WriteStep::CheckExists { .. } => {},
                WriteStep::SetOrder { key, order } => {
                    match find_row_index(&self.rows, key) {
                        Some(i) => {
                            match &self.rows[i].data {
                                RowData::Live(Payload::Exercise {
                                    order: _,
                                    exercise_type,
                                    notes,
                                    sets,
                                }) => {
                                    let row = Row {
                                        key: key.clone(),
                                        modified_version: new_version,
                                        data: RowData::Live(
                                            Payload::Exercise {
                                                order: *order,
                                                exercise_type: exercise_type.clone(),
                                                notes: notes.clone(),
                                                sets: crate::model::clone_sets(sets),
                                            },
                                        ),
                                    };
                                    self.rows.set(i, row);
                                },
                                _ => {},
                            }
                        },
                        None => {},
                    }
                },
            }
            proof {
                assert(self@.rows =~= apply_steps(pre.rows, sv.take(j + 1), new_version));
            }
            j = j + 1;
        }
        proof {
            assert(sv.take(sv.len() as int) =~= sv);
            assert(self@ == apply_mutation(pre, client_version, sv));
        }
        ApplyOutcome::Success { new_version }
    }
}

} // verus!
