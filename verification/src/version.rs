//! The shared machinery of version-checked mutations: the entity trait that
//! ties each kind to its key tag and payload, key construction, and the
//! conditional-apply wrapper every mutating endpoint goes through.

use vstd::prelude::*;
use crate::engine::{ApplyOutcome, Classifier, WriteStep, WriteStepView, spec_interpret};
use crate::keys::{
    spec_collection_of, spec_collection_prefix, collection_from_version, get_collection_prefix,
    MAX_COLLECTION, PREFIX_LEN, DATE_LEN, UUID_LEN, MEASUREMENT_KEY_LEN, WORKOUT_KEY_LEN,
    EXERCISE_KEY_LEN,
};
use crate::model::{
    MeasurementSet, Workout, Exercise, Identifiable, Equivalent, pair_views, pairs_unique,
    string_eq,
};
use crate::row::{Payload, PayloadView};
use crate::store::{
    UserStore, StoreView, mutation_fires, apply_mutation, spec_reasons, steps_wf, step_wf,
    payload_kind_len,
};

verus! {

/// An entity kind as it is stored: its key tag, its id width, its payload.
pub trait StoreEntity: Identifiable + Equivalent + Sized {
    spec fn spec_key_tag() -> Seq<char>;

    spec fn spec_id_len() -> nat;

    /// The length of a full key of this kind.
    spec fn spec_kind_key_len() -> nat;

    spec fn payload_view(&self) -> PayloadView;

    /// The dataset version stamped on this entity when it was last written.
    spec fn modified_spec(&self) -> u64;

    /// The kind tag that follows the collection prefix in this kind's keys.
    fn key_tag() -> (s: &'static str)
        ensures
            s@ == Self::spec_key_tag(),
    ;

    /// This entity's attributes as a row payload.
    fn to_payload(&self) -> (p: Payload)
        ensures
            p@ == self.payload_view(),
    ;

    /// Reads the entity's modified-version stamp.
    fn modified_version(&self) -> (v: u64)
        ensures
            v == self.modified_spec(),
    ;

    /// The width of this kind's local ids.
    fn id_width() -> (n: usize)
        ensures
            n == Self::spec_id_len(),
    ;

    /// Payload equality, with the well-formedness the comparison needs
    /// checked rather than assumed.
    fn equiv_checked(&self, other: &Self) -> (r: bool)
        ensures
            r == (self.eq_wf() && other.eq_wf() && self.equiv_spec(other)),
    ;

    proof fn lemma_tag_len()
        ensures
            PREFIX_LEN + Self::spec_key_tag().len() + Self::spec_id_len()
                == Self::spec_kind_key_len(),
    ;

    proof fn lemma_payload_kind(&self)
        ensures
            payload_kind_len(self.payload_view()) == Self::spec_kind_key_len(),
    ;

    proof fn lemma_kind_len_known()
        ensures
            Self::spec_kind_key_len() == MEASUREMENT_KEY_LEN || Self::spec_kind_key_len()
                == WORKOUT_KEY_LEN || Self::spec_kind_key_len() == EXERCISE_KEY_LEN,
    ;
}

/// Checks that no two measurement pairs share a type.
pub fn pairs_unique_check(pairs: &Vec<(String, String)>) -> (r: bool)
    ensures
        r == pairs_unique(pair_views(pairs@)),
{
    let ghost pv = pair_views(pairs@);
    let mut i: usize = 0;
    while i < pairs.len()
        invariant
            pv == pair_views(pairs@),
            i <= pairs@.len(),
            forall|a: int, b: int| 0 <= a < b < pairs@.len() && b < i ==> (#[trigger] pv[a]).0 != (
            #[trigger] pv[b]).0,
        decreases pairs@.len() - i,
    {
        let mut j: usize = 0;
        while j < i
            invariant
                pv == pair_views(pairs@),
                j <= i < pairs@.len(),
                forall|a: int| 0 <= a < j ==> (#[trigger] pv[a]).0 != pv[i as int].0,
            decreases i - j,
        {
            if string_eq(&pairs[j].0, &pairs[i].0) {
                proof {
                    assert(pv[j as int].0 == pv[i as int].0);
                    assert(!pairs_unique(pv));
                }
                return false;
            }
            j = j + 1;
        }
        i = i + 1;
    }
    true
}

impl StoreEntity for MeasurementSet {
    open spec fn modified_spec(&self) -> u64 {
        self.modified_version
    }

    fn modified_version(&self) -> (v: u64) {
        self.modified_version
    }

    open spec fn spec_key_tag() -> Seq<char> {
        "MEASUREMENT#"@
    }

    open spec fn spec_id_len() -> nat {
        DATE_LEN as nat
    }

    open spec fn spec_kind_key_len() -> nat {
        MEASUREMENT_KEY_LEN as nat
    }

    open spec fn payload_view(&self) -> PayloadView {
        PayloadView::Measurement { notes: self.notes@, measurements: pair_views(self.measurements@) }
    }

    fn key_tag() -> (s: &'static str) {
        "MEASUREMENT#"
    }

    fn id_width() -> (n: usize) {
        DATE_LEN
    }

    fn to_payload(&self) -> (p: Payload) {
        Payload::Measurement {
            notes: self.notes.clone(),
            measurements: crate::model::clone_pairs(&self.measurements),
        }
    }

    fn equiv_checked(&self, other: &Self) -> (r: bool) {
        if !pairs_unique_check(&self.measurements) {
            return false;
        }
        if !pairs_unique_check(&other.measurements) {
            return false;
        }
        self.equiv(other)
    }

    proof fn lemma_tag_len() {
        reveal_strlit("MEASUREMENT#");
        assert(Self::spec_key_tag().len() == 12);
    }

    proof fn lemma_payload_kind(&self) {
    }

    proof fn lemma_kind_len_known() {
    }
}

impl StoreEntity for Workout {
    fn id_width() -> (n: usize) {
        proof {
            assert(Self::spec_id_len() == UUID_LEN as nat);
        }
        UUID_LEN
    }

    open spec fn modified_spec(&self) -> u64 {
        self.modified_version
    }

    fn modified_version(&self) -> (v: u64) {
        self.modified_version
    }

    open spec fn spec_key_tag() -> Seq<char> {
        "WORKOUT#"@
    }

    open spec fn spec_id_len() -> nat {
        UUID_LEN as nat
    }

    open spec fn spec_kind_key_len() -> nat {
        WORKOUT_KEY_LEN as nat
    }

    open spec fn payload_view(&self) -> PayloadView {
        PayloadView::Workout {
            start_time: crate::model::opt_view(self.start_time),
            finish_time: crate::model::opt_view(self.finish_time),
            notes: self.notes@,
        }
    }

    fn key_tag() -> (s: &'static str) {
        "WORKOUT#"
    }

    fn to_payload(&self) -> (p: Payload) {
        Payload::Workout {
            start_time: crate::model::opt_str_clone(&self.start_time),
            finish_time: crate::model::opt_str_clone(&self.finish_time),
            notes: self.notes.clone(),
        }
    }

    fn equiv_checked(&self, other: &Self) -> (r: bool) {
        self.equiv(other)
    }

    proof fn lemma_tag_len() {
        reveal_strlit("WORKOUT#");
        assert(Self::spec_key_tag().len() == 8);
    }

    proof fn lemma_payload_kind(&self) {
    }

    proof fn lemma_kind_len_known() {
    }
}

impl StoreEntity for Exercise {
    fn id_width() -> (n: usize) {
        proof {
            assert(Self::spec_id_len() == (2 * UUID_LEN + 1) as nat);
        }
        2 * UUID_LEN + 1
    }

    open spec fn modified_spec(&self) -> u64 {
        self.modified_version
    }

    fn modified_version(&self) -> (v: u64) {
        self.modified_version
    }

    open spec fn spec_key_tag() -> Seq<char> {
        "WORKOUT#"@
    }

    open spec fn spec_id_len() -> nat {
        (2 * UUID_LEN + 1) as nat
    }

    open spec fn spec_kind_key_len() -> nat {
        EXERCISE_KEY_LEN as nat
    }

    open spec fn payload_view(&self) -> PayloadView {
        PayloadView::Exercise {
            order: self.order,
            exercise_type: self.exercise_type@,
            notes: self.notes@,
            sets: crate::model::views_of(self.sets@),
        }
    }

    fn key_tag() -> (s: &'static str) {
        "WORKOUT#"
    }

    fn to_payload(&self) -> (p: Payload) {
        Payload::Exercise {
            order: self.order,
            exercise_type: self.exercise_type.clone(),
            notes: self.notes.clone(),
            sets: crate::model::clone_sets(&self.sets),
        }
    }

    fn equiv_checked(&self, other: &Self) -> (r: bool) {
        self.equiv(other)
    }

    proof fn lemma_tag_len() {
        reveal_strlit("WORKOUT#");
        assert(Self::spec_key_tag().len() == 8);
    }

    proof fn lemma_payload_kind(&self) {
    }

    proof fn lemma_kind_len_known() {
    }
}

/// A version whose collection id fits the fixed-width prefix is itself far
/// from the counter's ceiling.
pub proof fn lemma_version_bound(v: u64)
    requires
        spec_collection_of(v) <= MAX_COLLECTION,
    ensures
        v < u64::MAX,
{
    assert(v < u64::MAX) by (nonlinear_arith)
        requires
            v / 0x1_0000_0000 <= MAX_COLLECTION,
    ;
}

/// The key a kind stores an id under, within a collection.
pub open spec fn spec_key_for<T: StoreEntity>(prefix: Seq<char>, id: Seq<char>) -> Seq<char> {
    prefix + T::spec_key_tag() + id
}

/// Builds the storage key for an entity of the given kind.
pub fn make_key_from_id<T: StoreEntity>(collection_prefix: &str, id: &str) -> (k: String)
    ensures
        k@ == spec_key_for::<T>(collection_prefix@, id@),
        k@.len() == collection_prefix@.len() + T::spec_key_tag().len() + id@.len(),
{
    let mut k = String::from_str(collection_prefix);
    k.append(T::key_tag());
    k.append(id);
    k
}

/// Builds the storage key an entity lives under, within a collection.
pub fn make_key_from_entity<T: StoreEntity>(collection_prefix: &str, entity: &T) -> (k: String)
    ensures
        k@ == spec_key_for::<T>(collection_prefix@, entity.id_spec()),
        k@.len() == collection_prefix@.len() + T::spec_key_tag().len()
            + entity.id_spec().len(),
{
    make_key_from_id::<T>(collection_prefix, entity.get_id())
}

/// Builds the put step that writes an entity under the given id, within the
/// collection named by the prefix.
pub fn version_put_item<T: StoreEntity>(collection_prefix: &str, id: &str, entity: &T) -> (step:
    WriteStep)
    requires
        collection_prefix@.len() == PREFIX_LEN,
        id@.len() == T::spec_id_len(),
    ensures
        step@ == (WriteStepView::Put {
            key: spec_key_for::<T>(collection_prefix@, id@),
            payload: entity.payload_view(),
        }),
        step_wf(step@),
{
    proof {
        T::lemma_tag_len();
        entity.lemma_payload_kind();
    }
    let key = make_key_from_id::<T>(collection_prefix, id);
    WriteStep::Put { key, payload: entity.to_payload() }
}

/// How a mutating endpoint answers, given where it started: an impossible
/// collection id is a conflict; a transaction whose every condition holds
/// commits and returns the next version; anything else leaves the store
/// unchanged and reports what the cancellation reasons say.
pub open spec fn apply_contract(
    pre: StoreView,
    post: StoreView,
    client_version: u64,
    now: u64,
    steps: Seq<WriteStepView>,
    cl: Classifier,
    out: ApplyOutcome,
) -> bool {
    if spec_collection_of(client_version) > MAX_COLLECTION {
        post == pre && out == ApplyOutcome::Conflict
    } else if mutation_fires(pre, client_version, now, steps) {
        &&& out == (ApplyOutcome::Success { new_version: (client_version + 1) as u64 })
        &&& post == apply_mutation(pre, client_version, steps)
    } else {
        &&& post == pre
        &&& out == spec_interpret(
            client_version,
            now,
            spec_reasons(pre, client_version, now, steps),
            cl,
        )
        &&& !(out is Success)
    }
}

/// Submits a mutation after bounding the collection id that the fixed-width
/// key prefix can carry.
pub fn version_apply_checked(
    store: &mut UserStore,
    client_version: u64,
    now: u64,
    steps: &Vec<WriteStep>,
    cl: Classifier,
) -> (out: ApplyOutcome)
    requires
        old(store).wf(),
        steps_wf(crate::model::views_of(steps@)),
    ensures
        final(store).wf(),
        apply_contract(
            old(store)@,
            final(store)@,
            client_version,
            now,
            crate::model::views_of(steps@),
            cl,
            out,
        ),
{
    let collection = collection_from_version(client_version);
    if collection > MAX_COLLECTION {
        return ApplyOutcome::Conflict;
    }
    proof {
        assert(client_version < u64::MAX) by (nonlinear_arith)
            requires
                client_version / 0x1_0000_0000 <= MAX_COLLECTION,
        ;
    }
    store.version_apply(client_version, now, steps, cl)
}

/// Deletes the entity of the given kind and id: one tombstone step under the
/// client's collection, where a failed condition means the entity is absent
/// or already tombstoned.
pub fn version_delete<T: StoreEntity>(
    store: &mut UserStore,
    now: u64,
    id: &str,
    client_version: u64,
) -> (out: ApplyOutcome)
    requires
        old(store).wf(),
    ensures
        final(store).wf(),
        apply_contract(
            old(store)@,
            final(store)@,
            client_version,
            now,
            seq![
                WriteStepView::Tombstone {
                    key: spec_key_for::<T>(
                        spec_collection_prefix(spec_collection_of(client_version)),
                        id@,
                    ),
                },
            ],
            Classifier::NotFoundOnFirst,
            out,
        ),
{
    let collection = collection_from_version(client_version);
    if collection > MAX_COLLECTION {
        return ApplyOutcome::Conflict;
    }
    let collection_prefix = get_collection_prefix(collection);
    let key = make_key_from_id::<T>(collection_prefix.as_str(), id);
    let mut steps: Vec<WriteStep> = Vec::new();
    steps.push(WriteStep::Tombstone { key });
    proof {
        assert(crate::model::views_of(steps@) =~= seq![
            WriteStepView::Tombstone {
                key: spec_key_for::<T>(
                    spec_collection_prefix(spec_collection_of(client_version)),
                    id@,
                ),
            },
        ]);
    }
    version_apply_checked(store, client_version, now, &steps, Classifier::NotFoundOnFirst)
}

} // verus!
