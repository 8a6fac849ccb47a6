//! The bulk-import coordinator: under a time-leased write lock, the current
//! collection is read, diffed against the submitted snapshot, written out as
//! a fresh collection, and the dataset pointer switched; the old collection
//! is then garbage-collected.
//!
//! The merge keeps a current entity byte-for-byte equal to its imported
//! counterpart under its original modified version, stamps changed and new
//! entities with the new version, carries over entities and tombstones the
//! import does not mention, and drops deletions of things that never existed.

use vstd::prelude::*;
use crate::batch::{WriteRequest, WriteRequestView, write_request_wf, write_requests_wf};
use crate::keys::{
    PREFIX_LEN, MAX_COLLECTION, DATE_LEN, UUID_LEN, MEASUREMENT_KEY_LEN, WORKOUT_KEY_LEN,
    EXERCISE_KEY_LEN, MEASUREMENT_ID_START, WORKOUT_ID_START, spec_collection_of,
    spec_collection_prefix, spec_version_of, collection_from_version, get_collection_prefix,
    version_from_collection,
};
use crate::model::{
    Identifiable,
    MeasurementSet, Workout, Exercise, Tombstone, TombstoneView, User, views_of, str_eq,
};
use crate::query::{version_or_zero, collection_rows, query_collection};
use crate::store::{UserStore, StoreView};
use crate::row::{
    RowView, RowDataView, row_shape_ok, rows_wf, db_to_user, as_live_measurement, as_live_workout,
    as_live_exercise, as_tombstone,
};
use crate::batch::apply_writes;
use crate::validate::ValidationError;
use crate::version::{StoreEntity, make_key_from_id, make_key_from_entity};
use vstd::string::StrSliceExecFns;

verus! {

/// How long an import holds the exclusive write lease, in seconds.
pub const LOCK_DURATION_S: u64 = 60;

/// Why an import attempt did not run.
#[derive(Clone, Copy, Debug)]
pub enum ImportError {
    /// Another import holds the lease: retry after the given seconds.
    RetryLater { seconds: u64 },
    /// The submitted snapshot carries a malformed identifier.
    Invalid(ValidationError),
}

/// Whether some imported entity carries the given id.
pub open spec fn mentions<T: StoreEntity>(import: Seq<T>, id: Seq<char>) -> bool {
    exists|k: int| 0 <= k < import.len() && (#[trigger] import[k]).id_spec() == id
}

/// Whether position `i` is the first occurrence of its id in the import.
pub open spec fn first_occurrence<T: StoreEntity>(import: Seq<T>, i: int) -> bool {
    forall|k: int| 0 <= k < i ==> (#[trigger] import[k]).id_spec() != import[i].id_spec()
}

/// The first position at or after `k` whose entity carries the given id.
pub open spec fn find_by_id<T: StoreEntity>(s: Seq<T>, id: Seq<char>, k: int) -> Option<int>
    decreases s.len() - k,
{
    if k < 0 || k >= s.len() {
        None
    } else if s[k].id_spec() == id {
        Some(k)
    } else {
        find_by_id(s, id, k + 1)
    }
}

/// Both payloads are comparable and equal.
pub open spec fn equiv_full<T: StoreEntity>(a: T, b: T) -> bool {
    a.eq_wf() && b.eq_wf() && a.equiv_spec(&b)
}

/// The live row an entity occupies in a collection, under the given stamp.
pub open spec fn entity_row<T: StoreEntity>(prefix: Seq<char>, e: T, modified_version: u64)
    -> RowView {
    RowView {
        key: prefix + T::spec_key_tag() + e.id_spec(),
        modified_version,
        data: RowDataView::Live(e.payload_view()),
    }
}

/// The tombstone row a deleted id occupies in a collection.
pub open spec fn tombstone_row<T: StoreEntity>(prefix: Seq<char>, t: TombstoneView) -> RowView {
    RowView {
        key: prefix + T::spec_key_tag() + t.id,
        modified_version: t.modified_version,
        data: RowDataView::Tombstone,
    }
}

/// The row written for the imported entity at position `i`: a current entity
/// it deep-equals is kept under its original modified version; anything else
/// is stamped with the new version. A repeated id has already consumed its
/// current counterpart, so only its first occurrence can be kept.
pub open spec fn import_entity_row<T: StoreEntity>(
    prefix: Seq<char>,
    version: u64,
    import: Seq<T>,
    curr: Seq<T>,
    i: int,
) -> RowView {
    let e = import[i];
    if first_occurrence(import, i) {
        match find_by_id(curr, e.id_spec(), 0) {
            Some(j) => if equiv_full(curr[j], e) {
                entity_row(prefix, curr[j], curr[j].modified_spec())
            } else {
                entity_row(prefix, e, version)
            },
            None => entity_row(prefix, e, version),
        }
    } else {
        entity_row(prefix, e, version)
    }
}

/// One put per imported entity, in import order.
pub open spec fn import_requests<T: StoreEntity>(
    prefix: Seq<char>,
    version: u64,
    import: Seq<T>,
    curr: Seq<T>,
) -> Seq<WriteRequestView> {
    Seq::new(
        import.len(),
        |i: int| WriteRequestView::PutRow(import_entity_row(prefix, version, import, curr, i)),
    )
}

/// One put per current entity the import does not mention, unchanged.
pub open spec fn carried_requests<T: StoreEntity>(
    prefix: Seq<char>,
    import: Seq<T>,
    curr: Seq<T>,
) -> Seq<WriteRequestView> {
    curr.filter_map(
        |c: T| if !mentions(import, c.id_spec()) {
            Some(WriteRequestView::PutRow(entity_row(prefix, c, c.modified_spec())))
        } else {
            None
        },
    )
}

/// One put per current tombstone the import does not re-assert, under its
/// original modified version.
pub open spec fn tombstone_requests<T: StoreEntity>(
    prefix: Seq<char>,
    import: Seq<T>,
    deleted: Seq<TombstoneView>,
) -> Seq<WriteRequestView> {
    deleted.filter_map(
        |t: TombstoneView| if !mentions(import, t.id) {
            Some(WriteRequestView::PutRow(tombstone_row::<T>(prefix, t)))
        } else {
            None
        },
    )
}

/// Everything one kind contributes to the new collection.
pub open spec fn kind_requests<T: StoreEntity>(
    prefix: Seq<char>,
    version: u64,
    import: Seq<T>,
    curr: Seq<T>,
    deleted: Seq<TombstoneView>,
) -> Seq<WriteRequestView> {
    import_requests(prefix, version, import, curr) + carried_requests(prefix, import, curr)
        + tombstone_requests::<T>(prefix, import, deleted)
}

/// Every entity's id has the width its kind's keys allot.
pub open spec fn ids_wf<T: StoreEntity>(s: Seq<T>) -> bool {
    forall|i: int| 0 <= i < s.len() ==> (#[trigger] s[i]).id_spec().len() == T::spec_id_len()
}

/// Every tombstone's id has the width its kind's keys allot.
pub open spec fn tombstone_ids_wf<T: StoreEntity>(d: Seq<TombstoneView>) -> bool {
    forall|i: int| 0 <= i < d.len() ==> (#[trigger] d[i]).id.len() == T::spec_id_len()
}

proof fn lemma_find_by_id_hit<T: StoreEntity>(s: Seq<T>, id: Seq<char>, k: int, i: int)
    requires
        0 <= k <= i < s.len(),
        forall|j: int| k <= j < i ==> (#[trigger] s[j]).id_spec() != id,
        s[i].id_spec() == id,
    ensures
        find_by_id(s, id, k) == Some(i),
    decreases i - k,
{
    if k < i {
        lemma_find_by_id_hit(s, id, k + 1, i);
    }
}

proof fn lemma_find_by_id_miss<T: StoreEntity>(s: Seq<T>, id: Seq<char>, k: int)
    requires
        k >= 0,
        forall|j: int| k <= j < s.len() ==> (#[trigger] s[j]).id_spec() != id,
    ensures
        find_by_id(s, id, k) is None,
    decreases s.len() - k,
{
    if k < s.len() {
        lemma_find_by_id_miss(s, id, k + 1);
    }
}

pub proof fn lemma_find_by_id_ensures<T: StoreEntity>(s: Seq<T>, id: Seq<char>, k: int)
    requires
        k >= 0,
    ensures
        match find_by_id(s, id, k) {
            Some(i) => k <= i < s.len() && s[i].id_spec() == id,
            None => forall|j: int| k <= j < s.len() ==> (#[trigger] s[j]).id_spec() != id,
        },
    decreases s.len() - k,
{
    if k < s.len() && s[k].id_spec() != id {
        lemma_find_by_id_ensures(s, id, k + 1);
    }
}

/// Finds the entity with the given id.
fn find_entity<'a, T: StoreEntity>(s: &'a Vec<T>, id: &str) -> (r: Option<usize>)
    ensures
        match r {
            Some(i) => i < s@.len() && find_by_id(s@, id@, 0) == Some(i as int),
            None => find_by_id(s@, id@, 0) is None,
        },
{
    let mut i: usize = 0;
    while i < s.len()
        invariant
            i <= s@.len(),
            forall|j: int| 0 <= j < i ==> (#[trigger] s@[j]).id_spec() != id@,
        decreases s@.len() - i,
    {
        if str_eq(s[i].get_id(), id) {
            proof {
                lemma_find_by_id_hit(s@, id@, 0, i as int);
            }
            return Some(i);
        }
        i = i + 1;
    }
    proof {
        lemma_find_by_id_miss(s@, id@, 0);
    }
    None
}

/// Whether some imported entity carries the given id.
fn mentions_exec<T: StoreEntity>(import: &Vec<T>, id: &str) -> (r: bool)
    ensures
        r == mentions(import@, id@),
{
    match find_entity(import, id) {
        Some(i) => {
            proof {
                lemma_find_by_id_ensures(import@, id@, 0);
            }
            true
        },
        None => {
            proof {
                lemma_find_by_id_ensures(import@, id@, 0);
                assert(!mentions(import@, id@)) by {
                    if mentions(import@, id@) {
                        let k = choose|k: int|
                            0 <= k < import@.len() && (#[trigger] import@[k]).id_spec() == id@;
                    }
                }
            }
            false
        },
    }
}

/// Whether the entity at `i` is the first occurrence of its id.
fn first_occurrence_exec<T: StoreEntity>(import: &Vec<T>, i: usize) -> (r: bool)
    requires
        i < import@.len(),
    ensures
        r == first_occurrence(import@, i as int),
{
    let id = import[i].get_id();
    let mut j: usize = 0;
    while j < i
        invariant
            i < import@.len(),
            id@ == import@[i as int].id_spec(),
            j <= i,
            forall|k: int| 0 <= k < j ==> (#[trigger] import@[k]).id_spec() != import@[
                i as int
            ].id_spec(),
        decreases i - j,
    {
        if str_eq(import[j].get_id(), id) {
            return false;
        }
        j = j + 1;
    }
    true
}

/// Diffs one kind of the imported snapshot against the current collection
/// and appends the puts that build this kind's part of the new collection.
pub fn apply_changes<T: StoreEntity>(
    requests: &mut Vec<WriteRequest>,
    collection_prefix: &str,
    version: u64,
    import: &Vec<T>,
    curr: &Vec<T>,
    curr_deleted: &Vec<Tombstone>,
)
    requires
        collection_prefix@.len() == PREFIX_LEN,
        ids_wf(import@),
        ids_wf(curr@),
        tombstone_ids_wf::<T>(views_of(curr_deleted@)),
    ensures
        views_of(final(requests)@) == views_of(old(requests)@) + kind_requests::<T>(
            collection_prefix@,
            version,
            import@,
            curr@,
            views_of(curr_deleted@),
        ),
        write_requests_wf(views_of(old(requests)@)) ==> write_requests_wf(
            views_of(final(requests)@),
        ),
{
    let ghost base = views_of(requests@);
    let ghost prefix = collection_prefix@;
    let ghost imp = import@;
    let ghost cur = curr@;
    let ghost dels = views_of(curr_deleted@);
    let ghost f_carry = |c: T| if !mentions(imp, c.id_spec()) {
        Some(WriteRequestView::PutRow(entity_row(prefix, c, c.modified_spec())))
    } else {
        None
    };
    let ghost f_tomb = |t: TombstoneView| if !mentions(imp, t.id) {
        Some(WriteRequestView::PutRow(tombstone_row::<T>(prefix, t)))
    } else {
        None
    };

    proof {
        T::lemma_tag_len();
    }

    // One put per imported entity.
    let mut i: usize = 0;
    while i < import.len()
        invariant
            base == views_of(old(requests)@),
            prefix == collection_prefix@,
            imp == import@,
            cur == curr@,
            collection_prefix@.len() == PREFIX_LEN,
            ids_wf(imp),
            ids_wf(cur),
            PREFIX_LEN + T::spec_key_tag().len() + T::spec_id_len() == T::spec_kind_key_len(),
            i <= imp.len(),
            views_of(requests@) =~= base + import_requests(prefix, version, imp, cur).subrange(
                0,
                i as int,
            ),
            write_requests_wf(base) ==> write_requests_wf(views_of(requests@)),
        decreases imp.len() - i,
    {
        let first = first_occurrence_exec(import, i);
        let row: crate::row::Row = if first {
            match find_entity(curr, import[i].get_id()) {
                Some(j) => {
                    proof {
                        lemma_find_by_id_ensures(cur, imp[i as int].id_spec(), 0);
                    }
                    if curr[j].equiv_checked(&import[i]) {
                        crate::row::Row {
                            key: make_key_from_id::<T>(collection_prefix, curr[j].get_id()),
                            modified_version: curr[j].modified_version(),
                            data: crate::row::RowData::Live(curr[j].to_payload()),
                        }
                    } else {
                        crate::row::Row {
                            key: make_key_from_id::<T>(collection_prefix, import[i].get_id()),
                            modified_version: version,
                            data: crate::row::RowData::Live(import[i].to_payload()),
                        }
                    }
                },
                None => crate::row::Row {
                    key: make_key_from_id::<T>(collection_prefix, import[i].get_id()),
                    modified_version: version,
                    data: crate::row::RowData::Live(import[i].to_payload()),
                },
            }
        } else {
            crate::row::Row {
                key: make_key_from_id::<T>(collection_prefix, import[i].get_id()),
                modified_version: version,
                data: crate::row::RowData::Live(import[i].to_payload()),
            }
        };
        proof {
            assert(row@ == import_entity_row(prefix, version, imp, cur, i as int));
            assert(row_shape_ok(row@)) by {
                if first && find_by_id(cur, imp[i as int].id_spec(), 0) is Some {
                    let j = find_by_id(cur, imp[i as int].id_spec(), 0)->0;
                    lemma_find_by_id_ensures(cur, imp[i as int].id_spec(), 0);
                    cur[j].lemma_payload_kind();
                }
                imp[i as int].lemma_payload_kind();
            }
        }
        let ghost prev = views_of(requests@);
        requests.push(WriteRequest::PutRow(row));
        proof {
            assert(views_of(requests@) =~= prev.push(WriteRequestView::PutRow(row@)));
            assert(import_requests(prefix, version, imp, cur).subrange(0, i + 1) =~= import_requests(
                prefix,
                version,
                imp,
                cur,
            ).subrange(0, i as int).push(import_requests(prefix, version, imp, cur)[i as int]));
            assert(views_of(requests@) =~= base + import_requests(prefix, version, imp, cur).subrange(
                0,
                i + 1,
            ));
            if write_requests_wf(base) {
                assert forall|k: int| 0 <= k < views_of(requests@).len() implies write_request_wf(
                    #[trigger] views_of(requests@)[k],
                ) by {
                    if k < prev.len() {
                        assert(views_of(requests@)[k] == prev[k]);
                    }
                }
            }
        }
        i = i + 1;
    }
    proof {
        assert(import_requests(prefix, version, imp, cur).subrange(
            0,
            imp.len() as int,
        ) =~= import_requests(prefix, version, imp, cur));
    }
    let ghost with_imports = base + import_requests(prefix, version, imp, cur);

    // Carry over the current entities the import does not mention.
    let mut j: usize = 0;
    while j < curr.len()
        invariant
            base == views_of(old(requests)@),
            prefix == collection_prefix@,
            imp == import@,
            cur == curr@,
            collection_prefix@.len() == PREFIX_LEN,
            ids_wf(imp),
            ids_wf(cur),
            PREFIX_LEN + T::spec_key_tag().len() + T::spec_id_len() == T::spec_kind_key_len(),
            with_imports == base + import_requests(prefix, version, imp, cur),
            f_carry == (|c: T| if !mentions(imp, c.id_spec()) {
                Some(WriteRequestView::PutRow(entity_row(prefix, c, c.modified_spec())))
            } else {
                None
            }),
            j <= cur.len(),
            views_of(requests@) =~= with_imports + cur.take(j as int).filter_map(f_carry),
            write_requests_wf(base) ==> write_requests_wf(views_of(requests@)),
        decreases cur.len() - j,
    {
        broadcast use vstd::prelude::Seq::lemma_filter_map_take_succ, vstd::prelude::Seq::add_empty_right;

        let ghost prev = views_of(requests@);
        if !mentions_exec(import, curr[j].get_id()) {
            let row = crate::row::Row {
                key: make_key_from_entity::<T>(collection_prefix, &curr[j]),
                modified_version: curr[j].modified_version(),
                data: crate::row::RowData::Live(curr[j].to_payload()),
            };
            proof {
                assert(f_carry(cur[j as int]) == Some(WriteRequestView::PutRow(row@)));
                assert(row_shape_ok(row@)) by {
                    cur[j as int].lemma_payload_kind();
                }
            }
            requests.push(WriteRequest::PutRow(row));
            proof {
                assert(views_of(requests@) =~= prev.push(WriteRequestView::PutRow(row@)));
            }
        }
        proof {
            assert(views_of(requests@) =~= with_imports + cur.take(j + 1).filter_map(f_carry));
            if write_requests_wf(base) {
                assert forall|k: int| 0 <= k < views_of(requests@).len() implies write_request_wf(
                    #[trigger] views_of(requests@)[k],
                ) by {
                    if k < prev.len() {
                        assert(views_of(requests@)[k] == prev[k]);
                    }
                }
            }
        }
        j = j + 1;
    }
    proof {
        assert(cur.take(cur.len() as int) =~= cur);
    }
    let ghost with_carried = with_imports + carried_requests(prefix, imp, cur);
    proof {
        assert(views_of(requests@) =~= with_carried);
    }

    // Carry over the current tombstones the import does not re-assert.
    let mut k: usize = 0;
    while k < curr_deleted.len()
        invariant
            base == views_of(old(requests)@),
            prefix == collection_prefix@,
            imp == import@,
            dels == views_of(curr_deleted@),
            collection_prefix@.len() == PREFIX_LEN,
            ids_wf(imp),
            tombstone_ids_wf::<T>(dels),
            PREFIX_LEN + T::spec_key_tag().len() + T::spec_id_len() == T::spec_kind_key_len(),
            with_carried == base + import_requests(prefix, version, imp, cur) + carried_requests(
                prefix,
                imp,
                cur,
            ),
            f_tomb == (|t: TombstoneView| if !mentions(imp, t.id) {
                Some(WriteRequestView::PutRow(tombstone_row::<T>(prefix, t)))
            } else {
                None
            }),
            k <= dels.len(),
            views_of(requests@) =~= with_carried + dels.take(k as int).filter_map(f_tomb),
            write_requests_wf(base) ==> write_requests_wf(views_of(requests@)),
        decreases dels.len() - k,
    {
        broadcast use vstd::prelude::Seq::lemma_filter_map_take_succ, vstd::prelude::Seq::add_empty_right;

        let ghost prev = views_of(requests@);
        if !mentions_exec(import, curr_deleted[k].id.as_str()) {
            let row = crate::row::Row {
                key: make_key_from_id::<T>(collection_prefix, curr_deleted[k].id.as_str()),
                modified_version: curr_deleted[k].modified_version,
                data: crate::row::RowData::Tombstone,
            };
            proof {
                assert(dels[k as int] == curr_deleted@[k as int]@);
                assert(f_tomb(dels[k as int]) == Some(WriteRequestView::PutRow(row@)));
                T::lemma_kind_len_known();
                assert(row_shape_ok(row@));
            }
            requests.push(WriteRequest::PutRow(row));
            proof {
                assert(views_of(requests@) =~= prev.push(WriteRequestView::PutRow(row@)));
            }
        }
        proof {
            assert(views_of(requests@) =~= with_carried + dels.take(k + 1).filter_map(f_tomb));
            if write_requests_wf(base) {
                assert forall|m: int| 0 <= m < views_of(requests@).len() implies write_request_wf(
                    #[trigger] views_of(requests@)[m],
                ) by {
                    if m < prev.len() {
                        assert(views_of(requests@)[m] == prev[m]);
                    }
                }
            }
        }
        k = k + 1;
    }
    proof {
        assert(dels.take(dels.len() as int) =~= dels);
        assert(views_of(requests@) =~= base + kind_requests::<T>(prefix, version, imp, cur, dels));
    }
}


// ---------- the coordinator ----------

/// Acquires the import lease: succeeds only if no lease is active or the
/// previous one expired, and captures the dataset version as of the grab.
/// On refusal, reports how many seconds of the active lease remain.
pub fn acquire_lock(store: &mut UserStore, now: u64) -> (r: Result<u64, u64>)
    requires
        old(store).wf(),
        now <= u64::MAX - LOCK_DURATION_S,
    ensures
        final(store).wf(),
        match r {
            Err(delay) => {
                &&& final(store)@ == old(store)@
                &&& old(store)@.locked_until is Some
                &&& old(store)@.locked_until->0 > now
                &&& delay == old(store)@.locked_until->0 - now
            },
            Ok(curr_version) => {
                &&& (old(store)@.locked_until is None || old(store)@.locked_until->0 <= now)
                &&& curr_version == version_or_zero(old(store)@.version)
                &&& final(store)@ == (StoreView {
                    version: old(store)@.version,
                    locked_until: Some((now + LOCK_DURATION_S) as u64),
                    rows: old(store)@.rows,
                })
            },
        },
{
    match store.locked_until {
        Some(lu) => {
            if lu > now {
                return Err(lu - now);
            }
        },
        None => {},
    }
    let curr_version = store.get_version();
    store.locked_until = Some(now + LOCK_DURATION_S);
    Ok(curr_version)
}

/// Clears the lease and points the dataset at the new collection, in one
/// unconditional write.
pub fn switch_collection(store: &mut UserStore, new_version: u64)
    requires
        old(store).wf(),
    ensures
        final(store).wf(),
        final(store)@ == (StoreView {
            version: Some(new_version),
            locked_until: None,
            rows: old(store)@.rows,
        }),
{
    store.locked_until = None;
    store.version = Some(new_version);
}

/// Everything the imported snapshot and the current collection put into the
/// new collection, kind by kind.
pub open spec fn import_batch_requests(
    new_prefix: Seq<char>,
    new_version: u64,
    curr: User,
    import: User,
) -> Seq<WriteRequestView> {
    kind_requests::<MeasurementSet>(
        new_prefix,
        new_version,
        import.measurement_sets@,
        curr.measurement_sets@,
        views_of(curr.deleted_measurement_sets@),
    ) + kind_requests::<Workout>(
        new_prefix,
        new_version,
        import.workouts@,
        curr.workouts@,
        views_of(curr.deleted_workouts@),
    ) + kind_requests::<Exercise>(
        new_prefix,
        new_version,
        import.exercises@,
        curr.exercises@,
        views_of(curr.deleted_exercises@),
    )
}

/// Builds the puts that write the merged snapshot into the new collection.
pub fn make_import_batch(
    new_prefix: &str,
    new_version: u64,
    curr: &User,
    import: &User,
) -> (requests: Vec<WriteRequest>)
    requires
        new_prefix@.len() == PREFIX_LEN,
        ids_wf(import.measurement_sets@),
        ids_wf(import.workouts@),
        ids_wf(import.exercises@),
        ids_wf(curr.measurement_sets@),
        ids_wf(curr.workouts@),
        ids_wf(curr.exercises@),
        tombstone_ids_wf::<MeasurementSet>(views_of(curr.deleted_measurement_sets@)),
        tombstone_ids_wf::<Workout>(views_of(curr.deleted_workouts@)),
        tombstone_ids_wf::<Exercise>(views_of(curr.deleted_exercises@)),
    ensures
        views_of(requests@) == import_batch_requests(new_prefix@, new_version, *curr, *import),
        write_requests_wf(views_of(requests@)),
{
    let mut requests: Vec<WriteRequest> = Vec::new();
    proof {
        assert(views_of(requests@) =~= Seq::<WriteRequestView>::empty());
    }
    apply_changes::<MeasurementSet>(
        &mut requests,
        new_prefix,
        new_version,
        &import.measurement_sets,
        &curr.measurement_sets,
        &curr.deleted_measurement_sets,
    );
    apply_changes::<Workout>(
        &mut requests,
        new_prefix,
        new_version,
        &import.workouts,
        &curr.workouts,
        &curr.deleted_workouts,
    );
    apply_changes::<Exercise>(
        &mut requests,
        new_prefix,
        new_version,
        &import.exercises,
        &curr.exercises,
        &curr.deleted_exercises,
    );
    proof {
        assert(views_of(requests@) =~= import_batch_requests(
            new_prefix@,
            new_version,
            *curr,
            *import,
        ));
    }
    requests
}

/// One delete per entity of a kind, by key.
pub open spec fn delete_entity_requests<T: StoreEntity>(prefix: Seq<char>, s: Seq<T>) -> Seq<
    WriteRequestView,
> {
    s.map_values(
        |c: T| WriteRequestView::DeleteKey { key: prefix + T::spec_key_tag() + c.id_spec() },
    )
}

/// One delete per tombstone of a kind, by key.
pub open spec fn delete_tombstone_requests<T: StoreEntity>(
    prefix: Seq<char>,
    d: Seq<TombstoneView>,
) -> Seq<WriteRequestView> {
    d.map_values(|t: TombstoneView| WriteRequestView::DeleteKey { key: prefix + T::spec_key_tag() + t.id })
}

/// Every row the old collection held, as deletes: entities and tombstones of
/// each kind in turn.
pub open spec fn delete_batch_requests(prefix: Seq<char>, user: User) -> Seq<WriteRequestView> {
    delete_entity_requests::<MeasurementSet>(prefix, user.measurement_sets@)
        + delete_tombstone_requests::<MeasurementSet>(
        prefix,
        views_of(user.deleted_measurement_sets@),
    ) + delete_entity_requests::<Workout>(prefix, user.workouts@)
        + delete_tombstone_requests::<Workout>(prefix, views_of(user.deleted_workouts@))
        + delete_entity_requests::<Exercise>(prefix, user.exercises@)
        + delete_tombstone_requests::<Exercise>(prefix, views_of(user.deleted_exercises@))
}

/// Appends one delete per entity of a kind.
fn push_entity_deletes<T: StoreEntity>(
    requests: &mut Vec<WriteRequest>,
    collection_prefix: &str,
    s: &Vec<T>,
)
    ensures
        views_of(final(requests)@) == views_of(old(requests)@) + delete_entity_requests::<T>(
            collection_prefix@,
            s@,
        ),
{
    let ghost base = views_of(requests@);
    let mut i: usize = 0;
    while i < s.len()
        invariant
            base == views_of(old(requests)@),
            i <= s@.len(),
            views_of(requests@).len() == base.len() + i,
            forall|j: int| 0 <= j < base.len() ==> #[trigger] views_of(requests@)[j] == base[j],
            forall|j: int| base.len() <= j < base.len() + i ==> #[trigger] views_of(requests@)[j]
                == delete_entity_requests::<T>(collection_prefix@, s@)[j - base.len()],
        decreases s@.len() - i,
    {
        let ghost prev = views_of(requests@);
        let key = make_key_from_id::<T>(collection_prefix, s[i].get_id());
        requests.push(WriteRequest::DeleteKey { key });
        proof {
            assert forall|j: int| 0 <= j < base.len() implies #[trigger] views_of(requests@)[j]
                == base[j] by {
                assert(views_of(requests@)[j] == prev[j]);
            }
            assert forall|j: int| base.len() <= j < base.len() + i + 1 implies #[trigger] views_of(
                requests@,
            )[j] == delete_entity_requests::<T>(collection_prefix@, s@)[j - base.len()] by {
                if j < base.len() + i {
                    assert(views_of(requests@)[j] == prev[j]);
                }
            }
        }
        i = i + 1;
    }
    proof {
        assert(views_of(requests@) =~= base + delete_entity_requests::<T>(collection_prefix@, s@));
    }
}

/// Appends one delete per tombstone of a kind.
fn push_tombstone_deletes<T: StoreEntity>(
    requests: &mut Vec<WriteRequest>,
    collection_prefix: &str,
    d: &Vec<Tombstone>,
)
    ensures
        views_of(final(requests)@) == views_of(old(requests)@) + delete_tombstone_requests::<T>(
            collection_prefix@,
            views_of(d@),
        ),
{
    let ghost base = views_of(requests@);
    let mut i: usize = 0;
    while i < d.len()
        invariant
            base == views_of(old(requests)@),
            i <= d@.len(),
            views_of(requests@).len() == base.len() + i,
            forall|j: int| 0 <= j < base.len() ==> #[trigger] views_of(requests@)[j] == base[j],
            forall|j: int| base.len() <= j < base.len() + i ==> #[trigger] views_of(requests@)[j]
                == delete_tombstone_requests::<T>(collection_prefix@, views_of(d@))[j - base.len()],
        decreases d@.len() - i,
    {
        let ghost prev = views_of(requests@);
        let key = make_key_from_id::<T>(collection_prefix, d[i].id.as_str());
        requests.push(WriteRequest::DeleteKey { key });
        proof {
            assert(views_of(d@)[i as int] == d@[i as int]@);
            assert forall|j: int| 0 <= j < base.len() implies #[trigger] views_of(requests@)[j]
                == base[j] by {
                assert(views_of(requests@)[j] == prev[j]);
            }
            assert forall|j: int| base.len() <= j < base.len() + i + 1 implies #[trigger] views_of(
                requests@,
            )[j] == delete_tombstone_requests::<T>(collection_prefix@, views_of(d@))[j - base.len()] by {
                if j < base.len() + i {
                    assert(views_of(requests@)[j] == prev[j]);
                }
            }
        }
        i = i + 1;
    }
    proof {
        assert(views_of(requests@) =~= base + delete_tombstone_requests::<T>(
            collection_prefix@,
            views_of(d@),
        ));
    }
}

/// Builds the deletes that clear the old collection: every entity and every
/// tombstone that was read from it, by key.
pub fn make_delete_batch(collection_prefix: &str, user: &User) -> (requests: Vec<WriteRequest>)
    ensures
        views_of(requests@) == delete_batch_requests(collection_prefix@, *user),
        write_requests_wf(views_of(requests@)),
{
    let mut requests: Vec<WriteRequest> = Vec::new();
    push_entity_deletes::<MeasurementSet>(&mut requests, collection_prefix, &user.measurement_sets);
    push_tombstone_deletes::<MeasurementSet>(
        &mut requests,
        collection_prefix,
        &user.deleted_measurement_sets,
    );
    push_entity_deletes::<Workout>(&mut requests, collection_prefix, &user.workouts);
    push_tombstone_deletes::<Workout>(&mut requests, collection_prefix, &user.deleted_workouts);
    push_entity_deletes::<Exercise>(&mut requests, collection_prefix, &user.exercises);
    push_tombstone_deletes::<Exercise>(&mut requests, collection_prefix, &user.deleted_exercises);
    proof {
        assert(views_of(requests@) =~= delete_batch_requests(collection_prefix@, *user));
        assert forall|i: int| 0 <= i < views_of(requests@).len() implies write_request_wf(
            #[trigger] views_of(requests@)[i],
        ) by {
            let w = views_of(requests@)[i];
            assert(w is DeleteKey);
        }
    }
    requests
}


// ---------- the import itself ----------

/// Every id the snapshot submits has the width its kind's keys allot.
pub open spec fn import_ids_ok(import: User) -> bool {
    &&& ids_wf(import.measurement_sets@)
    &&& ids_wf(import.workouts@)
    &&& ids_wf(import.exercises@)
}

/// Checks the id widths of one kind of the snapshot.
fn check_kind_ids<T: StoreEntity>(s: &Vec<T>) -> (r: bool)
    ensures
        r == ids_wf(s@),
{
    let width = T::id_width();
    let mut i: usize = 0;
    while i < s.len()
        invariant
            width == T::spec_id_len(),
            i <= s@.len(),
            forall|j: int| 0 <= j < i ==> (#[trigger] s@[j]).id_spec().len() == T::spec_id_len(),
        decreases s@.len() - i,
    {
        if s[i].get_id().unicode_len() != width {
            return false;
        }
        i = i + 1;
    }
    true
}

/// The classifier read the given user out of the given rows, as an import
/// reads its current collection: filtered to the collection, tombstones
/// included.
pub open spec fn classified_as(curr: User, rows: Seq<RowView>, version: u64, prefix: Seq<char>)
    -> bool {
    let crows = collection_rows(rows, prefix);
    &&& curr.version == version
    &&& views_of(curr.measurement_sets@) == crows.filter_map(
        |r: RowView| as_live_measurement(r, prefix, true),
    )
    &&& views_of(curr.workouts@) == crows.filter_map(|r: RowView| as_live_workout(r, prefix, true))
    &&& views_of(curr.exercises@) == crows.filter_map(
        |r: RowView| as_live_exercise(r, prefix, true),
    )
    &&& views_of(curr.deleted_measurement_sets@) == crows.filter_map(
        |r: RowView| as_tombstone(
            r,
            prefix,
            true,
            true,
            MEASUREMENT_KEY_LEN as nat,
            MEASUREMENT_ID_START as nat,
        ),
    )
    &&& views_of(curr.deleted_workouts@) == crows.filter_map(
        |r: RowView| as_tombstone(r, prefix, true, true, WORKOUT_KEY_LEN as nat, WORKOUT_ID_START as nat),
    )
    &&& views_of(curr.deleted_exercises@) == crows.filter_map(
        |r: RowView| as_tombstone(r, prefix, true, true, EXERCISE_KEY_LEN as nat, WORKOUT_ID_START as nat),
    )
}

proof fn lemma_live_ids(curr: User, rows: Seq<RowView>, version: u64, prefix: Seq<char>)
    requires
        classified_as(curr, rows, version, prefix),
    ensures
        ids_wf(curr.measurement_sets@),
        ids_wf(curr.workouts@),
        ids_wf(curr.exercises@),
        tombstone_ids_wf::<MeasurementSet>(views_of(curr.deleted_measurement_sets@)),
        tombstone_ids_wf::<Workout>(views_of(curr.deleted_workouts@)),
        tombstone_ids_wf::<Exercise>(views_of(curr.deleted_exercises@)),
{
    broadcast use vstd::prelude::Seq::lemma_filter_map_contains, vstd::prelude::Seq::lemma_index_contains;

    let crows = collection_rows(rows, prefix);
    assert forall|i: int| 0 <= i < curr.measurement_sets@.len() implies (#[trigger] curr.measurement_sets@[i]).id_spec().len()
        == MeasurementSet::spec_id_len() by {
        let f = |r: RowView| as_live_measurement(r, prefix, true);
        let elt = views_of(curr.measurement_sets@)[i];
        assert(crows.filter_map(f).contains(elt));
        let t = choose|t: RowView| crows.contains(t) && #[trigger] f(t) == Some(elt);
        assert(curr.measurement_sets@[i].id_spec() == elt.date);
    }
    assert forall|i: int| 0 <= i < curr.workouts@.len() implies (#[trigger] curr.workouts@[i]).id_spec().len()
        == Workout::spec_id_len() by {
        let f = |r: RowView| as_live_workout(r, prefix, true);
        let elt = views_of(curr.workouts@)[i];
        assert(crows.filter_map(f).contains(elt));
        let t = choose|t: RowView| crows.contains(t) && #[trigger] f(t) == Some(elt);
        assert(curr.workouts@[i].id_spec() == elt.workout_id);
    }
    assert forall|i: int| 0 <= i < curr.exercises@.len() implies (#[trigger] curr.exercises@[i]).id_spec().len()
        == Exercise::spec_id_len() by {
        let f = |r: RowView| as_live_exercise(r, prefix, true);
        let elt = views_of(curr.exercises@)[i];
        assert(crows.filter_map(f).contains(elt));
        let t = choose|t: RowView| crows.contains(t) && #[trigger] f(t) == Some(elt);
        assert(curr.exercises@[i].id_spec() == elt.workout_exercise_id);
    }
    assert forall|i: int| 0 <= i < views_of(curr.deleted_measurement_sets@).len() implies (
    #[trigger] views_of(curr.deleted_measurement_sets@)[i]).id.len() == MeasurementSet::spec_id_len() by {
        let f = |r: RowView| as_tombstone(
            r,
            prefix,
            true,
            true,
            MEASUREMENT_KEY_LEN as nat,
            MEASUREMENT_ID_START as nat,
        );
        let elt = views_of(curr.deleted_measurement_sets@)[i];
        assert(crows.filter_map(f).contains(elt));
        let t = choose|t: RowView| crows.contains(t) && #[trigger] f(t) == Some(elt);
    }
    assert forall|i: int| 0 <= i < views_of(curr.deleted_workouts@).len() implies (
    #[trigger] views_of(curr.deleted_workouts@)[i]).id.len() == Workout::spec_id_len() by {
        let f = |r: RowView| as_tombstone(
            r,
            prefix,
            true,
            true,
            WORKOUT_KEY_LEN as nat,
            WORKOUT_ID_START as nat,
        );
        let elt = views_of(curr.deleted_workouts@)[i];
        assert(crows.filter_map(f).contains(elt));
        let t = choose|t: RowView| crows.contains(t) && #[trigger] f(t) == Some(elt);
    }
    assert forall|i: int| 0 <= i < views_of(curr.deleted_exercises@).len() implies (
    #[trigger] views_of(curr.deleted_exercises@)[i]).id.len() == Exercise::spec_id_len() by {
        let f = |r: RowView| as_tombstone(
            r,
            prefix,
            true,
            true,
            EXERCISE_KEY_LEN as nat,
            WORKOUT_ID_START as nat,
        );
        let elt = views_of(curr.deleted_exercises@)[i];
        assert(crows.filter_map(f).contains(elt));
        let t = choose|t: RowView| crows.contains(t) && #[trigger] f(t) == Some(elt);
    }
}

/// Replaces the dataset with the submitted snapshot, merged against the
/// current collection: under the lease, the current collection is read and
/// diffed, the merged result is written under a fresh collection id, the
/// dataset pointer switches to it, and the old collection's rows are
/// deleted.
pub fn put_snapshot(store: &mut UserStore, now: u64, import: &User) -> (r: Result<
    (),
    ImportError,
>)
    requires
        old(store).wf(),
        now <= u64::MAX - LOCK_DURATION_S,
        spec_collection_of(version_or_zero(old(store)@.version)) < MAX_COLLECTION,
    ensures
        final(store).wf(),
        match r {
            Err(ImportError::Invalid(e)) => final(store)@ == old(store)@ && !import_ids_ok(
                *import,
            ),
            Err(ImportError::RetryLater { seconds }) => {
                &&& import_ids_ok(*import)
                &&& final(store)@ == old(store)@
                &&& old(store)@.locked_until is Some
                &&& old(store)@.locked_until->0 > now
                &&& seconds == old(store)@.locked_until->0 - now
            },
            Ok(()) => {
                let curr_version = version_or_zero(old(store)@.version);
                let curr_collection = spec_collection_of(curr_version);
                let curr_prefix = spec_collection_prefix(curr_collection);
                let new_version = spec_version_of((curr_collection + 1) as u32);
                let new_prefix = spec_collection_prefix((curr_collection + 1) as u32);
                &&& import_ids_ok(*import)
                &&& (old(store)@.locked_until is None || old(store)@.locked_until->0 <= now)
                &&& final(store)@.version == Some(new_version)
                &&& final(store)@.locked_until is None
                &&& exists|curr: User|
                    #[trigger] classified_as(curr, old(store)@.rows, curr_version, curr_prefix)
                        && final(store)@.rows == apply_writes(
                        apply_writes(
                            old(store)@.rows,
                            import_batch_requests(new_prefix, new_version, curr, *import),
                        ),
                        delete_batch_requests(curr_prefix, curr),
                    )
            },
        },
{
    if !check_kind_ids::<MeasurementSet>(&import.measurement_sets) {
        return Err(ImportError::Invalid(ValidationError::InvalidDate));
    }
    if !check_kind_ids::<Workout>(&import.workouts) {
        return Err(ImportError::Invalid(ValidationError::InvalidUuid));
    }
    if !check_kind_ids::<Exercise>(&import.exercises) {
        return Err(ImportError::Invalid(ValidationError::InvalidUuid));
    }

    let ghost pre = old(store)@;

    // Take the lease; while it holds, no mutation can bump the version.
    let curr_version = match acquire_lock(store, now) {
        Ok(v) => v,
        Err(delay) => {
            return Err(ImportError::RetryLater { seconds: delay });
        },
    };

    // Read the whole current collection, tombstones included.
    let curr_collection = collection_from_version(curr_version);
    let curr_prefix = get_collection_prefix(curr_collection);
    let rows_read = query_collection(store, curr_prefix.as_str(), false);
    proof {
        assert(rows_wf(views_of(rows_read@), spec_collection_prefix(curr_collection), true));
    }
    let curr_user = db_to_user(curr_version, true, true, &rows_read);
    proof {
        assert(classified_as(curr_user, pre.rows, curr_version, curr_prefix@));
        lemma_live_ids(curr_user, pre.rows, curr_version, curr_prefix@);
    }

    // Merge and write the new collection.
    let new_collection = curr_collection + 1;
    let new_version = version_from_collection(new_collection);
    let new_prefix = get_collection_prefix(new_collection);
    let import_reqs = make_import_batch(new_prefix.as_str(), new_version, &curr_user, import);
    store.batch_write(&import_reqs);

    // Release the lease and point the dataset at the new collection.
    switch_collection(store, new_version);

    // Clear out the old collection.
    let delete_reqs = make_delete_batch(curr_prefix.as_str(), &curr_user);
    store.batch_write(&delete_reqs);

    proof {
        assert(classified_as(curr_user, pre.rows, curr_version, spec_collection_prefix(
            spec_collection_of(curr_version),
        )) && final(store)@.rows == apply_writes(
            apply_writes(
                pre.rows,
                import_batch_requests(
                    spec_collection_prefix((spec_collection_of(curr_version) + 1) as u32),
                    spec_version_of((spec_collection_of(curr_version) + 1) as u32),
                    curr_user,
                    *import,
                ),
            ),
            delete_batch_requests(
                spec_collection_prefix(spec_collection_of(curr_version)),
                curr_user,
            ),
        ));
    }
    Ok(())
}

} // verus!
