//! The batched-write primitive: work is cut into backend-sized chunks, the
//! backend may hand any part of a chunk back as unprocessed, and what came
//! back is resubmitted ahead of fresh work until nothing remains.
//!
//! The writer accounts for every operation: submitted work is either applied
//! or returned, so when the writer reports itself done, each requested
//! operation has been applied exactly once, however the backend throttled.

use vstd::prelude::*;
use vstd::multiset::Multiset;
use vstd::seq_lib::lemma_multiset_commutative;
use crate::model::views_of;
use crate::row::{Row, RowView, clone_row, row_shape_ok};
use crate::store::{UserStore, rows_invariant, row_index, lemma_row_index_ensures};

verus! {

/// Most operations one backend batch may carry.
pub const MAX_BATCH_SIZE: usize = 25;

/// One queued write: store a full row, or delete the row under a key.
pub enum WriteRequest {
    PutRow(Row),
    DeleteKey { key: String },
}

pub enum WriteRequestView {
    PutRow(RowView),
    DeleteKey { key: Seq<char> },
}

impl View for WriteRequest {
    type V = WriteRequestView;

    open spec fn view(&self) -> WriteRequestView {
        match self {
            WriteRequest::PutRow(r) => WriteRequestView::PutRow(r@),
            WriteRequest::DeleteKey { key } => WriteRequestView::DeleteKey { key: key@ },
        }
    }
}

pub fn clone_write_request(w: &WriteRequest) -> (c: WriteRequest)
    ensures
        c@ == w@,
{
    match w {
        WriteRequest::PutRow(r) => WriteRequest::PutRow(clone_row(r)),
        WriteRequest::DeleteKey { key } => WriteRequest::DeleteKey { key: key.clone() },
    }
}

/// The chunking and retry bookkeeping of one batched write.
pub struct BatchWriter {
    /// Everything this write must apply, in submission order.
    pub requests: Vec<WriteRequest>,
    /// How many of the requests have been handed out at least once.
    pub processed: usize,
    /// What the backend handed back unprocessed, to go out again first.
    pub unprocessed: Vec<WriteRequest>,
    /// The operations of the chunk currently with the backend.
    pub in_flight: Ghost<Multiset<WriteRequestView>>,
    /// The operations the backend has applied so far.
    pub applied: Ghost<Multiset<WriteRequestView>>,
}

impl BatchWriter {
    /// The requests not yet handed out even once.
    pub open spec fn pending(self) -> Multiset<WriteRequestView> {
        views_of(self.requests@).subrange(
            self.processed as int,
            self.requests@.len() as int,
        ).to_multiset()
    }

    /// Every request is in exactly one place: applied, with the backend,
    /// waiting to be resubmitted, or not yet handed out.
    pub open spec fn wf(self) -> bool {
        &&& self.processed <= self.requests@.len()
        &&& self.unprocessed@.len() <= MAX_BATCH_SIZE
        &&& self.applied@.add(self.in_flight@).add(views_of(self.unprocessed@).to_multiset()).add(
            self.pending(),
        ) =~= views_of(self.requests@).to_multiset()
    }

    /// Nothing is left anywhere but in `applied`.
    pub open spec fn done(self) -> bool {
        &&& self.processed == self.requests@.len()
        &&& self.unprocessed@.len() == 0
        &&& self.in_flight@ == Multiset::<WriteRequestView>::empty()
    }

    /// Starts a batched write over the given operations.
    pub fn new(requests: Vec<WriteRequest>) -> (w: BatchWriter)
        ensures
            w.wf(),
            w.in_flight@ == Multiset::<WriteRequestView>::empty(),
            w.applied@ == Multiset::<WriteRequestView>::empty(),
            views_of(w.requests@) == views_of(requests@),
            w.done() <==> requests@.len() == 0,
    {
        let w = BatchWriter {
            requests,
            processed: 0,
            unprocessed: Vec::new(),
            in_flight: Ghost(Multiset::empty()),
            applied: Ghost(Multiset::empty()),
        };
        proof {
            assert(views_of(w.requests@).subrange(0, w.requests@.len() as int) =~= views_of(
                w.requests@,
            ));
            lemma_to_multiset_empty(views_of(w.unprocessed@));
            assert(w.applied@.add(w.in_flight@).add(views_of(w.unprocessed@).to_multiset()).add(
                w.pending(),
            ) =~= views_of(w.requests@).to_multiset());
        }
        w
    }

    /// Whether every operation has been applied.
    pub fn is_done(&self) -> (r: bool)
        requires
            self.in_flight@ == Multiset::<WriteRequestView>::empty(),
        ensures
            r == self.done(),
    {
        self.processed == self.requests.len() && self.unprocessed.len() == 0
    }

    /// Assembles the next chunk: what the backend handed back goes first,
    /// then fresh requests up to the batch cap.
    pub fn take(&mut self) -> (batch: Vec<WriteRequest>)
        requires
            old(self).wf(),
            old(self).in_flight@ == Multiset::<WriteRequestView>::empty(),
            !old(self).done(),
        ensures
            final(self).wf(),
            final(self).requests@ == old(self).requests@,
            final(self).applied@ == old(self).applied@,
            final(self).unprocessed@.len() == 0,
            final(self).in_flight@ == views_of(batch@).to_multiset(),
            1 <= batch@.len() <= MAX_BATCH_SIZE,
    {
        let ghost old_unprocessed = views_of(self.unprocessed@);
        let ghost old_processed = self.processed as int;
        let ghost rv = views_of(self.requests@);
        let mut batch: Vec<WriteRequest> = Vec::new();
        proof {
            lemma_to_multiset_empty(views_of(batch@));
        }
        while self.unprocessed.len() > 0
            invariant
                self.requests@ == old(self).requests@,
                self.processed == old(self).processed,
                self.applied@ == old(self).applied@,
                self.in_flight@ == old(self).in_flight@,
                views_of(batch@).to_multiset().add(views_of(self.unprocessed@).to_multiset())
                    =~= old_unprocessed.to_multiset(),
                batch@.len() + self.unprocessed@.len() == old_unprocessed.len(),
            decreases self.unprocessed@.len(),
        {
            broadcast use vstd::prelude::Seq::to_multiset_ensures;

            let ghost before = views_of(self.unprocessed@);
            let ghost batch_before = views_of(batch@);
            match self.unprocessed.pop() {
                Some(r) => {
                    proof {
                        before.to_multiset_ensures();
                        assert(views_of(self.unprocessed@) =~= before.drop_last());
                        assert(before.remove(before.len() - 1) =~= before.drop_last());
                        assert(before.remove(before.len() - 1).to_multiset()
                            =~= before.to_multiset().remove(before.last()));
                        assert(before.contains(before.last()));
                    }
                    batch.push(r);
                    proof {
                        batch_before.to_multiset_ensures();
                        assert(views_of(batch@) =~= batch_before.push(r@));
                        assert(batch_before.push(r@).to_multiset()
                            =~= batch_before.to_multiset().insert(r@));
                        assert(views_of(batch@).to_multiset() == batch_before.to_multiset().insert(
                            r@,
                        ));
                        assert(r@ == before.last());
                        assert(views_of(batch@).to_multiset().add(
                            views_of(self.unprocessed@).to_multiset(),
                        ) =~= old_unprocessed.to_multiset());
                    }
                },
                None => {},
            }
        }
        proof {
            lemma_to_multiset_empty(views_of(self.unprocessed@));
            assert(views_of(batch@).to_multiset() =~= old_unprocessed.to_multiset());
        }
        let ghost after_unprocessed = batch@.len() as int;
        proof {
            assert(rv.subrange(old_processed, old_processed) =~= Seq::<WriteRequestView>::empty());
            lemma_to_multiset_empty(rv.subrange(old_processed, old_processed));
            assert(views_of(batch@).to_multiset() =~= old_unprocessed.to_multiset().add(
                rv.subrange(old_processed, old_processed).to_multiset(),
            ));
        }
        while batch.len() < MAX_BATCH_SIZE && self.processed < self.requests.len()
            invariant
                rv == views_of(self.requests@),
                self.requests@ == old(self).requests@,
                self.applied@ == old(self).applied@,
                self.in_flight@ == old(self).in_flight@,
                self.unprocessed@.len() == 0,
                0 <= old_processed <= self.processed <= self.requests@.len(),
                batch@.len() <= MAX_BATCH_SIZE,
                batch@.len() == after_unprocessed + (self.processed - old_processed),
                views_of(batch@).to_multiset() =~= old_unprocessed.to_multiset().add(
                    rv.subrange(old_processed, self.processed as int).to_multiset(),
                ),
            decreases self.requests@.len() - self.processed,
        {
            broadcast use vstd::prelude::Seq::to_multiset_ensures;

            let ghost p = self.processed as int;
            let ghost batch_before = views_of(batch@);
            batch.push(clone_write_request(&self.requests[self.processed]));
            self.processed = self.processed + 1;
            proof {
                batch_before.to_multiset_ensures();
                rv.subrange(old_processed, p).to_multiset_ensures();
                assert(views_of(batch@) =~= batch_before.push(rv[p]));
                assert(batch_before.push(rv[p]).to_multiset() =~= batch_before.to_multiset().insert(
                    rv[p],
                ));
                assert(views_of(batch@).to_multiset() == batch_before.to_multiset().insert(rv[p]));
                assert(rv.subrange(old_processed, p + 1) =~= rv.subrange(old_processed, p).push(
                    rv[p],
                ));
                assert(rv.subrange(old_processed, p).push(rv[p]).to_multiset() =~= rv.subrange(
                    old_processed,
                    p,
                ).to_multiset().insert(rv[p]));
                assert(rv.subrange(old_processed, p + 1).to_multiset() == rv.subrange(
                    old_processed,
                    p,
                ).to_multiset().insert(rv[p]));
                assert(views_of(batch@).to_multiset() =~= old_unprocessed.to_multiset().add(
                    rv.subrange(old_processed, self.processed as int).to_multiset(),
                ));
            }
        }
        self.in_flight = Ghost(views_of(batch@).to_multiset());
        proof {
            let consumed = rv.subrange(old_processed, self.processed as int);
            let rest = rv.subrange(self.processed as int, rv.len() as int);
            assert(rv.subrange(old_processed, rv.len() as int) =~= consumed + rest);
            lemma_multiset_commutative(consumed, rest);
            assert(rv.subrange(old_processed, rv.len() as int).to_multiset()
                == consumed.to_multiset().add(rest.to_multiset()));
            lemma_to_multiset_empty(views_of(self.unprocessed@));
            assert(old(self).pending() == rv.subrange(old_processed, rv.len() as int).to_multiset());
            assert(old(self).applied@.add(old(self).in_flight@).add(
                old_unprocessed.to_multiset(),
            ).add(old(self).pending()) == views_of(self.requests@).to_multiset());
            assert(self.in_flight@ == old_unprocessed.to_multiset().add(consumed.to_multiset()));
            assert(self.pending() == rest.to_multiset());
            assert forall|x: WriteRequestView|
                self.applied@.add(self.in_flight@).add(
                    views_of(self.unprocessed@).to_multiset(),
                ).add(self.pending()).count(x) == views_of(self.requests@).to_multiset().count(
                    x,
                ) by {
                assert(old(self).applied@.add(old(self).in_flight@).add(
                    old_unprocessed.to_multiset(),
                ).add(old(self).pending()).count(x) == views_of(
                    self.requests@,
                ).to_multiset().count(x));
                assert(old(self).in_flight@.count(x) == 0);
                assert(views_of(self.unprocessed@).to_multiset().count(x) == 0);
            }
            lemma_multiset_eq(
                self.applied@.add(self.in_flight@).add(
                    views_of(self.unprocessed@).to_multiset(),
                ).add(self.pending()),
                views_of(self.requests@).to_multiset(),
            );
        }
        batch
    }

    /// Records what the backend made of the chunk: everything it did not
    /// hand back is applied; what it handed back goes out with the next
    /// chunk.
    pub fn report(&mut self, rejected: Vec<WriteRequest>)
        requires
            old(self).wf(),
            old(self).unprocessed@.len() == 0,
            views_of(rejected@).to_multiset().subset_of(old(self).in_flight@),
            rejected@.len() <= MAX_BATCH_SIZE,
        ensures
            final(self).wf(),
            final(self).requests@ == old(self).requests@,
            final(self).processed == old(self).processed,
            final(self).in_flight@ == Multiset::<WriteRequestView>::empty(),
            views_of(final(self).unprocessed@) == views_of(rejected@),
            final(self).applied@ == old(self).applied@.add(
                old(self).in_flight@.sub(views_of(rejected@).to_multiset()),
            ),
    {
        let ghost flight = self.in_flight@;
        let ghost back = views_of(rejected@).to_multiset();
        proof {
            self.in_flight = Ghost(Multiset::empty());
            self.applied = Ghost(self.applied@.add(flight.sub(back)));
        }
        self.unprocessed = rejected;
        proof {
            assert forall|x: WriteRequestView|
                self.applied@.add(self.in_flight@).add(
                    views_of(self.unprocessed@).to_multiset(),
                ).add(self.pending()).count(x) == views_of(self.requests@).to_multiset().count(
                    x,
                ) by {
                assert(old(self).applied@.add(old(self).in_flight@).add(
                    views_of(old(self).unprocessed@).to_multiset(),
                ).add(old(self).pending()).count(x) == views_of(
                    self.requests@,
                ).to_multiset().count(x));
                assert(back.count(x) <= flight.count(x));
                assert(self.in_flight@.count(x) == 0);
                lemma_to_multiset_empty(views_of(old(self).unprocessed@));
            }
            lemma_multiset_eq(
                self.applied@.add(self.in_flight@).add(
                    views_of(self.unprocessed@).to_multiset(),
                ).add(self.pending()),
                views_of(self.requests@).to_multiset(),
            );
        }
    }
}

/// Two multisets with the same count everywhere are the same multiset.
proof fn lemma_multiset_eq<V>(m1: Multiset<V>, m2: Multiset<V>)
    requires
        forall|v: V| m1.count(v) == m2.count(v),
    ensures
        m1 == m2,
{
    assert(m1 =~= m2);
}

/// An empty sequence holds an empty multiset.
proof fn lemma_to_multiset_empty<A>(s: Seq<A>)
    requires
        s.len() == 0,
    ensures
        s.to_multiset() == Multiset::<A>::empty(),
{
    s.to_multiset_ensures();
    assert forall|x: A| s.to_multiset().count(x) == Multiset::<A>::empty().count(x) by {
        assert(!s.contains(x));
    }
    assert(s.to_multiset() =~= Multiset::<A>::empty());
}

/// Batch retry, settled: once the writer is done, every requested operation
/// has been applied exactly once, whatever parts of each chunk the backend
/// threw back along the way.
pub proof fn lemma_batch_exactly_once(w: BatchWriter)
    requires
        w.wf(),
        w.done(),
    ensures
        w.applied@ =~= views_of(w.requests@).to_multiset(),
{
    assert(views_of(w.requests@).subrange(
        w.requests@.len() as int,
        w.requests@.len() as int,
    ) =~= Seq::<WriteRequestView>::empty());
    lemma_to_multiset_empty(views_of(w.requests@).subrange(
        w.requests@.len() as int,
        w.requests@.len() as int,
    ));
    lemma_to_multiset_empty(views_of(w.unprocessed@));
    assert(w.applied@ =~= views_of(w.requests@).to_multiset());
}

// ---------- how the store applies a batch ----------

/// The rows after one queued write: a stored row replaces or joins the rows
/// under its key; a delete removes whatever sits under its key.
pub open spec fn apply_write(rows: Seq<RowView>, w: WriteRequestView) -> Seq<RowView> {
    match w {
        WriteRequestView::PutRow(r) => match row_index(rows, r.key) {
            Some(i) => rows.update(i, r),
            None => rows.push(r),
        },
        WriteRequestView::DeleteKey { key } => match row_index(rows, key) {
            Some(i) => rows.remove(i),
            None => rows,
        },
    }
}

/// The rows after a sequence of queued writes, applied in order.
pub open spec fn apply_writes(rows: Seq<RowView>, ws: Seq<WriteRequestView>) -> Seq<RowView>
    decreases ws.len(),
{
    if ws.len() == 0 {
        rows
    } else {
        apply_writes(apply_write(rows, ws[0]), ws.skip(1))
    }
}

pub proof fn lemma_apply_writes_snoc(rows: Seq<RowView>, ws: Seq<WriteRequestView>, w: WriteRequestView)
    ensures
        apply_writes(rows, ws.push(w)) == apply_write(apply_writes(rows, ws), w),
    decreases ws.len(),
{
    if ws.len() == 0 {
        assert(ws.push(w)[0] == w);
        assert(ws.push(w).skip(1) =~= Seq::<WriteRequestView>::empty());
        assert(apply_writes(rows, ws.push(w)) == apply_writes(
            apply_write(rows, w),
            Seq::<WriteRequestView>::empty(),
        ));
        assert(apply_writes(rows, ws) == rows);
    } else {
        assert(ws.push(w)[0] == ws[0]);
        assert(ws.push(w).skip(1) =~= ws.skip(1).push(w));
        lemma_apply_writes_snoc(apply_write(rows, ws[0]), ws.skip(1), w);
        assert(apply_writes(rows, ws) == apply_writes(apply_write(rows, ws[0]), ws.skip(1)));
    }
}

/// A queued write that only stores rows whose kind matches their key length.
pub open spec fn write_request_wf(w: WriteRequestView) -> bool {
    match w {
        WriteRequestView::PutRow(r) => row_shape_ok(r),
        WriteRequestView::DeleteKey { .. } => true,
    }
}

pub open spec fn write_requests_wf(ws: Seq<WriteRequestView>) -> bool {
    forall|i: int| 0 <= i < ws.len() ==> write_request_wf(#[trigger] ws[i])
}

proof fn lemma_apply_write_invariant(rows: Seq<RowView>, w: WriteRequestView)
    requires
        rows_invariant(rows),
        write_request_wf(w),
    ensures
        rows_invariant(apply_write(rows, w)),
{
    match w {
        WriteRequestView::PutRow(r) => {
            lemma_row_index_ensures(rows, r.key);
        },
        WriteRequestView::DeleteKey { key } => {
            lemma_row_index_ensures(rows, key);
        },
    }
}

impl UserStore {
    /// Applies a whole list of queued writes, in order. Against the live
    /// backend the same list goes through the batch writer in chunks; the
    /// outcome once the writer is done is the same, because every operation
    /// is applied exactly once.
    pub fn batch_write(&mut self, requests: &Vec<WriteRequest>)
        requires
            old(self).wf(),
            write_requests_wf(views_of(requests@)),
        ensures
            final(self).wf(),
            final(self)@.version == old(self)@.version,
            final(self)@.locked_until == old(self)@.locked_until,
            final(self)@.rows == apply_writes(old(self)@.rows, views_of(requests@)),
    {
        let ghost wv = views_of(requests@);
        let ghost pre_rows = self@.rows;
        let mut j: usize = 0;
        while j < requests.len()
            invariant
                wv == views_of(requests@),
                write_requests_wf(wv),
                j <= requests@.len(),
                self.version == old(self).version,
                self.locked_until == old(self).locked_until,
                rows_invariant(self@.rows),
                self@.rows == apply_writes(pre_rows, wv.take(j as int)),
            decreases requests@.len() - j,
        {
            proof {
                assert(wv.take(j + 1) =~= wv.take(j as int).push(wv[j as int]));
                lemma_apply_writes_snoc(pre_rows, wv.take(j as int), wv[j as int]);
                lemma_apply_write_invariant(self@.rows, wv[j as int]);
            }
            match &requests[j] {
                WriteRequest::PutRow(r) => {
                    let row = clone_row(r);
                    match crate::store::find_row_index(&self.rows, &r.key) {
                        Some(i) => {
                            self.rows.set(i, row);
                        },
                        None => {
                            self.rows.push(row);
                        },
                    }
                },
                WriteRequest::DeleteKey { key } => {
                    match crate::store::find_row_index(&self.rows, key) {
                        Some(i) => {
                            self.rows.remove(i);
                        },
                        None => {},
                    }
                },
            }
            proof {
                assert(self@.rows =~= apply_writes(pre_rows, wv.take(j + 1)));
            }
            j = j + 1;
        }
        proof {
            assert(wv.take(wv.len() as int) =~= wv);
        }
    }
}

} // verus!
