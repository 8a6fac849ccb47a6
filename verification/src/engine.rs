//! The conditional-apply engine's pure half: typed write-step descriptors and
//! the interpreter that turns a canceled transaction's per-item reasons into a
//! verdict.
//!
//! Every mutation is one atomic transaction whose first step bumps the
//! dataset-version record under a condition: the recorded version equals the
//! client's (or none is recorded yet) and no import lease is active. When the
//! transaction is canceled, the first reason decides between conflict and
//! lock contention; the remaining reasons go to an endpoint-specific
//! classifier.

use vstd::prelude::*;
use crate::row::{Payload, PayloadView};

verus! {

/// The dataset-version record as it stood before a failed transaction, handed
/// back with the first cancellation reason.
#[derive(Clone, Copy, Debug)]
pub struct VersionSnapshot {
    /// The recorded dataset version, if one exists yet.
    pub version: Option<u64>,
    /// The lease expiry, if an import ever set one.
    pub locked_until: Option<u64>,
}

/// Why one item of a canceled transaction was rejected.
#[derive(Clone, Copy, Debug)]
pub struct CancelReason {
    /// Whether this item's condition failed.
    pub check_failed: bool,
    /// For the version-bump step, the record as it was before the attempt;
    /// absent when the record did not exist.
    pub snapshot: Option<VersionSnapshot>,
}

/// What a mutation attempt came to.
#[derive(Clone, Copy, Debug)]
pub enum ApplyOutcome {
    /// The transaction committed and the dataset now has this version.
    Success { new_version: u64 },
    /// The recorded version was not the client's: the client must refetch.
    Conflict,
    /// An import lease is active: retry after the given number of seconds.
    RetryLater { seconds: u64 },
    /// The target entity is absent or already tombstoned.
    NotFound,
    /// A referenced entity at the given step index does not exist.
    InvalidReference { index: usize },
    /// The failure fits no known shape.
    Backend,
}

/// One caller-supplied step of a conditional transaction.
pub enum WriteStep {
    /// Write a live entity row under the key, stamped with the new version.
    Put { key: String, payload: Payload },
    /// Mark the row under the key deleted, stamped with the new version;
    /// requires the row to exist and not be tombstoned already.
    Tombstone { key: String },
    /// Require the row under the key to exist and not be tombstoned, without
    /// writing it.
    CheckExists { key: String },
    /// Overwrite the order of the exercise row under the key, stamped with
    /// the new version; requires the row to exist and not be tombstoned.
    SetOrder { key: String, order: u32 },
}

pub enum WriteStepView {
    Put { key: Seq<char>, payload: PayloadView },
    Tombstone { key: Seq<char> },
    CheckExists { key: Seq<char> },
    SetOrder { key: Seq<char>, order: u32 },
}

impl View for WriteStep {
    type V = WriteStepView;

    open spec fn view(&self) -> WriteStepView {
        match self {
            WriteStep::Put { key, payload } => WriteStepView::Put { key: key@, payload: payload@ },
            WriteStep::Tombstone { key } => WriteStepView::Tombstone { key: key@ },
            WriteStep::CheckExists { key } => WriteStepView::CheckExists { key: key@ },
            WriteStep::SetOrder { key, order } => WriteStepView::SetOrder {
                key: key@,
                order: *order,
            },
        }
    }
}

/// How an endpoint reads the cancellation reasons of its own steps.
#[derive(Clone, Copy, Debug)]
pub enum Classifier {
    /// No step of this endpoint explains a failure.
    Ignore,
    /// A failed first step means the target entity is gone.
    NotFoundOnFirst,
    /// Any failed step means the target entity is gone.
    NotFoundOnAny,
    /// A failed first step means the workout is gone; a failed later step
    /// names a missing exercise.
    OrderSteps,
}

/// The index of the first failed reason at or after `k`.
pub open spec fn first_failed_from(rest: Seq<CancelReason>, k: int) -> Option<int>
    decreases rest.len() - k,
{
    if k < 0 || k >= rest.len() {
        None
    } else if rest[k].check_failed {
        Some(k)
    } else {
        first_failed_from(rest, k + 1)
    }
}

/// What an endpoint's classifier makes of the reasons for its own steps.
pub open spec fn spec_classify(c: Classifier, rest: Seq<CancelReason>) -> Option<ApplyOutcome> {
    match c {
        Classifier::Ignore => None,
        Classifier::NotFoundOnFirst => if rest.len() > 0 && rest[0].check_failed {
            Some(ApplyOutcome::NotFound)
        } else {
            None
        },
        Classifier::NotFoundOnAny => if first_failed_from(rest, 0) is Some {
            Some(ApplyOutcome::NotFound)
        } else {
            None
        },
        Classifier::OrderSteps => if rest.len() > 0 && rest[0].check_failed {
            Some(ApplyOutcome::NotFound)
        } else {
            match first_failed_from(rest, 1) {
                Some(i) => Some(ApplyOutcome::InvalidReference { index: (i - 1) as usize }),
                None => None,
            }
        },
    }
}

/// What the version-bump step's failure means on its own: a version mismatch
/// is a conflict; an unexpired lease asks the caller to retry after it ends.
pub open spec fn spec_first_step_outcome(client_version: u64, now: u64, first: CancelReason)
    -> Option<ApplyOutcome> {
    if first.check_failed {
        match first.snapshot {
            Some(snap) => {
                if snap.version is Some && snap.version != Some(client_version) {
                    Some(ApplyOutcome::Conflict)
                } else {
                    match snap.locked_until {
                        Some(lu) => if lu > now {
                            Some(ApplyOutcome::RetryLater { seconds: (lu - now) as u64 })
                        } else {
                            None
                        },
                        None => None,
                    }
                }
            },
            None => None,
        }
    } else {
        None
    }
}

/// The verdict for a canceled transaction: the first reason decides conflict
/// or lock contention; otherwise the endpoint's classifier reads the rest; an
/// unexplained cancellation is a backend error.
pub open spec fn spec_interpret(
    client_version: u64,
    now: u64,
    reasons: Seq<CancelReason>,
    c: Classifier,
) -> ApplyOutcome {
    if reasons.len() == 0 {
        ApplyOutcome::Backend
    } else {
        match spec_first_step_outcome(client_version, now, reasons[0]) {
            Some(o) => o,
            None => match spec_classify(c, reasons.skip(1)) {
                Some(o) => o,
                None => ApplyOutcome::Backend,
            },
        }
    }
}

/// Finds the first failed reason at or after `k`.
fn find_first_failed(rest: &Vec<CancelReason>, k: usize) -> (r: Option<usize>)
    ensures
        match r {
            Some(i) => k <= i < rest@.len() && first_failed_from(rest@, k as int) == Some(
                i as int,
            ),
            None => first_failed_from(rest@, k as int) is None,
        },
{
    if k >= rest.len() {
        proof {
            lemma_first_failed_none(rest@, k as int);
        }
        return None;
    }
    let mut i: usize = k;
    while i < rest.len()
        invariant
            k <= i,
            i <= rest@.len(),
            forall|j: int| k <= j < i ==> !(#[trigger] rest@[j]).check_failed,
        decreases rest@.len() - i,
    {
        if rest[i].check_failed {
            proof {
                lemma_first_failed_skip(rest@, k as int, i as int);
            }
            return Some(i);
        }
        i = i + 1;
    }
    proof {
        lemma_first_failed_none(rest@, k as int);
    }
    None
}

proof fn lemma_first_failed_skip(rest: Seq<CancelReason>, k: int, i: int)
    requires
        0 <= k <= i < rest.len(),
        forall|j: int| k <= j < i ==> !(#[trigger] rest[j]).check_failed,
        rest[i].check_failed,
    ensures
        first_failed_from(rest, k) == Some(i),
    decreases i - k,
{
    if k < i {
        lemma_first_failed_skip(rest, k + 1, i);
    }
}

proof fn lemma_first_failed_none(rest: Seq<CancelReason>, k: int)
    requires
        k >= 0,
        forall|j: int| k <= j < rest.len() ==> !(#[trigger] rest[j]).check_failed,
    ensures
        first_failed_from(rest, k) is None,
    decreases rest.len() - k,
{
    if k < rest.len() {
        lemma_first_failed_none(rest, k + 1);
    }
}

/// Runs an endpoint's classifier over the reasons for its own steps.
fn classify(c: Classifier, rest: &Vec<CancelReason>) -> (r: Option<ApplyOutcome>)
    ensures
        r == spec_classify(c, rest@),
{
    match c {
        Classifier::Ignore => None,
        Classifier::NotFoundOnFirst => {
            if rest.len() > 0 && rest[0].check_failed {
                Some(ApplyOutcome::NotFound)
            } else {
                None
            }
        },
        Classifier::NotFoundOnAny => {
            match find_first_failed(rest, 0) {
                Some(_) => Some(ApplyOutcome::NotFound),
                None => None,
            }
        },
        Classifier::OrderSteps => {
            if rest.len() > 0 && rest[0].check_failed {
                Some(ApplyOutcome::NotFound)
            } else {
                match find_first_failed(rest, 1) {
                    Some(i) => Some(ApplyOutcome::InvalidReference { index: i - 1 }),
                    None => None,
                }
            }
        },
    }
}

/// Decodes a canceled transaction: reason by reason, in submission order, the
/// first step's failure means conflict or lock contention, and the rest fall
/// to the endpoint's classifier.
pub fn interpret_cancellation(
    client_version: u64,
    now: u64,
    reasons: &Vec<CancelReason>,
    c: Classifier,
) -> (out: ApplyOutcome)
    ensures
        out == spec_interpret(client_version, now, reasons@, c),
        !(out is Success),
{
    if reasons.len() == 0 {
        return ApplyOutcome::Backend;
    }
    let first = reasons[0];
    if first.check_failed {
        match first.snapshot {
            Some(snap) => {
                let version_mismatch = match snap.version {
                    Some(v) => v != client_version,
                    None => false,
                };
                if version_mismatch {
                    return ApplyOutcome::Conflict;
                }
                match snap.locked_until {
                    Some(lu) => {
                        if lu > now {
                            return ApplyOutcome::RetryLater { seconds: lu - now };
                        }
                    },
                    None => {},
                }
            },
            None => {},
        }
    }
    let mut rest: Vec<CancelReason> = Vec::new();
    let mut i: usize = 1;
    while i < reasons.len()
        invariant
            1 <= i <= reasons@.len(),
            rest@ =~= reasons@.subrange(1, i as int),
        decreases reasons@.len() - i,
    {
        rest.push(reasons[i]);
        i = i + 1;
    }
    proof {
        assert(rest@ =~= reasons@.skip(1));
    }
    match classify(c, &rest) {
        Some(o) => o,
        None => ApplyOutcome::Backend,
    }
}

} // verus!
