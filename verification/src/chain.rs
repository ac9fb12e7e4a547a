//! The rule by which a scan gives each block its status.
//!
//! A scan visits blocks one after another and learns of each whether it
//! verifies. Everything here is stated over the sequence `passed` of those
//! outcomes, in the order of the visit: `passed[i]` says whether the block
//! visited at position `i` verified.

use crate::block::{BlockView, BlockWithStatusView, Status};
use vstd::prelude::*;

verus! {

/// Whether a block visited before position `i` verified, so that trust was
/// already established when position `i` was reached.
pub open spec fn recovered_before(passed: Seq<bool>, i: int) -> bool {
    exists|j: int| 0 <= j < i && j < passed.len() && #[trigger] passed[j]
}

/// The status of the block visited at position `i`: `Tampered` if it does not
/// verify, `Recovered` if it is the first that verifies, `Valid` otherwise.
pub open spec fn status_at(passed: Seq<bool>, i: int) -> Status {
    if !passed[i] {
        Status::Tampered
    } else if recovered_before(passed, i) {
        Status::Valid
    } else {
        Status::Recovered
    }
}

/// The statuses that a scan with the outcomes `passed` gives, in the order of
/// the visit.
pub open spec fn statuses(passed: Seq<bool>) -> Seq<Status> {
    Seq::new(passed.len(), |i: int| status_at(passed, i))
}

/// The result of a scan that visited the blocks `visited`, in this order, with
/// the outcomes `passed`: each block with its status, in the order of the
/// visit.
pub open spec fn classified(visited: Seq<BlockView>, passed: Seq<bool>) -> Seq<BlockWithStatusView> {
    Seq::new(
        visited.len(),
        |i: int| BlockWithStatusView { block: visited[i], status: statuses(passed)[i] },
    )
}

/// One step of a scan. From `recovered`, which says whether trust was
/// established before this block, and `passed`, which says whether this block
/// verifies, it gives the block's status and whether trust is established
/// after it.
pub fn scan_step(recovered: bool, passed: bool) -> (step: (Status, bool))
    ensures
        step.0 == (if !passed {
            Status::Tampered
        } else if recovered {
            Status::Valid
        } else {
            Status::Recovered
        }),
        step.1 == (recovered || passed),
{
    if !passed {
        (Status::Tampered, recovered)
    } else if recovered {
        (Status::Valid, true)
    } else {
        (Status::Recovered, true)
    }
}

/// Runs a scan over outcomes that are already known: `passed[i]` says whether
/// the block visited at position `i` verifies. The result holds the status of
/// each position.
pub fn classify(passed: &[bool]) -> (result: Vec<Status>)
    ensures
        result@ == statuses(passed@),
{
    let mut result: Vec<Status> = Vec::new();
    let mut recovered = false;
    let mut i: usize = 0;
    while i < passed.len()
        invariant
            i <= passed@.len(),
            result@.len() == i,
            recovered == recovered_before(passed@, i as int),
            forall|k: int| 0 <= k < i ==> result@[k] == status_at(passed@, k),
        decreases passed@.len() - i,
    {
        let (status, next) = scan_step(recovered, passed[i]);
        proof {
            lemma_recovered_after(passed@, i as int);
        }
        result.push(status);
        recovered = next;
        i += 1;
    }
    assert(result@ =~= statuses(passed@));
    result
}

/// Trust is established after the block at position `i` exactly where it was
/// established before that block, or that block verifies.
pub proof fn lemma_recovered_after(passed: Seq<bool>, i: int)
    requires
        0 <= i < passed.len(),
    ensures
        recovered_before(passed, i + 1) == (recovered_before(passed, i) || passed[i]),
{
    if recovered_before(passed, i + 1) {
        let j = choose|j: int| 0 <= j < i + 1 && j < passed.len() && #[trigger] passed[j];
        assert(j < i ==> recovered_before(passed, i));
    }
    if recovered_before(passed, i) {
        let j = choose|j: int| 0 <= j < i && j < passed.len() && #[trigger] passed[j];
        assert(recovered_before(passed, i + 1));
    }
}

/// Where every block verifies, the one visited first is `Recovered` and all
/// the others are `Valid`; none is `Tampered`.
pub proof fn lemma_untampered(passed: Seq<bool>)
    requires
        forall|i: int| 0 <= i < passed.len() ==> passed[i],
    ensures
        passed.len() > 0 ==> status_at(passed, 0) == Status::Recovered,
        forall|i: int| 0 < i < passed.len() ==> status_at(passed, i) == Status::Valid,
{
    assert forall|i: int| 0 < i < passed.len() implies status_at(passed, i) == Status::Valid by {
        assert(passed[0]);
    }
}

/// Where no block verifies, every block is `Tampered`, and conversely: a scan
/// has no `Recovered` block exactly where every block fails.
pub proof fn lemma_all_tampered(passed: Seq<bool>)
    ensures
        (forall|i: int| 0 <= i < passed.len() ==> !passed[i]) ==> (forall|i: int|
            0 <= i < passed.len() ==> status_at(passed, i) == Status::Tampered),
        (forall|i: int| 0 <= i < passed.len() ==> status_at(passed, i) != Status::Recovered) ==> (
        forall|i: int| 0 <= i < passed.len() ==> !passed[i]),
{
    if forall|i: int| 0 <= i < passed.len() ==> status_at(passed, i) != Status::Recovered {
        assert forall|i: int| 0 <= i < passed.len() implies !passed[i] by {
            lemma_no_recovered_prefix(passed, i);
        }
    }
}

/// Where no block up to position `i` is `Recovered`, none of them verifies.
proof fn lemma_no_recovered_prefix(passed: Seq<bool>, i: int)
    requires
        0 <= i < passed.len(),
        forall|k: int| 0 <= k <= i ==> status_at(passed, k) != Status::Recovered,
    ensures
        !passed[i],
        !recovered_before(passed, i + 1),
    decreases i,
{
    if i > 0 {
        lemma_no_recovered_prefix(passed, i - 1);
    }
    lemma_recovered_after(passed, i);
    assert(status_at(passed, i) != Status::Recovered);
}

/// Trust, once established, stays: after a block that is `Recovered` or
/// `Valid`, every later block of the visit was reached with trust
/// established, so it is `Valid` or `Tampered` and never `Recovered`.
pub proof fn lemma_recovery_is_permanent(passed: Seq<bool>, i: int, k: int)
    requires
        0 <= i < k < passed.len(),
        status_at(passed, i) != Status::Tampered,
    ensures
        recovered_before(passed, k),
        status_at(passed, k) == (if passed[k] {
            Status::Valid
        } else {
            Status::Tampered
        }),
{
    assert(passed[i]);
}

/// At most one block of a scan is `Recovered`.
pub proof fn lemma_one_recovered(passed: Seq<bool>, i: int, k: int)
    requires
        0 <= i < passed.len(),
        0 <= k < passed.len(),
        status_at(passed, i) == Status::Recovered,
        status_at(passed, k) == Status::Recovered,
    ensures
        i == k,
{
    if i < k {
        lemma_recovery_is_permanent(passed, i, k);
    } else if k < i {
        lemma_recovery_is_permanent(passed, k, i);
    }
}

/// A status, once given, is final: it depends only on the outcomes up to its
/// own position, whatever the scan meets afterwards.
pub proof fn lemma_status_is_final(passed: Seq<bool>, other: Seq<bool>, i: int)
    requires
        0 <= i < passed.len(),
        i < other.len(),
        forall|j: int| 0 <= j <= i ==> passed[j] == other[j],
    ensures
        status_at(passed, i) == status_at(other, i),
{
    if recovered_before(passed, i) {
        let j = choose|j: int| 0 <= j < i && j < passed.len() && #[trigger] passed[j];
        assert(other[j]);
    }
    if recovered_before(other, i) {
        let j = choose|j: int| 0 <= j < i && j < other.len() && #[trigger] other[j];
        assert(passed[j]);
    }
}

} // verus!
