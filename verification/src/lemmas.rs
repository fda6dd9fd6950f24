//! Facts about the ledger's sums and its invariant that the operations and
//! the laws are proved from.

use vstd::prelude::*;
use crate::fees::{fee_percentage_allowed, lemma_fee_bounds};
use crate::model::{allocated_upto, occurrences, paid_upto, slot_cost, slot_paid, Ledger};
use crate::types::{BillCycle, BillView, Identity};

verus! {

/// A ledger that differs from a well-formed one in neither its cycles nor its
/// bills, and has an allowed fee rate, is well-formed too.
pub proof fn lemma_wf_same_records(before: Ledger, after: Ledger)
    requires
        before.wf(),
        after.cycles == before.cycles,
        after.bills == before.bills,
        fee_percentage_allowed(after.fee_percentage),
    ensures
        after.wf(),
{
    assert forall|i: int| 0 <= i < after.bills.len() implies #[trigger] after.bill_ok(i) by {
        assert(before.bill_ok(i));
    }
    assert forall|i: int| 0 <= i < after.cycles.len() implies #[trigger] after.cycle_ok(i) by {
        assert(before.cycle_ok(i));
    }
}

/// Every bill among the first `n` slots is for a positive amount.
pub open spec fn amounts_positive(bills: Seq<Option<BillView>>, n: int) -> bool {
    forall|i: int| 0 <= i < n ==> (#[trigger] bills[i] matches Some(b) ==> b.amount > 0)
}

/// A recurring bill is expected at least once.
pub proof fn lemma_occurrences_positive(start_date: u64, end_date: u64)
    ensures
        occurrences(start_date, end_date) >= 1,
{
}

/// A bill for a positive amount commits at least that amount, and a paid one
/// has drawn no more than it commits.
pub proof fn lemma_slot_bounds(slot: Option<BillView>, cycle_id: u64, occurrences: int)
    requires
        occurrences >= 1,
        slot matches Some(b) ==> b.amount > 0,
    ensures
        0 <= slot_paid(slot, cycle_id) <= slot_cost(slot, cycle_id, occurrences),
{
    if let Some(b) = slot {
        let amount = b.amount as int;
        assert(amount * occurrences >= amount) by (nonlinear_arith)
            requires
                amount > 0,
                occurrences >= 1,
        ;
    }
}

/// Bills of other cycles commit nothing of this one.
pub proof fn lemma_allocated_absent(
    bills: Seq<Option<BillView>>,
    cycle_id: u64,
    occurrences: int,
    n: int,
)
    requires
        0 <= n <= bills.len(),
        forall|i: int| 0 <= i < n ==> (#[trigger] bills[i] matches Some(b) ==> b.cycle_id != cycle_id),
    ensures
        allocated_upto(bills, cycle_id, occurrences, n) == 0,
        paid_upto(bills, cycle_id, n) == 0,
    decreases n,
{
    if n > 0 {
        lemma_allocated_absent(bills, cycle_id, occurrences, n - 1);
        assert(bills[n - 1] matches Some(b) ==> b.cycle_id != cycle_id);
    }
}

/// What has been paid out of a cycle never exceeds what its bills commit,
/// and neither is negative.
pub proof fn lemma_paid_within_allocated(
    bills: Seq<Option<BillView>>,
    cycle_id: u64,
    occurrences: int,
    n: int,
)
    requires
        0 <= n <= bills.len(),
        occurrences >= 1,
        amounts_positive(bills, n),
    ensures
        0 <= paid_upto(bills, cycle_id, n) <= allocated_upto(bills, cycle_id, occurrences, n),
    decreases n,
{
    if n > 0 {
        lemma_paid_within_allocated(bills, cycle_id, occurrences, n - 1);
        assert(bills[n - 1] matches Some(b) ==> b.amount > 0);
        lemma_slot_bounds(bills[n - 1], cycle_id, occurrences);
    }
}

/// The sums only grow with the number of slots counted.
pub proof fn lemma_sums_monotone(
    bills: Seq<Option<BillView>>,
    cycle_id: u64,
    occurrences: int,
    k: int,
    n: int,
)
    requires
        0 <= k <= n <= bills.len(),
        occurrences >= 1,
        amounts_positive(bills, n),
    ensures
        allocated_upto(bills, cycle_id, occurrences, k) <= allocated_upto(
            bills,
            cycle_id,
            occurrences,
            n,
        ),
        paid_upto(bills, cycle_id, k) <= paid_upto(bills, cycle_id, n),
    decreases n - k,
{
    if k < n {
        lemma_sums_monotone(bills, cycle_id, occurrences, k, n - 1);
        assert(bills[n - 1] matches Some(b) ==> b.amount > 0);
        lemma_slot_bounds(bills[n - 1], cycle_id, occurrences);
    }
}

/// In a well-formed ledger every bill is for a positive amount.
pub proof fn lemma_wf_amounts_positive(s: Ledger)
    requires
        s.wf(),
    ensures
        amounts_positive(s.bills, s.bills.len() as int),
{
    assert forall|i: int| 0 <= i < s.bills.len() implies (#[trigger] s.bills[i] matches Some(b)
        ==> b.amount > 0) by {
        assert(s.bill_ok(i));
    }
}

/// In a well-formed ledger, what has been paid out of a cycle lies between
/// nothing and what may be committed, whichever prefix of the bills is
/// counted; so the surplus of a cycle is never negative.
pub proof fn lemma_paid_bounds(s: Ledger, cycle_id: u64, k: int)
    requires
        s.wf(),
        s.has_cycle(cycle_id),
        0 <= k <= s.bills.len(),
    ensures
        0 <= paid_upto(s.bills, cycle_id, k) <= s.paid_total(cycle_id) <= s.allocation(cycle_id)
            <= s.allocatable(cycle_id) <= s.cycle(cycle_id).total_deposited,
        0 <= s.surplus(cycle_id) <= s.cycle(cycle_id).total_deposited,
{
    let occ = s.cycle_occurrences(cycle_id);
    let n = s.bills.len() as int;
    lemma_wf_amounts_positive(s);
    lemma_paid_within_allocated(s.bills, cycle_id, occ, k);
    lemma_paid_within_allocated(s.bills, cycle_id, occ, n);
    lemma_sums_monotone(s.bills, cycle_id, occ, k, n);
    assert(s.cycle_ok(cycle_id - 1));
    lemma_fee_bounds(
        s.cycle(cycle_id).total_deposited as int,
        s.cycle(cycle_id).fee_percentage as int,
    );
}

/// Two cycles on the same terms: they differ at most in whether they are
/// still active and in the month of their last edit.
pub open spec fn same_terms(before: BillCycle, after: BillCycle) -> bool {
    &&& after.user == before.user
    &&& after.start_date == before.start_date
    &&& after.end_date == before.end_date
    &&& after.total_deposited == before.total_deposited
    &&& after.operating_fee == before.operating_fee
    &&& after.fee_percentage == before.fee_percentage
}

/// A slot that has not grown dearer: its bill is gone, or is the same bill
/// for the same amount in the same cycle.
pub open spec fn slot_kept_or_freed(before: Option<BillView>, after: Option<BillView>) -> bool {
    after matches Some(b) ==> {
        &&& before is Some
        &&& b.id == before->0.id
        &&& b.cycle_id == before->0.cycle_id
        &&& b.amount == before->0.amount
        &&& b.is_recurring == before->0.is_recurring
    }
}

/// Where no slot commits more than before, the whole commits no more.
pub proof fn lemma_allocated_pointwise(
    before: Seq<Option<BillView>>,
    after: Seq<Option<BillView>>,
    cycle_id: u64,
    occurrences: int,
    n: int,
)
    requires
        0 <= n <= before.len(),
        n <= after.len(),
        forall|i: int|
            0 <= i < n ==> #[trigger] slot_cost(after[i], cycle_id, occurrences) <= slot_cost(
                before[i],
                cycle_id,
                occurrences,
            ),
    ensures
        allocated_upto(after, cycle_id, occurrences, n) <= allocated_upto(
            before,
            cycle_id,
            occurrences,
            n,
        ),
    decreases n,
{
    if n > 0 {
        lemma_allocated_pointwise(before, after, cycle_id, occurrences, n - 1);
        assert(slot_cost(after[n - 1], cycle_id, occurrences) <= slot_cost(
            before[n - 1],
            cycle_id,
            occurrences,
        ));
    }
}

/// Where every slot commits what it did before, the whole commits the same
/// and the same has been paid.
pub proof fn lemma_sums_same(
    before: Seq<Option<BillView>>,
    after: Seq<Option<BillView>>,
    cycle_id: u64,
    occurrences: int,
    n: int,
)
    requires
        0 <= n <= before.len(),
        n <= after.len(),
        forall|i: int| 0 <= i < n ==> #[trigger] after[i] == before[i],
    ensures
        allocated_upto(after, cycle_id, occurrences, n) == allocated_upto(
            before,
            cycle_id,
            occurrences,
            n,
        ),
        paid_upto(after, cycle_id, n) == paid_upto(before, cycle_id, n),
    decreases n,
{
    if n > 0 {
        lemma_sums_same(before, after, cycle_id, occurrences, n - 1);
        assert(after[n - 1] == before[n - 1]);
    }
}

/// A change that keeps every cycle on its terms, and frees slots or leaves
/// their bills at the same amount with a due date inside the cycle,
/// preserves the invariant.
pub proof fn lemma_wf_no_dearer(s: Ledger, t: Ledger)
    requires
        s.wf(),
        t.fee_percentage == s.fee_percentage,
        t.cycles.len() == s.cycles.len(),
        t.bills.len() == s.bills.len(),
        forall|i: int| 0 <= i < s.cycles.len() ==> same_terms(s.cycles[i], #[trigger] t.cycles[i]),
        forall|i: int|
            0 <= i < s.bills.len() ==> slot_kept_or_freed(s.bills[i], #[trigger] t.bills[i]),
        forall|i: int|
            0 <= i < s.bills.len() ==> (#[trigger] t.bills[i] matches Some(b) ==> s.cycle(
                b.cycle_id,
            ).start_date <= b.due_date <= s.cycle(b.cycle_id).end_date),
    ensures
        t.wf(),
{
    assert forall|i: int| 0 <= i < t.bills.len() implies #[trigger] t.bill_ok(i) by {
        assert(s.bill_ok(i));
        assert(slot_kept_or_freed(s.bills[i], t.bills[i]));
        if let Some(b) = t.bills[i] {
            assert(same_terms(s.cycles[b.cycle_id - 1], t.cycles[b.cycle_id - 1]));
        }
    }
    assert forall|i: int| 0 <= i < t.cycles.len() implies #[trigger] t.cycle_ok(i) by {
        assert(s.cycle_ok(i));
        assert(same_terms(s.cycles[i], t.cycles[i]));
        let cycle_id = (i + 1) as u64;
        let occ = s.cycle_occurrences(cycle_id);
        assert(t.cycle_occurrences(cycle_id) == occ);
        lemma_occurrences_positive(s.cycles[i].start_date, s.cycles[i].end_date);
        assert forall|j: int| 0 <= j < s.bills.len() implies #[trigger] slot_cost(
            t.bills[j],
            cycle_id,
            occ,
        ) <= slot_cost(s.bills[j], cycle_id, occ) by {
            assert(s.bill_ok(j));
            assert(slot_kept_or_freed(s.bills[j], t.bills[j]));
            lemma_slot_bounds(s.bills[j], cycle_id, occ);
        }
        lemma_allocated_pointwise(s.bills, t.bills, cycle_id, occ, s.bills.len() as int);
    }
}

/// Opening a cycle preserves the invariant.
pub proof fn lemma_create_cycle_wf(
    s: Ledger,
    user: Identity,
    duration_months: u32,
    amount: i128,
    now: u64,
)
    requires
        s.wf(),
        s.cycles.len() < u64::MAX,
        s.create_cycle_error(user, user, duration_months, amount, now) is None,
    ensures
        s.create_cycle_next(user, duration_months, amount, now).wf(),
{
    let t = s.create_cycle_next(user, duration_months, amount, now);
    let new_id = (s.cycles.len() + 1) as u64;
    lemma_fee_bounds(amount as int, s.fee_percentage as int);
    assert forall|i: int| 0 <= i < t.bills.len() implies #[trigger] t.bill_ok(i) by {
        assert(s.bill_ok(i));
    }
    assert forall|i: int| 0 <= i < t.cycles.len() implies #[trigger] t.cycle_ok(i) by {
        if i < s.cycles.len() {
            assert(s.cycle_ok(i));
            assert(t.cycles[i] == s.cycles[i]);
        } else {
            assert forall|j: int| 0 <= j < t.bills.len() implies (#[trigger] t.bills[j] matches Some(
                b,
            ) ==> b.cycle_id != new_id) by {
                assert(s.bill_ok(j));
            }
            lemma_allocated_absent(
                t.bills,
                new_id,
                t.cycle_occurrences(new_id),
                t.bills.len() as int,
            );
        }
    }
}

/// Closing a cycle preserves the invariant.
pub proof fn lemma_close_cycle_wf(s: Ledger, cycle_id: u64)
    requires
        s.wf(),
        s.has_cycle(cycle_id),
    ensures
        s.close_cycle_next(cycle_id).wf(),
{
    let t = s.close_cycle_next(cycle_id);
    assert forall|i: int| 0 <= i < t.bills.len() implies #[trigger] t.bill_ok(i) by {
        assert(s.bill_ok(i));
    }
    assert forall|i: int| 0 <= i < t.cycles.len() implies #[trigger] t.cycle_ok(i) by {
        assert(s.cycle_ok(i));
    }
}

} // verus!
