//! Why the operations on bills preserve the ledger's invariant.

use vstd::prelude::*;
use crate::lemmas::{
    lemma_paid_within_allocated, lemma_sums_monotone, lemma_sums_same, lemma_wf_amounts_positive,
    lemma_wf_no_dearer, same_terms, slot_kept_or_freed,
};
use crate::fees::lemma_fee_bounds;
use crate::model::{allocated_upto, occurrences, Ledger};
use crate::rules::bills::{entries_cost_upto, entries_error_upto, entry_error};
use crate::types::{BillCycle, BillView, NewBillView};

verus! {

/// In a well-formed ledger, what any prefix of the bills commits of a cycle
/// lies between nothing and what may be committed.
pub proof fn lemma_allocated_bounds(s: Ledger, cycle_id: u64, k: int)
    requires
        s.wf(),
        s.has_cycle(cycle_id),
        0 <= k <= s.bills.len(),
    ensures
        0 <= allocated_upto(s.bills, cycle_id, s.cycle_occurrences(cycle_id), k) <= s.allocation(
            cycle_id,
        ) <= s.allocatable(cycle_id) <= s.cycle(cycle_id).total_deposited,
        0 <= s.cycle(cycle_id).operating_fee,
{
    let occ = s.cycle_occurrences(cycle_id);
    lemma_wf_amounts_positive(s);
    lemma_paid_within_allocated(s.bills, cycle_id, occ, k);
    lemma_sums_monotone(s.bills, cycle_id, occ, k, s.bills.len() as int);
    assert(s.cycle_ok(cycle_id - 1));
    lemma_fee_bounds(
        s.cycle(cycle_id).total_deposited as int,
        s.cycle(cycle_id).fee_percentage as int,
    );
}

/// Paying a bill preserves the invariant.
pub proof fn lemma_pay_bill_wf(s: Ledger, bill_id: u64, now: u64)
    requires
        s.wf(),
        s.has_bill(bill_id),
    ensures
        s.pay_bill_next(bill_id, now).wf(),
{
    let t = s.pay_bill_next(bill_id, now);
    assert(s.bill_ok(bill_id - 1));
    assert forall|i: int| 0 <= i < s.bills.len() implies slot_kept_or_freed(
        s.bills[i],
        #[trigger] t.bills[i],
    ) by {}
    assert forall|i: int| 0 <= i < s.bills.len() implies (#[trigger] t.bills[i] matches Some(b)
        ==> s.cycle(b.cycle_id).start_date <= b.due_date <= s.cycle(b.cycle_id).end_date) by {
        assert(s.bill_ok(i));
    }
    lemma_wf_no_dearer(s, t);
}

/// Skipping a bill preserves the invariant.
pub proof fn lemma_skip_bill_wf(s: Ledger, bill_id: u64, month: u32, resume: Option<u64>)
    requires
        s.wf(),
        s.has_bill(bill_id),
    ensures
        s.skip_bill_next(bill_id, month, resume).wf(),
{
    let t = s.skip_bill_next(bill_id, month, resume);
    assert(s.bill_ok(bill_id - 1));
    assert forall|i: int| 0 <= i < s.cycles.len() implies same_terms(
        s.cycles[i],
        #[trigger] t.cycles[i],
    ) by {}
    assert forall|i: int| 0 <= i < s.bills.len() implies slot_kept_or_freed(
        s.bills[i],
        #[trigger] t.bills[i],
    ) by {}
    assert forall|i: int| 0 <= i < s.bills.len() implies (#[trigger] t.bills[i] matches Some(b)
        ==> s.cycle(b.cycle_id).start_date <= b.due_date <= s.cycle(b.cycle_id).end_date) by {
        assert(s.bill_ok(i));
    }
    lemma_wf_no_dearer(s, t);
}

/// Deleting a bill preserves the invariant.
pub proof fn lemma_delete_bill_wf(s: Ledger, bill_id: u64, month: u32)
    requires
        s.wf(),
        s.has_bill(bill_id),
    ensures
        s.delete_bill_next(bill_id, month).wf(),
{
    let t = s.delete_bill_next(bill_id, month);
    assert(s.bill_ok(bill_id - 1));
    assert forall|i: int| 0 <= i < s.cycles.len() implies same_terms(
        s.cycles[i],
        #[trigger] t.cycles[i],
    ) by {}
    assert forall|i: int| 0 <= i < s.bills.len() implies slot_kept_or_freed(
        s.bills[i],
        #[trigger] t.bills[i],
    ) by {}
    assert forall|i: int| 0 <= i < s.bills.len() implies (#[trigger] t.bills[i] matches Some(b)
        ==> s.cycle(b.cycle_id).start_date <= b.due_date <= s.cycle(b.cycle_id).end_date) by {
        assert(s.bill_ok(i));
    }
    lemma_wf_no_dearer(s, t);
}

/// Skipping a list of bills preserves the invariant.
pub proof fn lemma_skip_bills_wf(s: Ledger, ids: Seq<u64>, month: u32, resume: Option<u64>)
    requires
        s.wf(),
        ids.len() > 0,
        s.has_bill(ids[0]),
    ensures
        s.skip_bills_next(ids, month, resume).wf(),
{
    let t = s.skip_bills_next(ids, month, resume);
    assert(s.bill_ok(ids[0] - 1));
    assert forall|i: int| 0 <= i < s.cycles.len() implies same_terms(
        s.cycles[i],
        #[trigger] t.cycles[i],
    ) by {}
    assert forall|i: int| 0 <= i < s.bills.len() implies slot_kept_or_freed(
        s.bills[i],
        #[trigger] t.bills[i],
    ) by {}
    assert forall|i: int| 0 <= i < s.bills.len() implies (#[trigger] t.bills[i] matches Some(b)
        ==> s.cycle(b.cycle_id).start_date <= b.due_date <= s.cycle(b.cycle_id).end_date) by {
        assert(s.bill_ok(i));
    }
    lemma_wf_no_dearer(s, t);
}

/// Deleting a list of bills preserves the invariant.
pub proof fn lemma_delete_bills_wf(s: Ledger, ids: Seq<u64>, month: u32)
    requires
        s.wf(),
        ids.len() > 0,
        s.has_bill(ids[0]),
    ensures
        s.delete_bills_next(ids, month).wf(),
{
    let t = s.delete_bills_next(ids, month);
    assert(s.bill_ok(ids[0] - 1));
    assert forall|i: int| 0 <= i < s.cycles.len() implies same_terms(
        s.cycles[i],
        #[trigger] t.cycles[i],
    ) by {}
    assert forall|i: int| 0 <= i < s.bills.len() implies slot_kept_or_freed(
        s.bills[i],
        #[trigger] t.bills[i],
    ) by {}
    assert forall|i: int| 0 <= i < s.bills.len() implies (#[trigger] t.bills[i] matches Some(b)
        ==> s.cycle(b.cycle_id).start_date <= b.due_date <= s.cycle(b.cycle_id).end_date) by {
        assert(s.bill_ok(i));
    }
    lemma_wf_no_dearer(s, t);
}

/// The bills that a batch of declared bills becomes.
pub open spec fn added_slots(s: Ledger, cycle_id: u64, entries: Seq<NewBillView>) -> Seq<
    Option<BillView>,
> {
    Seq::new(entries.len(), |i: int| Some(s.added_bill(cycle_id, entries[i], i)))
}

/// Where a batch is accepted, each of its bills is accepted against what is
/// committed before it, and so is every shorter batch.
pub proof fn lemma_entries_accepted(
    cycle: BillCycle,
    now: u64,
    committed: int,
    entries: Seq<NewBillView>,
    k: int,
    i: int,
)
    requires
        0 <= i < k <= entries.len(),
        entries_error_upto(cycle, now, committed, entries, k) is None,
    ensures
        entries_error_upto(cycle, now, committed, entries, i) is None,
        entry_error(
            cycle,
            now,
            committed + entries_cost_upto(
                entries,
                occurrences(cycle.start_date, cycle.end_date),
                i,
            ),
            entries[i],
        ) is None,
    decreases k,
{
    if i < k - 1 {
        lemma_entries_accepted(cycle, now, committed, entries, k - 1, i);
    }
}

/// The first refusal in a batch stands, however many bills follow.
pub proof fn lemma_first_error_stands(
    cycle: BillCycle,
    now: u64,
    committed: int,
    entries: Seq<NewBillView>,
    k: int,
    n: int,
)
    requires
        0 < k <= n <= entries.len(),
        entries_error_upto(cycle, now, committed, entries, k) is Some,
    ensures
        entries_error_upto(cycle, now, committed, entries, n) == entries_error_upto(
            cycle,
            now,
            committed,
            entries,
            k,
        ),
    decreases n - k,
{
    if k < n {
        lemma_first_error_stands(cycle, now, committed, entries, k, n - 1);
    }
}

/// What two runs of slots commit, one after the other, is the sum of what
/// each commits.
pub proof fn lemma_allocated_concat(
    first: Seq<Option<BillView>>,
    second: Seq<Option<BillView>>,
    cycle_id: u64,
    occurrences: int,
    k: int,
)
    requires
        0 <= k <= second.len(),
    ensures
        allocated_upto(first + second, cycle_id, occurrences, first.len() + k) == allocated_upto(
            first,
            cycle_id,
            occurrences,
            first.len() as int,
        ) + allocated_upto(second, cycle_id, occurrences, k),
    decreases k,
{
    if k == 0 {
        lemma_sums_same(first, first + second, cycle_id, occurrences, first.len() as int);
    } else {
        lemma_allocated_concat(first, second, cycle_id, occurrences, k - 1);
        assert((first + second)[first.len() + k - 1] == second[k - 1]);
    }
}

/// New bills commit their cost of the cycle they are declared in, and
/// nothing of any other.
pub proof fn lemma_added_cost(
    s: Ledger,
    cycle_id: u64,
    entries: Seq<NewBillView>,
    other: u64,
    occurrences: int,
    k: int,
)
    requires
        0 <= k <= entries.len(),
    ensures
        allocated_upto(added_slots(s, cycle_id, entries), other, occurrences, k) == if other
            == cycle_id {
            entries_cost_upto(entries, occurrences, k)
        } else {
            0
        },
    decreases k,
{
    if k > 0 {
        lemma_added_cost(s, cycle_id, entries, other, occurrences, k - 1);
        assert(added_slots(s, cycle_id, entries)[k - 1] == Some(
            s.added_bill(cycle_id, entries[k - 1], k - 1),
        ));
    }
}

/// Taking a batch of bills that is accepted preserves the invariant.
pub proof fn lemma_add_bills_wf(s: Ledger, cycle_id: u64, entries: Seq<NewBillView>, now: u64)
    requires
        s.wf(),
        s.bills.len() + entries.len() <= u64::MAX,
        s.add_bills_error(s.cycle(cycle_id).user, cycle_id, entries, now) is None,
    ensures
        s.add_bills_next(cycle_id, entries).wf(),
{
    let t = s.add_bills_next(cycle_id, entries);
    let added = added_slots(s, cycle_id, entries);
    let n = entries.len() as int;
    let cycle = s.cycle(cycle_id);
    let committed = s.allocation(cycle_id);
    assert(t.bills =~= s.bills + added);
    assert forall|i: int| 0 <= i < t.bills.len() implies #[trigger] t.bill_ok(i) by {
        if i < s.bills.len() {
            assert(s.bill_ok(i));
        } else {
            let j = i - s.bills.len();
            lemma_entries_accepted(cycle, now, committed, entries, n, j);
        }
    }
    assert forall|i: int| 0 <= i < t.cycles.len() implies #[trigger] t.cycle_ok(i) by {
        assert(s.cycle_ok(i));
        let other = (i + 1) as u64;
        let occ = s.cycle_occurrences(other);
        lemma_allocated_concat(s.bills, added, other, occ, n);
        lemma_added_cost(s, cycle_id, entries, other, occ, n);
        if other == cycle_id && n > 0 {
            lemma_entries_accepted(cycle, now, committed, entries, n, n - 1);
        }
    }
}

/// Where a list of bills is accepted for a cycle, each of them exists and
/// belongs to it.
pub proof fn lemma_members_accepted(s: Ledger, cycle_id: u64, ids: Seq<u64>, k: int, j: int)
    requires
        0 <= j < k <= ids.len(),
        s.members_error_upto(cycle_id, ids, k) is None,
    ensures
        s.members_error_upto(cycle_id, ids, j) is None,
        s.has_bill(ids[j]),
        s.bill(ids[j]).cycle_id == cycle_id,
    decreases k,
{
    if j < k - 1 {
        lemma_members_accepted(s, cycle_id, ids, k - 1, j);
    }
}

/// The first refusal in a list of bills stands, however many bills follow.
pub proof fn lemma_members_error_stands(s: Ledger, cycle_id: u64, ids: Seq<u64>, k: int, n: int)
    requires
        0 < k <= n <= ids.len(),
        s.members_error_upto(cycle_id, ids, k) is Some,
    ensures
        s.members_error_upto(cycle_id, ids, n) == s.members_error_upto(cycle_id, ids, k),
    decreases n - k,
{
    if k < n {
        lemma_members_error_stands(s, cycle_id, ids, k, n - 1);
    }
}

} // verus!
