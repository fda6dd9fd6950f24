//! What holds of the ledger across its operations.

use vstd::prelude::*;
use crate::bill_lemmas::{
    added_slots, lemma_add_bills_wf, lemma_added_cost, lemma_allocated_concat,
    lemma_entries_accepted, lemma_members_accepted,
};
use crate::calendar::day_of_month;
use crate::error::Error;
use crate::fees::lemma_fee_bounds;
use crate::lemmas::{lemma_close_cycle_wf, lemma_create_cycle_wf, lemma_paid_bounds};
use crate::model::{Ledger, MONTH_SECONDS};
use crate::rules::bills::{entries_cost_upto, entry_error};
use crate::types::{Account, BillCycle, Identity, NewBillView, Transfer};

verus! {

/// A cycle of one to twelve months on a positive deposit is always opened,
/// as long as its end can be told in seconds. It ends thirty days per month
/// after it starts, its fee is the deposit times the fee rate over ten
/// thousand, rounded down, and of the deposit that comes in exactly the fee
/// goes out again: what stays in escrow is the deposit less the fee.
pub proof fn law_cycle_creation(
    s: Ledger,
    user: Identity,
    duration_months: u32,
    amount: i128,
    now: u64,
)
    requires
        s.wf(),
        s.cycles.len() < u64::MAX,
        1 <= duration_months <= 12,
        amount > 0,
        now + duration_months * 30 * 86_400 <= u64::MAX,
    ensures
        s.create_cycle_error(user, user, duration_months, amount, now) is None,
        s.create_cycle_next(user, duration_months, amount, now).wf(),
        ({
            let t = s.create_cycle_next(user, duration_months, amount, now);
            let out = s.create_cycle_output(user, amount);
            let cycle = t.cycle(out.cycle_id);
            &&& out.cycle_id == s.cycles.len() + 1
            &&& t.has_cycle(out.cycle_id)
            &&& cycle.user == user
            &&& cycle.is_active
            &&& cycle.start_date == now
            &&& cycle.end_date == cycle.start_date + duration_months * 30 * 86_400
            &&& cycle.total_deposited == amount
            &&& cycle.operating_fee == (amount * s.fee_percentage) / 10_000
            &&& out.deposit == (Transfer {
                from: Account::Holder(user),
                to: Account::Custody,
                amount,
            })
            &&& out.fee == (Transfer {
                from: Account::Custody,
                to: Account::Holder(s.fee_recipient),
                amount: cycle.operating_fee,
            })
            &&& out.deposit.amount - out.fee.amount == t.allocatable(out.cycle_id)
            &&& t.allocation(out.cycle_id) <= t.allocatable(out.cycle_id)
        }),
{
    lemma_fee_bounds(amount as int, s.fee_percentage as int);
    lemma_create_cycle_wf(s, user, duration_months, amount, now);
    let t = s.create_cycle_next(user, duration_months, amount, now);
    assert(t.cycle_ok(s.cycles.len() as int));
}

/// In every state the ledger can reach, the bills of a cycle commit no more
/// than its deposit less its fee.
pub proof fn law_allocation_within_escrow(s: Ledger, cycle_id: u64)
    requires
        s.wf(),
        s.has_cycle(cycle_id),
    ensures
        s.allocation(cycle_id) <= s.cycle(cycle_id).total_deposited - s.cycle(
            cycle_id,
        ).operating_fee,
{
    assert(s.cycle_ok(cycle_id - 1));
}

/// A batch of bills that is taken commits exactly its cost on top of what
/// was committed, and the cycle stays within its escrow.
pub proof fn law_added_bills_fit(s: Ledger, cycle_id: u64, entries: Seq<NewBillView>, now: u64)
    requires
        s.wf(),
        s.bills.len() + entries.len() <= u64::MAX,
        s.add_bills_error(s.cycle(cycle_id).user, cycle_id, entries, now) is None,
    ensures
        s.add_bills_next(cycle_id, entries).wf(),
        s.add_bills_next(cycle_id, entries).allocation(cycle_id) == s.allocation(cycle_id)
            + entries_cost_upto(entries, s.cycle_occurrences(cycle_id), entries.len() as int),
        s.add_bills_next(cycle_id, entries).allocation(cycle_id) <= s.allocatable(cycle_id),
{
    let t = s.add_bills_next(cycle_id, entries);
    lemma_add_bills_wf(s, cycle_id, entries, now);
    assert(t.cycle_ok(cycle_id - 1));
    lemma_allocated_concat(
        s.bills,
        added_slots(s, cycle_id, entries),
        cycle_id,
        s.cycle_occurrences(cycle_id),
        entries.len() as int,
    );
    lemma_added_cost(
        s,
        cycle_id,
        entries,
        cycle_id,
        s.cycle_occurrences(cycle_id),
        entries.len() as int,
    );
    assert(t.bills =~= s.bills + added_slots(s, cycle_id, entries));
}

/// A batch of bills that would commit more than the escrow holds is refused
/// as a whole, whoever declares it.
pub proof fn law_over_allocation_refused(
    s: Ledger,
    caller: Identity,
    cycle_id: u64,
    entries: Seq<NewBillView>,
    now: u64,
)
    requires
        s.wf(),
        s.has_cycle(cycle_id),
        s.allocation(cycle_id) + entries_cost_upto(
            entries,
            s.cycle_occurrences(cycle_id),
            entries.len() as int,
        ) > s.allocatable(cycle_id),
    ensures
        s.add_bills_error(caller, cycle_id, entries, now) is Some,
{
    if s.add_bills_error(caller, cycle_id, entries, now) is None {
        let n = entries.len() as int;
        assert(s.cycle_ok(cycle_id - 1));
        if n > 0 {
            lemma_entries_accepted(
                s.cycle(cycle_id),
                now,
                s.allocation(cycle_id),
                entries,
                n,
                n - 1,
            );
        }
    }
}

/// A bill that does not recur is paid once: after its payment, and once the
/// guard is released, a second payment is refused as already made, on the
/// owner's word as on the admin's.
pub proof fn law_no_second_payment(s: Ledger, caller: Identity, bill_id: u64, now: u64, later: u64)
    requires
        s.wf(),
        s.has_bill(bill_id),
        !s.bill(bill_id).is_recurring,
        s.pay_bill_error(caller, bill_id, now) is None || s.admin_pay_bill_error(
            caller,
            bill_id,
            now,
        ) is None,
    ensures
        s.pay_bill_next(bill_id, now).release_next().pay_bill_error(
            s.bill_owner(bill_id),
            bill_id,
            later,
        ) == Some(Error::BillAlreadyPaid),
        s.pay_bill_next(bill_id, now).release_next().admin_pay_bill_error(
            s.admin,
            bill_id,
            later,
        ) == Some(Error::BillAlreadyPaid),
{
}

/// A recurring bill is paid once in thirty days: within thirty days of its
/// payment the admin's second payment is refused as already made, and the
/// owner's is refused too.
pub proof fn law_no_second_payment_this_month(
    s: Ledger,
    caller: Identity,
    bill_id: u64,
    now: u64,
    later: u64,
)
    requires
        s.wf(),
        s.has_bill(bill_id),
        s.bill(bill_id).is_recurring,
        s.pay_bill_error(caller, bill_id, now) is None || s.admin_pay_bill_error(
            caller,
            bill_id,
            now,
        ) is None,
        later - now < MONTH_SECONDS,
    ensures
        s.pay_bill_next(bill_id, now).release_next().admin_pay_bill_error(
            s.admin,
            bill_id,
            later,
        ) == Some(Error::BillAlreadyPaid),
        s.pay_bill_next(bill_id, now).release_next().pay_bill_error(
            s.bill_owner(bill_id),
            bill_id,
            later,
        ) is Some,
{
}

/// While the guard is held, no payment and no closure goes through.
pub proof fn law_guard_blocks_fund_movements(
    s: Ledger,
    caller: Identity,
    bill_id: u64,
    cycle_id: u64,
    now: u64,
)
    requires
        s.locked,
    ensures
        s.pay_bill_error(caller, bill_id, now) is Some,
        s.admin_pay_bill_error(caller, bill_id, now) is Some,
        s.end_cycle_error(caller, cycle_id, now) is Some,
        s.admin_end_cycle_error(caller, cycle_id) is Some,
        caller == s.admin ==> s.admin_pay_bill_error(caller, bill_id, now) == Some(
            Error::Reentrancy,
        ) && s.admin_end_cycle_error(caller, cycle_id) == Some(Error::Reentrancy),
        s.pay_bill_error(caller, bill_id, now) == Some(Error::Reentrancy),
        s.end_cycle_error(caller, cycle_id, now) == Some(Error::Reentrancy),
{
}

/// Every payment and every closure takes the guard, and releasing it is all
/// that it takes to let the next one through.
pub proof fn law_guard_taken_and_released(s: Ledger, bill_id: u64, cycle_id: u64, now: u64)
    ensures
        s.pay_bill_next(bill_id, now).locked,
        s.close_cycle_next(cycle_id).locked,
        !s.pay_bill_next(bill_id, now).release_next().locked,
        !s.close_cycle_next(cycle_id).release_next().locked,
{
}

/// A due date on the 29th or later is refused whatever the month, and one on
/// the 28th or earlier is never refused for its day.
pub proof fn law_due_day_boundary(cycle: BillCycle, now: u64, committed: int, entry: NewBillView)
    requires
        entry.amount > 0,
        cycle.start_date <= entry.due_date <= cycle.end_date,
    ensures
        day_of_month(entry.due_date) >= 29 ==> entry_error(cycle, now, committed, entry) == Some(
            Error::InvalidDueDate,
        ),
        day_of_month(entry.due_date) <= 28 ==> entry_error(cycle, now, committed, entry) != Some(
            Error::InvalidDueDate,
        ),
{
}

/// The owner cannot close an active cycle before its end date. From the end
/// date on the closure goes through: the cycle is inactive afterwards, the
/// surplus is the deposit less the fee less the amounts of the paid bills,
/// it is never negative, and it is moved back to the owner exactly where it
/// is more than nothing.
pub proof fn law_cycle_closure(s: Ledger, cycle_id: u64, now: u64)
    requires
        s.wf(),
        !s.locked,
        s.has_cycle(cycle_id),
        s.cycle(cycle_id).is_active,
    ensures
        now < s.cycle(cycle_id).end_date ==> s.end_cycle_error(
            s.cycle(cycle_id).user,
            cycle_id,
            now,
        ) == Some(Error::CycleNotEnded),
        now >= s.cycle(cycle_id).end_date ==> s.end_cycle_error(
            s.cycle(cycle_id).user,
            cycle_id,
            now,
        ) is None,
        s.close_cycle_next(cycle_id).wf(),
        !s.close_cycle_next(cycle_id).cycle(cycle_id).is_active,
        ({
            let cycle = s.cycle(cycle_id);
            let out = s.close_cycle_output(cycle_id);
            &&& out.event.cycle_id == cycle_id
            &&& out.event.surplus == cycle.total_deposited - cycle.operating_fee - s.paid_total(
                cycle_id,
            )
            &&& out.event.surplus >= 0
            &&& out.event.surplus > 0 ==> out.refund == Some(
                Transfer {
                    from: Account::Custody,
                    to: Account::Holder(cycle.user),
                    amount: out.event.surplus,
                },
            )
            &&& out.event.surplus == 0 ==> out.refund is None
        }),
{
    lemma_paid_bounds(s, cycle_id, 0);
    lemma_close_cycle_wf(s, cycle_id);
}

/// A closed cycle cannot be closed again.
pub proof fn law_cycle_closes_once(s: Ledger, caller: Identity, cycle_id: u64, now: u64)
    requires
        s.has_cycle(cycle_id),
    ensures
        s.close_cycle_next(cycle_id).release_next().end_cycle_error(caller, cycle_id, now)
            is Some,
        s.close_cycle_next(cycle_id).release_next().admin_end_cycle_error(caller, cycle_id)
            is Some,
        s.close_cycle_next(cycle_id).release_next().admin_end_cycle_error(s.admin, cycle_id)
            == Some(Error::CycleAlreadyEnded),
{
}

/// While a staged hand-over of the admin role has not expired, no second
/// one can be staged; once it has expired, it can no longer be accepted.
pub proof fn law_admin_transfer_race(
    s: Ledger,
    new_admin: Identity,
    live_until: u32,
    sequence: u32,
    later: u32,
)
    requires
        s.transfer_admin_error(s.admin, sequence) is None,
    ensures
        later <= live_until ==> s.transfer_admin_next(new_admin, live_until).transfer_admin_error(
            s.admin,
            later,
        ) == Some(Error::PendingAdminTransferExists),
        later <= live_until ==> s.transfer_admin_next(new_admin, live_until).accept_admin_error(
            new_admin,
            later,
        ) is None,
        later > live_until ==> s.transfer_admin_next(new_admin, live_until).accept_admin_error(
            new_admin,
            later,
        ) == Some(Error::AdminTransferExpired),
        later > live_until ==> s.transfer_admin_next(new_admin, live_until).transfer_admin_error(
            s.admin,
            later,
        ) is None,
{
}

/// Where a list of bills is accepted for the month's one edit, every bill
/// listed exists and belongs to the cycle of the first.
pub proof fn law_batch_of_one_cycle(
    s: Ledger,
    caller: Identity,
    ids: Seq<u64>,
    month: Option<u32>,
    k: int,
)
    requires
        s.batch_error(caller, ids, month) is None,
        0 <= k < ids.len(),
    ensures
        s.has_bill(ids[k]),
        s.bill(ids[k]).cycle_id == s.bill(ids[0]).cycle_id,
        caller == s.bill_owner(ids[k]),
        s.cycle(s.bill(ids[k]).cycle_id).is_active,
{
    lemma_members_accepted(s, s.bill(ids[0]).cycle_id, ids, ids.len() as int, k);
}

/// A cycle is edited once a calendar month: after a skip or a deletion in a
/// month, every further skip or deletion in that cycle in the same month is
/// refused.
pub proof fn law_one_edit_a_month(
    s: Ledger,
    caller: Identity,
    bill_id: u64,
    other_bill: u64,
    month: u32,
    resume: Option<u64>,
)
    requires
        s.wf(),
        s.has_bill(bill_id),
        s.has_bill(other_bill),
        other_bill != bill_id,
        s.bill(other_bill).cycle_id == s.bill(bill_id).cycle_id,
    ensures
        s.skip_bill_next(bill_id, month, resume).skip_bill_error(
            caller,
            other_bill,
            Some(month),
            resume,
        ) is Some,
        s.delete_bill_next(bill_id, month).adjust_error(caller, other_bill, Some(month)) is Some,
        s.skip_bill_next(bill_id, month, resume).adjust_error(
            s.bill_owner(bill_id),
            other_bill,
            Some(month),
        ) == if s.cycle(s.bill(bill_id).cycle_id).is_active {
            Some(Error::MonthlyAdjustmentLimitReached)
        } else {
            Some(Error::CycleNotActive)
        },
{
    assert(s.bill_ok(bill_id - 1));
    assert(s.bill_ok(other_bill - 1));
}

} // verus!
