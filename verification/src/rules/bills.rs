//! The bill ledger: declaring bills, paying them, and the one structural
//! edit a month by which bills are skipped or deleted.

use vstd::prelude::*;
use crate::calendar::day_of_month;
use crate::error::Error;
use crate::events::{BillAdded, BillCancelled, BillPaid};
use crate::model::{bill_cost, occurrences, Ledger, MAX_DUE_DAY, MIN_LEAD_SECONDS, MONTH_SECONDS};
use crate::model::SECONDS_PER_DAY;
use crate::types::{Account, BillCycle, BillPayment, BillView, Identity, NewBillView, Transfer};

verus! {

/// Whether every month named is one of the twelve.
pub open spec fn months_valid(calendar: Seq<u32>) -> bool {
    forall|k: int| 0 <= k < calendar.len() ==> 1 <= #[trigger] calendar[k] <= 12
}

/// What a declared bill would commit of the escrow.
pub open spec fn entry_cost(entry: NewBillView, occurrences: int) -> int {
    bill_cost(entry.amount as int, entry.is_recurring, occurrences)
}

/// What the first `k` declared bills would commit together.
pub open spec fn entries_cost_upto(entries: Seq<NewBillView>, occurrences: int, k: int) -> int
    decreases k,
{
    if k <= 0 {
        0
    } else {
        entries_cost_upto(entries, occurrences, k - 1) + entry_cost(entries[k - 1], occurrences)
    }
}

/// Why a declared bill is refused, if it is, in a cycle of which `committed`
/// is committed already: a bill must be for a positive amount, fall due
/// within the cycle, on a day from the 1st to the 28th, at least seven days
/// from now, name only real months if it recurs, and fit into what is left
/// of the escrow.
pub open spec fn entry_error(cycle: BillCycle, now: u64, committed: int, entry: NewBillView) -> Option<
    Error,
> {
    if entry.amount <= 0 {
        Some(Error::InvalidBillAmount)
    } else if entry.due_date < cycle.start_date || entry.due_date > cycle.end_date {
        Some(Error::InvalidDueDate)
    } else if day_of_month(entry.due_date) > MAX_DUE_DAY {
        Some(Error::InvalidDueDate)
    } else if entry.due_date < now + MIN_LEAD_SECONDS {
        Some(Error::BillLeadTimeTooShort)
    } else if entry.is_recurring && !months_valid(entry.recurrence_calendar) {
        Some(Error::InvalidRecurrence)
    } else if committed + entry_cost(entry, occurrences(cycle.start_date, cycle.end_date))
        > cycle.total_deposited - cycle.operating_fee {
        Some(Error::InsufficientFunds)
    } else {
        None
    }
}

/// Why the first `k` declared bills are refused, if they are: the first
/// failing of the first bill that fails, each bill held against what the
/// cycle's bills and the declared bills before it commit.
pub open spec fn entries_error_upto(
    cycle: BillCycle,
    now: u64,
    committed: int,
    entries: Seq<NewBillView>,
    k: int,
) -> Option<Error>
    decreases k,
{
    if k <= 0 {
        None
    } else {
        match entries_error_upto(cycle, now, committed, entries, k - 1) {
            Some(e) => Some(e),
            None => entry_error(
                cycle,
                now,
                committed + entries_cost_upto(
                    entries,
                    occurrences(cycle.start_date, cycle.end_date),
                    k - 1,
                ),
                entries[k - 1],
            ),
        }
    }
}

/// Whether a recurring bill was paid less than thirty days ago.
pub open spec fn paid_this_month(bill: BillView, now: u64) -> bool {
    bill.is_recurring && bill.last_paid_date is Some && now - bill.last_paid_date->0
        < MONTH_SECONDS
}

/// A bill after its payment: a recurring one falls due again thirty days on
/// if that is still before the cycle ends; any other is paid for good.
pub open spec fn paid_bill(bill: BillView, cycle_end: u64, now: u64) -> BillView {
    if bill.is_recurring && bill.due_date + MONTH_SECONDS < cycle_end {
        BillView {
            due_date: (bill.due_date + MONTH_SECONDS) as u64,
            is_paid: false,
            last_paid_date: Some(now),
            ..bill
        }
    } else {
        BillView { is_paid: true, last_paid_date: Some(now), ..bill }
    }
}

/// A slot after its bill has been skipped: a recurring bill rests until
/// `resume`; any other is gone.
pub open spec fn skipped_slot(slot: Option<BillView>, resume: Option<u64>) -> Option<BillView> {
    match slot {
        Some(bill) => if bill.is_recurring {
            Some(BillView { last_paid_date: resume, ..bill })
        } else {
            None
        },
        None => None,
    }
}

/// The slots after the bills listed among the first `n` have been skipped.
pub open spec fn skipped_upto(
    bills: Seq<Option<BillView>>,
    ids: Seq<u64>,
    resume: Option<u64>,
    n: int,
) -> Seq<Option<BillView>> {
    Seq::new(
        bills.len(),
        |j: int|
            if j < n && ids.contains((j + 1) as u64) {
                skipped_slot(bills[j], resume)
            } else {
                bills[j]
            },
    )
}

/// The slots after the bills listed among the first `n` have been deleted.
pub open spec fn deleted_upto(bills: Seq<Option<BillView>>, ids: Seq<u64>, n: int) -> Seq<
    Option<BillView>,
> {
    Seq::new(
        bills.len(),
        |j: int|
            if j < n && ids.contains((j + 1) as u64) {
                None
            } else {
                bills[j]
            },
    )
}

/// The cancellations of the bills among the first `n` slots whose ids are
/// listed, in ascending order.
pub open spec fn cancelled_upto(ids: Seq<u64>, n: int) -> Seq<BillCancelled>
    decreases n,
{
    if n <= 0 {
        Seq::empty()
    } else if ids.contains(n as u64) {
        cancelled_upto(ids, n - 1).push(BillCancelled { bill_id: n as u64 })
    } else {
        cancelled_upto(ids, n - 1)
    }
}

impl Ledger {
    /// Bills are declared by the owner of an active cycle, and all of them
    /// or none are taken.
    pub open spec fn add_bills_error(
        self,
        caller: Identity,
        cycle_id: u64,
        entries: Seq<NewBillView>,
        now: u64,
    ) -> Option<Error> {
        if !self.has_cycle(cycle_id) {
            Some(Error::CycleNotFound)
        } else if caller != self.cycle(cycle_id).user {
            Some(Error::Unauthorized)
        } else if !self.cycle(cycle_id).is_active {
            Some(Error::CycleNotActive)
        } else {
            entries_error_upto(
                self.cycle(cycle_id),
                now,
                self.allocation(cycle_id),
                entries,
                entries.len() as int,
            )
        }
    }

    /// The bill that the `i`-th declared bill becomes: unpaid, and numbered
    /// on from the bills there are.
    pub open spec fn added_bill(self, cycle_id: u64, entry: NewBillView, i: int) -> BillView {
        BillView {
            id: (self.bills.len() + i + 1) as u64,
            cycle_id,
            name: entry.name,
            amount: entry.amount,
            due_date: entry.due_date,
            is_paid: false,
            is_recurring: entry.is_recurring,
            recurrence_calendar: entry.recurrence_calendar,
            last_paid_date: None,
            category: entry.category,
        }
    }

    pub open spec fn add_bills_next(self, cycle_id: u64, entries: Seq<NewBillView>) -> Ledger {
        Ledger {
            bills: self.bills + Seq::new(
                entries.len(),
                |i: int| Some(self.added_bill(cycle_id, entries[i], i)),
            ),
            ..self
        }
    }

    /// One notification for each bill taken, in the order declared.
    pub open spec fn add_bills_output(self, cycle_id: u64, entries: Seq<NewBillView>) -> Seq<
        BillAdded,
    > {
        Seq::new(
            entries.len(),
            |i: int| BillAdded { bill_id: (self.bills.len() + i + 1) as u64, cycle_id },
        )
    }

    /// A bill is paid on its owner's word, on the calendar day on which it
    /// falls due, once, while its cycle is active and no funds are on the
    /// move.
    pub open spec fn pay_bill_error(self, caller: Identity, bill_id: u64, now: u64) -> Option<Error> {
        if self.locked {
            Some(Error::Reentrancy)
        } else if !self.has_bill(bill_id) {
            Some(Error::BillNotFound)
        } else if caller != self.bill_owner(bill_id) {
            Some(Error::Unauthorized)
        } else if self.bill(bill_id).is_paid {
            Some(Error::BillAlreadyPaid)
        } else if !self.cycle(self.bill(bill_id).cycle_id).is_active {
            Some(Error::CycleNotActive)
        } else if self.bill(bill_id).due_date / SECONDS_PER_DAY != now / SECONDS_PER_DAY {
            Some(Error::BillNotDueYet)
        } else if paid_this_month(self.bill(bill_id), now) {
            Some(Error::BillAlreadyPaid)
        } else {
            None
        }
    }

    /// A bill is paid on the admin's word on any day, once, while its cycle
    /// is active and no funds are on the move.
    pub open spec fn admin_pay_bill_error(self, caller: Identity, bill_id: u64, now: u64) -> Option<
        Error,
    > {
        if caller != self.admin {
            Some(Error::Unauthorized)
        } else if self.locked {
            Some(Error::Reentrancy)
        } else if !self.has_bill(bill_id) {
            Some(Error::BillNotFound)
        } else if self.bill(bill_id).is_paid {
            Some(Error::BillAlreadyPaid)
        } else if !self.cycle(self.bill(bill_id).cycle_id).is_active {
            Some(Error::CycleNotActive)
        } else if paid_this_month(self.bill(bill_id), now) {
            Some(Error::BillAlreadyPaid)
        } else {
            None
        }
    }

    /// Paying records the payment on the bill and holds the guard until the
    /// host has moved the money.
    pub open spec fn pay_bill_next(self, bill_id: u64, now: u64) -> Ledger {
        Ledger {
            bills: self.bills.update(
                bill_id - 1,
                Some(
                    paid_bill(
                        self.bill(bill_id),
                        self.cycle(self.bill(bill_id).cycle_id).end_date,
                        now,
                    ),
                ),
            ),
            locked: true,
            ..self
        }
    }

    /// The bill's amount goes to the owner of its cycle.
    pub open spec fn pay_bill_output(self, bill_id: u64) -> BillPayment {
        BillPayment {
            payout: Transfer {
                from: Account::Custody,
                to: Account::Holder(self.bill_owner(bill_id)),
                amount: self.bill(bill_id).amount,
            },
            event: BillPaid { bill_id, amount: self.bill(bill_id).amount },
        }
    }

    /// Bills are skipped or deleted by the owner of an active cycle, once a
    /// calendar month. `month` is the month it is, if the clock can tell.
    pub open spec fn adjust_error(self, caller: Identity, bill_id: u64, month: Option<u32>) -> Option<
        Error,
    > {
        if !self.has_bill(bill_id) {
            Some(Error::BillNotFound)
        } else if caller != self.bill_owner(bill_id) {
            Some(Error::Unauthorized)
        } else if !self.cycle(self.bill(bill_id).cycle_id).is_active {
            Some(Error::CycleNotActive)
        } else if month is None {
            Some(Error::InvalidTimestamp)
        } else if self.cycle(self.bill(bill_id).cycle_id).last_adjustment_month == month->0 {
            Some(Error::MonthlyAdjustmentLimitReached)
        } else {
            None
        }
    }

    /// Skipping a recurring bill needs the moment at which it resumes.
    pub open spec fn skip_bill_error(
        self,
        caller: Identity,
        bill_id: u64,
        month: Option<u32>,
        resume: Option<u64>,
    ) -> Option<Error> {
        match self.adjust_error(caller, bill_id, month) {
            Some(e) => Some(e),
            None => if self.bill(bill_id).is_recurring && resume is None {
                Some(Error::InvalidTimestamp)
            } else {
                None
            },
        }
    }

    /// The cycles after an edit of cycle `cycle_id` in month `month`: the
    /// month's one edit is used up.
    pub open spec fn adjusted_cycles(self, cycle_id: u64, month: u32) -> Seq<BillCycle> {
        self.cycles.update(
            cycle_id - 1,
            BillCycle { last_adjustment_month: month, ..self.cycle(cycle_id) },
        )
    }

    pub open spec fn skip_bill_next(self, bill_id: u64, month: u32, resume: Option<u64>) -> Ledger {
        Ledger {
            bills: self.bills.update(bill_id - 1, skipped_slot(self.bills[bill_id - 1], resume)),
            cycles: self.adjusted_cycles(self.bill(bill_id).cycle_id, month),
            ..self
        }
    }

    pub open spec fn delete_bill_next(self, bill_id: u64, month: u32) -> Ledger {
        Ledger {
            bills: self.bills.update(bill_id - 1, None),
            cycles: self.adjusted_cycles(self.bill(bill_id).cycle_id, month),
            ..self
        }
    }

    /// Why the first `k` bills listed cannot be edited together, if they
    /// cannot: each must exist and belong to cycle `cycle_id`.
    pub open spec fn members_error_upto(self, cycle_id: u64, ids: Seq<u64>, k: int) -> Option<Error>
        decreases k,
    {
        if k <= 0 {
            None
        } else {
            match self.members_error_upto(cycle_id, ids, k - 1) {
                Some(e) => Some(e),
                None => if !self.has_bill(ids[k - 1]) {
                    Some(Error::BillNotFound)
                } else if self.bill(ids[k - 1]).cycle_id != cycle_id {
                    Some(Error::InvalidDueDate)
                } else {
                    None
                },
            }
        }
    }

    /// A list of bills is edited like one bill, its first bill naming the
    /// cycle: the list must not be empty, and all its bills must belong to
    /// that cycle. The whole list uses up the month's one edit.
    pub open spec fn batch_error(self, caller: Identity, ids: Seq<u64>, month: Option<u32>) -> Option<
        Error,
    > {
        if ids.len() == 0 {
            Some(Error::InvalidBillAmount)
        } else {
            match self.adjust_error(caller, ids[0], month) {
                Some(e) => Some(e),
                None => self.members_error_upto(
                    self.bill(ids[0]).cycle_id,
                    ids,
                    ids.len() as int,
                ),
            }
        }
    }

    /// Whether one of the bills listed recurs.
    pub open spec fn any_recurring(self, ids: Seq<u64>) -> bool {
        exists|k: int| 0 <= k < ids.len() && self.has_bill(#[trigger] ids[k]) && self.bill(ids[k]).is_recurring
    }

    pub open spec fn skip_bills_error(
        self,
        caller: Identity,
        ids: Seq<u64>,
        month: Option<u32>,
        resume: Option<u64>,
    ) -> Option<Error> {
        match self.batch_error(caller, ids, month) {
            Some(e) => Some(e),
            None => if resume is None && self.any_recurring(ids) {
                Some(Error::InvalidTimestamp)
            } else {
                None
            },
        }
    }

    pub open spec fn skip_bills_next(self, ids: Seq<u64>, month: u32, resume: Option<u64>) -> Ledger {
        Ledger {
            bills: skipped_upto(self.bills, ids, resume, self.bills.len() as int),
            cycles: self.adjusted_cycles(self.bill(ids[0]).cycle_id, month),
            ..self
        }
    }

    pub open spec fn delete_bills_next(self, ids: Seq<u64>, month: u32) -> Ledger {
        Ledger {
            bills: deleted_upto(self.bills, ids, self.bills.len() as int),
            cycles: self.adjusted_cycles(self.bill(ids[0]).cycle_id, month),
            ..self
        }
    }

    /// One cancellation for each bill listed, in the order listed.
    pub open spec fn skip_bills_output(ids: Seq<u64>) -> Seq<BillCancelled> {
        Seq::new(ids.len(), |k: int| BillCancelled { bill_id: ids[k] })
    }

    /// One cancellation for each bill deleted, in ascending order.
    pub open spec fn delete_bills_output(self, ids: Seq<u64>) -> Seq<BillCancelled> {
        cancelled_upto(ids, self.bills.len() as int)
    }

    /// Reading a bill is for the owner of its cycle.
    pub open spec fn get_bill_error(self, caller: Identity, bill_id: u64) -> Option<Error> {
        if !self.has_bill(bill_id) {
            Some(Error::BillNotFound)
        } else if caller != self.bill_owner(bill_id) {
            Some(Error::Unauthorized)
        } else {
            None
        }
    }
}

} // verus!
