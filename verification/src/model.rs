//! The ledger as a mathematical object: its state, the sums that its
//! accounting rests on, and the invariant that every operation preserves.

use vstd::prelude::*;
use crate::fees::{fee_of, fee_percentage_allowed};
use crate::types::{BillCycle, BillView, Identity, PendingTransfer};

verus! {

/// Seconds in a day.
pub const SECONDS_PER_DAY: u64 = 86_400;

/// The length of one billing month: thirty days, in seconds.
pub const MONTH_SECONDS: u64 = 2_592_000;

/// The shortest notice a new bill must give: seven days, in seconds.
pub const MIN_LEAD_SECONDS: u64 = 604_800;

/// The shortest and the longest cycle, in months.
pub const MIN_CYCLE_MONTHS: u32 = 1;

pub const MAX_CYCLE_MONTHS: u32 = 12;

/// The latest day of the month on which a bill may fall due, so that the day
/// exists in every month.
pub const MAX_DUE_DAY: u64 = 28;

/// Everything the ledger remembers.
pub struct Ledger {
    pub admin: Identity,
    pub pending: Option<PendingTransfer>,
    pub usdc_token: Identity,
    pub fee_recipient: Identity,
    pub fee_percentage: u32,
    /// Cycle `id` is `cycles[id - 1]`; cycles are never removed.
    pub cycles: Seq<BillCycle>,
    /// Bill `id` is `bills[id - 1]`; a removed bill leaves `None` behind.
    pub bills: Seq<Option<BillView>>,
    /// Whether a movement of funds is under way.
    pub locked: bool,
}

/// How often a recurring bill is expected to fall due within a cycle: once per
/// thirty whole days of its length, and at least once.
pub open spec fn occurrences(start_date: u64, end_date: u64) -> int {
    let months = ((end_date - start_date) / 86_400) / 30;
    if months < 1 {
        1
    } else {
        months
    }
}

/// What a bill commits of the escrow.
pub open spec fn bill_cost(amount: int, is_recurring: bool, occurrences: int) -> int {
    if is_recurring {
        amount * occurrences
    } else {
        amount
    }
}

/// What the bill in one slot commits of the escrow of cycle `cycle_id`.
pub open spec fn slot_cost(slot: Option<BillView>, cycle_id: u64, occurrences: int) -> int {
    match slot {
        Some(b) => if b.cycle_id == cycle_id {
            bill_cost(b.amount as int, b.is_recurring, occurrences)
        } else {
            0
        },
        None => 0,
    }
}

/// What the bill in one slot has drawn for good from the escrow of cycle
/// `cycle_id`.
pub open spec fn slot_paid(slot: Option<BillView>, cycle_id: u64) -> int {
    match slot {
        Some(b) => if b.cycle_id == cycle_id && b.is_paid {
            b.amount as int
        } else {
            0
        },
        None => 0,
    }
}

/// The escrow of cycle `cycle_id` committed by the first `n` slots.
pub open spec fn allocated_upto(
    bills: Seq<Option<BillView>>,
    cycle_id: u64,
    occurrences: int,
    n: int,
) -> int
    decreases n,
{
    if n <= 0 {
        0
    } else {
        allocated_upto(bills, cycle_id, occurrences, n - 1) + slot_cost(
            bills[n - 1],
            cycle_id,
            occurrences,
        )
    }
}

/// The amounts of the paid bills of cycle `cycle_id` among the first `n` slots.
pub open spec fn paid_upto(bills: Seq<Option<BillView>>, cycle_id: u64, n: int) -> int
    decreases n,
{
    if n <= 0 {
        0
    } else {
        paid_upto(bills, cycle_id, n - 1) + slot_paid(bills[n - 1], cycle_id)
    }
}

/// The ids of the bills of cycle `cycle_id` among the first `n` slots, in
/// ascending order.
pub open spec fn bill_ids_upto(bills: Seq<Option<BillView>>, cycle_id: u64, n: int) -> Seq<u64>
    decreases n,
{
    if n <= 0 {
        Seq::empty()
    } else {
        let rest = bill_ids_upto(bills, cycle_id, n - 1);
        match bills[n - 1] {
            Some(b) => if b.cycle_id == cycle_id {
                rest.push(n as u64)
            } else {
                rest
            },
            None => rest,
        }
    }
}

/// The ids of the cycles of `user` among the first `n` cycles, in ascending
/// order.
pub open spec fn cycle_ids_upto(cycles: Seq<BillCycle>, user: Identity, n: int) -> Seq<u64>
    decreases n,
{
    if n <= 0 {
        Seq::empty()
    } else {
        let rest = cycle_ids_upto(cycles, user, n - 1);
        if cycles[n - 1].user == user {
            rest.push(n as u64)
        } else {
            rest
        }
    }
}

impl Ledger {
    pub open spec fn has_cycle(self, cycle_id: u64) -> bool {
        1 <= cycle_id <= self.cycles.len()
    }

    pub open spec fn cycle(self, cycle_id: u64) -> BillCycle {
        self.cycles[cycle_id - 1]
    }

    pub open spec fn has_bill(self, bill_id: u64) -> bool {
        1 <= bill_id <= self.bills.len() && self.bills[bill_id - 1] is Some
    }

    pub open spec fn bill(self, bill_id: u64) -> BillView {
        self.bills[bill_id - 1]->0
    }

    /// The owner of the cycle that bill `bill_id` belongs to.
    pub open spec fn bill_owner(self, bill_id: u64) -> Identity {
        self.cycle(self.bill(bill_id).cycle_id).user
    }

    /// How often a recurring bill of cycle `cycle_id` is expected to fall due.
    pub open spec fn cycle_occurrences(self, cycle_id: u64) -> int {
        occurrences(self.cycle(cycle_id).start_date, self.cycle(cycle_id).end_date)
    }

    /// What may be committed to bills: the deposit less the operating fee.
    pub open spec fn allocatable(self, cycle_id: u64) -> int {
        self.cycle(cycle_id).total_deposited - self.cycle(cycle_id).operating_fee
    }

    /// What the bills of cycle `cycle_id` commit of its escrow, a recurring
    /// bill counted once for each expected occurrence.
    pub open spec fn allocation(self, cycle_id: u64) -> int {
        allocated_upto(
            self.bills,
            cycle_id,
            self.cycle_occurrences(cycle_id),
            self.bills.len() as int,
        )
    }

    /// The amounts of the paid bills of cycle `cycle_id`.
    pub open spec fn paid_total(self, cycle_id: u64) -> int {
        paid_upto(self.bills, cycle_id, self.bills.len() as int)
    }

    /// What returns to the owner when cycle `cycle_id` closes.
    pub open spec fn surplus(self, cycle_id: u64) -> int {
        self.allocatable(cycle_id) - self.paid_total(cycle_id)
    }

    /// The ids of the bills of cycle `cycle_id`, in ascending order.
    pub open spec fn cycle_bill_ids(self, cycle_id: u64) -> Seq<u64> {
        bill_ids_upto(self.bills, cycle_id, self.bills.len() as int)
    }

    /// The ids of the cycles of `user`, in ascending order.
    pub open spec fn user_cycle_ids(self, user: Identity) -> Seq<u64> {
        cycle_ids_upto(self.cycles, user, self.cycles.len() as int)
    }

    /// The ids of all cycles, in ascending order.
    pub open spec fn all_cycle_ids(self) -> Seq<u64> {
        Seq::new(self.cycles.len(), |i: int| (i + 1) as u64)
    }

    /// A bill carries its own id, belongs to a cycle that exists, is for a
    /// positive amount and falls due within its cycle.
    pub open spec fn bill_ok(self, i: int) -> bool {
        self.bills[i] matches Some(b) ==> {
            &&& b.id == i + 1
            &&& self.has_cycle(b.cycle_id)
            &&& b.amount > 0
            &&& self.cycle(b.cycle_id).start_date <= b.due_date <= self.cycle(b.cycle_id).end_date
        }
    }

    /// A cycle holds a positive deposit, its fee is the share fixed at its
    /// creation, and its bills never commit more than the deposit less the fee.
    pub open spec fn cycle_ok(self, i: int) -> bool {
        let c = self.cycles[i];
        &&& c.start_date <= c.end_date
        &&& c.total_deposited > 0
        &&& fee_percentage_allowed(c.fee_percentage)
        &&& c.operating_fee == fee_of(c.total_deposited as int, c.fee_percentage as int)
        &&& self.allocation((i + 1) as u64) <= self.allocatable((i + 1) as u64)
    }

    /// The invariant of the ledger.
    pub open spec fn wf(self) -> bool {
        &&& fee_percentage_allowed(self.fee_percentage)
        &&& self.cycles.len() <= u64::MAX
        &&& self.bills.len() <= u64::MAX
        &&& forall|i: int| 0 <= i < self.bills.len() ==> #[trigger] self.bill_ok(i)
        &&& forall|i: int| 0 <= i < self.cycles.len() ==> #[trigger] self.cycle_ok(i)
    }
}

} // verus!
