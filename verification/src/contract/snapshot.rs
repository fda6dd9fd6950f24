//! Taking the ledger apart to store it, and putting it together again.

use vstd::prelude::*;
use crate::contract::{slots_view, LockedIn};
use crate::fees::lemma_fee_bounds;
use crate::lemmas::{amounts_positive, lemma_occurrences_positive, lemma_sums_monotone};
use crate::lemmas::lemma_paid_within_allocated;
use crate::model::{allocated_upto, Ledger};
use crate::types::{Bill, BillCycle, Identity, PendingTransfer};

verus! {

/// Everything the ledger remembers, as plain records: what a host writes to
/// its store between calls.
pub struct Snapshot {
    pub admin: Identity,
    pub pending: Option<PendingTransfer>,
    pub usdc_token: Identity,
    pub fee_recipient: Identity,
    pub fee_percentage: u32,
    /// Cycle `id` at index `id - 1`.
    pub cycles: Vec<BillCycle>,
    /// Bill `id` at index `id - 1`; `None` where a bill was removed.
    pub bills: Vec<Option<Bill>>,
    pub locked: bool,
}

impl View for Snapshot {
    type V = Ledger;

    open spec fn view(&self) -> Ledger {
        Ledger {
            admin: self.admin,
            pending: self.pending,
            usdc_token: self.usdc_token,
            fee_recipient: self.fee_recipient,
            fee_percentage: self.fee_percentage,
            cycles: self.cycles@,
            bills: slots_view(self.bills@),
            locked: self.locked,
        }
    }
}

impl Snapshot {
    /// Whether every bill carries its own id, belongs to a cycle that
    /// exists, is for a positive amount and falls due within its cycle.
    fn bills_ok(&self) -> (ok: bool)
        ensures
            ok == (forall|i: int| 0 <= i < self@.bills.len() ==> #[trigger] self@.bill_ok(i)),
    {
        let mut i: usize = 0;
        while i < self.bills.len()
            invariant
                i <= self.bills.len(),
                forall|j: int| 0 <= j < i ==> #[trigger] self@.bill_ok(j),
            decreases self.bills.len() - i,
        {
            match &self.bills[i] {
                Some(bill) => {
                    let fits: bool = bill.id == i as u64 + 1 && 1 <= bill.cycle_id
                        && bill.cycle_id <= self.cycles.len() as u64 && bill.amount > 0;
                    if !fits {
                        assert(!self@.bill_ok(i as int));
                        return false;
                    }
                    let cycle: BillCycle = self.cycles[(bill.cycle_id - 1) as usize];
                    if bill.due_date < cycle.start_date || bill.due_date > cycle.end_date {
                        assert(!self@.bill_ok(i as int));
                        return false;
                    }
                },
                None => {},
            }
            i = i + 1;
        }
        true
    }

    /// Whether the bills of a cycle commit no more than its deposit less its
    /// fee.
    fn allocation_fits(&self, cycle_id: u64) -> (ok: bool)
        requires
            self@.has_cycle(cycle_id),
            amounts_positive(self@.bills, self@.bills.len() as int),
            self@.cycle(cycle_id).start_date <= self@.cycle(cycle_id).end_date,
            0 <= self@.cycle(cycle_id).operating_fee <= self@.cycle(cycle_id).total_deposited,
        ensures
            ok == (self@.allocation(cycle_id) <= self@.allocatable(cycle_id)),
    {
        assert(cycle_id <= self.cycles.len());
        let cycle: BillCycle = self.cycles[(cycle_id - 1) as usize];
        let ghost count = self@.cycle_occurrences(cycle_id);
        proof {
            lemma_occurrences_positive(cycle.start_date, cycle.end_date);
        }
        let mut total: i128 = 0;
        let mut i: usize = 0;
        while i < self.bills.len()
            invariant
                i <= self.bills.len(),
                self@.has_cycle(cycle_id),
                cycle == self@.cycle(cycle_id),
                count == self@.cycle_occurrences(cycle_id),
                count >= 1,
                cycle.start_date <= cycle.end_date,
                0 <= cycle.operating_fee <= cycle.total_deposited,
                amounts_positive(self@.bills, self@.bills.len() as int),
                total == allocated_upto(self@.bills, cycle_id, count, i as int),
                0 <= total <= cycle.total_deposited - cycle.operating_fee,
            decreases self.bills.len() - i,
        {
            proof {
                assert(self@.bills[i as int] matches Some(b) ==> b.amount > 0);
            }
            match &self.bills[i] {
                Some(bill) => {
                    if bill.cycle_id == cycle_id {
                        match LockedIn::validate_allocation(
                            &cycle,
                            total,
                            bill.amount,
                            bill.is_recurring,
                        ) {
                            Ok(with_bill) => {
                                total = with_bill;
                            },
                            Err(_) => {
                                proof {
                                    lemma_sums_monotone(
                                        self@.bills,
                                        cycle_id,
                                        count,
                                        i + 1,
                                        self@.bills.len() as int,
                                    );
                                }
                                return false;
                            },
                        }
                    }
                },
                None => {},
            }
            proof {
                lemma_paid_within_allocated(self@.bills, cycle_id, count, i + 1);
            }
            i = i + 1;
        }
        true
    }

    /// Whether every cycle holds a positive deposit, carries the fee fixed
    /// at its creation, and is not over-committed.
    fn cycles_ok(&self) -> (ok: bool)
        requires
            forall|i: int| 0 <= i < self@.bills.len() ==> #[trigger] self@.bill_ok(i),
        ensures
            ok == (forall|i: int| 0 <= i < self@.cycles.len() ==> #[trigger] self@.cycle_ok(i)),
    {
        proof {
            assert forall|i: int| 0 <= i < self@.bills.len() implies (
            #[trigger] self@.bills[i] matches Some(b) ==> b.amount > 0) by {
                assert(self@.bill_ok(i));
            }
        }
        let mut i: usize = 0;
        while i < self.cycles.len()
            invariant
                i <= self.cycles.len(),
                amounts_positive(self@.bills, self@.bills.len() as int),
                forall|j: int| 0 <= j < i ==> #[trigger] self@.cycle_ok(j),
            decreases self.cycles.len() - i,
        {
            let cycle: BillCycle = self.cycles[i];
            let sound: bool = cycle.start_date <= cycle.end_date && cycle.total_deposited > 0
                && 100 <= cycle.fee_percentage && cycle.fee_percentage <= 500;
            if !sound {
                assert(!self@.cycle_ok(i as int));
                return false;
            }
            if cycle.operating_fee != LockedIn::calculate_fee(
                cycle.total_deposited,
                cycle.fee_percentage,
            ) {
                assert(!self@.cycle_ok(i as int));
                return false;
            }
            proof {
                lemma_fee_bounds(cycle.total_deposited as int, cycle.fee_percentage as int);
            }
            if !self.allocation_fits(i as u64 + 1) {
                assert(!self@.cycle_ok(i as int));
                return false;
            }
            i = i + 1;
        }
        true
    }

    /// Whether the records satisfy the ledger's invariant.
    pub fn is_consistent(&self) -> (ok: bool)
        ensures
            ok == self@.wf(),
    {
        if self.fee_percentage < 100 || self.fee_percentage > 500 {
            return false;
        }
        assert(self.cycles.len() <= u64::MAX);
        assert(self.bills.len() <= u64::MAX);
        if !self.bills_ok() {
            return false;
        }
        self.cycles_ok()
    }
}

impl LockedIn {
    /// Takes the ledger apart into plain records.
    pub fn into_snapshot(self) -> (snapshot: Snapshot)
        ensures
            snapshot@ == self@,
    {
        Snapshot {
            admin: self.admin,
            pending: self.pending,
            usdc_token: self.usdc_token,
            fee_recipient: self.fee_recipient,
            fee_percentage: self.fee_percentage,
            cycles: self.cycles,
            bills: self.bills,
            locked: self.locked,
        }
    }

    /// Puts a ledger together from plain records, if they satisfy the
    /// ledger's invariant.
    pub fn restore(snapshot: Snapshot) -> (r: Option<LockedIn>)
        ensures
            match r {
                Some(ledger) => snapshot@.wf() && ledger.wf() && ledger@ == snapshot@,
                None => !snapshot@.wf(),
            },
    {
        if !snapshot.is_consistent() {
            return None;
        }
        Some(
            LockedIn {
                admin: snapshot.admin,
                pending: snapshot.pending,
                usdc_token: snapshot.usdc_token,
                fee_recipient: snapshot.fee_recipient,
                fee_percentage: snapshot.fee_percentage,
                cycles: snapshot.cycles,
                bills: snapshot.bills,
                locked: snapshot.locked,
            },
        )
    }
}

} // verus!
