//! The bill ledger: declaring bills.

use vstd::prelude::*;
use crate::bill_lemmas::{
    added_slots, lemma_add_bills_wf, lemma_allocated_bounds, lemma_first_error_stands,
};
use crate::contract::LockedIn;
use crate::error::Error;
use crate::events::BillAdded;
use crate::lemmas::lemma_slot_bounds;
use crate::model::{allocated_upto, bill_cost, occurrences, Ledger};
use crate::rules::bills::{entries_cost_upto, entries_error_upto, entry_cost, entry_error};
use crate::rules::bills::months_valid;
use crate::types::{Bill, BillCycle, Identity, NewBill, NewBillView};

verus! {

/// The mathematical content of a batch of declared bills.
pub open spec fn new_bills_view(entries: Seq<NewBill>) -> Seq<NewBillView> {
    Seq::new(entries.len(), |i: int| entries[i]@)
}

impl LockedIn {
    /// How often a recurring bill is expected to fall due within a cycle.
    pub fn expected_occurrences(cycle: &BillCycle) -> (count: u64)
        requires
            cycle.start_date <= cycle.end_date,
        ensures
            count == occurrences(cycle.start_date, cycle.end_date),
            count >= 1,
    {
        let months: u64 = ((cycle.end_date - cycle.start_date) / 86_400) / 30;
        if months < 1 {
            1
        } else {
            months
        }
    }

    /// What the bills of a cycle commit of its escrow.
    pub fn calculate_total_allocation(&self, cycle_id: u64) -> (total: i128)
        requires
            self.wf(),
            self@.has_cycle(cycle_id),
        ensures
            total == self@.allocation(cycle_id),
    {
        assert(cycle_id <= self.cycles.len());
        let cycle: BillCycle = self.cycles[(cycle_id - 1) as usize];
        proof {
            assert(self@.cycle_ok(cycle_id - 1));
        }
        let count: i128 = Self::expected_occurrences(&cycle) as i128;
        let mut total: i128 = 0;
        let mut i: usize = 0;
        while i < self.bills.len()
            invariant
                i <= self.bills.len(),
                self.wf(),
                self@.has_cycle(cycle_id),
                count == self@.cycle_occurrences(cycle_id),
                count >= 1,
                total == allocated_upto(self@.bills, cycle_id, count as int, i as int),
            decreases self.bills.len() - i,
        {
            proof {
                lemma_allocated_bounds(self@, cycle_id, i as int);
                lemma_allocated_bounds(self@, cycle_id, i + 1);
                assert(self@.bill_ok(i as int));
                lemma_slot_bounds(self@.bills[i as int], cycle_id, count as int);
            }
            match &self.bills[i] {
                Some(bill) => {
                    if bill.cycle_id == cycle_id {
                        if bill.is_recurring {
                            assert(bill_cost(bill.amount as int, true, count as int) == bill.amount
                                * count);
                            total = total + bill.amount * count;
                        } else {
                            total = total + bill.amount;
                        }
                    }
                },
                None => {},
            }
            i = i + 1;
        }
        total
    }

    /// Accepts a due date that gives at least seven days' notice.
    pub fn validate_lead_time(now: u64, due_date: u64) -> (r: Result<(), Error>)
        ensures
            r is Ok <==> due_date >= now + 604_800,
            r is Err ==> r == Err::<(), Error>(Error::BillLeadTimeTooShort),
    {
        match now.checked_add(604_800) {
            Some(earliest) => {
                if due_date < earliest {
                    return Err(Error::BillLeadTimeTooShort);
                }
                Ok(())
            },
            None => Err(Error::BillLeadTimeTooShort),
        }
    }

    /// Accepts a bill that fits into what is left of the escrow of a cycle of
    /// which `committed` is committed already, and says what is committed
    /// with it.
    pub fn validate_allocation(
        cycle: &BillCycle,
        committed: i128,
        new_bill_amount: i128,
        is_recurring: bool,
    ) -> (r: Result<i128, Error>)
        requires
            cycle.start_date <= cycle.end_date,
            0 <= cycle.operating_fee <= cycle.total_deposited,
            0 <= committed,
            0 < new_bill_amount,
        ensures
            match r {
                Ok(total) => {
                    &&& total == committed + bill_cost(
                        new_bill_amount as int,
                        is_recurring,
                        occurrences(cycle.start_date, cycle.end_date),
                    )
                    &&& total <= cycle.total_deposited - cycle.operating_fee
                },
                Err(e) => {
                    &&& e == Error::InsufficientFunds
                    &&& committed + bill_cost(
                        new_bill_amount as int,
                        is_recurring,
                        occurrences(cycle.start_date, cycle.end_date),
                    ) > cycle.total_deposited - cycle.operating_fee
                },
            },
    {
        let count: i128 = Self::expected_occurrences(cycle) as i128;
        let cost: i128 = if is_recurring {
            match new_bill_amount.checked_mul(count) {
                Some(cost) => cost,
                None => {
                    assert(new_bill_amount * count > i128::MAX) by (nonlinear_arith)
                        requires
                            new_bill_amount > 0,
                            count >= 1,
                            !(i128::MIN <= new_bill_amount * count <= i128::MAX),
                    ;
                    return Err(Error::InsufficientFunds);
                },
            }
        } else {
            new_bill_amount
        };
        let available: i128 = cycle.total_deposited - cycle.operating_fee;
        match committed.checked_add(cost) {
            Some(total) => {
                if total > available {
                    return Err(Error::InsufficientFunds);
                }
                Ok(total)
            },
            None => Err(Error::InsufficientFunds),
        }
    }

    /// Whether every month named is one of the twelve.
    pub fn months_in_range(calendar: &Vec<u32>) -> (r: bool)
        ensures
            r == months_valid(calendar@),
    {
        let mut k: usize = 0;
        while k < calendar.len()
            invariant
                k <= calendar.len(),
                forall|j: int| 0 <= j < k ==> 1 <= #[trigger] calendar@[j] <= 12,
            decreases calendar.len() - k,
        {
            if calendar[k] < 1 || calendar[k] > 12 {
                return false;
            }
            k = k + 1;
        }
        true
    }

    /// Holds one declared bill against the rules, in a cycle of which
    /// `committed` is committed already, and says what is committed with it.
    pub fn validate_bill(cycle: &BillCycle, now: u64, committed: i128, entry: &NewBill) -> (r:
        Result<i128, Error>)
        requires
            cycle.start_date <= cycle.end_date,
            0 <= cycle.operating_fee <= cycle.total_deposited,
            0 <= committed,
        ensures
            match r {
                Ok(total) => {
                    &&& entry_error(*cycle, now, committed as int, entry@) is None
                    &&& total == committed + entry_cost(
                        entry@,
                        occurrences(cycle.start_date, cycle.end_date),
                    )
                    &&& 0 <= total <= cycle.total_deposited - cycle.operating_fee
                },
                Err(e) => entry_error(*cycle, now, committed as int, entry@) == Some(e),
            },
    {
        if entry.amount <= 0 {
            return Err(Error::InvalidBillAmount);
        }
        if entry.due_date < cycle.start_date || entry.due_date > cycle.end_date {
            return Err(Error::InvalidDueDate);
        }
        if Self::validate_day_of_month(entry.due_date).is_err() {
            return Err(Error::InvalidDueDate);
        }
        if Self::validate_lead_time(now, entry.due_date).is_err() {
            return Err(Error::BillLeadTimeTooShort);
        }
        if entry.is_recurring && !Self::months_in_range(&entry.recurrence_calendar) {
            return Err(Error::InvalidRecurrence);
        }
        proof {
            let count = occurrences(cycle.start_date, cycle.end_date);
            let amount = entry.amount as int;
            assert(bill_cost(amount, entry.is_recurring, count) >= 0) by (nonlinear_arith)
                requires
                    amount > 0,
                    count >= 1,
                    bill_cost(amount, entry.is_recurring, count) == if entry.is_recurring {
                        amount * count
                    } else {
                        amount
                    },
            ;
        }
        Self::validate_allocation(cycle, committed, entry.amount, entry.is_recurring)
    }

    /// Declares bills in a cycle, on its owner's word: all of them are taken,
    /// or none is.
    pub fn add_bills(&mut self, caller: Identity, cycle_id: u64, bills: Vec<NewBill>, now: u64) -> (r:
        Result<Vec<BillAdded>, Error>)
        requires
            old(self).wf(),
            old(self)@.bills.len() + bills@.len() <= u64::MAX,
        ensures
            final(self).wf(),
            match r {
                Ok(events) => {
                    &&& old(self)@.add_bills_error(caller, cycle_id, new_bills_view(bills@), now)
                        is None
                    &&& final(self)@ == old(self)@.add_bills_next(cycle_id, new_bills_view(bills@))
                    &&& events@ == old(self)@.add_bills_output(cycle_id, new_bills_view(bills@))
                },
                Err(e) => {
                    &&& old(self)@.add_bills_error(caller, cycle_id, new_bills_view(bills@), now)
                        == Some(e)
                    &&& final(self)@ == old(self)@
                },
            },
    {
        if cycle_id < 1 || cycle_id > self.cycles.len() as u64 {
            return Err(Error::CycleNotFound);
        }
        let cycle: BillCycle = self.cycles[(cycle_id - 1) as usize];
        if caller != cycle.user {
            return Err(Error::Unauthorized);
        }
        if !cycle.is_active {
            return Err(Error::CycleNotActive);
        }
        proof {
            assert(self@.cycle_ok(cycle_id - 1));
            lemma_allocated_bounds(self@, cycle_id, 0);
        }
        let ghost entries = new_bills_view(bills@);
        let ghost count = occurrences(cycle.start_date, cycle.end_date);
        let existing: i128 = self.calculate_total_allocation(cycle_id);
        let n: usize = bills.len();
        let mut committed: i128 = existing;
        let mut k: usize = 0;
        while k < n
            invariant
                k <= n,
                n == bills.len(),
                entries == new_bills_view(bills@),
                count == occurrences(cycle.start_date, cycle.end_date),
                cycle.start_date <= cycle.end_date,
                0 <= cycle.operating_fee <= cycle.total_deposited,
                0 <= existing,
                self@ == old(self)@,
                self.wf(),
                self@.has_cycle(cycle_id),
                cycle == self@.cycle(cycle_id),
                caller == cycle.user,
                cycle.is_active,
                existing == self@.allocation(cycle_id),
                entries_error_upto(cycle, now, existing as int, entries, k as int) is None,
                committed == existing + entries_cost_upto(entries, count, k as int),
                0 <= committed,
            decreases n - k,
        {
            match Self::validate_bill(&cycle, now, committed, &bills[k]) {
                Ok(total) => {
                    committed = total;
                },
                Err(e) => {
                    proof {
                        assert(entries[k as int] == bills@[k as int]@);
                        lemma_first_error_stands(
                            cycle,
                            now,
                            existing as int,
                            entries,
                            k + 1,
                            n as int,
                        );
                    }
                    return Err(e);
                },
            }
            k = k + 1;
        }
        let first: u64 = self.bills.len() as u64;
        let mut events: Vec<BillAdded> = Vec::new();
        let mut i: usize = 0;
        while i < n
            invariant
                i <= n,
                n == bills.len(),
                entries == new_bills_view(bills@),
                first == old(self)@.bills.len(),
                first + n <= u64::MAX,
                self@ == (Ledger {
                    bills: old(self)@.bills + added_slots(old(self)@, cycle_id, entries).subrange(
                        0,
                        i as int,
                    ),
                    ..old(self)@
                }),
                events@ == old(self)@.add_bills_output(cycle_id, entries).subrange(0, i as int),
            decreases n - i,
        {
            let entry: &NewBill = &bills[i];
            let bill_id: u64 = first + i as u64 + 1;
            let ghost before = self@.bills;
            self.bills.push(
                Some(
                    Bill {
                        id: bill_id,
                        cycle_id,
                        name: entry.name.clone(),
                        amount: entry.amount,
                        due_date: entry.due_date,
                        is_paid: false,
                        is_recurring: entry.is_recurring,
                        recurrence_calendar: entry.recurrence_calendar.clone(),
                        last_paid_date: None,
                        category: entry.category,
                    },
                ),
            );
            events.push(BillAdded { bill_id, cycle_id });
            proof {
                let added = added_slots(old(self)@, cycle_id, entries);
                assert(self@.bills =~= before.push(added[i as int]));
                assert(self@.bills =~= old(self)@.bills + added.subrange(0, i + 1));
                assert(events@ =~= old(self)@.add_bills_output(cycle_id, entries).subrange(
                    0,
                    i + 1,
                ));
            }
            i = i + 1;
        }
        proof {
            let added = added_slots(old(self)@, cycle_id, entries);
            assert(added.subrange(0, n as int) =~= added);
            assert(self@.bills =~= old(self)@.add_bills_next(cycle_id, entries).bills);
            assert(events@ =~= old(self)@.add_bills_output(cycle_id, entries));
            lemma_add_bills_wf(old(self)@, cycle_id, entries, now);
        }
        Ok(events)
    }

    /// Declares one bill in a cycle, on its owner's word.
    pub fn add_bill(&mut self, caller: Identity, cycle_id: u64, bill: NewBill, now: u64) -> (r:
        Result<BillAdded, Error>)
        requires
            old(self).wf(),
            old(self)@.bills.len() < u64::MAX,
        ensures
            final(self).wf(),
            match r {
                Ok(event) => {
                    &&& old(self)@.add_bills_error(caller, cycle_id, seq![bill@], now) is None
                    &&& final(self)@ == old(self)@.add_bills_next(cycle_id, seq![bill@])
                    &&& event == (BillAdded {
                        bill_id: (old(self)@.bills.len() + 1) as u64,
                        cycle_id,
                    })
                },
                Err(e) => {
                    &&& old(self)@.add_bills_error(caller, cycle_id, seq![bill@], now) == Some(e)
                    &&& final(self)@ == old(self)@
                },
            },
    {
        let ghost entry = bill@;
        let mut batch: Vec<NewBill> = Vec::new();
        batch.push(bill);
        proof {
            assert(new_bills_view(batch@) =~= seq![entry]);
        }
        match self.add_bills(caller, cycle_id, batch, now) {
            Ok(events) => Ok(events[0]),
            Err(e) => Err(e),
        }
    }
}

} // verus!
