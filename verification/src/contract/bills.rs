//! The bill ledger: paying bills, and the one structural edit a month.

use vstd::prelude::*;
use crate::bill_lemmas::{lemma_delete_bill_wf, lemma_pay_bill_wf, lemma_skip_bill_wf};
use crate::clock::{current_month_of, one_month_after};
use crate::contract::LockedIn;
use crate::error::Error;
use crate::events::{BillCancelled, BillPaid};
use crate::model::bill_ids_upto;
use crate::types::{Account, Bill, BillCycle, BillPayment, Identity, Transfer};

verus! {

impl LockedIn {
    /// The bill with a given id, if there is one.
    pub(crate) fn bill_ref(&self, bill_id: u64) -> (r: Option<&Bill>)
        ensures
            r is Some <==> self@.has_bill(bill_id),
            r is Some ==> r->0@ == self@.bill(bill_id),
    {
        if bill_id < 1 || bill_id > self.bills.len() as u64 {
            return None;
        }
        match &self.bills[(bill_id - 1) as usize] {
            Some(bill) => Some(bill),
            None => None,
        }
    }

    /// The cycle that a bill belongs to.
    pub(crate) fn cycle_of_bill(&self, bill_id: u64) -> (cycle: BillCycle)
        requires
            self.wf(),
            self@.has_bill(bill_id),
        ensures
            cycle == self@.cycle(self@.bill(bill_id).cycle_id),
            self@.has_cycle(self@.bill(bill_id).cycle_id),
    {
        proof {
            assert(self@.bill_ok(bill_id - 1));
        }
        assert(bill_id <= self.bills.len());
        let cycle_id: u64 = match &self.bills[(bill_id - 1) as usize] {
            Some(bill) => bill.cycle_id,
            None => 1,
        };
        assert(cycle_id <= self.cycles.len());
        self.cycles[(cycle_id - 1) as usize]
    }

    /// The owner of the cycle that a bill belongs to, if the bill exists.
    pub fn bill_owner(&self, bill_id: u64) -> (owner: Option<Identity>)
        requires
            self.wf(),
        ensures
            owner == if self@.has_bill(bill_id) {
                Some(self@.bill_owner(bill_id))
            } else {
                None
            },
    {
        match self.bill_ref(bill_id) {
            Some(_) => Some(self.cycle_of_bill(bill_id).user),
            None => None,
        }
    }

    /// Reads a bill, for the owner of its cycle.
    pub fn get_bill(&self, caller: Identity, bill_id: u64) -> (r: Result<Bill, Error>)
        requires
            self.wf(),
        ensures
            match r {
                Ok(bill) => self@.get_bill_error(caller, bill_id) is None && bill@ == self@.bill(
                    bill_id,
                ),
                Err(e) => self@.get_bill_error(caller, bill_id) == Some(e),
            },
    {
        let bill: &Bill = match self.bill_ref(bill_id) {
            Some(bill) => bill,
            None => {
                return Err(Error::BillNotFound);
            },
        };
        let cycle: BillCycle = self.cycle_of_bill(bill_id);
        if caller != cycle.user {
            return Err(Error::Unauthorized);
        }
        Ok(bill.clone())
    }

    /// The ids of a cycle's bills, oldest first, for the cycle's owner. A
    /// cycle that does not exist has no bills.
    pub fn get_cycle_bills(&self, caller: Identity, cycle_id: u64) -> (r: Result<Vec<u64>, Error>)
        requires
            self.wf(),
        ensures
            match r {
                Ok(ids) => {
                    &&& self@.has_cycle(cycle_id) ==> caller == self@.cycle(cycle_id).user
                    &&& ids@ == self@.cycle_bill_ids(cycle_id)
                },
                Err(e) => {
                    &&& self@.has_cycle(cycle_id)
                    &&& caller != self@.cycle(cycle_id).user
                    &&& e == Error::Unauthorized
                },
            },
    {
        if 1 <= cycle_id && cycle_id <= self.cycles.len() as u64 {
            if caller != self.cycles[(cycle_id - 1) as usize].user {
                return Err(Error::Unauthorized);
            }
        }
        let mut ids: Vec<u64> = Vec::new();
        let mut i: usize = 0;
        while i < self.bills.len()
            invariant
                i <= self.bills.len(),
                self.bills@.len() <= u64::MAX,
                ids@ == bill_ids_upto(self@.bills, cycle_id, i as int),
            decreases self.bills.len() - i,
        {
            match &self.bills[i] {
                Some(bill) => {
                    if bill.cycle_id == cycle_id {
                        ids.push(i as u64 + 1);
                    }
                },
                None => {},
            }
            i = i + 1;
        }
        Ok(ids)
    }

    /// Whether a recurring bill was paid less than thirty days before `now`.
    fn paid_this_month(bill: &Bill, now: u64) -> (r: bool)
        ensures
            r == crate::rules::bills::paid_this_month(bill@, now),
    {
        if !bill.is_recurring {
            return false;
        }
        match bill.last_paid_date {
            Some(last) => now < last || now - last < 2_592_000,
            None => false,
        }
    }

    /// Records a payment on a bill, takes the guard, and names the payout.
    fn record_payment(&mut self, bill_id: u64, now: u64) -> (outcome: BillPayment)
        requires
            old(self).wf(),
            old(self)@.has_bill(bill_id),
        ensures
            final(self).wf(),
            final(self)@ == old(self)@.pay_bill_next(bill_id, now),
            outcome == old(self)@.pay_bill_output(bill_id),
    {
        let cycle: BillCycle = self.cycle_of_bill(bill_id);
        assert(bill_id <= self.bills.len());
        let index: usize = (bill_id - 1) as usize;
        let mut amount: i128 = 0;
        match &mut self.bills[index] {
            Some(bill) => {
                amount = bill.amount;
                bill.last_paid_date = Some(now);
                let next_due: Option<u64> = bill.due_date.checked_add(2_592_000);
                let falls_due_again: bool = bill.is_recurring && match next_due {
                    Some(next) => next < cycle.end_date,
                    None => false,
                };
                if falls_due_again {
                    bill.due_date = bill.due_date + 2_592_000;
                    bill.is_paid = false;
                } else {
                    bill.is_paid = true;
                }
            },
            None => {},
        }
        self.locked = true;
        proof {
            assert(self@.bills =~= old(self)@.pay_bill_next(bill_id, now).bills);
            lemma_pay_bill_wf(old(self)@, bill_id, now);
        }
        BillPayment {
            payout: Transfer { from: Account::Custody, to: Account::Holder(cycle.user), amount },
            event: BillPaid { bill_id, amount },
        }
    }

    /// Pays a bill on the day it falls due, on its owner's word. The host
    /// moves the amount to the owner and then releases the guard.
    pub fn pay_bill(&mut self, caller: Identity, bill_id: u64, now: u64) -> (r: Result<
        BillPayment,
        Error,
    >)
        requires
            old(self).wf(),
        ensures
            final(self).wf(),
            match r {
                Ok(outcome) => {
                    &&& old(self)@.pay_bill_error(caller, bill_id, now) is None
                    &&& final(self)@ == old(self)@.pay_bill_next(bill_id, now)
                    &&& outcome == old(self)@.pay_bill_output(bill_id)
                },
                Err(e) => {
                    &&& old(self)@.pay_bill_error(caller, bill_id, now) == Some(e)
                    &&& final(self)@ == old(self)@
                },
            },
    {
        if self.locked {
            return Err(Error::Reentrancy);
        }
        let bill: &Bill = match self.bill_ref(bill_id) {
            Some(bill) => bill,
            None => {
                return Err(Error::BillNotFound);
            },
        };
        let cycle: BillCycle = self.cycle_of_bill(bill_id);
        if caller != cycle.user {
            return Err(Error::Unauthorized);
        }
        if bill.is_paid {
            return Err(Error::BillAlreadyPaid);
        }
        if !cycle.is_active {
            return Err(Error::CycleNotActive);
        }
        if bill.due_date / 86_400 != now / 86_400 {
            return Err(Error::BillNotDueYet);
        }
        if Self::paid_this_month(bill, now) {
            return Err(Error::BillAlreadyPaid);
        }
        Ok(self.record_payment(bill_id, now))
    }

    /// Pays a bill on any day, on the admin's word. The host moves the
    /// amount to the owner and then releases the guard.
    pub fn admin_pay_bill(&mut self, caller: Identity, bill_id: u64, now: u64) -> (r: Result<
        BillPayment,
        Error,
    >)
        requires
            old(self).wf(),
        ensures
            final(self).wf(),
            match r {
                Ok(outcome) => {
                    &&& old(self)@.admin_pay_bill_error(caller, bill_id, now) is None
                    &&& final(self)@ == old(self)@.pay_bill_next(bill_id, now)
                    &&& outcome == old(self)@.pay_bill_output(bill_id)
                },
                Err(e) => {
                    &&& old(self)@.admin_pay_bill_error(caller, bill_id, now) == Some(e)
                    &&& final(self)@ == old(self)@
                },
            },
    {
        if caller != self.admin {
            return Err(Error::Unauthorized);
        }
        if self.locked {
            return Err(Error::Reentrancy);
        }
        let bill: &Bill = match self.bill_ref(bill_id) {
            Some(bill) => bill,
            None => {
                return Err(Error::BillNotFound);
            },
        };
        if bill.is_paid {
            return Err(Error::BillAlreadyPaid);
        }
        let cycle: BillCycle = self.cycle_of_bill(bill_id);
        if !cycle.is_active {
            return Err(Error::CycleNotActive);
        }
        if Self::paid_this_month(bill, now) {
            return Err(Error::BillAlreadyPaid);
        }
        Ok(self.record_payment(bill_id, now))
    }

    /// Uses up the month's one edit of a cycle.
    pub(crate) fn mark_adjusted(&mut self, cycle_id: u64, month: u32)
        requires
            old(self)@.has_cycle(cycle_id),
        ensures
            final(self)@ == (crate::model::Ledger {
                cycles: old(self)@.adjusted_cycles(cycle_id, month),
                ..old(self)@
            }),
    {
        assert(cycle_id <= self.cycles.len());
        let index: usize = (cycle_id - 1) as usize;
        let cycle: BillCycle = self.cycles[index];
        self.cycles[index] = BillCycle { last_adjustment_month: month, ..cycle };
        proof {
            assert(self@.cycles =~= old(self)@.adjusted_cycles(cycle_id, month));
        }
    }

    /// Skips the coming occurrence of a bill in calendar month `month`: a
    /// recurring bill rests until `resume`, any other is removed. `month` and
    /// `resume` are nothing where the clock cannot be read as a date.
    pub fn skip_bill_in_month(
        &mut self,
        caller: Identity,
        bill_id: u64,
        month: Option<u32>,
        resume: Option<u64>,
    ) -> (r: Result<BillCancelled, Error>)
        requires
            old(self).wf(),
        ensures
            final(self).wf(),
            match r {
                Ok(event) => {
                    &&& old(self)@.skip_bill_error(caller, bill_id, month, resume) is None
                    &&& final(self)@ == old(self)@.skip_bill_next(bill_id, month->0, resume)
                    &&& event == (BillCancelled { bill_id })
                },
                Err(e) => {
                    &&& old(self)@.skip_bill_error(caller, bill_id, month, resume) == Some(e)
                    &&& final(self)@ == old(self)@
                },
            },
    {
        let bill: &Bill = match self.bill_ref(bill_id) {
            Some(bill) => bill,
            None => {
                return Err(Error::BillNotFound);
            },
        };
        let is_recurring: bool = bill.is_recurring;
        let cycle_id: u64 = bill.cycle_id;
        let cycle: BillCycle = self.cycle_of_bill(bill_id);
        if caller != cycle.user {
            return Err(Error::Unauthorized);
        }
        if !cycle.is_active {
            return Err(Error::CycleNotActive);
        }
        let this_month: u32 = match month {
            Some(this_month) => this_month,
            None => {
                return Err(Error::InvalidTimestamp);
            },
        };
        if cycle.last_adjustment_month == this_month {
            return Err(Error::MonthlyAdjustmentLimitReached);
        }
        assert(bill_id <= self.bills.len());
        let index: usize = (bill_id - 1) as usize;
        if is_recurring {
            if resume.is_none() {
                return Err(Error::InvalidTimestamp);
            }
            match &mut self.bills[index] {
                Some(bill) => {
                    bill.last_paid_date = resume;
                },
                None => {},
            }
        } else {
            self.bills[index] = None;
        }
        self.mark_adjusted(cycle_id, this_month);
        proof {
            assert(self@.bills =~= old(self)@.skip_bill_next(bill_id, this_month, resume).bills);
            lemma_skip_bill_wf(old(self)@, bill_id, this_month, resume);
        }
        Ok(BillCancelled { bill_id })
    }

    /// Skips the coming occurrence of a bill: a recurring bill rests until
    /// the same moment of the next calendar month, any other is removed.
    pub fn skip_bill(&mut self, caller: Identity, bill_id: u64, now: u64) -> (r: Result<
        BillCancelled,
        Error,
    >)
        requires
            old(self).wf(),
        ensures
            final(self).wf(),
            match r {
                Ok(event) => {
                    &&& old(self)@.skip_bill_error(
                        caller,
                        bill_id,
                        current_month_of(now),
                        one_month_after(now),
                    ) is None
                    &&& final(self)@ == old(self)@.skip_bill_next(
                        bill_id,
                        current_month_of(now)->0,
                        one_month_after(now),
                    )
                    &&& event == (BillCancelled { bill_id })
                },
                Err(e) => {
                    &&& old(self)@.skip_bill_error(
                        caller,
                        bill_id,
                        current_month_of(now),
                        one_month_after(now),
                    ) == Some(e)
                    &&& final(self)@ == old(self)@
                },
            },
    {
        let month: Option<u32> = match Self::get_current_month(now) {
            Ok(month) => Some(month),
            Err(_) => None,
        };
        let resume: Option<u64> = match Self::add_one_month(now) {
            Ok(resume) => Some(resume),
            Err(_) => None,
        };
        self.skip_bill_in_month(caller, bill_id, month, resume)
    }

    /// Deletes a bill, recurring or not, in calendar month `month`. `month`
    /// is nothing where the clock cannot be read as a date.
    pub fn delete_bill_in_month(&mut self, caller: Identity, bill_id: u64, month: Option<u32>) -> (r:
        Result<BillCancelled, Error>)
        requires
            old(self).wf(),
        ensures
            final(self).wf(),
            match r {
                Ok(event) => {
                    &&& old(self)@.adjust_error(caller, bill_id, month) is None
                    &&& final(self)@ == old(self)@.delete_bill_next(bill_id, month->0)
                    &&& event == (BillCancelled { bill_id })
                },
                Err(e) => {
                    &&& old(self)@.adjust_error(caller, bill_id, month) == Some(e)
                    &&& final(self)@ == old(self)@
                },
            },
    {
        let bill: &Bill = match self.bill_ref(bill_id) {
            Some(bill) => bill,
            None => {
                return Err(Error::BillNotFound);
            },
        };
        let cycle_id: u64 = bill.cycle_id;
        let cycle: BillCycle = self.cycle_of_bill(bill_id);
        if caller != cycle.user {
            return Err(Error::Unauthorized);
        }
        if !cycle.is_active {
            return Err(Error::CycleNotActive);
        }
        let this_month: u32 = match month {
            Some(this_month) => this_month,
            None => {
                return Err(Error::InvalidTimestamp);
            },
        };
        if cycle.last_adjustment_month == this_month {
            return Err(Error::MonthlyAdjustmentLimitReached);
        }
        assert(bill_id <= self.bills.len());
        self.bills[(bill_id - 1) as usize] = None;
        self.mark_adjusted(cycle_id, this_month);
        proof {
            assert(self@.bills =~= old(self)@.delete_bill_next(bill_id, this_month).bills);
            lemma_delete_bill_wf(old(self)@, bill_id, this_month);
        }
        Ok(BillCancelled { bill_id })
    }

    /// Deletes a bill, recurring or not.
    pub fn delete_bill(&mut self, caller: Identity, bill_id: u64, now: u64) -> (r: Result<
        BillCancelled,
        Error,
    >)
        requires
            old(self).wf(),
        ensures
            final(self).wf(),
            match r {
                Ok(event) => {
                    &&& old(self)@.adjust_error(caller, bill_id, current_month_of(now)) is None
                    &&& final(self)@ == old(self)@.delete_bill_next(
                        bill_id,
                        current_month_of(now)->0,
                    )
                    &&& event == (BillCancelled { bill_id })
                },
                Err(e) => {
                    &&& old(self)@.adjust_error(caller, bill_id, current_month_of(now)) == Some(e)
                    &&& final(self)@ == old(self)@
                },
            },
    {
        let month: Option<u32> = match Self::get_current_month(now) {
            Ok(month) => Some(month),
            Err(_) => None,
        };
        self.delete_bill_in_month(caller, bill_id, month)
    }
}

} // verus!
