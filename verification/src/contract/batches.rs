//! The bill ledger: skipping or deleting several bills as the month's one
//! edit.

use vstd::prelude::*;
use crate::bill_lemmas::{
    lemma_delete_bills_wf, lemma_members_error_stands, lemma_skip_bills_wf,
};
use crate::clock::{current_month_of, one_month_after};
use crate::contract::LockedIn;
use crate::error::Error;
use crate::events::BillCancelled;
use crate::model::Ledger;
use crate::rules::bills::{cancelled_upto, deleted_upto, skipped_upto};
use crate::types::{Bill, BillCycle, Identity};

verus! {

impl LockedIn {
    /// Whether an id is among those listed.
    pub fn is_listed(ids: &Vec<u64>, id: u64) -> (r: bool)
        ensures
            r == ids@.contains(id),
    {
        let mut k: usize = 0;
        while k < ids.len()
            invariant
                k <= ids.len(),
                forall|j: int| 0 <= j < k ==> ids@[j] != id,
            decreases ids.len() - k,
        {
            if ids[k] == id {
                return true;
            }
            k = k + 1;
        }
        false
    }

    /// Whether one of the bills listed recurs.
    fn any_recurring(&self, ids: &Vec<u64>) -> (r: bool)
        ensures
            r == self@.any_recurring(ids@),
    {
        let mut k: usize = 0;
        while k < ids.len()
            invariant
                k <= ids.len(),
                forall|j: int|
                    0 <= j < k ==> !(self@.has_bill(#[trigger] ids@[j]) && self@.bill(
                        ids@[j],
                    ).is_recurring),
            decreases ids.len() - k,
        {
            match self.bill_ref(ids[k]) {
                Some(bill) => {
                    if bill.is_recurring {
                        return true;
                    }
                },
                None => {},
            }
            k = k + 1;
        }
        false
    }

    /// Holds a list of bills against the rules for the month's one edit, and
    /// names the cycle that the edit is of.
    fn check_batch(&self, caller: Identity, ids: &Vec<u64>, month: Option<u32>) -> (r: Result<
        u64,
        Error,
    >)
        requires
            self.wf(),
        ensures
            match r {
                Ok(cycle_id) => {
                    &&& self@.batch_error(caller, ids@, month) is None
                    &&& ids@.len() > 0
                    &&& month is Some
                    &&& self@.has_bill(ids@[0])
                    &&& cycle_id == self@.bill(ids@[0]).cycle_id
                    &&& self@.has_cycle(cycle_id)
                },
                Err(e) => self@.batch_error(caller, ids@, month) == Some(e),
            },
    {
        if ids.len() == 0 {
            return Err(Error::InvalidBillAmount);
        }
        let first_id: u64 = ids[0];
        let first: &Bill = match self.bill_ref(first_id) {
            Some(bill) => bill,
            None => {
                return Err(Error::BillNotFound);
            },
        };
        let cycle_id: u64 = first.cycle_id;
        let cycle: BillCycle = self.cycle_of_bill(first_id);
        if caller != cycle.user {
            return Err(Error::Unauthorized);
        }
        if !cycle.is_active {
            return Err(Error::CycleNotActive);
        }
        let this_month: u32 = match month {
            Some(this_month) => this_month,
            None => {
                return Err(Error::InvalidTimestamp);
            },
        };
        if cycle.last_adjustment_month == this_month {
            return Err(Error::MonthlyAdjustmentLimitReached);
        }
        let n: usize = ids.len();
        let mut k: usize = 0;
        while k < n
            invariant
                k <= n,
                n == ids.len(),
                self@.adjust_error(caller, ids@[0], month) is None,
                cycle_id == self@.bill(ids@[0]).cycle_id,
                self@.members_error_upto(cycle_id, ids@, k as int) is None,
            decreases n - k,
        {
            let refused: Option<Error> = match self.bill_ref(ids[k]) {
                None => Some(Error::BillNotFound),
                Some(bill) => if bill.cycle_id != cycle_id {
                    Some(Error::InvalidDueDate)
                } else {
                    None
                },
            };
            if let Some(e) = refused {
                proof {
                    lemma_members_error_stands(self@, cycle_id, ids@, k + 1, n as int);
                }
                return Err(e);
            }
            k = k + 1;
        }
        Ok(cycle_id)
    }

    /// Skips the coming occurrence of each bill listed, in calendar month
    /// `month`: the recurring ones rest until `resume`, the others are
    /// removed. `month` and `resume` are nothing where the clock cannot be
    /// read as a date.
    pub fn skip_bills_in_month(
        &mut self,
        caller: Identity,
        bill_ids: Vec<u64>,
        month: Option<u32>,
        resume: Option<u64>,
    ) -> (r: Result<Vec<BillCancelled>, Error>)
        requires
            old(self).wf(),
        ensures
            final(self).wf(),
            match r {
                Ok(events) => {
                    &&& old(self)@.skip_bills_error(caller, bill_ids@, month, resume) is None
                    &&& final(self)@ == old(self)@.skip_bills_next(bill_ids@, month->0, resume)
                    &&& events@ == Ledger::skip_bills_output(bill_ids@)
                },
                Err(e) => {
                    &&& old(self)@.skip_bills_error(caller, bill_ids@, month, resume) == Some(e)
                    &&& final(self)@ == old(self)@
                },
            },
    {
        let cycle_id: u64 = match self.check_batch(caller, &bill_ids, month) {
            Ok(cycle_id) => cycle_id,
            Err(e) => {
                return Err(e);
            },
        };
        let this_month: u32 = match month {
            Some(this_month) => this_month,
            None => {
                return Err(Error::InvalidTimestamp);
            },
        };
        if resume.is_none() && self.any_recurring(&bill_ids) {
            return Err(Error::InvalidTimestamp);
        }
        let slots: usize = self.bills.len();
        let mut i: usize = 0;
        proof {
            assert(self@.bills =~= skipped_upto(old(self)@.bills, bill_ids@, resume, 0));
        }
        while i < slots
            invariant
                i <= slots,
                slots == self.bills.len(),
                slots == old(self)@.bills.len(),
                slots <= u64::MAX,
                self@.bills == skipped_upto(old(self)@.bills, bill_ids@, resume, i as int),
                old(self)@ == (Ledger { bills: old(self)@.bills, ..self@ }),
            decreases slots - i,
        {
            let ghost before = self@.bills;
            if Self::is_listed(&bill_ids, i as u64 + 1) {
                let recurring: bool = match &self.bills[i] {
                    Some(bill) => bill.is_recurring,
                    None => false,
                };
                if recurring {
                    match &mut self.bills[i] {
                        Some(bill) => {
                            bill.last_paid_date = resume;
                        },
                        None => {},
                    }
                } else {
                    self.bills[i] = None;
                }
            }
            proof {
                let target = skipped_upto(old(self)@.bills, bill_ids@, resume, i + 1);
                assert forall|j: int| 0 <= j < before.len() implies self@.bills[j] == target[j] by {
                    assert(before[j] == skipped_upto(old(self)@.bills, bill_ids@, resume, i as int)[j]);
                }
                assert(self@.bills =~= target);
            }
            i = i + 1;
        }
        let mut events: Vec<BillCancelled> = Vec::new();
        let mut k: usize = 0;
        while k < bill_ids.len()
            invariant
                k <= bill_ids.len(),
                events@ == Ledger::skip_bills_output(bill_ids@).subrange(0, k as int),
            decreases bill_ids.len() - k,
        {
            events.push(BillCancelled { bill_id: bill_ids[k] });
            proof {
                assert(events@ =~= Ledger::skip_bills_output(bill_ids@).subrange(0, k + 1));
            }
            k = k + 1;
        }
        self.mark_adjusted(cycle_id, this_month);
        proof {
            assert(events@ =~= Ledger::skip_bills_output(bill_ids@));
            assert(self@.bills =~= old(self)@.skip_bills_next(bill_ids@, this_month, resume).bills);
            lemma_skip_bills_wf(old(self)@, bill_ids@, this_month, resume);
        }
        Ok(events)
    }

    /// Skips the coming occurrence of each bill listed: the recurring ones
    /// rest until the same moment of the next calendar month, the others are
    /// removed.
    pub fn skip_bills(&mut self, caller: Identity, bill_ids: Vec<u64>, now: u64) -> (r: Result<
        Vec<BillCancelled>,
        Error,
    >)
        requires
            old(self).wf(),
        ensures
            final(self).wf(),
            match r {
                Ok(events) => {
                    &&& old(self)@.skip_bills_error(
                        caller,
                        bill_ids@,
                        current_month_of(now),
                        one_month_after(now),
                    ) is None
                    &&& final(self)@ == old(self)@.skip_bills_next(
                        bill_ids@,
                        current_month_of(now)->0,
                        one_month_after(now),
                    )
                    &&& events@ == Ledger::skip_bills_output(bill_ids@)
                },
                Err(e) => {
                    &&& old(self)@.skip_bills_error(
                        caller,
                        bill_ids@,
                        current_month_of(now),
                        one_month_after(now),
                    ) == Some(e)
                    &&& final(self)@ == old(self)@
                },
            },
    {
        let month: Option<u32> = match Self::get_current_month(now) {
            Ok(month) => Some(month),
            Err(_) => None,
        };
        let resume: Option<u64> = match Self::add_one_month(now) {
            Ok(resume) => Some(resume),
            Err(_) => None,
        };
        self.skip_bills_in_month(caller, bill_ids, month, resume)
    }

    /// Deletes each bill listed, recurring or not, in calendar month `month`.
    /// `month` is nothing where the clock cannot be read as a date.
    pub fn delete_bills_in_month(&mut self, caller: Identity, bill_ids: Vec<u64>, month: Option<u32>) -> (r:
        Result<Vec<BillCancelled>, Error>)
        requires
            old(self).wf(),
        ensures
            final(self).wf(),
            match r {
                Ok(events) => {
                    &&& old(self)@.batch_error(caller, bill_ids@, month) is None
                    &&& final(self)@ == old(self)@.delete_bills_next(bill_ids@, month->0)
                    &&& events@ == old(self)@.delete_bills_output(bill_ids@)
                },
                Err(e) => {
                    &&& old(self)@.batch_error(caller, bill_ids@, month) == Some(e)
                    &&& final(self)@ == old(self)@
                },
            },
    {
        let cycle_id: u64 = match self.check_batch(caller, &bill_ids, month) {
            Ok(cycle_id) => cycle_id,
            Err(e) => {
                return Err(e);
            },
        };
        let this_month: u32 = match month {
            Some(this_month) => this_month,
            None => {
                return Err(Error::InvalidTimestamp);
            },
        };
        let slots: usize = self.bills.len();
        let mut events: Vec<BillCancelled> = Vec::new();
        let mut i: usize = 0;
        proof {
            assert(self@.bills =~= deleted_upto(old(self)@.bills, bill_ids@, 0));
        }
        while i < slots
            invariant
                i <= slots,
                slots == self.bills.len(),
                slots == old(self)@.bills.len(),
                slots <= u64::MAX,
                self@.bills == deleted_upto(old(self)@.bills, bill_ids@, i as int),
                old(self)@ == (Ledger { bills: old(self)@.bills, ..self@ }),
                events@ == cancelled_upto(bill_ids@, i as int),
            decreases slots - i,
        {
            let ghost before = self@.bills;
            let listed: bool = Self::is_listed(&bill_ids, i as u64 + 1);
            if listed {
                self.bills[i] = None;
                events.push(BillCancelled { bill_id: i as u64 + 1 });
            }
            proof {
                let target = deleted_upto(old(self)@.bills, bill_ids@, i + 1);
                assert forall|j: int| 0 <= j < before.len() implies self@.bills[j] == target[j] by {
                    assert(before[j] == deleted_upto(old(self)@.bills, bill_ids@, i as int)[j]);
                }
                assert(self@.bills =~= target);
            }
            i = i + 1;
        }
        self.mark_adjusted(cycle_id, this_month);
        proof {
            assert(self@.bills =~= old(self)@.delete_bills_next(bill_ids@, this_month).bills);
            lemma_delete_bills_wf(old(self)@, bill_ids@, this_month);
        }
        Ok(events)
    }

    /// Deletes each bill listed, recurring or not.
    pub fn delete_bills(&mut self, caller: Identity, bill_ids: Vec<u64>, now: u64) -> (r: Result<
        Vec<BillCancelled>,
        Error,
    >)
        requires
            old(self).wf(),
        ensures
            final(self).wf(),
            match r {
                Ok(events) => {
                    &&& old(self)@.batch_error(caller, bill_ids@, current_month_of(now)) is None
                    &&& final(self)@ == old(self)@.delete_bills_next(
                        bill_ids@,
                        current_month_of(now)->0,
                    )
                    &&& events@ == old(self)@.delete_bills_output(bill_ids@)
                },
                Err(e) => {
                    &&& old(self)@.batch_error(caller, bill_ids@, current_month_of(now)) == Some(e)
                    &&& final(self)@ == old(self)@
                },
            },
    {
        let month: Option<u32> = match Self::get_current_month(now) {
            Ok(month) => Some(month),
            Err(_) => None,
        };
        self.delete_bills_in_month(caller, bill_ids, month)
    }
}

} // verus!
