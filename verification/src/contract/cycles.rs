//! The cycle manager.

use vstd::prelude::*;
use crate::contract::LockedIn;
use crate::error::Error;
use crate::events::{CycleCreated, CycleEnded};
use crate::lemmas::{lemma_close_cycle_wf, lemma_create_cycle_wf, lemma_paid_bounds};
use crate::lemmas::lemma_wf_same_records;
use crate::model::{cycle_ids_upto, paid_upto};
use crate::types::{Account, BillCycle, CycleClosure, CycleCreation, Identity, Transfer};

verus! {

impl LockedIn {
    /// Opens an escrow cycle of `duration_months` months for `user`, who
    /// deposits `amount`. The host moves the deposit into custody and then the
    /// fee out of it.
    pub fn create_cycle(
        &mut self,
        caller: Identity,
        user: Identity,
        duration_months: u32,
        amount: i128,
        now: u64,
    ) -> (r: Result<CycleCreation, Error>)
        requires
            old(self).wf(),
            old(self)@.cycles.len() < u64::MAX,
        ensures
            final(self).wf(),
            match r {
                Ok(outcome) => {
                    &&& old(self)@.create_cycle_error(caller, user, duration_months, amount, now)
                        is None
                    &&& final(self)@ == old(self)@.create_cycle_next(
                        user,
                        duration_months,
                        amount,
                        now,
                    )
                    &&& outcome == old(self)@.create_cycle_output(user, amount)
                },
                Err(e) => {
                    &&& old(self)@.create_cycle_error(caller, user, duration_months, amount, now)
                        == Some(e)
                    &&& final(self)@ == old(self)@
                },
            },
    {
        if caller != user {
            return Err(Error::Unauthorized);
        }
        if duration_months < 1 || duration_months > 12 {
            return Err(Error::InvalidCycleDuration);
        }
        if amount <= 0 {
            return Err(Error::InsufficientFunds);
        }
        let duration: u64 = duration_months as u64 * 2_592_000;
        let end_date: u64 = match now.checked_add(duration) {
            Some(end_date) => end_date,
            None => {
                return Err(Error::InvalidTimestamp);
            },
        };
        let operating_fee: i128 = Self::calculate_fee(amount, self.fee_percentage);
        let cycle_id: u64 = self.cycles.len() as u64 + 1;
        self.cycles.push(
            BillCycle {
                user,
                start_date: now,
                end_date,
                total_deposited: amount,
                operating_fee,
                fee_percentage: self.fee_percentage,
                is_active: true,
                last_adjustment_month: 0,
            },
        );
        proof {
            lemma_create_cycle_wf(old(self)@, user, duration_months, amount, now);
        }
        Ok(
            CycleCreation {
                cycle_id,
                deposit: Transfer { from: Account::Holder(user), to: Account::Custody, amount },
                fee: Transfer {
                    from: Account::Custody,
                    to: Account::Holder(self.fee_recipient),
                    amount: operating_fee,
                },
                event: CycleCreated { cycle_id, user },
            },
        )
    }

    /// The amounts of the paid bills of a cycle.
    fn paid_total(&self, cycle_id: u64) -> (total: i128)
        requires
            self.wf(),
            self@.has_cycle(cycle_id),
        ensures
            total == self@.paid_total(cycle_id),
    {
        let mut total: i128 = 0;
        let mut i: usize = 0;
        while i < self.bills.len()
            invariant
                i <= self.bills.len(),
                self.wf(),
                self@.has_cycle(cycle_id),
                total == paid_upto(self@.bills, cycle_id, i as int),
            decreases self.bills.len() - i,
        {
            proof {
                lemma_paid_bounds(self@, cycle_id, i + 1);
            }
            match &self.bills[i] {
                Some(bill) => {
                    if bill.cycle_id == cycle_id && bill.is_paid {
                        total = total + bill.amount;
                    }
                },
                None => {},
            }
            i = i + 1;
        }
        total
    }

    /// Marks a cycle closed, takes the guard, and works out what returns to
    /// the owner.
    fn close_cycle(&mut self, cycle_id: u64) -> (outcome: CycleClosure)
        requires
            old(self).wf(),
            old(self)@.has_cycle(cycle_id),
        ensures
            final(self).wf(),
            final(self)@ == old(self)@.close_cycle_next(cycle_id),
            outcome == old(self)@.close_cycle_output(cycle_id),
    {
        let paid: i128 = self.paid_total(cycle_id);
        assert(cycle_id <= self.cycles.len());
        let index: usize = (cycle_id - 1) as usize;
        let cycle: BillCycle = self.cycles[index];
        proof {
            assert(cycle == self@.cycle(cycle_id));
            lemma_paid_bounds(self@, cycle_id, 0);
        }
        let surplus: i128 = cycle.total_deposited - cycle.operating_fee - paid;
        self.cycles[index] = BillCycle { is_active: false, ..cycle };
        self.locked = true;
        proof {
            assert(self@.cycles =~= old(self)@.close_cycle_next(cycle_id).cycles);
            lemma_close_cycle_wf(old(self)@, cycle_id);
        }
        let refund: Option<Transfer> = if surplus > 0 {
            Some(Transfer { from: Account::Custody, to: Account::Holder(cycle.user), amount: surplus })
        } else {
            None
        };
        CycleClosure { refund, event: CycleEnded { cycle_id, surplus } }
    }

    /// Closes a cycle whose end date has come, on its owner's word. The host
    /// moves the surplus back to the owner and then releases the guard.
    pub fn end_cycle(&mut self, caller: Identity, cycle_id: u64, now: u64) -> (r: Result<
        CycleClosure,
        Error,
    >)
        requires
            old(self).wf(),
        ensures
            final(self).wf(),
            match r {
                Ok(outcome) => {
                    &&& old(self)@.end_cycle_error(caller, cycle_id, now) is None
                    &&& final(self)@ == old(self)@.close_cycle_next(cycle_id)
                    &&& outcome == old(self)@.close_cycle_output(cycle_id)
                },
                Err(e) => {
                    &&& old(self)@.end_cycle_error(caller, cycle_id, now) == Some(e)
                    &&& final(self)@ == old(self)@
                },
            },
    {
        if self.locked {
            return Err(Error::Reentrancy);
        }
        if cycle_id < 1 || cycle_id > self.cycles.len() as u64 {
            return Err(Error::CycleNotFound);
        }
        let cycle: BillCycle = self.cycles[(cycle_id - 1) as usize];
        if caller != cycle.user {
            return Err(Error::Unauthorized);
        }
        if now < cycle.end_date {
            return Err(Error::CycleNotEnded);
        }
        if !cycle.is_active {
            return Err(Error::CycleAlreadyEnded);
        }
        Ok(self.close_cycle(cycle_id))
    }

    /// Closes a cycle at any time, on the admin's word. The host moves the
    /// surplus back to the owner and then releases the guard.
    pub fn admin_end_cycle(&mut self, caller: Identity, cycle_id: u64) -> (r: Result<
        CycleClosure,
        Error,
    >)
        requires
            old(self).wf(),
        ensures
            final(self).wf(),
            match r {
                Ok(outcome) => {
                    &&& old(self)@.admin_end_cycle_error(caller, cycle_id) is None
                    &&& final(self)@ == old(self)@.close_cycle_next(cycle_id)
                    &&& outcome == old(self)@.close_cycle_output(cycle_id)
                },
                Err(e) => {
                    &&& old(self)@.admin_end_cycle_error(caller, cycle_id) == Some(e)
                    &&& final(self)@ == old(self)@
                },
            },
    {
        if caller != self.admin {
            return Err(Error::Unauthorized);
        }
        if self.locked {
            return Err(Error::Reentrancy);
        }
        if cycle_id < 1 || cycle_id > self.cycles.len() as u64 {
            return Err(Error::CycleNotFound);
        }
        let cycle: BillCycle = self.cycles[(cycle_id - 1) as usize];
        if !cycle.is_active {
            return Err(Error::CycleAlreadyEnded);
        }
        Ok(self.close_cycle(cycle_id))
    }

    /// Whether the guard is held: a movement of funds has been decided and
    /// the host has not yet reported it done.
    pub fn guard_held(&self) -> (held: bool)
        ensures
            held == self@.locked,
    {
        self.locked
    }

    /// Releases the guard. The host calls this when the movements of funds
    /// that a payment or a closure handed back have been carried out.
    pub fn release_guard(&mut self)
        requires
            old(self).wf(),
        ensures
            final(self).wf(),
            final(self)@ == old(self)@.release_next(),
    {
        self.locked = false;
        proof {
            lemma_wf_same_records(old(self)@, self@);
        }
    }

    /// The owner of a cycle, if the cycle exists.
    pub fn cycle_owner(&self, cycle_id: u64) -> (owner: Option<Identity>)
        ensures
            owner == if self@.has_cycle(cycle_id) {
                Some(self@.cycle(cycle_id).user)
            } else {
                None
            },
    {
        if cycle_id < 1 || cycle_id > self.cycles.len() as u64 {
            None
        } else {
            Some(self.cycles[(cycle_id - 1) as usize].user)
        }
    }

    /// Reads a cycle, for its owner.
    pub fn get_cycle(&self, caller: Identity, cycle_id: u64) -> (r: Result<BillCycle, Error>)
        ensures
            match r {
                Ok(cycle) => self@.get_cycle_error(caller, cycle_id) is None && cycle
                    == self@.cycle(cycle_id),
                Err(e) => self@.get_cycle_error(caller, cycle_id) == Some(e),
            },
    {
        if cycle_id < 1 || cycle_id > self.cycles.len() as u64 {
            return Err(Error::CycleNotFound);
        }
        let cycle: BillCycle = self.cycles[(cycle_id - 1) as usize];
        if caller != cycle.user {
            return Err(Error::Unauthorized);
        }
        Ok(cycle)
    }

    /// The ids of a user's cycles, oldest first, for that user.
    pub fn get_user_cycles(&self, caller: Identity, user: Identity) -> (r: Result<Vec<u64>, Error>)
        requires
            self.wf(),
        ensures
            match r {
                Ok(ids) => caller == user && ids@ == self@.user_cycle_ids(user),
                Err(e) => caller != user && e == Error::Unauthorized,
            },
    {
        if caller != user {
            return Err(Error::Unauthorized);
        }
        let mut ids: Vec<u64> = Vec::new();
        let mut i: usize = 0;
        while i < self.cycles.len()
            invariant
                i <= self.cycles.len(),
                self.cycles@.len() <= u64::MAX,
                ids@ == cycle_ids_upto(self@.cycles, user, i as int),
            decreases self.cycles.len() - i,
        {
            if self.cycles[i].user == user {
                ids.push(i as u64 + 1);
            }
            i = i + 1;
        }
        Ok(ids)
    }

    /// The ids of all cycles, oldest first, for the admin.
    pub fn get_all_cycles(&self, caller: Identity) -> (r: Result<Vec<u64>, Error>)
        requires
            self.wf(),
        ensures
            match r {
                Ok(ids) => self@.admin_error(caller) is None && ids@ == self@.all_cycle_ids(),
                Err(e) => self@.admin_error(caller) == Some(e),
            },
    {
        if caller != self.admin {
            return Err(Error::Unauthorized);
        }
        let mut ids: Vec<u64> = Vec::new();
        let mut i: usize = 0;
        while i < self.cycles.len()
            invariant
                i <= self.cycles.len(),
                self.cycles@.len() <= u64::MAX,
                ids@.len() == i,
                forall|j: int| 0 <= j < i ==> ids@[j] == j + 1,
            decreases self.cycles.len() - i,
        {
            ids.push(i as u64 + 1);
            i = i + 1;
        }
        assert(ids@ =~= self@.all_cycle_ids());
        Ok(ids)
    }
}

} // verus!
