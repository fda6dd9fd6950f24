//! The cycle manager: opening an escrow period and closing it.

use vstd::prelude::*;
use crate::error::Error;
use crate::events::{CycleCreated, CycleEnded};
use crate::fees::fee_of;
use crate::model::{Ledger, MAX_CYCLE_MONTHS, MIN_CYCLE_MONTHS, MONTH_SECONDS};
use crate::types::{Account, BillCycle, CycleClosure, CycleCreation, Identity, Transfer};

verus! {

impl Ledger {
    /// A cycle is opened by its user, for one to twelve months and a positive
    /// deposit, if its end can still be told in seconds.
    pub open spec fn create_cycle_error(
        self,
        caller: Identity,
        user: Identity,
        duration_months: u32,
        amount: i128,
        now: u64,
    ) -> Option<Error> {
        if caller != user {
            Some(Error::Unauthorized)
        } else if duration_months < MIN_CYCLE_MONTHS || duration_months > MAX_CYCLE_MONTHS {
            Some(Error::InvalidCycleDuration)
        } else if amount <= 0 {
            Some(Error::InsufficientFunds)
        } else if now + duration_months * MONTH_SECONDS > u64::MAX {
            Some(Error::InvalidTimestamp)
        } else {
            None
        }
    }

    /// The cycle that a deposit opens: it runs for thirty days per month from
    /// now, and is charged the fee rate of the moment.
    pub open spec fn opened_cycle(
        self,
        user: Identity,
        duration_months: u32,
        amount: i128,
        now: u64,
    ) -> BillCycle {
        BillCycle {
            user,
            start_date: now,
            end_date: (now + duration_months * MONTH_SECONDS) as u64,
            total_deposited: amount,
            operating_fee: fee_of(amount as int, self.fee_percentage as int) as i128,
            fee_percentage: self.fee_percentage,
            is_active: true,
            last_adjustment_month: 0,
        }
    }

    pub open spec fn create_cycle_next(
        self,
        user: Identity,
        duration_months: u32,
        amount: i128,
        now: u64,
    ) -> Ledger {
        Ledger { cycles: self.cycles.push(self.opened_cycle(user, duration_months, amount, now)), ..self }
    }

    /// The new cycle takes the next id; the deposit comes in and the fee goes
    /// out.
    pub open spec fn create_cycle_output(self, user: Identity, amount: i128) -> CycleCreation {
        let cycle_id = (self.cycles.len() + 1) as u64;
        CycleCreation {
            cycle_id,
            deposit: Transfer { from: Account::Holder(user), to: Account::Custody, amount },
            fee: Transfer {
                from: Account::Custody,
                to: Account::Holder(self.fee_recipient),
                amount: fee_of(amount as int, self.fee_percentage as int) as i128,
            },
            event: CycleCreated { cycle_id, user },
        }
    }

    /// A cycle is closed by its owner once its end date has come, unless
    /// funds are on the move or it is closed already.
    pub open spec fn end_cycle_error(self, caller: Identity, cycle_id: u64, now: u64) -> Option<
        Error,
    > {
        if self.locked {
            Some(Error::Reentrancy)
        } else if !self.has_cycle(cycle_id) {
            Some(Error::CycleNotFound)
        } else if caller != self.cycle(cycle_id).user {
            Some(Error::Unauthorized)
        } else if now < self.cycle(cycle_id).end_date {
            Some(Error::CycleNotEnded)
        } else if !self.cycle(cycle_id).is_active {
            Some(Error::CycleAlreadyEnded)
        } else {
            None
        }
    }

    /// The admin closes a cycle at any time, unless funds are on the move or
    /// it is closed already.
    pub open spec fn admin_end_cycle_error(self, caller: Identity, cycle_id: u64) -> Option<Error> {
        if caller != self.admin {
            Some(Error::Unauthorized)
        } else if self.locked {
            Some(Error::Reentrancy)
        } else if !self.has_cycle(cycle_id) {
            Some(Error::CycleNotFound)
        } else if !self.cycle(cycle_id).is_active {
            Some(Error::CycleAlreadyEnded)
        } else {
            None
        }
    }

    /// Closing marks the cycle inactive and holds the guard until the host
    /// has moved the surplus.
    pub open spec fn close_cycle_next(self, cycle_id: u64) -> Ledger {
        Ledger {
            cycles: self.cycles.update(
                cycle_id - 1,
                BillCycle { is_active: false, ..self.cycle(cycle_id) },
            ),
            locked: true,
            ..self
        }
    }

    /// The surplus goes back to the owner where there is any, and is
    /// announced in either case.
    pub open spec fn close_cycle_output(self, cycle_id: u64) -> CycleClosure {
        let surplus = self.surplus(cycle_id) as i128;
        CycleClosure {
            refund: if surplus > 0 {
                Some(
                    Transfer {
                        from: Account::Custody,
                        to: Account::Holder(self.cycle(cycle_id).user),
                        amount: surplus,
                    },
                )
            } else {
                None
            },
            event: CycleEnded { cycle_id, surplus },
        }
    }

    /// Reading a cycle is for its owner.
    pub open spec fn get_cycle_error(self, caller: Identity, cycle_id: u64) -> Option<Error> {
        if !self.has_cycle(cycle_id) {
            Some(Error::CycleNotFound)
        } else if caller != self.cycle(cycle_id).user {
            Some(Error::Unauthorized)
        } else {
            None
        }
    }

    /// Releasing the guard, once the host has moved the funds.
    pub open spec fn release_next(self) -> Ledger {
        Ledger { locked: false, ..self }
    }
}

} // verus!
