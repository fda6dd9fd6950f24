//! The ledger itself: the state it keeps and the operations on it.
//!
//! Every operation is a decision. It is told who has authorized the call and
//! what the clock shows, changes the ledger, and hands back the movements of
//! funds and the notifications that its host is to carry out. An operation
//! that is refused changes nothing.

use vstd::prelude::*;
use crate::error::Error;
use crate::model::Ledger;
use crate::types::{Bill, BillCycle, BillView, Identity, PendingTransfer};

pub mod additions;
pub mod admin;
pub mod batches;
pub mod bills;
pub mod cycles;
pub mod snapshot;

verus! {

/// The mathematical content of one bill slot.
pub open spec fn slot_view(slot: Option<Bill>) -> Option<BillView> {
    match slot {
        Some(b) => Some(b@),
        None => None,
    }
}

/// The mathematical content of the bill slots.
pub open spec fn slots_view(slots: Seq<Option<Bill>>) -> Seq<Option<BillView>> {
    Seq::new(slots.len(), |i: int| slot_view(slots[i]))
}

/// The escrow ledger.
pub struct LockedIn {
    admin: Identity,
    pending: Option<PendingTransfer>,
    usdc_token: Identity,
    fee_recipient: Identity,
    fee_percentage: u32,
    cycles: Vec<BillCycle>,
    bills: Vec<Option<Bill>>,
    locked: bool,
}

impl View for LockedIn {
    type V = Ledger;

    closed spec fn view(&self) -> Ledger {
        Ledger {
            admin: self.admin,
            pending: self.pending,
            usdc_token: self.usdc_token,
            fee_recipient: self.fee_recipient,
            fee_percentage: self.fee_percentage,
            cycles: self.cycles@,
            bills: slots_view(self.bills@),
            locked: self.locked,
        }
    }
}

impl LockedIn {
    /// The invariant that every operation requires and preserves.
    pub open spec fn wf(&self) -> bool {
        self@.wf()
    }

    /// Sets up a ledger with `admin` in charge. The admin must have
    /// authorized this.
    pub fn new(caller: Identity, admin: Identity, usdc_token: Identity) -> (r: Result<
        LockedIn,
        Error,
    >)
        ensures
            match r {
                Ok(ledger) => caller == admin && ledger.wf() && ledger@ == Ledger::initial(
                    admin,
                    usdc_token,
                ),
                Err(e) => caller != admin && e == Error::Unauthorized,
            },
    {
        if caller != admin {
            return Err(Error::Unauthorized);
        }
        let ledger = LockedIn {
            admin,
            pending: None,
            usdc_token,
            fee_recipient: admin,
            fee_percentage: 200,
            cycles: Vec::new(),
            bills: Vec::new(),
            locked: false,
        };
        assert(ledger@.cycles =~= Seq::empty());
        assert(ledger@.bills =~= Seq::empty());
        Ok(ledger)
    }

    /// Who is in charge.
    pub fn admin(&self) -> (a: Identity)
        ensures
            a == self@.admin,
    {
        self.admin
    }

    /// Who is staged to take over the admin role, if anyone.
    pub fn pending_admin(&self) -> (p: Option<PendingTransfer>)
        ensures
            p == self@.pending,
    {
        self.pending
    }

    /// Who receives the operating fees.
    pub fn fee_recipient(&self) -> (recipient: Identity)
        ensures
            recipient == self@.fee_recipient,
    {
        self.fee_recipient
    }

    /// The asset in which funds are settled.
    pub fn usdc_token(&self) -> (token: Identity)
        ensures
            token == self@.usdc_token,
    {
        self.usdc_token
    }

    /// The fee rate that new cycles are charged, in hundredths of a percent.
    pub fn fee_percentage(&self) -> (fee_percentage: u32)
        ensures
            fee_percentage == self@.fee_percentage,
    {
        self.fee_percentage
    }
}

} // verus!
