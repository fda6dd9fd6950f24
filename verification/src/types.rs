//! The records the ledger keeps and the values it hands back.

use vstd::prelude::*;

verus! {

/// A principal: whoever can authorize a call, own a cycle or receive funds.
/// The ledger only ever compares identities for equality.
#[derive(Clone, Copy, Debug, PartialEq, Eq, Hash, Structural)]
pub struct Identity {
    pub key: u64,
}

/// What a bill is for.
#[derive(Clone, Copy, Debug, PartialEq, Eq, Structural)]
pub enum BillCategory {
    Housing,
    Utilities,
    Transportation,
    Food,
    Healthcare,
    Insurance,
    Entertainment,
    Education,
    Debt,
    Other,
}

/// One escrow period of one user.
#[derive(Clone, Copy, Debug, PartialEq, Eq, Structural)]
pub struct BillCycle {
    pub user: Identity,
    pub start_date: u64,
    pub end_date: u64,
    pub total_deposited: i128,
    pub operating_fee: i128,
    pub fee_percentage: u32,
    pub is_active: bool,
    pub last_adjustment_month: u32,
}

/// One payable obligation inside a cycle.
#[derive(Debug)]
pub struct Bill {
    pub id: u64,
    pub cycle_id: u64,
    pub name: String,
    pub amount: i128,
    pub due_date: u64,
    pub is_paid: bool,
    pub is_recurring: bool,
    pub recurrence_calendar: Vec<u32>,
    pub last_paid_date: Option<u64>,
    pub category: BillCategory,
}

/// The mathematical content of a [`Bill`].
pub struct BillView {
    pub id: u64,
    pub cycle_id: u64,
    pub name: Seq<char>,
    pub amount: i128,
    pub due_date: u64,
    pub is_paid: bool,
    pub is_recurring: bool,
    pub recurrence_calendar: Seq<u32>,
    pub last_paid_date: Option<u64>,
    pub category: BillCategory,
}

impl View for Bill {
    type V = BillView;

    open spec fn view(&self) -> BillView {
        BillView {
            id: self.id,
            cycle_id: self.cycle_id,
            name: self.name@,
            amount: self.amount,
            due_date: self.due_date,
            is_paid: self.is_paid,
            is_recurring: self.is_recurring,
            recurrence_calendar: self.recurrence_calendar@,
            last_paid_date: self.last_paid_date,
            category: self.category,
        }
    }
}

impl Clone for Bill {
    fn clone(&self) -> (copy: Bill)
        ensures
            copy@ == self@,
    {
        Bill {
            id: self.id,
            cycle_id: self.cycle_id,
            name: self.name.clone(),
            amount: self.amount,
            due_date: self.due_date,
            is_paid: self.is_paid,
            is_recurring: self.is_recurring,
            recurrence_calendar: self.recurrence_calendar.clone(),
            last_paid_date: self.last_paid_date,
            category: self.category,
        }
    }
}

/// A bill as its owner declares it, before the ledger has numbered it.
#[derive(Debug)]
pub struct NewBill {
    pub name: String,
    pub amount: i128,
    pub due_date: u64,
    pub is_recurring: bool,
    pub recurrence_calendar: Vec<u32>,
    pub category: BillCategory,
}

/// The mathematical content of a [`NewBill`].
pub struct NewBillView {
    pub name: Seq<char>,
    pub amount: i128,
    pub due_date: u64,
    pub is_recurring: bool,
    pub recurrence_calendar: Seq<u32>,
    pub category: BillCategory,
}

impl View for NewBill {
    type V = NewBillView;

    open spec fn view(&self) -> NewBillView {
        NewBillView {
            name: self.name@,
            amount: self.amount,
            due_date: self.due_date,
            is_recurring: self.is_recurring,
            recurrence_calendar: self.recurrence_calendar@,
            category: self.category,
        }
    }
}

/// A staged hand-over of the admin role.
#[derive(Clone, Copy, Debug, PartialEq, Eq, Structural)]
pub struct PendingTransfer {
    pub new_admin: Identity,
    pub expiry: u32,
}

/// One end of a movement of funds.
#[derive(Clone, Copy, Debug, PartialEq, Eq, Structural)]
pub enum Account {
    /// The ledger's own custody account, where escrow is held.
    Custody,
    /// The account of a principal.
    Holder(Identity),
}

/// A movement of funds that the host must carry out in the settlement asset.
#[derive(Clone, Copy, Debug, PartialEq, Eq, Structural)]
pub struct Transfer {
    pub from: Account,
    pub to: Account,
    pub amount: i128,
}

/// What the host is to do once a cycle has been created.
#[derive(Clone, Copy, Debug, PartialEq, Eq, Structural)]
pub struct CycleCreation {
    pub cycle_id: u64,
    /// The deposit, from the user into custody.
    pub deposit: Transfer,
    /// The operating fee, out of custody to the fee recipient.
    pub fee: Transfer,
    pub event: crate::events::CycleCreated,
}

/// What the host is to do once a cycle has been closed.
#[derive(Clone, Copy, Debug, PartialEq, Eq, Structural)]
pub struct CycleClosure {
    /// The surplus, out of custody back to the owner, where there is any.
    pub refund: Option<Transfer>,
    pub event: crate::events::CycleEnded,
}

/// What the host is to do once a bill has been paid.
#[derive(Clone, Copy, Debug, PartialEq, Eq, Structural)]
pub struct BillPayment {
    /// The bill's amount, out of custody to the owner of the cycle.
    pub payout: Transfer,
    pub event: crate::events::BillPaid,
}

} // verus!
