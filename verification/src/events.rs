//! The notifications the ledger asks its host to publish.

use vstd::prelude::*;
use crate::types::Identity;

verus! {

#[derive(Clone, Copy, Debug, PartialEq, Eq, Structural)]
pub struct AdminTransferInitiated {
    pub new_admin: Identity,
}

#[derive(Clone, Copy, Debug, PartialEq, Eq, Structural)]
pub struct AdminTransferred {
    pub new_admin: Identity,
}

#[derive(Clone, Copy, Debug, PartialEq, Eq, Structural)]
pub struct FeeRecipientUpdated {
    pub recipient: Identity,
}

#[derive(Clone, Copy, Debug, PartialEq, Eq, Structural)]
pub struct CycleCreated {
    pub cycle_id: u64,
    pub user: Identity,
}

#[derive(Clone, Copy, Debug, PartialEq, Eq, Structural)]
pub struct CycleEnded {
    pub cycle_id: u64,
    pub surplus: i128,
}

#[derive(Clone, Copy, Debug, PartialEq, Eq, Structural)]
pub struct BillAdded {
    pub bill_id: u64,
    pub cycle_id: u64,
}

#[derive(Clone, Copy, Debug, PartialEq, Eq, Structural)]
pub struct BillPaid {
    pub bill_id: u64,
    pub amount: i128,
}

#[derive(Clone, Copy, Debug, PartialEq, Eq, Structural)]
pub struct BillCancelled {
    pub bill_id: u64,
}

} // verus!
