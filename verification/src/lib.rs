//! An escrow-based bill-payment scheduler.
//!
//! A user locks funds for a fixed number of months, declares the bills to be
//! paid out of that escrow, and the ledger enforces that funds are never
//! over-committed, that payments happen only inside their time windows, and
//! that whatever is left returns to the owner when the cycle closes.

pub mod bill_lemmas;
pub mod calendar;
pub mod clock;
pub mod contract;
pub mod error;
pub mod events;
pub mod fees;
pub mod indexes;
pub mod laws;
pub mod lemmas;
pub mod model;
pub mod rules;
pub mod types;

pub use crate::contract::snapshot::Snapshot;
pub use crate::contract::LockedIn;
pub use crate::error::Error;
pub use crate::events::{
    AdminTransferInitiated, AdminTransferred, BillAdded, BillCancelled, BillPaid, CycleCreated,
    CycleEnded, FeeRecipientUpdated,
};
pub use crate::types::{
    Account, Bill, BillCategory, BillCycle, BillPayment, BillView, CycleClosure, CycleCreation,
    Identity, NewBill, NewBillView, PendingTransfer, Transfer,
};
