//! Fee and access control: the admin, the fee settings, and the two-step
//! hand-over of the admin role.

use vstd::prelude::*;
use crate::error::Error;
use crate::fees::{fee_percentage_allowed, DEFAULT_FEE_PERCENTAGE};
use crate::model::Ledger;
use crate::types::{Identity, PendingTransfer};

verus! {

impl Ledger {
    /// The ledger as its constructor leaves it: `admin` in charge and
    /// receiving the fees, the default fee rate, no cycle and no bill.
    pub open spec fn initial(admin: Identity, usdc_token: Identity) -> Ledger {
        Ledger {
            admin,
            pending: None,
            usdc_token,
            fee_recipient: admin,
            fee_percentage: DEFAULT_FEE_PERCENTAGE,
            cycles: Seq::empty(),
            bills: Seq::empty(),
            locked: false,
        }
    }

    /// Only the admin passes.
    pub open spec fn admin_error(self, caller: Identity) -> Option<Error> {
        if caller != self.admin {
            Some(Error::Unauthorized)
        } else {
            None
        }
    }

    /// Whether a hand-over is staged that sequence number `sequence` has not
    /// outlived.
    pub open spec fn has_live_transfer(self, sequence: u32) -> bool {
        self.pending matches Some(p) && sequence <= p.expiry
    }

    /// A hand-over may be staged by the admin, and only while no earlier one
    /// is still live.
    pub open spec fn transfer_admin_error(self, caller: Identity, sequence: u32) -> Option<Error> {
        if caller != self.admin {
            Some(Error::Unauthorized)
        } else if self.has_live_transfer(sequence) {
            Some(Error::PendingAdminTransferExists)
        } else {
            None
        }
    }

    pub open spec fn transfer_admin_next(self, new_admin: Identity, live_until: u32) -> Ledger {
        Ledger { pending: Some(PendingTransfer { new_admin, expiry: live_until }), ..self }
    }

    /// A hand-over is accepted by the admin-to-be, and not after its expiry.
    pub open spec fn accept_admin_error(self, caller: Identity, sequence: u32) -> Option<Error> {
        match self.pending {
            None => Some(Error::NoPendingAdminTransfer),
            Some(p) => if caller != p.new_admin {
                Some(Error::Unauthorized)
            } else if sequence > p.expiry {
                Some(Error::AdminTransferExpired)
            } else {
                None
            },
        }
    }

    pub open spec fn accept_admin_next(self) -> Ledger {
        Ledger { admin: self.pending->0.new_admin, pending: None, ..self }
    }

    /// A hand-over is cancelled by the admin, if there is one to cancel.
    pub open spec fn cancel_admin_transfer_error(self, caller: Identity) -> Option<Error> {
        if caller != self.admin {
            Some(Error::Unauthorized)
        } else if self.pending is None {
            Some(Error::NoPendingAdminTransfer)
        } else {
            None
        }
    }

    pub open spec fn cancel_admin_transfer_next(self) -> Ledger {
        Ledger { pending: None, ..self }
    }

    pub open spec fn set_fee_recipient_next(self, recipient: Identity) -> Ledger {
        Ledger { fee_recipient: recipient, ..self }
    }

    pub open spec fn set_usdc_token_next(self, usdc_token: Identity) -> Ledger {
        Ledger { usdc_token, ..self }
    }

    /// The fee rate is set by the admin, within the allowed range.
    pub open spec fn set_fee_percentage_error(
        self,
        caller: Identity,
        fee_percentage: u32,
    ) -> Option<Error> {
        if caller != self.admin {
            Some(Error::Unauthorized)
        } else if !fee_percentage_allowed(fee_percentage) {
            Some(Error::InvalidFeePercentage)
        } else {
            None
        }
    }

    pub open spec fn set_fee_percentage_next(self, fee_percentage: u32) -> Ledger {
        Ledger { fee_percentage, ..self }
    }
}

} // verus!
