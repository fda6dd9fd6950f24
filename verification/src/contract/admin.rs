//! Fee and access control.

use vstd::prelude::*;
use crate::contract::LockedIn;
use crate::error::Error;
use crate::events::{AdminTransferInitiated, AdminTransferred, FeeRecipientUpdated};
use crate::fees::{fee_of, fee_percentage_allowed};
use crate::fees::{lemma_fee_bounds, lemma_fee_by_parts};
use crate::lemmas::lemma_wf_same_records;
use crate::types::{Identity, PendingTransfer};

verus! {

impl LockedIn {
    /// Passes the admin and nobody else.
    pub fn require_admin(&self, caller: Identity) -> (r: Result<(), Error>)
        ensures
            r is Ok <==> caller == self@.admin,
            r is Err ==> r == Err::<(), Error>(Error::Unauthorized),
    {
        if caller != self.admin {
            Err(Error::Unauthorized)
        } else {
            Ok(())
        }
    }

    /// Accepts a fee rate from 1.00% to 5.00%.
    pub fn validate_fee_percentage(fee_percentage: u32) -> (r: Result<(), Error>)
        ensures
            r is Ok <==> fee_percentage_allowed(fee_percentage),
            r is Err ==> r == Err::<(), Error>(Error::InvalidFeePercentage),
    {
        if fee_percentage < 100 || fee_percentage > 500 {
            return Err(Error::InvalidFeePercentage);
        }
        Ok(())
    }

    /// The operating fee on a deposit, rounded down.
    pub fn calculate_fee(amount: i128, fee_percentage: u32) -> (fee: i128)
        requires
            0 <= amount,
            fee_percentage <= 10_000,
        ensures
            fee == fee_of(amount as int, fee_percentage as int),
            0 <= fee <= amount,
    {
        let rate: i128 = fee_percentage as i128;
        let whole: i128 = amount / 10_000;
        let rest: i128 = amount % 10_000;
        proof {
            lemma_fee_by_parts(amount as int, fee_percentage as int);
            lemma_fee_bounds(amount as int, fee_percentage as int);
            assert(0 <= whole * rate <= amount) by (nonlinear_arith)
                requires
                    0 <= rate <= 10_000,
                    0 <= amount,
                    whole == amount / 10_000,
            ;
            assert(0 <= rest * rate <= 100_000_000) by (nonlinear_arith)
                requires
                    0 <= rate <= 10_000,
                    0 <= rest < 10_000,
            ;
        }
        whole * rate + (rest * rate) / 10_000
    }

    /// Stages the hand-over of the admin role to `new_admin`, to be accepted
    /// while the sequence number is at most `live_until_ledger`.
    pub fn transfer_admin(
        &mut self,
        caller: Identity,
        new_admin: Identity,
        live_until_ledger: u32,
        sequence: u32,
    ) -> (r: Result<AdminTransferInitiated, Error>)
        requires
            old(self).wf(),
        ensures
            final(self).wf(),
            match r {
                Ok(event) => {
                    &&& old(self)@.transfer_admin_error(caller, sequence) is None
                    &&& final(self)@ == old(self)@.transfer_admin_next(new_admin, live_until_ledger)
                    &&& event == (AdminTransferInitiated { new_admin })
                },
                Err(e) => {
                    &&& old(self)@.transfer_admin_error(caller, sequence) == Some(e)
                    &&& final(self)@ == old(self)@
                },
            },
    {
        if caller != self.admin {
            return Err(Error::Unauthorized);
        }
        if let Some(p) = self.pending {
            if sequence <= p.expiry {
                return Err(Error::PendingAdminTransferExists);
            }
        }
        self.pending = Some(PendingTransfer { new_admin, expiry: live_until_ledger });
        proof {
            lemma_wf_same_records(old(self)@, self@);
        }
        Ok(AdminTransferInitiated { new_admin })
    }

    /// Completes a staged hand-over: the admin-to-be becomes the admin.
    pub fn accept_admin(&mut self, caller: Identity, sequence: u32) -> (r: Result<
        AdminTransferred,
        Error,
    >)
        requires
            old(self).wf(),
        ensures
            final(self).wf(),
            match r {
                Ok(event) => {
                    &&& old(self)@.accept_admin_error(caller, sequence) is None
                    &&& final(self)@ == old(self)@.accept_admin_next()
                    &&& event == (AdminTransferred { new_admin: caller })
                },
                Err(e) => {
                    &&& old(self)@.accept_admin_error(caller, sequence) == Some(e)
                    &&& final(self)@ == old(self)@
                },
            },
    {
        match self.pending {
            None => Err(Error::NoPendingAdminTransfer),
            Some(p) => {
                if caller != p.new_admin {
                    return Err(Error::Unauthorized);
                }
                if sequence > p.expiry {
                    return Err(Error::AdminTransferExpired);
                }
                self.admin = p.new_admin;
                self.pending = None;
                proof {
                    lemma_wf_same_records(old(self)@, self@);
                }
                Ok(AdminTransferred { new_admin: p.new_admin })
            },
        }
    }

    /// Withdraws a staged hand-over.
    pub fn cancel_admin_transfer(&mut self, caller: Identity) -> (r: Result<(), Error>)
        requires
            old(self).wf(),
        ensures
            final(self).wf(),
            match r {
                Ok(_) => {
                    &&& old(self)@.cancel_admin_transfer_error(caller) is None
                    &&& final(self)@ == old(self)@.cancel_admin_transfer_next()
                },
                Err(e) => {
                    &&& old(self)@.cancel_admin_transfer_error(caller) == Some(e)
                    &&& final(self)@ == old(self)@
                },
            },
    {
        if caller != self.admin {
            return Err(Error::Unauthorized);
        }
        if self.pending.is_none() {
            return Err(Error::NoPendingAdminTransfer);
        }
        self.pending = None;
        proof {
            lemma_wf_same_records(old(self)@, self@);
        }
        Ok(())
    }

    /// Names who receives the operating fees from now on.
    pub fn set_fee_recipient(&mut self, caller: Identity, recipient: Identity) -> (r: Result<
        FeeRecipientUpdated,
        Error,
    >)
        requires
            old(self).wf(),
        ensures
            final(self).wf(),
            match r {
                Ok(event) => {
                    &&& old(self)@.admin_error(caller) is None
                    &&& final(self)@ == old(self)@.set_fee_recipient_next(recipient)
                    &&& event == (FeeRecipientUpdated { recipient })
                },
                Err(e) => {
                    &&& old(self)@.admin_error(caller) == Some(e)
                    &&& final(self)@ == old(self)@
                },
            },
    {
        if caller != self.admin {
            return Err(Error::Unauthorized);
        }
        self.fee_recipient = recipient;
        proof {
            lemma_wf_same_records(old(self)@, self@);
        }
        Ok(FeeRecipientUpdated { recipient })
    }

    /// Names the asset in which funds are settled from now on.
    pub fn set_usdc_token(&mut self, caller: Identity, usdc_token: Identity) -> (r: Result<
        (),
        Error,
    >)
        requires
            old(self).wf(),
        ensures
            final(self).wf(),
            match r {
                Ok(_) => {
                    &&& old(self)@.admin_error(caller) is None
                    &&& final(self)@ == old(self)@.set_usdc_token_next(usdc_token)
                },
                Err(e) => {
                    &&& old(self)@.admin_error(caller) == Some(e)
                    &&& final(self)@ == old(self)@
                },
            },
    {
        if caller != self.admin {
            return Err(Error::Unauthorized);
        }
        self.usdc_token = usdc_token;
        proof {
            lemma_wf_same_records(old(self)@, self@);
        }
        Ok(())
    }

    /// Sets the fee rate that cycles created from now on are charged.
    pub fn set_fee_percentage(&mut self, caller: Identity, fee_percentage: u32) -> (r: Result<
        (),
        Error,
    >)
        requires
            old(self).wf(),
        ensures
            final(self).wf(),
            match r {
                Ok(_) => {
                    &&& old(self)@.set_fee_percentage_error(caller, fee_percentage) is None
                    &&& final(self)@ == old(self)@.set_fee_percentage_next(fee_percentage)
                },
                Err(e) => {
                    &&& old(self)@.set_fee_percentage_error(caller, fee_percentage) == Some(e)
                    &&& final(self)@ == old(self)@
                },
            },
    {
        if caller != self.admin {
            return Err(Error::Unauthorized);
        }
        if fee_percentage < 100 || fee_percentage > 500 {
            return Err(Error::InvalidFeePercentage);
        }
        self.fee_percentage = fee_percentage;
        proof {
            lemma_wf_same_records(old(self)@, self@);
        }
        Ok(())
    }
}

} // verus!
