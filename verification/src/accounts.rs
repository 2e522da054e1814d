//! The accounts that the instruction names, and the request that it issues.

use crate::address::Address;
use vstd::prelude::*;

verus! {

/// An account as a request refers to it.
#[derive(Clone, Copy, Debug, PartialEq, Eq)]
pub struct AccountRef {
    /// The account's identity.
    pub address: Address,
    /// Whether the holder of the account's key authorized the request.
    pub is_signer: bool,
}

/// The accounts of the `initialize` instruction.
#[derive(Clone, Copy, Debug, PartialEq, Eq)]
pub struct CreateSystemAccount {
    /// The user who pays for the new account.
    pub user: AccountRef,
    /// The account to be created.
    pub new_account: AccountRef,
    /// The account-management program, which creates the account and becomes
    /// its owner.
    pub system_program: Address,
}

/// A request to the account-management program: create the account `to`,
/// move `lamports` into it from `from`, give it `space` bytes of data and
/// hand it to `owner`.
#[derive(Clone, Copy, Debug, PartialEq, Eq)]
pub struct CreateAccountRequest {
    pub from: AccountRef,
    pub to: AccountRef,
    pub lamports: u64,
    pub space: u64,
    pub owner: Address,
}

impl CreateSystemAccount {
    /// Both the payer and the new account authorized the request.
    pub open spec fn authorized(self) -> bool {
        self.user.is_signer && self.new_account.is_signer
    }

    /// The request that funds the new account with `lamports` from the payer,
    /// gives it `space` bytes of data and hands it to the account-management
    /// program.
    pub open spec fn creation_request(self, lamports: u64, space: u64) -> CreateAccountRequest {
        CreateAccountRequest {
            from: self.user,
            to: self.new_account,
            lamports,
            space,
            owner: self.system_program,
        }
    }
}

} // verus!
