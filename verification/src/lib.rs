//! Creation of a rent-exempt, data-less account owned by the ledger's
//! account-management program, with every decision of the instruction
//! stated and proved over plain values.

pub mod accounts;
pub mod address;
pub mod initializer;
pub mod ledger;

pub use accounts::{AccountRef, CreateAccountRequest, CreateSystemAccount};
pub use address::Address;
pub use initializer::{authorize, initialize, plan_creation, settle, InitializeError, NEW_ACCOUNT_SPACE};
pub use ledger::{Account, Ledger, LedgerError, LedgerState, RentParameters};
