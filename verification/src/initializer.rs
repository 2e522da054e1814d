//! The `initialize` instruction: what it decides between its two calls to
//! the host, and the whole of it on a ledger held in memory.

use crate::accounts::{CreateAccountRequest, CreateSystemAccount};
use crate::address::Address;
use crate::ledger::{Account, Ledger, LedgerError, LedgerState};
use vstd::prelude::*;

verus! {

/// The length, in bytes, of the data of the account that `initialize`
/// creates.
pub const NEW_ACCOUNT_SPACE: u64 = 0;

/// Why `initialize` failed. `E` is the host's error type; an error of the
/// host is handed on as it came.
#[derive(Debug, PartialEq, Eq)]
pub enum InitializeError<E> {
    /// The payer or the new account did not authorize the request.
    MissingSignature,
    /// The host refused the rent lookup or the creation.
    Host(E),
}

/// The first decision: the instruction goes on only if the payer and the new
/// account both signed.
pub fn authorize<E>(accounts: &CreateSystemAccount) -> (verdict: Result<(), InitializeError<E>>)
    ensures
        accounts.authorized() ==> verdict == Ok::<(), InitializeError<E>>(()),
        !accounts.authorized() ==> verdict == Err::<(), InitializeError<E>>(
            InitializeError::MissingSignature,
        ),
{
    if accounts.user.is_signer && accounts.new_account.is_signer {
        Ok(())
    } else {
        Err(InitializeError::MissingSignature)
    }
}

/// The second decision, taken once the host has answered the lookup of the
/// minimum balance for `NEW_ACCOUNT_SPACE` bytes: on a balance, the request
/// to issue; on an error, that error.
pub fn plan_creation<E>(accounts: &CreateSystemAccount, minimum_balance: Result<u64, E>) -> (plan:
    Result<CreateAccountRequest, InitializeError<E>>)
    ensures
        match minimum_balance {
            Ok(lamports) => plan == Ok::<CreateAccountRequest, InitializeError<E>>(
                accounts.creation_request(lamports, NEW_ACCOUNT_SPACE),
            ),
            Err(error) => plan == Err::<CreateAccountRequest, InitializeError<E>>(
                InitializeError::Host(error),
            ),
        },
{
    match minimum_balance {
        Ok(lamports) => Ok(
            CreateAccountRequest {
                from: accounts.user,
                to: accounts.new_account,
                lamports,
                space: NEW_ACCOUNT_SPACE,
                owner: accounts.system_program,
            },
        ),
        Err(error) => Err(InitializeError::Host(error)),
    }
}

/// The last decision, taken once the host has answered the request: the
/// instruction succeeds if the creation did, and fails with the host's error
/// if it did not.
pub fn settle<E>(created: Result<(), E>) -> (outcome: Result<(), InitializeError<E>>)
    ensures
        match created {
            Ok(_) => outcome == Ok::<(), InitializeError<E>>(()),
            Err(error) => outcome == Err::<(), InitializeError<E>>(InitializeError::Host(error)),
        },
{
    match created {
        Ok(_) => Ok(()),
        Err(error) => Err(InitializeError::Host(error)),
    }
}

/// What `initialize` returns on `ledger` for `accounts`. The conditions are
/// tested in this order: signatures, rent parameters, the address to create,
/// the payer's funds.
pub open spec fn initialize_result(ledger: LedgerState, accounts: CreateSystemAccount) -> Result<
    (),
    InitializeError<LedgerError>,
> {
    if !accounts.authorized() {
        Err(InitializeError::MissingSignature)
    } else if ledger.rent is None {
        Err(InitializeError::Host(LedgerError::RentUnavailable))
    } else if ledger.exists_at(accounts.new_account.address) {
        Err(InitializeError::Host(LedgerError::AccountInUse))
    } else if !ledger.can_pay(
        ledger.rent->Some_0,
        accounts.user.address,
        ledger.rent->Some_0.minimum_balance(NEW_ACCOUNT_SPACE),
    ) {
        Err(InitializeError::Host(LedgerError::InsufficientFunds))
    } else {
        Ok(())
    }
}

/// The ledger after `initialize` has run on `ledger` for `accounts`. On
/// success the payer has paid the minimum balance of a data-less account,
/// and the new account holds it, has no data and belongs to the
/// account-management program. On failure nothing has changed.
pub open spec fn ledger_after_initialize(
    ledger: LedgerState,
    accounts: CreateSystemAccount,
) -> LedgerState {
    if initialize_result(ledger, accounts) is Ok {
        let lamports = ledger.rent->Some_0.minimum_balance(NEW_ACCOUNT_SPACE);
        let payer = ledger.accounts[accounts.user.address];
        LedgerState {
            rent: ledger.rent,
            accounts: ledger.accounts.insert(
                accounts.user.address,
                Account { lamports: (payer.lamports - lamports) as u64, ..payer },
            ).insert(
                accounts.new_account.address,
                Account { lamports, space: NEW_ACCOUNT_SPACE, owner: accounts.system_program },
            ),
        }
    } else {
        ledger
    }
}

/// Creates the account `accounts.new_account` on `ledger`: funded by
/// `accounts.user` with the minimum balance that exempts a data-less account
/// from rent, without data, owned by `accounts.system_program`.
pub fn initialize(ledger: &mut Ledger, accounts: &CreateSystemAccount) -> (result: Result<
    (),
    InitializeError<LedgerError>,
>)
    ensures
        result == initialize_result(old(ledger)@, *accounts),
        final(ledger)@ == ledger_after_initialize(old(ledger)@, *accounts),
{
    match authorize::<LedgerError>(accounts) {
        Err(error) => {
            return Err(error);
        },
        Ok(_) => {},
    }
    let minimum_balance = ledger.minimum_balance(NEW_ACCOUNT_SPACE);
    let request = match plan_creation(accounts, minimum_balance) {
        Err(error) => {
            return Err(error);
        },
        Ok(request) => request,
    };
    settle(ledger.create_account(&request))
}

/// Whenever the payer and the new account have signed, the rent parameters
/// can be read, no account exists at the new address and the payer can part
/// with the minimum balance, `initialize` succeeds. Afterwards the new
/// account exists with no data, a balance of exactly that minimum, and the
/// account-management program as its owner; the payer has paid exactly that
/// minimum, and no other account and no rent parameter has changed.
pub proof fn lemma_initialize_creates_account(ledger: LedgerState, accounts: CreateSystemAccount)
    requires
        accounts.authorized(),
        ledger.rent is Some,
        !ledger.exists_at(accounts.new_account.address),
        ledger.can_pay(
            ledger.rent->Some_0,
            accounts.user.address,
            ledger.rent->Some_0.minimum_balance(NEW_ACCOUNT_SPACE),
        ),
    ensures
        initialize_result(ledger, accounts) is Ok,
        ({
            let after = ledger_after_initialize(ledger, accounts);
            let minimum = ledger.rent->Some_0.minimum_balance(NEW_ACCOUNT_SPACE);
            &&& after.rent == ledger.rent
            &&& after.exists_at(accounts.new_account.address)
            &&& after.accounts[accounts.new_account.address].space == 0
            &&& after.accounts[accounts.new_account.address].lamports == minimum
            &&& after.accounts[accounts.new_account.address].owner == accounts.system_program
            &&& after.balance(accounts.user.address) == ledger.balance(accounts.user.address)
                - minimum
            &&& forall|other: Address|
                other != accounts.user.address && other != accounts.new_account.address ==> (
                after.exists_at(other) == ledger.exists_at(other) && (ledger.exists_at(other)
                    ==> after.accounts[other] == ledger.accounts[other]))
        }),
{
}

/// `initialize` succeeds on no other inputs than those of
/// `lemma_initialize_creates_account`.
pub proof fn lemma_initialize_succeeds_only_when_valid(
    ledger: LedgerState,
    accounts: CreateSystemAccount,
)
    requires
        initialize_result(ledger, accounts) is Ok,
    ensures
        accounts.authorized(),
        ledger.rent is Some,
        !ledger.exists_at(accounts.new_account.address),
        ledger.can_pay(
            ledger.rent->Some_0,
            accounts.user.address,
            ledger.rent->Some_0.minimum_balance(NEW_ACCOUNT_SPACE),
        ),
{
}

/// Once `initialize` has created an account, any signed attempt to create
/// the same address again fails with `AccountInUse`, whoever pays, and
/// leaves the ledger as the first call left it.
pub proof fn lemma_second_initialize_conflicts(
    ledger: LedgerState,
    first: CreateSystemAccount,
    second: CreateSystemAccount,
)
    requires
        initialize_result(ledger, first) is Ok,
        second.new_account.address == first.new_account.address,
        second.authorized(),
    ensures
        ({
            let after = ledger_after_initialize(ledger, first);
            &&& initialize_result(after, second) == Err::<(), InitializeError<LedgerError>>(
                InitializeError::Host(LedgerError::AccountInUse),
            )
            &&& ledger_after_initialize(after, second) == after
        }),
{
}

/// Where the request is signed, the rent parameters can be read and the new
/// address is free, a payer whose balance is less than the new account's
/// minimum balance plus the payer's own fails the call with
/// `InsufficientFunds`; the new account is not created and nothing else
/// changes.
pub proof fn lemma_underfunded_payer_is_refused(ledger: LedgerState, accounts: CreateSystemAccount)
    requires
        accounts.authorized(),
        ledger.rent is Some,
        !ledger.exists_at(accounts.new_account.address),
        ledger.balance(accounts.user.address) < ledger.rent->Some_0.minimum_balance(
            NEW_ACCOUNT_SPACE,
        ) + ledger.reserve(ledger.rent->Some_0, accounts.user.address),
    ensures
        initialize_result(ledger, accounts) == Err::<(), InitializeError<LedgerError>>(
            InitializeError::Host(LedgerError::InsufficientFunds),
        ),
        ledger_after_initialize(ledger, accounts) == ledger,
        !ledger_after_initialize(ledger, accounts).exists_at(accounts.new_account.address),
{
}

/// Without the signature of the new account, or of the payer, `initialize`
/// fails with `MissingSignature` on every ledger, and no balance moves.
pub proof fn lemma_unsigned_request_is_refused(ledger: LedgerState, accounts: CreateSystemAccount)
    requires
        !accounts.new_account.is_signer || !accounts.user.is_signer,
    ensures
        initialize_result(ledger, accounts) == Err::<(), InitializeError<LedgerError>>(
            InitializeError::MissingSignature,
        ),
        ledger_after_initialize(ledger, accounts) == ledger,
{
}

/// A failed `initialize` leaves the ledger as it was, so the same call fails
/// again, with the same error, as often as it is repeated.
pub proof fn lemma_failure_repeats(ledger: LedgerState, accounts: CreateSystemAccount)
    requires
        initialize_result(ledger, accounts) is Err,
    ensures
        ledger_after_initialize(ledger, accounts) == ledger,
        initialize_result(ledger_after_initialize(ledger, accounts), accounts)
            == initialize_result(ledger, accounts),
{
}

} // verus!
