//! An in-memory ledger: the accounts it holds, its rent parameters, and the
//! account-management program's `create_account`.

use crate::accounts::CreateAccountRequest;
use crate::address::Address;
use vstd::prelude::*;

verus! {

/// Why the ledger refused a request.
#[derive(Clone, Copy, Debug, PartialEq, Eq)]
pub enum LedgerError {
    /// The rent parameters cannot be read.
    RentUnavailable,
    /// The payer or the new account did not sign.
    MissingSignature,
    /// The address to create already holds an account.
    AccountInUse,
    /// The payer cannot part with the lamports and stay rent-exempt.
    InsufficientFunds,
}

/// The parameters by which the ledger charges rent.
#[derive(Clone, Copy, Debug, PartialEq, Eq)]
pub struct RentParameters {
    /// Lamports due for each byte that an account occupies.
    pub lamports_per_byte: u64,
    /// Bytes that an account occupies besides its data.
    pub overhead_bytes: u64,
}

impl RentParameters {
    /// The least balance that exempts an account with `space` bytes of data
    /// from rent: the rate times the bytes it occupies, or `u64::MAX` where
    /// that product is larger.
    pub open spec fn spec_minimum_balance(&self, space: u64) -> u64 {
        let due = (self.overhead_bytes + space) * self.lamports_per_byte;
        if due > u64::MAX {
            u64::MAX
        } else {
            due as u64
        }
    }

    #[verifier::when_used_as_spec(spec_minimum_balance)]
    pub fn minimum_balance(&self, space: u64) -> (lamports: u64)
        ensures
            lamports == self.spec_minimum_balance(space),
    {
        if self.lamports_per_byte == 0 {
            return 0;
        }
        let rate: u64 = self.lamports_per_byte;
        match self.overhead_bytes.checked_add(space) {
            None => {
                assert((self.overhead_bytes + space) * rate > u64::MAX) by (nonlinear_arith)
                    requires
                        self.overhead_bytes + space > u64::MAX,
                        rate >= 1,
                ;
                u64::MAX
            },
            Some(bytes) => match bytes.checked_mul(rate) {
                None => u64::MAX,
                Some(due) => due,
            },
        }
    }
}

/// What the ledger holds of one account.
#[derive(Clone, Copy, Debug, PartialEq, Eq)]
pub struct Account {
    /// The account's balance.
    pub lamports: u64,
    /// The length of the account's data, in bytes.
    pub space: u64,
    /// The program that owns the account.
    pub owner: Address,
}

/// The ledger as a mathematical value: its rent parameters, or `None` while
/// they cannot be read, and the account at each address that holds one.
pub struct LedgerState {
    pub rent: Option<RentParameters>,
    pub accounts: Map<Address, Account>,
}

impl LedgerState {
    /// An account exists at `address`.
    pub open spec fn exists_at(self, address: Address) -> bool {
        self.accounts.dom().contains(address)
    }

    /// The balance at `address`: nothing where no account exists.
    pub open spec fn balance(self, address: Address) -> u64 {
        if self.exists_at(address) {
            self.accounts[address].lamports
        } else {
            0
        }
    }

    /// What a lookup of the minimum balance for `space` bytes returns.
    pub open spec fn minimum_balance(self, space: u64) -> Result<u64, LedgerError> {
        match self.rent {
            None => Err(LedgerError::RentUnavailable),
            Some(rent) => Ok(rent.minimum_balance(space)),
        }
    }

    /// The length of the data at `address`: nothing where no account exists.
    pub open spec fn space(self, address: Address) -> u64 {
        if self.exists_at(address) {
            self.accounts[address].space
        } else {
            0
        }
    }

    /// The balance that the account at `address` needs for itself under the
    /// rent parameters `rent`: the minimum balance for the data it holds.
    pub open spec fn reserve(self, rent: RentParameters, address: Address) -> u64 {
        rent.minimum_balance(self.space(address))
    }

    /// The account at `payer` exists and, under the rent parameters `rent`,
    /// stays rent-exempt after parting with `lamports`.
    pub open spec fn can_pay(self, rent: RentParameters, payer: Address, lamports: u64) -> bool {
        &&& self.exists_at(payer)
        &&& self.balance(payer) >= lamports + self.reserve(rent, payer)
    }

    /// What `create_account` answers to `request`. The conditions are tested
    /// in this order: signatures, rent parameters, the address to create, the
    /// payer's funds.
    pub open spec fn create_account_result(self, request: CreateAccountRequest) -> Result<
        (),
        LedgerError,
    > {
        if !(request.from.is_signer && request.to.is_signer) {
            Err(LedgerError::MissingSignature)
        } else if self.rent is None {
            Err(LedgerError::RentUnavailable)
        } else if self.exists_at(request.to.address) {
            Err(LedgerError::AccountInUse)
        } else if !self.can_pay(self.rent->Some_0, request.from.address, request.lamports) {
            Err(LedgerError::InsufficientFunds)
        } else {
            Ok(())
        }
    }

    /// The ledger after `create_account` has answered `request`: on success
    /// the payer is debited and the new account holds the lamports, the space
    /// and the owner asked for; on failure nothing has changed.
    pub open spec fn create_account(self, request: CreateAccountRequest) -> LedgerState {
        if self.create_account_result(request) is Ok {
            let payer = self.accounts[request.from.address];
            LedgerState {
                rent: self.rent,
                accounts: self.accounts.insert(
                    request.from.address,
                    Account { lamports: (payer.lamports - request.lamports) as u64, ..payer },
                ).insert(
                    request.to.address,
                    Account {
                        lamports: request.lamports,
                        space: request.space,
                        owner: request.owner,
                    },
                ),
            }
        } else {
            self
        }
    }
}

#[derive(Clone, Copy)]
struct Entry {
    address: Address,
    account: Account,
}

spec fn holds(entries: Seq<Entry>, address: Address) -> bool {
    exists|i: int| 0 <= i < entries.len() && entries[i].address == address
}

spec fn index_of(entries: Seq<Entry>, address: Address) -> int {
    choose|i: int| 0 <= i < entries.len() && entries[i].address == address
}

spec fn distinct(entries: Seq<Entry>) -> bool {
    forall|i: int, j: int|
        0 <= i < j < entries.len() ==> entries[i].address != entries[j].address
}

spec fn accounts_of(entries: Seq<Entry>) -> Map<Address, Account> {
    Map::new(
        |address: Address| holds(entries, address),
        |address: Address| entries[index_of(entries, address)].account,
    )
}

proof fn lemma_entry_found(entries: Seq<Entry>, i: int)
    requires
        distinct(entries),
        0 <= i < entries.len(),
    ensures
        holds(entries, entries[i].address),
        index_of(entries, entries[i].address) == i,
        accounts_of(entries).dom().contains(entries[i].address),
        accounts_of(entries)[entries[i].address] == entries[i].account,
{
    let k = index_of(entries, entries[i].address);
    assert(0 <= k < entries.len() && entries[k].address == entries[i].address);
    if k < i {
        assert(entries[k].address != entries[i].address);
    } else if i < k {
        assert(entries[i].address != entries[k].address);
    }
}

proof fn lemma_entry_added(entries: Seq<Entry>, entry: Entry)
    requires
        distinct(entries),
        !holds(entries, entry.address),
    ensures
        distinct(entries.push(entry)),
        accounts_of(entries.push(entry)) == accounts_of(entries).insert(
            entry.address,
            entry.account,
        ),
{
    let grown = entries.push(entry);
    assert forall|i: int, j: int| 0 <= i < j < grown.len() implies grown[i].address
        != grown[j].address by {
        if j == entries.len() {
            assert(entries[i].address == grown[i].address);
        }
    }
    assert forall|address: Address|
        holds(grown, address) <==> (holds(entries, address) || address == entry.address) by {
        if holds(entries, address) {
            let i = index_of(entries, address);
            assert(grown[i].address == address);
        }
        if address == entry.address {
            assert(grown[entries.len() as int].address == address);
        }
        if holds(grown, address) {
            let i = index_of(grown, address);
            if i < entries.len() {
                assert(entries[i].address == address);
            }
        }
    }
    assert forall|address: Address| holds(grown, address) implies #[trigger] accounts_of(
        grown,
    )[address] == accounts_of(entries).insert(entry.address, entry.account)[address] by {
        let i = index_of(grown, address);
        lemma_entry_found(grown, i);
        if i < entries.len() {
            lemma_entry_found(entries, i);
        }
    }
    assert(accounts_of(grown) =~= accounts_of(entries).insert(entry.address, entry.account));
}

proof fn lemma_entry_replaced(entries: Seq<Entry>, i: int, account: Account)
    requires
        distinct(entries),
        0 <= i < entries.len(),
    ensures
        distinct(entries.update(i, Entry { address: entries[i].address, account })),
        accounts_of(entries.update(i, Entry { address: entries[i].address, account }))
            == accounts_of(entries).insert(entries[i].address, account),
{
    let entry = Entry { address: entries[i].address, account };
    let changed = entries.update(i, entry);
    assert forall|a: int, b: int| 0 <= a < b < changed.len() implies changed[a].address
        != changed[b].address by {
        assert(changed[a].address == entries[a].address);
        assert(changed[b].address == entries[b].address);
    }
    assert forall|address: Address| holds(changed, address) <==> holds(entries, address) by {
        if holds(entries, address) {
            let k = index_of(entries, address);
            assert(changed[k].address == address);
        }
        if holds(changed, address) {
            let k = index_of(changed, address);
            assert(entries[k].address == address);
        }
    }
    lemma_entry_found(entries, i);
    assert forall|address: Address| holds(changed, address) implies #[trigger] accounts_of(
        changed,
    )[address] == accounts_of(entries).insert(entry.address, account)[address] by {
        let k = index_of(changed, address);
        lemma_entry_found(changed, k);
        lemma_entry_found(entries, k);
    }
    assert(accounts_of(changed) =~= accounts_of(entries).insert(entry.address, account));
}

/// A ledger held in memory.
pub struct Ledger {
    rent: Option<RentParameters>,
    entries: Vec<Entry>,
}

impl View for Ledger {
    type V = LedgerState;

    closed spec fn view(&self) -> LedgerState {
        LedgerState { rent: self.rent, accounts: accounts_of(self.entries@) }
    }
}

impl Ledger {
    #[verifier::type_invariant]
    spec fn no_address_twice(self) -> bool {
        distinct(self.entries@)
    }

    /// A ledger that holds no account, with the given rent parameters
    /// (`None`: they cannot be read).
    pub fn new(rent: Option<RentParameters>) -> (ledger: Ledger)
        ensures
            ledger@ == (LedgerState { rent, accounts: Map::empty() }),
    {
        let ledger = Ledger { rent, entries: Vec::new() };
        proof {
            assert(ledger@.accounts =~= Map::<Address, Account>::empty());
        }
        ledger
    }

    /// Moves the entries out, so that they can be changed step by step while
    /// the ledger itself, left empty, keeps its invariant.
    fn take_entries(&mut self) -> (entries: Vec<Entry>)
        ensures
            entries@ == old(self).entries@,
            final(self).entries@ == Seq::<Entry>::empty(),
            final(self).rent == old(self).rent,
    {
        let mut entries: Vec<Entry> = Vec::new();
        std::mem::swap(&mut self.entries, &mut entries);
        entries
    }

    /// The position of the entry for `address`, if there is one.
    fn find(&self, address: &Address) -> (found: Option<usize>)
        ensures
            match found {
                Some(i) => i < self.entries@.len() && self.entries@[i as int].address == *address,
                None => !holds(self.entries@, *address),
            },
    {
        let mut i: usize = 0;
        while i < self.entries.len()
            invariant
                i <= self.entries@.len(),
                forall|k: int| 0 <= k < i ==> self.entries@[k].address != *address,
            decreases self.entries@.len() - i,
        {
            if self.entries[i].address == *address {
                return Some(i);
            }
            i += 1;
        }
        None
    }

    /// The account at `address`, if one exists.
    pub fn account(&self, address: &Address) -> (account: Option<Account>)
        ensures
            account == if self@.exists_at(*address) {
                Some(self@.accounts[*address])
            } else {
                None
            },
    {
        proof {
            use_type_invariant(self);
        }
        match self.find(address) {
            Some(i) => {
                proof {
                    lemma_entry_found(self.entries@, i as int);
                }
                Some(self.entries[i].account)
            },
            None => None,
        }
    }

    /// Puts `account` at `address`, in place of the account that was there, if
    /// any, and returns that one.
    pub fn insert(&mut self, address: Address, account: Account) -> (previous: Option<Account>)
        ensures
            final(self)@.rent == old(self)@.rent,
            final(self)@.accounts == old(self)@.accounts.insert(address, account),
            previous == if old(self)@.exists_at(address) {
                Some(old(self)@.accounts[address])
            } else {
                None
            },
    {
        proof {
            use_type_invariant(&*self);
        }
        match self.find(&address) {
            Some(i) => {
                let previous = self.entries[i].account;
                proof {
                    lemma_entry_found(self.entries@, i as int);
                    lemma_entry_replaced(self.entries@, i as int, account);
                }
                let mut entries = self.take_entries();
                entries.set(i, Entry { address, account });
                self.entries = entries;
                Some(previous)
            },
            None => {
                proof {
                    lemma_entry_added(self.entries@, Entry { address, account });
                }
                let mut entries = self.take_entries();
                entries.push(Entry { address, account });
                self.entries = entries;
                None
            },
        }
    }

    /// Looks up the least balance that exempts an account with `space` bytes
    /// of data from rent.
    pub fn minimum_balance(&self, space: u64) -> (lamports: Result<u64, LedgerError>)
        ensures
            lamports == self@.minimum_balance(space),
    {
        match self.rent {
            None => Err(LedgerError::RentUnavailable),
            Some(rent) => Ok(rent.minimum_balance(space)),
        }
    }

    /// Creates the account that `request` describes, or refuses and leaves the
    /// ledger as it was.
    pub fn create_account(&mut self, request: &CreateAccountRequest) -> (result: Result<
        (),
        LedgerError,
    >)
        ensures
            result == old(self)@.create_account_result(*request),
            final(self)@ == old(self)@.create_account(*request),
    {
        proof {
            use_type_invariant(&*self);
        }
        if !(request.from.is_signer && request.to.is_signer) {
            return Err(LedgerError::MissingSignature);
        }
        let rent = match self.rent {
            None => {
                return Err(LedgerError::RentUnavailable);
            },
            Some(rent) => rent,
        };
        if let Some(taken) = self.find(&request.to.address) {
            proof {
                lemma_entry_found(self.entries@, taken as int);
            }
            return Err(LedgerError::AccountInUse);
        }
        let payer_index = match self.find(&request.from.address) {
            None => {
                return Err(LedgerError::InsufficientFunds);
            },
            Some(i) => i,
        };
        proof {
            lemma_entry_found(self.entries@, payer_index as int);
        }
        let payer = self.entries[payer_index].account;
        let reserve = rent.minimum_balance(payer.space);
        if payer.lamports < request.lamports || payer.lamports - request.lamports < reserve {
            return Err(LedgerError::InsufficientFunds);
        }
        let debited = Account { lamports: payer.lamports - request.lamports, ..payer };
        let created = Entry {
            address: request.to.address,
            account: Account {
                lamports: request.lamports,
                space: request.space,
                owner: request.owner,
            },
        };
        proof {
            lemma_entry_replaced(self.entries@, payer_index as int, debited);
            let changed = self.entries@.update(
                payer_index as int,
                Entry { address: request.from.address, account: debited },
            );
            assert(!holds(changed, created.address)) by {
                if holds(changed, created.address) {
                    let k = index_of(changed, created.address);
                    assert(self.entries@[k].address == created.address);
                }
            }
            lemma_entry_added(changed, created);
        }
        let mut entries = self.take_entries();
        entries.set(payer_index, Entry { address: request.from.address, account: debited });
        entries.push(created);
        self.entries = entries;
        Ok(())
    }
}

} // verus!
