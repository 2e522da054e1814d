use create_account::{
    Account, AccountRef, Address, CreateAccountRequest, Ledger, LedgerError, RentParameters,
};

fn address(tag: u8) -> Address {
    Address::new([tag; 32])
}

fn signer(tag: u8) -> AccountRef {
    AccountRef { address: address(tag), is_signer: true }
}

fn unsigned(tag: u8) -> AccountRef {
    AccountRef { address: address(tag), is_signer: false }
}

fn rent() -> RentParameters {
    RentParameters { lamports_per_byte: 6_960, overhead_bytes: 128 }
}

fn wallet(lamports: u64) -> Account {
    Account { lamports, space: 0, owner: address(0) }
}

fn request(from: AccountRef, to: AccountRef, lamports: u64, space: u64) -> CreateAccountRequest {
    CreateAccountRequest { from, to, lamports, space, owner: address(0) }
}

#[test]
fn addresses_compare_byte_by_byte() {
    let mut bytes = [7u8; 32];
    let a = Address::new(bytes);
    assert_eq!(a.bytes, bytes);
    assert!(a == Address::new([7u8; 32]));
    bytes[31] = 8;
    assert!(a != Address::new(bytes));
    bytes[31] = 7;
    bytes[0] = 0;
    assert!(a != Address::new(bytes));
    bytes[0] = 7;
    assert!(a == Address::new(bytes));
}

#[test]
fn minimum_balance_is_rate_times_occupied_bytes() {
    assert_eq!(rent().minimum_balance(0), 890_880);
    assert_eq!(rent().minimum_balance(10), 960_480);
    assert_eq!(rent().minimum_balance(165), 2_039_280);
    assert_eq!(RentParameters { lamports_per_byte: 1, overhead_bytes: 0 }.minimum_balance(0), 0);
    assert_eq!(RentParameters { lamports_per_byte: 3, overhead_bytes: 0 }.minimum_balance(5), 15);
}

#[test]
fn minimum_balance_of_free_rent_is_zero() {
    let free = RentParameters { lamports_per_byte: 0, overhead_bytes: 128 };
    assert_eq!(free.minimum_balance(0), 0);
    assert_eq!(free.minimum_balance(u64::MAX), 0);
    let free_and_huge = RentParameters { lamports_per_byte: 0, overhead_bytes: u64::MAX };
    assert_eq!(free_and_huge.minimum_balance(u64::MAX), 0);
}

#[test]
fn minimum_balance_saturates() {
    let steep = RentParameters { lamports_per_byte: u64::MAX, overhead_bytes: 1 };
    assert_eq!(steep.minimum_balance(0), u64::MAX);
    assert_eq!(steep.minimum_balance(1), u64::MAX);
    let wide = RentParameters { lamports_per_byte: 1, overhead_bytes: u64::MAX };
    assert_eq!(wide.minimum_balance(0), u64::MAX);
    assert_eq!(wide.minimum_balance(1), u64::MAX);
    let half = RentParameters { lamports_per_byte: 2, overhead_bytes: 0 };
    assert_eq!(half.minimum_balance(u64::MAX / 2), u64::MAX - 1);
    assert_eq!(half.minimum_balance(u64::MAX / 2 + 1), u64::MAX);
}

#[test]
fn new_ledger_holds_no_account() {
    let ledger = Ledger::new(Some(rent()));
    assert_eq!(ledger.account(&address(1)), None);
    assert_eq!(ledger.account(&address(0)), None);
}

#[test]
fn insert_puts_and_replaces() {
    let mut ledger = Ledger::new(None);
    assert_eq!(ledger.insert(address(1), wallet(5)), None);
    assert_eq!(ledger.insert(address(2), wallet(6)), None);
    assert_eq!(ledger.account(&address(1)), Some(wallet(5)));
    assert_eq!(ledger.account(&address(2)), Some(wallet(6)));
    assert_eq!(ledger.insert(address(1), wallet(9)), Some(wallet(5)));
    assert_eq!(ledger.account(&address(1)), Some(wallet(9)));
    assert_eq!(ledger.account(&address(2)), Some(wallet(6)));
    assert_eq!(ledger.account(&address(3)), None);
}

#[test]
fn ledger_minimum_balance_follows_its_rent() {
    let ledger = Ledger::new(Some(rent()));
    assert_eq!(ledger.minimum_balance(0), Ok(890_880));
    assert_eq!(ledger.minimum_balance(10), Ok(960_480));
}

#[test]
fn ledger_without_rent_cannot_answer() {
    let ledger = Ledger::new(None);
    assert_eq!(ledger.minimum_balance(0), Err(LedgerError::RentUnavailable));
}

#[test]
fn create_account_moves_lamports_and_sets_owner() {
    let mut ledger = Ledger::new(Some(rent()));
    ledger.insert(address(1), wallet(5_000_000));
    ledger.insert(address(9), wallet(77));
    let asked = CreateAccountRequest {
        from: signer(1),
        to: signer(2),
        lamports: 1_000_000,
        space: 10,
        owner: address(4),
    };
    assert_eq!(ledger.create_account(&asked), Ok(()));
    assert_eq!(ledger.account(&address(1)), Some(wallet(4_000_000)));
    assert_eq!(
        ledger.account(&address(2)),
        Some(Account { lamports: 1_000_000, space: 10, owner: address(4) })
    );
    assert_eq!(ledger.account(&address(9)), Some(wallet(77)));
}

#[test]
fn create_account_needs_both_signatures() {
    let mut ledger = Ledger::new(Some(rent()));
    ledger.insert(address(1), wallet(5_000_000));
    for (from, to) in [
        (unsigned(1), signer(2)),
        (signer(1), unsigned(2)),
        (unsigned(1), unsigned(2)),
    ] {
        assert_eq!(
            ledger.create_account(&request(from, to, 1_000_000, 0)),
            Err(LedgerError::MissingSignature)
        );
        assert_eq!(ledger.account(&address(1)), Some(wallet(5_000_000)));
        assert_eq!(ledger.account(&address(2)), None);
    }
}

#[test]
fn create_account_needs_rent_parameters() {
    let mut ledger = Ledger::new(None);
    ledger.insert(address(1), wallet(5_000_000));
    assert_eq!(
        ledger.create_account(&request(signer(1), signer(2), 1_000_000, 0)),
        Err(LedgerError::RentUnavailable)
    );
    assert_eq!(ledger.account(&address(1)), Some(wallet(5_000_000)));
    assert_eq!(ledger.account(&address(2)), None);
}

#[test]
fn create_account_refuses_an_address_in_use() {
    let mut ledger = Ledger::new(Some(rent()));
    ledger.insert(address(1), wallet(5_000_000));
    ledger.insert(address(2), wallet(1));
    assert_eq!(
        ledger.create_account(&request(signer(1), signer(2), 1_000_000, 0)),
        Err(LedgerError::AccountInUse)
    );
    assert_eq!(ledger.account(&address(1)), Some(wallet(5_000_000)));
    assert_eq!(ledger.account(&address(2)), Some(wallet(1)));
    assert_eq!(
        ledger.create_account(&request(signer(1), signer(1), 1_000_000, 0)),
        Err(LedgerError::AccountInUse)
    );
    assert_eq!(ledger.account(&address(1)), Some(wallet(5_000_000)));
}

#[test]
fn create_account_keeps_the_payer_rent_exempt() {
    let mut ledger = Ledger::new(Some(rent()));
    ledger.insert(address(1), wallet(1_890_879));
    assert_eq!(
        ledger.create_account(&request(signer(1), signer(2), 1_000_000, 0)),
        Err(LedgerError::InsufficientFunds)
    );
    assert_eq!(ledger.account(&address(1)), Some(wallet(1_890_879)));
    assert_eq!(ledger.account(&address(2)), None);
    ledger.insert(address(1), wallet(1_890_880));
    assert_eq!(ledger.create_account(&request(signer(1), signer(2), 1_000_000, 0)), Ok(()));
    assert_eq!(ledger.account(&address(1)), Some(wallet(890_880)));
}

#[test]
fn create_account_counts_the_data_of_the_payer() {
    let mut ledger = Ledger::new(Some(rent()));
    let payer = Account { lamports: 1_960_479, space: 10, owner: address(0) };
    ledger.insert(address(1), payer);
    assert_eq!(
        ledger.create_account(&request(signer(1), signer(2), 1_000_000, 0)),
        Err(LedgerError::InsufficientFunds)
    );
    ledger.insert(address(1), Account { lamports: 1_960_480, ..payer });
    assert_eq!(ledger.create_account(&request(signer(1), signer(2), 1_000_000, 0)), Ok(()));
    assert_eq!(ledger.account(&address(1)), Some(Account { lamports: 960_480, ..payer }));
}

#[test]
fn create_account_refuses_a_payer_that_does_not_exist() {
    let mut ledger = Ledger::new(Some(RentParameters { lamports_per_byte: 0, overhead_bytes: 128 }));
    assert_eq!(
        ledger.create_account(&request(signer(1), signer(2), 0, 0)),
        Err(LedgerError::InsufficientFunds)
    );
    assert_eq!(ledger.account(&address(1)), None);
    assert_eq!(ledger.account(&address(2)), None);
}

#[test]
fn create_account_refuses_more_than_the_payer_holds() {
    let mut ledger = Ledger::new(Some(RentParameters { lamports_per_byte: 0, overhead_bytes: 0 }));
    ledger.insert(address(1), wallet(10));
    assert_eq!(
        ledger.create_account(&request(signer(1), signer(2), 11, 0)),
        Err(LedgerError::InsufficientFunds)
    );
    assert_eq!(
        ledger.create_account(&request(signer(1), signer(2), u64::MAX, 0)),
        Err(LedgerError::InsufficientFunds)
    );
    assert_eq!(ledger.create_account(&request(signer(1), signer(2), 10, 0)), Ok(()));
    assert_eq!(ledger.account(&address(1)), Some(wallet(0)));
    assert_eq!(ledger.account(&address(2)), Some(wallet(10)));
}

#[test]
fn create_account_tests_signatures_before_all_else() {
    let mut ledger = Ledger::new(None);
    ledger.insert(address(2), wallet(1));
    assert_eq!(
        ledger.create_account(&request(signer(1), unsigned(2), 1, 0)),
        Err(LedgerError::MissingSignature)
    );
}

#[test]
fn create_account_tests_the_address_before_the_funds() {
    let mut ledger = Ledger::new(Some(rent()));
    ledger.insert(address(2), wallet(1));
    assert_eq!(
        ledger.create_account(&request(signer(1), signer(2), 1, 0)),
        Err(LedgerError::AccountInUse)
    );
}
