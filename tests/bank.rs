use travel_agency::bank::{
    check_tokens,
    AccountValidation, AccountValidationResult, Ledger, Transaction, TransactionResult,
};

fn run(ledger: Ledger, from: &str, to: &str, amount: i64) -> (Ledger, Result<(), String>) {
    let t = Transaction::<AccountValidation>::start_on(ledger, from, to, amount);
    match t.validate_accounts() {
        AccountValidationResult::Valid(v) => match v.perform_transaction() {
            TransactionResult::Finish(f) => (f.accounts, Ok(())),
            TransactionResult::Error(e) => (e.accounts, Err(e.state.message)),
        },
        AccountValidationResult::Error(e) => (e.accounts, Err(e.state.message)),
    }
}

#[test]
fn seeded_ledger_balances() {
    let l = Ledger::seeded();
    assert_eq!(l.balance("valid_client"), Some(5000));
    assert_eq!(l.balance("travel_agency"), Some(50000));
    assert_eq!(l.balance("someone_else"), None);
    assert!(l.contains("valid_client"));
    assert!(!l.contains("Valid_client"));
}

#[test]
fn start_transaction_binds_fields() {
    let t = Transaction::<AccountValidation>::start_transaction("valid_client", "travel_agency", 70);
    assert_eq!(t.state.from, "valid_client");
    assert_eq!(t.state.to, "travel_agency");
    assert_eq!(t.state.amount, 70);
    assert_eq!(t.accounts.balance("valid_client"), Some(5000));
}

#[test]
fn transfer_moves_exact_amount() {
    let (l, r) = run(Ledger::seeded(), "valid_client", "travel_agency", 1234);
    assert_eq!(r, Ok(()));
    assert_eq!(l.balance("valid_client"), Some(5000 - 1234));
    assert_eq!(l.balance("travel_agency"), Some(50000 + 1234));
    assert_eq!(
        l.balance("valid_client").unwrap() + l.balance("travel_agency").unwrap(),
        55000
    );
}

#[test]
fn transfer_to_zero_is_allowed() {
    let (l, r) = run(Ledger::seeded(), "valid_client", "travel_agency", 5000);
    assert_eq!(r, Ok(()));
    assert_eq!(l.balance("valid_client"), Some(0));
}

#[test]
fn insufficient_funds_changes_nothing() {
    let (l, r) = run(Ledger::seeded(), "valid_client", "travel_agency", 5001);
    assert_eq!(r, Err("insufficient funds".to_string()));
    assert_eq!(l.balance("valid_client"), Some(5000));
    assert_eq!(l.balance("travel_agency"), Some(50000));
}

#[test]
fn unknown_accounts_are_reported() {
    let (_, r) = run(Ledger::seeded(), "ghost", "travel_agency", 1);
    assert_eq!(r, Err("unknown client account".to_string()));
    let (_, r) = run(Ledger::seeded(), "valid_client", "ghost", 1);
    assert_eq!(r, Err("unknown destination account".to_string()));
    let (_, r) = run(Ledger::seeded(), "ghost", "ghost", 1);
    assert_eq!(r, Err("unknown client account".to_string()));
}

#[test]
fn zero_amount_transfer() {
    let (l, r) = run(Ledger::seeded(), "valid_client", "travel_agency", 0);
    assert_eq!(r, Ok(()));
    assert_eq!(l.balance("valid_client"), Some(5000));
}

#[test]
fn transfer_to_self_keeps_balance() {
    let (l, r) = run(Ledger::seeded(), "valid_client", "valid_client", 300);
    assert_eq!(r, Ok(()));
    assert_eq!(l.balance("valid_client"), Some(5000));
}

#[test]
fn finish_consumes_the_transaction() {
    let t = Transaction::<AccountValidation>::start_transaction("valid_client", "travel_agency", 10);
    match t.validate_accounts() {
        AccountValidationResult::Valid(v) => match v.perform_transaction() {
            TransactionResult::Finish(f) => f.finish(),
            TransactionResult::Error(_) => panic!("10 is covered"),
        },
        AccountValidationResult::Error(_) => panic!("both accounts exist"),
    }
    let t = Transaction::<AccountValidation>::start_transaction("x", "travel_agency", 10);
    match t.validate_accounts() {
        AccountValidationResult::Error(e) => e.finish(),
        AccountValidationResult::Valid(_) => panic!("x has no account"),
    }
}

#[test]
fn open_account_rules() {
    let mut l = Ledger::new();
    assert_eq!(l.balance("a"), None);
    assert!(l.open_account("a", 10));
    assert!(!l.open_account("a", 20));
    assert_eq!(l.balance("a"), Some(10));
    assert!(!l.open_account("b", -1));
    assert!(l.open_account("b", 0));
    assert!(!l.open_account("c", i64::MAX));
    assert!(l.open_account("c", i64::MAX - 10));
    assert_eq!(l.balance("c"), Some(i64::MAX - 10));
}

#[test]
fn move_funds_at_the_largest_total() {
    let mut l = Ledger::new();
    assert!(l.open_account("a", i64::MAX - 1));
    assert!(l.open_account("b", 1));
    assert!(l.move_funds("a", "b", i64::MAX - 1));
    assert_eq!(l.balance("a"), Some(0));
    assert_eq!(l.balance("b"), Some(i64::MAX));
    assert!(!l.move_funds("a", "b", 1));
    assert_eq!(l.balance("b"), Some(i64::MAX));
}

#[test]
fn only_the_agency_client_pair_is_served() {
    assert_eq!(check_tokens("travel_agency", "valid_client"), Ok(()));
    assert_eq!(check_tokens("valid_client", "travel_agency"), Err("invalid tokens".to_string()));
    assert_eq!(check_tokens("travel_agency", "someone"), Err("invalid tokens".to_string()));
    assert_eq!(check_tokens("", ""), Err("invalid tokens".to_string()));
}
