use travel_agency::agency::{
    check_credentials, Command, IndexError, Purchase, PurchaseStep, Reply, Login, Selection, Session, TSession, Transaction, Empty,
    NonEmpty, RetryError,
};
use travel_agency::bank::Ledger;
use travel_agency::trip::{search, trip_at, Trip};

fn trip(from: &str, to: &str, price: u32) -> Trip {
    Trip::new(from.to_string(), to.to_string(), price)
}

fn logged_in() -> Session<Empty> {
    match Session::init().login("client", "client") {
        Login::Empty(s) => s,
        Login::Error(_) => panic!("login with the valid credentials failed"),
    }
}

fn non_empty(selected: Vec<Trip>) -> Session<NonEmpty> {
    Session { state: NonEmpty { last_search: vec![], selected } }
}

#[test]
fn catalogue_in_order() {
    let trips = Trip::mocks();
    assert_eq!(
        trips,
        vec![
            trip("Lisbon", "London", 200),
            trip("London", "Berlin", 400),
            trip("Berlin", "Paris", 600),
            trip("Paris", "Amesterdam", 800),
        ]
    );
}

#[test]
fn matches_origin_or_destination_exactly() {
    let t = trip("Lisbon", "London", 200);
    assert!(t.matches("Lisbon"));
    assert!(t.matches("London"));
    assert!(!t.matches("london"));
    assert!(!t.matches("Paris"));
    assert!(!t.matches(""));
}

#[test]
fn search_unknown_city_is_empty() {
    assert!(search("Tokyo").is_empty());
    assert!(search("").is_empty());
}

#[test]
fn full_purchase_scenario() {
    let mut s = logged_in();
    assert!(s.state.last_search.is_empty());
    let found = s.search_trip("London");
    assert_eq!(found, vec![trip("Lisbon", "London", 200), trip("London", "Berlin", 400)]);
    assert_eq!(s.state.last_search, found);
    let s = match s.add_trip(0) {
        Selection::NonEmpty(s) => s,
        Selection::Empty(_) => panic!("index 0 should be valid"),
    };
    assert_eq!(s.state.selected, vec![trip("Lisbon", "London", 200)]);
    let mut ledger = Ledger::seeded();
    match s.buy("valid_client", &mut ledger) {
        Transaction::Empty(e) => assert!(e.state.last_search.is_empty()),
        Transaction::RetryError(_) => panic!("purchase should succeed"),
    }
    assert_eq!(ledger.balance("valid_client"), Some(4800));
    assert_eq!(ledger.balance("travel_agency"), Some(50200));
}

#[test]
fn bad_login_then_close() {
    match Session::init().login("bad", "bad") {
        Login::Error(s) => {
            assert_eq!(s.state.message, "Invalid credentials");
            s.close();
        }
        Login::Empty(_) => panic!("bad credentials logged in"),
    }
}

#[test]
fn login_needs_both_parts() {
    assert!(check_credentials("client", "client"));
    assert!(!check_credentials("client", "bad"));
    assert!(!check_credentials("bad", "client"));
    assert!(!check_credentials("Client", "client"));
    assert!(matches!(Session::init().login("client", ""), Login::Error(_)));
}

#[test]
fn search_twice_gives_same_results() {
    let mut s = logged_in();
    let first = s.search_trip("Berlin");
    let after_first = s.state.last_search.clone();
    let second = s.search_trip("Berlin");
    assert_eq!(first, second);
    assert_eq!(s.state.last_search, after_first);
    assert_eq!(first, vec![trip("London", "Berlin", 400), trip("Berlin", "Paris", 600)]);
}

#[test]
fn search_while_selected_keeps_selection() {
    let mut s = non_empty(vec![trip("Lisbon", "London", 200)]);
    let found = s.search_trip("Paris");
    assert_eq!(found, vec![trip("Berlin", "Paris", 600), trip("Paris", "Amesterdam", 800)]);
    assert_eq!(s.state.selected, vec![trip("Lisbon", "London", 200)]);
}

#[test]
fn select_past_end_on_empty_changes_nothing() {
    let mut s = logged_in();
    s.search_trip("London");
    match s.add_trip(2) {
        Selection::Empty(s) => assert_eq!(s.state.last_search.len(), 2),
        Selection::NonEmpty(_) => panic!("index 2 is past the end"),
    }
    let s = logged_in();
    assert!(matches!(s.add_trip(0), Selection::Empty(_)));
}

#[test]
fn select_past_end_on_non_empty_is_an_error() {
    let mut s = logged_in();
    s.search_trip("London");
    let mut s = match s.add_trip(1) {
        Selection::NonEmpty(s) => s,
        Selection::Empty(_) => panic!("index 1 should be valid"),
    };
    assert_eq!(s.add_trip(9), Err(IndexError { index: 9 }));
    assert_eq!(s.add_trip(2), Err(IndexError { index: 2 }));
    assert_eq!(s.state.selected, vec![trip("London", "Berlin", 400)]);
    assert_eq!(s.add_trip(0), Ok(()));
    assert_eq!(
        s.state.selected,
        vec![trip("London", "Berlin", 400), trip("Lisbon", "London", 200)]
    );
}

#[test]
fn same_trip_can_be_selected_twice() {
    let mut s = logged_in();
    s.search_trip("Lisbon");
    let mut s = match s.add_trip(0) {
        Selection::NonEmpty(s) => s,
        Selection::Empty(_) => panic!("index 0 should be valid"),
    };
    assert_eq!(s.add_trip(0), Ok(()));
    assert_eq!(s.state.selected, vec![trip("Lisbon", "London", 200), trip("Lisbon", "London", 200)]);
}

#[test]
fn funds_cover_only_the_cheap_trip() {
    let cheap = trip("Lisbon", "London", 1000);
    let expensive = trip("London", "Berlin", 4500);
    let mut ledger = Ledger::seeded();
    match non_empty(vec![cheap, expensive.clone()]).buy("valid_client", &mut ledger) {
        Transaction::RetryError(s) => {
            assert_eq!(s.state.selected, vec![expensive]);
            assert_eq!(s.state.message, "insufficient funds");
        }
        Transaction::Empty(_) => panic!("the second transfer should fail"),
    }
    assert_eq!(ledger.balance("valid_client"), Some(4000));
    assert_eq!(ledger.balance("travel_agency"), Some(51000));
}

#[test]
fn failed_middle_trip_drops_the_paid_one() {
    let a = trip("Lisbon", "London", 1000);
    let b = trip("London", "Berlin", 10000);
    let c = trip("Berlin", "Paris", 100);
    let mut ledger = Ledger::seeded();
    match non_empty(vec![a, b.clone(), c.clone()]).buy("valid_client", &mut ledger) {
        Transaction::RetryError(s) => {
            assert_eq!(s.state.selected, vec![b, c]);
        }
        Transaction::Empty(_) => panic!("the second transfer should fail"),
    }
    assert_eq!(ledger.balance("valid_client"), Some(4000));
}

#[test]
fn buying_exactly_the_balance_is_allowed() {
    let mut ledger = Ledger::seeded();
    let s = non_empty(vec![trip("Lisbon", "London", 3000), trip("London", "Berlin", 2000)]);
    assert!(matches!(s.buy("valid_client", &mut ledger), Transaction::Empty(_)));
    assert_eq!(ledger.balance("valid_client"), Some(0));
    assert_eq!(ledger.balance("travel_agency"), Some(55000));
}

#[test]
fn unknown_token_keeps_the_whole_selection() {
    let mut ledger = Ledger::seeded();
    let sel = vec![trip("Lisbon", "London", 200), trip("London", "Berlin", 400)];
    match non_empty(sel.clone()).buy("nobody", &mut ledger) {
        Transaction::RetryError(s) => {
            assert_eq!(s.state.message, "unknown client account");
            assert_eq!(s.state.selected, sel);
        }
        Transaction::Empty(_) => panic!("an unknown account cannot pay"),
    }
    assert_eq!(ledger.balance("valid_client"), Some(5000));
}

#[test]
fn missing_agency_account_fails_purchase() {
    let mut ledger = Ledger::new();
    assert!(ledger.open_account("valid_client", 5000));
    match non_empty(vec![trip("Lisbon", "London", 200)]).buy("valid_client", &mut ledger) {
        Transaction::RetryError(s) => assert_eq!(s.state.message, "unknown destination account"),
        Transaction::Empty(_) => panic!("no agency account to pay"),
    }
}

#[test]
fn retry_keeps_selection_and_clears_search() {
    let kept = vec![trip("Berlin", "Paris", 600)];
    let s = Session { state: RetryError { message: "insufficient funds".to_string(), selected: kept.clone() } };
    let s = s.retry();
    assert_eq!(s.state.selected, kept);
    assert!(s.state.last_search.is_empty());
}

#[test]
fn retry_after_top_up_succeeds() {
    let mut ledger = Ledger::new();
    assert!(ledger.open_account("valid_client", 100));
    assert!(ledger.open_account("travel_agency", 0));
    let s = non_empty(vec![trip("Lisbon", "London", 200)]);
    let s = match s.buy("valid_client", &mut ledger) {
        Transaction::RetryError(s) => s,
        Transaction::Empty(_) => panic!("100 does not cover 200"),
    };
    let mut richer = Ledger::new();
    assert!(richer.open_account("valid_client", 500));
    assert!(richer.open_account("travel_agency", 0));
    assert!(matches!(s.retry().buy("valid_client", &mut richer), Transaction::Empty(_)));
    assert_eq!(richer.balance("valid_client"), Some(300));
    assert_eq!(richer.balance("travel_agency"), Some(200));
}

#[test]
fn session_starts_as_guest() {
    let s = TSession::new();
    assert!(matches!(s, TSession::Guest(_)));
    assert_eq!(s.state_name(), "Guest");
    assert_eq!(TSession::Empty(logged_in()).state_name(), "Empty");
    assert_eq!(TSession::NonEmpty(non_empty(vec![trip("Lisbon", "London", 200)])).state_name(), "NonEmpty");
}

fn drive(session: TSession, command: Command, ledger: &mut Ledger) -> (TSession, Reply) {
    let (next, reply) = session.handle(command, ledger);
    (next.expect("session closed too early"), reply)
}

#[test]
fn driver_runs_a_purchase() {
    let mut ledger = Ledger::seeded();
    let s = TSession::new();
    let (s, r) = drive(s, Command::Search("London".to_string()), &mut ledger);
    assert!(matches!(r, Reply::NotAvailable));
    assert_eq!(s.state_name(), "Guest");
    let (s, r) = drive(s, Command::Login("client".to_string(), "client".to_string()), &mut ledger);
    assert!(matches!(r, Reply::LoggedIn));
    let (s, r) = drive(s, Command::Search("Paris".to_string()), &mut ledger);
    match r {
        Reply::Trips(t) => assert_eq!(t, vec![trip("Berlin", "Paris", 600), trip("Paris", "Amesterdam", 800)]),
        _ => panic!("search should list trips"),
    }
    let (s, r) = drive(s, Command::Select(5), &mut ledger);
    assert!(matches!(r, Reply::InvalidIndex(5)));
    assert_eq!(s.state_name(), "Empty");
    let (s, r) = drive(s, Command::Select(1), &mut ledger);
    match r {
        Reply::Selected(t) => assert_eq!(t, vec![trip("Paris", "Amesterdam", 800)]),
        _ => panic!("index 1 should be selected"),
    }
    let (s, r) = drive(s, Command::Retry, &mut ledger);
    assert!(matches!(r, Reply::NotAvailable));
    let (s, r) = drive(s, Command::Buy("valid_client".to_string()), &mut ledger);
    assert!(matches!(r, Reply::Bought));
    assert_eq!(s.state_name(), "Empty");
    assert_eq!(ledger.balance("valid_client"), Some(4200));
    let (next, r) = s.handle(Command::Close, &mut ledger);
    assert!(next.is_none());
    assert!(matches!(r, Reply::Closed));
}

#[test]
fn driver_failed_purchase_and_retry() {
    let mut ledger = Ledger::new();
    assert!(ledger.open_account("valid_client", 700));
    assert!(ledger.open_account("travel_agency", 0));
    let s = TSession::NonEmpty(non_empty(vec![trip("Lisbon", "London", 200), trip("Paris", "Amesterdam", 800)]));
    let (s, r) = drive(s, Command::Buy("valid_client".to_string()), &mut ledger);
    match r {
        Reply::PurchaseFailed(m) => assert_eq!(m, "insufficient funds"),
        _ => panic!("800 is not covered after paying 200"),
    }
    assert_eq!(s.state_name(), "RetryError");
    assert_eq!(ledger.balance("valid_client"), Some(500));
    let (s, r) = drive(s, Command::Buy("valid_client".to_string()), &mut ledger);
    assert!(matches!(r, Reply::NotAvailable));
    let (s, r) = drive(s, Command::Retry, &mut ledger);
    assert!(matches!(r, Reply::RetryStarted));
    match &s {
        TSession::NonEmpty(n) => assert_eq!(n.state.selected, vec![trip("Paris", "Amesterdam", 800)]),
        _ => panic!("retry should restore the selection"),
    }
    let (next, r) = s.handle(Command::Close, &mut ledger);
    assert!(next.is_none());
    assert!(matches!(r, Reply::Closed));
}

#[test]
fn driver_bad_login_only_closes() {
    let mut ledger = Ledger::seeded();
    let (s, r) = drive(TSession::new(), Command::Close, &mut ledger);
    assert!(matches!(r, Reply::NotAvailable));
    let (s, r) = drive(s, Command::Login("bad".to_string(), "bad".to_string()), &mut ledger);
    match r {
        Reply::LoginFailed(m) => assert_eq!(m, "Invalid credentials"),
        _ => panic!("bad credentials logged in"),
    }
    assert_eq!(s.state_name(), "Error");
    let (s, r) = drive(s, Command::Search("London".to_string()), &mut ledger);
    assert!(matches!(r, Reply::NotAvailable));
    let (next, r) = s.handle(Command::Close, &mut ledger);
    assert!(next.is_none());
    assert!(matches!(r, Reply::Closed));
}

#[test]
fn purchase_steps_through_each_trip() {
    let trips = vec![trip("Lisbon", "London", 200), trip("London", "Berlin", 400)];
    let p = match Purchase::start(trips) {
        PurchaseStep::Pay(p, amount) => {
            assert_eq!(amount, 200);
            p
        }
        _ => panic!("the first trip should be paid first"),
    };
    let p = match p.record(None) {
        PurchaseStep::Pay(p, amount) => {
            assert_eq!(amount, 400);
            assert_eq!(p.paid, 1);
            p
        }
        _ => panic!("the second trip is still to pay"),
    };
    assert!(matches!(p.record(None), PurchaseStep::Paid));
    assert!(matches!(Purchase::start(vec![]), PurchaseStep::Paid));
}

#[test]
fn purchase_failure_keeps_unpaid_trips() {
    let trips = vec![trip("Lisbon", "London", 200), trip("London", "Berlin", 400), trip("Berlin", "Paris", 600)];
    let p = match Purchase::start(trips) {
        PurchaseStep::Pay(p, _) => p,
        _ => panic!("three trips to pay"),
    };
    let p = match p.record(None) {
        PurchaseStep::Pay(p, _) => p,
        _ => panic!("two trips left"),
    };
    match p.record(Some("insufficient funds".to_string())) {
        PurchaseStep::Failed(m, unpaid) => {
            assert_eq!(m, "insufficient funds");
            assert_eq!(unpaid, vec![trip("London", "Berlin", 400), trip("Berlin", "Paris", 600)]);
        }
        _ => panic!("the failure should be reported"),
    }
    let done = Purchase { trips: vec![trip("Lisbon", "London", 200)], paid: 1 };
    assert!(matches!(done.record(Some("late".to_string())), PurchaseStep::Paid));
}

#[test]
fn trip_at_copies_or_refuses() {
    let trips = Trip::mocks();
    assert_eq!(trip_at(&trips, 3), Some(trip("Paris", "Amesterdam", 800)));
    assert_eq!(trip_at(&trips, 4), None);
    assert_eq!(trip_at(&vec![], 0), None);
}
