use vstd::prelude::*;

use crate::bank;
use crate::bank::{
    transfer, AccountValidation, AccountValidationResult, Ledger, TransactionResult,
};
use crate::trip::{copy_trips, search, trip_at, search_results, trips_view, Trip, TripView};

verus! {

/// A traveller's session, in the state `S`: the state decides which operations exist.
pub struct Session<S> {
    pub state: S,
}

/// Not yet logged in.
pub struct Guest;

/// The login failed; the session can only be closed.
pub struct Error {
    pub message: String,
}

/// Logged in, nothing selected.
pub struct Empty {
    pub last_search: Vec<Trip>,
}

/// Logged in, with at least one trip selected (see `wf`).
pub struct NonEmpty {
    pub last_search: Vec<Trip>,
    pub selected: Vec<Trip>,
}

impl NonEmpty {
    /// At least one trip is selected.
    pub open spec fn wf(&self) -> bool {
        self.selected@.len() > 0
    }
}

/// A purchase failed; the trips not paid for, at least the failed one (see `wf`), are
/// kept for a retry.
pub struct RetryError {
    pub message: String,
    pub selected: Vec<Trip>,
}

impl RetryError {
    /// At least one trip is kept.
    pub open spec fn wf(&self) -> bool {
        self.selected@.len() > 0
    }
}

pub enum Login {
    Empty(Session<Empty>),
    Error(Session<Error>),
}

pub enum Selection {
    NonEmpty(Session<NonEmpty>),
    Empty(Session<Empty>),
}

pub enum Transaction {
    Empty(Session<Empty>),
    RetryError(Session<RetryError>),
}

/// A selection named a position past the last search's results.
#[derive(Debug, PartialEq, Eq, Structural)]
pub struct IndexError {
    pub index: usize,
}

/// A session in whichever state it is in.
pub enum TSession {
    Guest(Session<Guest>),
    Empty(Session<Empty>),
    NonEmpty(Session<NonEmpty>),
    Error(Session<Error>),
    RetryError(Session<RetryError>),
}

/// The one pair of credentials that logs in.
pub open spec fn valid_credentials(username: Seq<char>, password: Seq<char>) -> bool {
    username == "client"@ && password == "client"@
}

pub open spec fn invalid_credentials() -> Seq<char> {
    "Invalid credentials"@
}

/// The account that purchases are paid to.
pub open spec fn agency_account() -> Seq<char> {
    "travel_agency"@
}

/// A search for `query` from a state whose last results were `last`: the new last results
/// and the results returned.
pub open spec fn after_search(last: Seq<TripView>, query: Seq<char>) -> (Seq<TripView>, Seq<TripView>) {
    (search_results(query), search_results(query))
}

/// Paying for `trips` in order from `token`, starting from ledger `l`: the ledger once all
/// went through, or the message and position of the first transfer that failed.
pub open spec fn settle(l: Map<Seq<char>, int>, token: Seq<char>, trips: Seq<TripView>) -> Result<
    Map<Seq<char>, int>,
    (Seq<char>, int),
>
    decreases trips.len(),
{
    if trips.len() == 0 {
        Ok(l)
    } else {
        match settle(l, token, trips.drop_last()) {
            Err(e) => Err(e),
            Ok(l2) => match transfer(l2, token, agency_account(), trips.last().price as int) {
                Ok(l3) => Ok(l3),
                Err(m) => Err((m, trips.len() - 1)),
            },
        }
    }
}

proof fn lemma_settle_failure_stays(
    l: Map<Seq<char>, int>,
    token: Seq<char>,
    trips: Seq<TripView>,
    j: int,
)
    requires
        0 <= j <= trips.len(),
        settle(l, token, trips.take(j)) is Err,
    ensures
        settle(l, token, trips) == settle(l, token, trips.take(j)),
    decreases trips.len() - j,
{
    if j == trips.len() {
        assert(trips.take(j) =~= trips);
    } else {
        assert(trips.take(j + 1).drop_last() =~= trips.take(j));
        lemma_settle_failure_stays(l, token, trips, j + 1);
    }
}

/// Checks a pair of credentials against the one that logs in.
pub fn check_credentials(username: &str, password: &str) -> (r: bool)
    ensures
        r == valid_credentials(username@, password@),
{
    let u = String::from_str(username);
    let p = String::from_str(password);
    let expected = String::from_str("client");
    u == expected && p == expected
}

impl Session<Guest> {
    pub fn init() -> (r: Self) {
        Session { state: Guest }
    }

    /// Logs in with the fixed credentials; any other pair fails.
    pub fn login(self, username: &str, password: &str) -> (r: Login)
        ensures
            match r {
                Login::Empty(s) => valid_credentials(username@, password@)
                    && s.state.last_search@.len() == 0,
                Login::Error(s) => !valid_credentials(username@, password@)
                    && s.state.message@ == invalid_credentials(),
            },
    {
        if check_credentials(username, password) {
            Login::Empty(Session { state: Empty { last_search: Vec::new() } })
        } else {
            Login::Error(
                Session { state: Error { message: String::from_str("Invalid credentials") } },
            )
        }
    }
}

impl Session<Error> {
    pub fn close(self) {
    }
}

impl Session<Empty> {
    /// Searches the catalogue for trips touching `query`; they become the last results.
    pub fn search_trip(&mut self, query: &str) -> (r: Vec<Trip>)
        ensures
            (trips_view(final(self).state.last_search@), trips_view(r@)) == after_search(
                trips_view(old(self).state.last_search@),
                query@,
            ),
    {
        let trips = search(query);
        self.state.last_search = copy_trips(&trips);
        trips
    }

    /// Selects the trip at `idx` of the last results, which becomes the only selected
    /// trip; past the end nothing changes.
    pub fn add_trip(self, idx: usize) -> (r: Selection)
        ensures
            match r {
                Selection::NonEmpty(s) => {
                    &&& idx < self.state.last_search@.len()
                    &&& s.state.wf()
                    &&& trips_view(s.state.selected@) == seq![
                        trips_view(self.state.last_search@)[idx as int],
                    ]
                    &&& s.state.last_search == self.state.last_search
                },
                Selection::Empty(s) => idx >= self.state.last_search@.len() && s == self,
            },
    {
        if let Some(t) = trip_at(&self.state.last_search, idx) {
            let selected = vec![t];
            assert(trips_view(selected@) =~= seq![trips_view(self.state.last_search@)[idx as int]]);
            Selection::NonEmpty(
                Session { state: NonEmpty { selected, last_search: self.state.last_search } },
            )
        } else {
            Selection::Empty(self)
        }
    }

    pub fn close(self) {
    }
}

impl Session<NonEmpty> {
    /// Searches the catalogue for trips touching `query`; they become the last results.
    pub fn search_trip(&mut self, query: &str) -> (r: Vec<Trip>)
        ensures
            (trips_view(final(self).state.last_search@), trips_view(r@)) == after_search(
                trips_view(old(self).state.last_search@),
                query@,
            ),
            final(self).state.selected == old(self).state.selected,
            old(self).state.wf() ==> final(self).state.wf(),
    {
        let trips = search(query);
        self.state.last_search = copy_trips(&trips);
        trips
    }

    /// Adds the trip at `idx` of the last results to the selection; past the end this
    /// is an error and nothing changes.
    pub fn add_trip(&mut self, idx: usize) -> (r: Result<(), IndexError>)
        ensures
            idx < old(self).state.last_search@.len() ==> {
                &&& r is Ok
                &&& trips_view(final(self).state.selected@) == trips_view(
                    old(self).state.selected@,
                ).push(trips_view(old(self).state.last_search@)[idx as int])
                &&& final(self).state.last_search == old(self).state.last_search
            },
            idx >= old(self).state.last_search@.len() ==> {
                &&& r == Err::<(), IndexError>(IndexError { index: idx })
                &&& *final(self) == *old(self)
            },
            old(self).state.wf() ==> final(self).state.wf(),
    {
        if let Some(t) = trip_at(&self.state.last_search, idx) {
            self.state.selected.push(t);
            assert(trips_view(self.state.selected@) =~= trips_view(old(self).state.selected@).push(
                trips_view(old(self).state.last_search@)[idx as int],
            ));
            Ok(())
        } else {
            Err(IndexError { index: idx })
        }
    }

    /// Pays for the selected trips in order, each by one transfer from `token` to the
    /// agency on `accounts`. All paid: an empty session. At the first failure the trips
    /// already paid for are dropped and the rest, the failed one first, are kept for a
    /// retry; transfers already made stay made.
    pub fn buy(self, token: &str, accounts: &mut Ledger) -> (r: Transaction)
        ensures
            ({
                let sel = trips_view(self.state.selected@);
                let outcome = settle(old(accounts)@, token@, sel);
                match r {
                    Transaction::Empty(s) => {
                        &&& outcome == Ok::<Map<Seq<char>, int>, (Seq<char>, int)>(final(accounts)@)
                        &&& s.state.last_search@.len() == 0
                    },
                    Transaction::RetryError(s) => {
                        &&& outcome is Err
                        &&& s.state.wf()
                        &&& s.state.message@ == outcome->Err_0.0
                        &&& trips_view(s.state.selected@) == sel.subrange(
                            outcome->Err_0.1,
                            sel.len() as int,
                        )
                        &&& settle(old(accounts)@, token@, sel.take(outcome->Err_0.1)) == Ok::<
                            Map<Seq<char>, int>,
                            (Seq<char>, int),
                        >(final(accounts)@)
                    },
                }
            }),
    {
        let ghost l0 = accounts@;
        let ghost sel = trips_view(self.state.selected@);
        let mut ledger = Ledger::new();
        std::mem::swap(accounts, &mut ledger);
        let mut selected = self.state.selected;
        let n = selected.len();
        let mut i: usize = 0;
        while i < n
            invariant
                n == selected.len(),
                i <= n,
                l0 == old(accounts)@,
                sel == trips_view(self.state.selected@),
                sel == trips_view(selected@),
                settle(l0, token@, sel.take(i as int)) == Ok::<Map<Seq<char>, int>, (Seq<char>, int)>(
                    ledger@,
                ),
            decreases n - i,
        {
            proof {
                assert(sel.take(i + 1).drop_last() =~= sel.take(i as int));
            }
            let price = selected[i].price as i64;
            let t = bank::Transaction::<AccountValidation>::start_on(ledger, token, "travel_agency", price);
            let failed: String;
            match t.validate_accounts() {
                AccountValidationResult::Valid(v) => {
                    match v.perform_transaction() {
                        TransactionResult::Finish(f) => {
                            ledger = f.accounts;
                            i = i + 1;
                            continue ;
                        },
                        TransactionResult::Error(e) => {
                            ledger = e.accounts;
                            failed = e.state.message;
                        },
                    }
                },
                AccountValidationResult::Error(e) => {
                    ledger = e.accounts;
                    failed = e.state.message;
                },
            }
            proof {
                assert(settle(l0, token@, sel.take(i + 1)) == Err::<
                    Map<Seq<char>, int>,
                    (Seq<char>, int),
                >((failed@, i as int)));
                lemma_settle_failure_stays(l0, token@, sel, i + 1);
            }
            std::mem::swap(accounts, &mut ledger);
            let rest = selected.split_off(i);
            assert(trips_view(rest@) =~= sel.subrange(i as int, sel.len() as int));
            return Transaction::RetryError(
                Session { state: RetryError { message: failed, selected: rest } },
            );
        }
        proof {
            assert(sel.take(i as int) =~= sel);
        }
        std::mem::swap(accounts, &mut ledger);
        Transaction::Empty(Session { state: Empty { last_search: Vec::new() } })
    }

    pub fn close(self) {
    }
}

impl Session<RetryError> {
    /// Back to a selection of the trips kept, with no search results.
    pub fn retry(self) -> (r: Session<NonEmpty>)
        ensures
            r.state.selected == self.state.selected,
            r.state.last_search@.len() == 0,
            self.state.wf() ==> r.state.wf(),
    {
        Session { state: NonEmpty { last_search: Vec::new(), selected: self.state.selected } }
    }

    pub fn close(self) {
    }
}

impl TSession {
    /// The selection of a NonEmpty or RetryError session holds at least one trip.
    pub open spec fn wf(&self) -> bool {
        match self {
            TSession::NonEmpty(s) => s.state.wf(),
            TSession::RetryError(s) => s.state.wf(),
            _ => true,
        }
    }

    /// A new session, not yet logged in.
    pub fn new() -> (r: Self)
        ensures
            r is Guest,
            r.wf(),
    {
        TSession::Guest(Session::<Guest>::init())
    }

    /// The name of the state the session is in.
    pub fn state_name(&self) -> (r: &'static str)
        ensures
            r@ == match self {
                TSession::Guest(_) => "Guest"@,
                TSession::Empty(_) => "Empty"@,
                TSession::NonEmpty(_) => "NonEmpty"@,
                TSession::Error(_) => "Error"@,
                TSession::RetryError(_) => "RetryError"@,
            },
    {
        match self {
            TSession::Guest(_) => "Guest",
            TSession::Empty(_) => "Empty",
            TSession::NonEmpty(_) => "NonEmpty",
            TSession::Error(_) => "Error",
            TSession::RetryError(_) => "RetryError",
        }
    }
}


/// A request from the traveller, already split into its parts.
pub enum Command {
    Login(String, String),
    Search(String),
    Select(usize),
    Buy(String),
    Retry,
    Close,
}

/// What the driver reports after a command.
pub enum Reply {
    LoggedIn,
    LoginFailed(String),
    /// The results of a search.
    Trips(Vec<Trip>),
    /// The selection after a trip was added.
    Selected(Vec<Trip>),
    InvalidIndex(usize),
    Bought,
    PurchaseFailed(String),
    RetryStarted,
    Closed,
    /// The command does not exist in the session's current state.
    NotAvailable,
}

/// Whether `cmd` is one of the operations of the state `s` is in.
pub open spec fn allowed(s: TSession, cmd: Command) -> bool {
    match (s, cmd) {
        (TSession::Guest(_), Command::Login(_, _)) => true,
        (TSession::Empty(_), Command::Search(_)) => true,
        (TSession::Empty(_), Command::Select(_)) => true,
        (TSession::Empty(_), Command::Close) => true,
        (TSession::NonEmpty(_), Command::Search(_)) => true,
        (TSession::NonEmpty(_), Command::Select(_)) => true,
        (TSession::NonEmpty(_), Command::Buy(_)) => true,
        (TSession::NonEmpty(_), Command::Close) => true,
        (TSession::Error(_), Command::Close) => true,
        (TSession::RetryError(_), Command::Retry) => true,
        (TSession::RetryError(_), Command::Close) => true,
        _ => false,
    }
}

impl TSession {
    /// Runs `cmd` on the session: the transition of the current state that the command
    /// names, or nothing where the state has no such operation. `None` is a closed session.
    pub fn handle(self, cmd: Command, accounts: &mut Ledger) -> (r: (Option<TSession>, Reply))
        ensures
            !allowed(self, cmd) ==> r == (Some(self), Reply::NotAvailable) && *final(accounts)
                == *old(accounts),
            allowed(self, cmd) && cmd is Close ==> r.0 is None && r.1 is Closed,
            !(self is NonEmpty && cmd is Buy) ==> *final(accounts) == *old(accounts),
            self.wf() && r.0 is Some ==> r.0->Some_0.wf(),
            match (self, cmd) {
                (TSession::Guest(_), Command::Login(u, p)) => if valid_credentials(u@, p@) {
                    r.1 is LoggedIn && (r.0 matches Some(TSession::Empty(e)) && e.state.last_search@.len() == 0)
                } else {
                    (r.0 matches Some(TSession::Error(e)) && e.state.message@ == invalid_credentials()
                        && r.1 == Reply::LoginFailed(e.state.message))
                },
                (TSession::Empty(_), Command::Search(q)) => (r.0 matches Some(TSession::Empty(e))
                    && trips_view(e.state.last_search@) == search_results(q@)) && (r.1 matches Reply::Trips(v)
                    && trips_view(v@) == search_results(q@)),
                (TSession::NonEmpty(old_s), Command::Search(q)) => (r.0 matches Some(TSession::NonEmpty(n))
                    && trips_view(n.state.last_search@) == search_results(q@) && n.state.selected
                    == old_s.state.selected) && (r.1 matches Reply::Trips(v) && trips_view(v@)
                    == search_results(q@)),
                (TSession::Empty(old_s), Command::Select(idx)) => if idx < old_s.state.last_search@.len() {
                    r.0 matches Some(TSession::NonEmpty(n)) && trips_view(n.state.selected@) == seq![
                        trips_view(old_s.state.last_search@)[idx as int],
                    ] && n.state.last_search == old_s.state.last_search && (r.1 matches Reply::Selected(v)
                        && trips_view(v@) == trips_view(n.state.selected@))
                } else {
                    r == (Some(TSession::Empty(old_s)), Reply::InvalidIndex(idx))
                },
                (TSession::NonEmpty(old_s), Command::Select(idx)) => if idx < old_s.state.last_search@.len() {
                    r.0 matches Some(TSession::NonEmpty(n)) && trips_view(n.state.selected@) == trips_view(
                        old_s.state.selected@,
                    ).push(trips_view(old_s.state.last_search@)[idx as int]) && n.state.last_search
                        == old_s.state.last_search && (r.1 matches Reply::Selected(v) && trips_view(v@)
                        == trips_view(n.state.selected@))
                } else {
                    r == (Some(TSession::NonEmpty(old_s)), Reply::InvalidIndex(idx))
                },
                (TSession::NonEmpty(old_s), Command::Buy(token)) => {
                    let sel = trips_view(old_s.state.selected@);
                    let outcome = settle(old(accounts)@, token@, sel);
                    match outcome {
                        Ok(l) => r.1 is Bought && final(accounts)@ == l && (r.0 matches Some(TSession::Empty(e))
                            && e.state.last_search@.len() == 0),
                        Err(f) => r.0 matches Some(TSession::RetryError(e)) && e.state.message@ == f.0
                            && trips_view(e.state.selected@) == sel.subrange(f.1, sel.len() as int)
                            && settle(old(accounts)@, token@, sel.take(f.1)) == Ok::<
                            Map<Seq<char>, int>,
                            (Seq<char>, int),
                        >(final(accounts)@) && r.1 is PurchaseFailed,
                    }
                },
                (TSession::RetryError(old_s), Command::Retry) => r.1 is RetryStarted
                    && (r.0 matches Some(TSession::NonEmpty(n)) && n.state.selected == old_s.state.selected
                    && n.state.last_search@.len() == 0),
                _ => true,
            },
    {
        match (self, cmd) {
            (TSession::Guest(s), Command::Login(u, p)) => match s.login(u.as_str(), p.as_str()) {
                Login::Empty(e) => (Some(TSession::Empty(e)), Reply::LoggedIn),
                Login::Error(e) => {
                    let m = e.state.message.clone();
                    (Some(TSession::Error(e)), Reply::LoginFailed(m))
                },
            },
            (TSession::Empty(mut s), Command::Search(q)) => {
                let v = s.search_trip(q.as_str());
                (Some(TSession::Empty(s)), Reply::Trips(v))
            },
            (TSession::Empty(s), Command::Select(idx)) => match s.add_trip(idx) {
                Selection::NonEmpty(n) => {
                    let v = copy_trips(&n.state.selected);
                    (Some(TSession::NonEmpty(n)), Reply::Selected(v))
                },
                Selection::Empty(e) => (Some(TSession::Empty(e)), Reply::InvalidIndex(idx)),
            },
            (TSession::Empty(s), Command::Close) => {
                s.close();
                (None, Reply::Closed)
            },
            (TSession::NonEmpty(mut s), Command::Search(q)) => {
                let v = s.search_trip(q.as_str());
                (Some(TSession::NonEmpty(s)), Reply::Trips(v))
            },
            (TSession::NonEmpty(mut s), Command::Select(idx)) => match s.add_trip(idx) {
                Ok(()) => {
                    let v = copy_trips(&s.state.selected);
                    (Some(TSession::NonEmpty(s)), Reply::Selected(v))
                },
                Err(e) => (Some(TSession::NonEmpty(s)), Reply::InvalidIndex(e.index)),
            },
            (TSession::NonEmpty(s), Command::Buy(token)) => match s.buy(token.as_str(), accounts) {
                Transaction::Empty(e) => (Some(TSession::Empty(e)), Reply::Bought),
                Transaction::RetryError(e) => {
                    let m = e.state.message.clone();
                    (Some(TSession::RetryError(e)), Reply::PurchaseFailed(m))
                },
            },
            (TSession::NonEmpty(s), Command::Close) => {
                s.close();
                (None, Reply::Closed)
            },
            (TSession::Error(s), Command::Close) => {
                s.close();
                (None, Reply::Closed)
            },
            (TSession::RetryError(s), Command::Retry) => (Some(TSession::NonEmpty(s.retry())), Reply::RetryStarted),
            (TSession::RetryError(s), Command::Close) => {
                s.close();
                (None, Reply::Closed)
            },
            (s, _) => (Some(s), Reply::NotAvailable),
        }
    }
}


/// A purchase paid one transfer at a time by an outside party: `trips[paid]` is the
/// trip whose transfer is awaited.
pub struct Purchase {
    pub trips: Vec<Trip>,
    pub paid: usize,
}

/// What a purchase asks for next.
pub enum PurchaseStep {
    /// Transfer this amount for the next trip, then report the outcome.
    Pay(Purchase, i64),
    /// Every trip is paid for.
    Paid,
    /// A transfer failed: its message, and the trips left unpaid, the failed one first.
    Failed(String, Vec<Trip>),
}

impl Purchase {
    /// Starts paying for `trips` in order.
    pub fn start(trips: Vec<Trip>) -> (r: PurchaseStep)
        ensures
            trips@.len() == 0 ==> r is Paid,
            trips@.len() > 0 ==> (r matches PurchaseStep::Pay(p, amount) && p.trips == trips
                && p.paid == 0 && amount == trips@[0].price),
    {
        if trips.len() == 0 {
            PurchaseStep::Paid
        } else {
            let amount = trips[0].price as i64;
            PurchaseStep::Pay(Purchase { trips, paid: 0 }, amount)
        }
    }

    /// Records the outcome of the awaited transfer (`None` when it went through) and says
    /// what comes next.
    pub fn record(self, failure: Option<String>) -> (r: PurchaseStep)
        ensures
            self.paid >= self.trips@.len() ==> r is Paid,
            self.paid < self.trips@.len() ==> match failure {
                None => if self.paid + 1 == self.trips@.len() {
                    r is Paid
                } else {
                    r matches PurchaseStep::Pay(p, amount) && p.trips == self.trips && p.paid
                        == self.paid + 1 && amount == self.trips@[self.paid + 1].price
                },
                Some(m) => r matches PurchaseStep::Failed(m2, unpaid) && m2 == m && trips_view(
                    unpaid@,
                ) == trips_view(self.trips@).subrange(self.paid as int, self.trips@.len() as int),
            },
    {
        let Purchase { mut trips, paid } = self;
        if paid >= trips.len() {
            return PurchaseStep::Paid;
        }
        match failure {
            None => {
                let next = paid + 1;
                if next == trips.len() {
                    PurchaseStep::Paid
                } else {
                    let amount = trips[next].price as i64;
                    PurchaseStep::Pay(Purchase { trips, paid: next }, amount)
                }
            },
            Some(m) => {
                let ghost all = trips@;
                let unpaid = trips.split_off(paid);
                assert(trips_view(unpaid@) =~= trips_view(all).subrange(paid as int, all.len() as int));
                PurchaseStep::Failed(m, unpaid)
            },
        }
    }
}

/// Searching is idempotent: the state a search leaves, searched again with the same query,
/// yields the same results and the same state.
pub proof fn lemma_search_idempotent(last: Seq<TripView>, query: Seq<char>)
    ensures
        after_search(after_search(last, query).0, query) == after_search(last, query),
{
}

/// A purchase of `[a, b, c]` where `a` is paid and `b`'s transfer fails keeps `[b, c]`
/// for the retry: `a` is dropped, `c` is kept, and the failure is reported at `b`.
pub proof fn lemma_partial_buy_keeps_unpaid(
    l: Map<Seq<char>, int>,
    token: Seq<char>,
    a: TripView,
    b: TripView,
    c: TripView,
)
    requires
        transfer(l, token, agency_account(), a.price as int) is Ok,
        transfer(
            transfer(l, token, agency_account(), a.price as int)->Ok_0,
            token,
            agency_account(),
            b.price as int,
        ) is Err,
    ensures
        settle(l, token, seq![a, b, c]) is Err,
        settle(l, token, seq![a, b, c])->Err_0.1 == 1,
        seq![a, b, c].subrange(settle(l, token, seq![a, b, c])->Err_0.1, 3) == seq![b, c],
{
    let s = seq![a, b, c];
    let l1 = transfer(l, token, agency_account(), a.price as int)->Ok_0;
    let m = transfer(l1, token, agency_account(), b.price as int)->Err_0;
    assert(s.take(0) =~= Seq::<TripView>::empty());
    assert(s.take(1).drop_last() =~= s.take(0));
    assert(s.take(2).drop_last() =~= s.take(1));
    assert(s.take(1).last() == a);
    assert(s.take(2).last() == b);
    assert(settle(l, token, s.take(0)) == Ok::<Map<Seq<char>, int>, (Seq<char>, int)>(l));
    assert(settle(l, token, s.take(1)) == Ok::<Map<Seq<char>, int>, (Seq<char>, int)>(l1));
    assert(settle(l, token, s.take(2)) == Err::<Map<Seq<char>, int>, (Seq<char>, int)>((m, 1)));
    lemma_settle_failure_stays(l, token, s, 2);
    assert(s.subrange(1, 3) =~= seq![b, c]);
}

} // verus!
