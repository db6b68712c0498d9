use vstd::prelude::*;

verus! {

/// The sum of a list of balances.
pub open spec fn sum(bals: Seq<i64>) -> int
    decreases bals.len(),
{
    if bals.len() == 0 {
        0
    } else {
        sum(bals.drop_last()) + bals.last()
    }
}

proof fn lemma_sum_update(s: Seq<i64>, i: int, v: i64)
    requires
        0 <= i < s.len(),
    ensures
        sum(s.update(i, v)) == sum(s) - s[i] + v,
    decreases s.len(),
{
    if i == s.len() - 1 {
        assert(s.update(i, v).drop_last() =~= s.drop_last());
    } else {
        lemma_sum_update(s.drop_last(), i, v);
        assert(s.update(i, v).drop_last() =~= s.drop_last().update(i, v));
    }
}

proof fn lemma_sum_nonneg(s: Seq<i64>)
    requires
        forall|k: int| 0 <= k < s.len() ==> s[k] >= 0,
    ensures
        sum(s) >= 0,
    decreases s.len(),
{
    if s.len() > 0 {
        lemma_sum_nonneg(s.drop_last());
    }
}

proof fn lemma_sum_one(s: Seq<i64>, i: int)
    requires
        0 <= i < s.len(),
        forall|k: int| 0 <= k < s.len() ==> s[k] >= 0,
    ensures
        s[i] <= sum(s),
    decreases s.len(),
{
    lemma_sum_nonneg(s.drop_last());
    if i < s.len() - 1 {
        lemma_sum_one(s.drop_last(), i);
    }
}

proof fn lemma_sum_two(s: Seq<i64>, i: int, j: int)
    requires
        0 <= i < s.len(),
        0 <= j < s.len(),
        i != j,
        forall|k: int| 0 <= k < s.len() ==> s[k] >= 0,
    ensures
        s[i] + s[j] <= sum(s),
    decreases s.len(),
{
    let n = s.len() - 1;
    if i == n {
        lemma_sum_one(s.drop_last(), j);
    } else if j == n {
        lemma_sum_one(s.drop_last(), i);
    } else {
        lemma_sum_two(s.drop_last(), i, j);
    }
}

spec fn has_name(names: Seq<String>, k: Seq<char>) -> bool {
    exists|i: int| 0 <= i < names.len() && names[i]@ == k
}

spec fn name_index(names: Seq<String>, k: Seq<char>) -> int {
    choose|i: int| 0 <= i < names.len() && names[i]@ == k
}

spec fn distinct_names(names: Seq<String>) -> bool {
    forall|i: int, j: int| 0 <= i < names.len() && 0 <= j < names.len() && i != j ==> names[i]@ != names[j]@
}

spec fn model(names: Seq<String>, bals: Seq<i64>) -> Map<Seq<char>, int> {
    Map::new(|k: Seq<char>| has_name(names, k), |k: Seq<char>| bals[name_index(names, k)] as int)
}

proof fn lemma_model_at(names: Seq<String>, bals: Seq<i64>, i: int)
    requires
        distinct_names(names),
        0 <= i < names.len(),
    ensures
        model(names, bals).contains_key(names[i]@),
        model(names, bals)[names[i]@] == bals[i],
{
    assert(has_name(names, names[i]@));
}

proof fn lemma_model_set(names: Seq<String>, bals: Seq<i64>, i: int, v: i64)
    requires
        distinct_names(names),
        names.len() == bals.len(),
        0 <= i < names.len(),
    ensures
        model(names, bals.update(i, v)) == model(names, bals).insert(names[i]@, v as int),
{
    let m = model(names, bals);
    let m2 = model(names, bals.update(i, v));
    assert(has_name(names, names[i]@));
    assert forall|k: Seq<char>| #[trigger] m2.contains_key(k) implies m2[k] == m.insert(
        names[i]@,
        v as int,
    )[k] by {
        let j = name_index(names, k);
        assert(names[j]@ == k);
        if k == names[i]@ {
            assert(j == i);
        } else {
            assert(j != i);
            assert(m.contains_key(k));
        }
    }
    assert(m2 =~= m.insert(names[i]@, v as int));
}

proof fn lemma_model_push(names: Seq<String>, bals: Seq<i64>, n: String, b: i64)
    requires
        distinct_names(names),
        names.len() == bals.len(),
        !has_name(names, n@),
    ensures
        model(names.push(n), bals.push(b)) == model(names, bals).insert(n@, b as int),
        distinct_names(names.push(n)),
{
    let names2 = names.push(n);
    let m = model(names, bals);
    let m2 = model(names2, bals.push(b));
    assert(names2[names.len() as int] == n);
    assert forall|k: Seq<char>| #[trigger] m2.contains_key(k) == m.insert(n@, b as int).contains_key(k) by {
        if has_name(names, k) {
            let j = name_index(names, k);
            assert(names2[j] == names[j]);
        }
        if has_name(names2, k) && k != n@ {
            let j = name_index(names2, k);
            assert(names[j] == names2[j]);
        }
    }
    assert forall|k: Seq<char>| #[trigger] m2.contains_key(k) implies m2[k] == m.insert(n@, b as int)[k] by {
        let j = name_index(names2, k);
        if k == n@ {
            assert(j == names.len());
        } else {
            assert(names[j] == names2[j]);
            assert(has_name(names, k));
            assert(name_index(names, k) == j);
        }
    }
    assert(m2 =~= m.insert(n@, b as int));
    assert forall|i: int, j: int| 0 <= i < names2.len() && 0 <= j < names2.len() && i != j implies names2[i]@ != names2[j]@ by {
        if i < names.len() && j == names.len() {
            assert(names2[i] == names[i]);
        }
        if j < names.len() && i == names.len() {
            assert(names2[j] == names[j]);
        }
    }
}

/// The account table: each account name with its balance.
pub struct Ledger {
    names: Vec<String>,
    balances: Vec<i64>,
}

impl Ledger {
    #[verifier::type_invariant]
    spec fn inv(&self) -> bool {
        &&& self.names.len() == self.balances.len()
        &&& distinct_names(self.names@)
        &&& forall|k: int| 0 <= k < self.balances.len() ==> self.balances@[k] >= 0
        &&& sum(self.balances@) <= i64::MAX
    }

    /// The sum of all balances.
    pub closed spec fn total(&self) -> int {
        sum(self.balances@)
    }

    fn find(&self, name: &str) -> (r: Option<usize>)
        ensures
            match r {
                Some(i) => i < self.names.len() && self.names@[i as int]@ == name@,
                None => !self@.contains_key(name@),
            },
    {
        let key = String::from_str(name);
        let mut i: usize = 0;
        while i < self.names.len()
            invariant
                i <= self.names.len(),
                key@ == name@,
                forall|k: int| 0 <= k < i ==> self.names@[k]@ != name@,
            decreases self.names.len() - i,
        {
            if self.names[i] == key {
                return Some(i);
            }
            i = i + 1;
        }
        None
    }

    /// A ledger with no account.
    pub fn new() -> (r: Ledger)
        ensures
            r@ == Map::<Seq<char>, int>::empty(),
            r.total() == 0,
    {
        let r = Ledger { names: Vec::new(), balances: Vec::new() };
        assert(r@ =~= Map::<Seq<char>, int>::empty());
        r
    }

    /// Opens an account named `name` with `balance`. This fails, and changes nothing, where
    /// the name is taken, the balance is negative, or the total of all balances would no
    /// longer fit in an `i64`.
    pub fn open_account(&mut self, name: &str, balance: i64) -> (r: bool)
        ensures
            r == (!old(self)@.contains_key(name@) && balance >= 0 && old(self).total() + balance
                <= i64::MAX),
            r ==> final(self)@ == old(self)@.insert(name@, balance as int),
            r ==> final(self).total() == old(self).total() + balance,
            !r ==> *final(self) == *old(self),
    {
        proof {
            use_type_invariant(&*self);
            lemma_sum_nonneg(self.balances@);
        }
        if balance < 0 || self.find(name).is_some() || balance > i64::MAX - self.total_exec() {
            return false;
        }
        let ghost before = *self;
        let mut taken = Ledger::new();
        std::mem::swap(self, &mut taken);
        let Ledger { mut names, mut balances } = taken;
        let n = String::from_str(name);
        proof {
            lemma_model_push(names@, balances@, n, balance);
        }
        names.push(n);
        balances.push(balance);
        proof {
            assert(balances@.drop_last() =~= before.balances@);
            lemma_sum_nonneg(before.balances@);
        }
        *self = Ledger { names, balances };
        true
    }

    fn total_exec(&self) -> (r: i64)
        ensures
            r == self.total(),
    {
        proof {
            use_type_invariant(self);
        }
        let mut t: i64 = 0;
        let mut i: usize = 0;
        while i < self.balances.len()
            invariant
                self.inv(),
                i <= self.balances.len(),
                t == sum(self.balances@.take(i as int)),
            decreases self.balances.len() - i,
        {
            proof {
                lemma_sum_prefix(self.balances@, i + 1);
                lemma_sum_take_bound(self.balances@, i + 1);
            }
            t = t + self.balances[i];
            i = i + 1;
        }
        assert(self.balances@.take(i as int) =~= self.balances@);
        t
    }

    /// The two accounts that the agency starts from.
    pub fn seeded() -> (r: Ledger)
        ensures
            r@ == seed(),
    {
        let mut r = Ledger::new();
        proof {
            reveal_strlit("valid_client");
            reveal_strlit("travel_agency");
        }
        let a = r.open_account("valid_client", 5000);
        assert(a);
        assert("valid_client"@.len() != "travel_agency"@.len());
        assert(!r@.contains_key("travel_agency"@));
        let b = r.open_account("travel_agency", 50000);
        assert(b);
        assert(r@ =~= seed());
        r
    }

    /// The balance of account `name`, if there is one.
    pub fn balance(&self, name: &str) -> (r: Option<i64>)
        ensures
            match r {
                Some(b) => self@.contains_key(name@) && b == self@[name@],
                None => !self@.contains_key(name@),
            },
    {
        proof {
            use_type_invariant(self);
        }
        match self.find(name) {
            Some(i) => {
                proof {
                    lemma_model_at(self.names@, self.balances@, i as int);
                }
                Some(self.balances[i])
            },
            None => None,
        }
    }

    /// Whether there is an account named `name`.
    pub fn contains(&self, name: &str) -> (r: bool)
        ensures
            r == self@.contains_key(name@),
    {
        self.balance(name).is_some()
    }

    /// Moves `amount` from `from` to `to`, as one step, where `from` holds at least
    /// `amount`; otherwise changes nothing.
    pub fn move_funds(&mut self, from: &str, to: &str, amount: i64) -> (r: bool)
        requires
            old(self)@.contains_key(from@),
            old(self)@.contains_key(to@),
            amount >= 0,
        ensures
            r == (old(self)@[from@] - amount >= 0),
            r ==> final(self)@ == moved(old(self)@, from@, to@, amount as int),
            !r ==> final(self)@ == old(self)@,
            final(self).total() == old(self).total(),
    {
        proof {
            use_type_invariant(&*self);
        }
        let i = self.find(from).unwrap();
        let j = self.find(to).unwrap();
        proof {
            lemma_model_at(self.names@, self.balances@, i as int);
            lemma_model_at(self.names@, self.balances@, j as int);
        }
        let bi = self.balances[i];
        if bi - amount < 0 {
            return false;
        }
        let ghost s0 = *self;
        let mut taken = Ledger::new();
        std::mem::swap(self, &mut taken);
        let Ledger { names, mut balances } = taken;
        balances.set(i, bi - amount);
        let ghost b1 = balances@;
        proof {
            lemma_sum_update(s0.balances@, i as int, (bi - amount) as i64);
            lemma_model_set(names@, s0.balances@, i as int, (bi - amount) as i64);
            lemma_model_at(names@, b1, j as int);
            if i != j {
                lemma_sum_two(s0.balances@, i as int, j as int);
            }
        }
        let bj = balances[j];
        balances.set(j, bj + amount);
        proof {
            lemma_sum_update(b1, j as int, (bj + amount) as i64);
            lemma_model_set(names@, b1, j as int, (bj + amount) as i64);
        }
        *self = Ledger { names, balances };
        true
    }
}

proof fn lemma_sum_prefix(s: Seq<i64>, n: int)
    requires
        0 < n <= s.len(),
    ensures
        sum(s.take(n)) == sum(s.take(n - 1)) + s[n - 1],
{
    assert(s.take(n).drop_last() =~= s.take(n - 1));
}

proof fn lemma_sum_take_bound(s: Seq<i64>, n: int)
    requires
        0 <= n <= s.len(),
        forall|k: int| 0 <= k < s.len() ==> s[k] >= 0,
    ensures
        0 <= sum(s.take(n)) <= sum(s),
    decreases s.len() - n,
{
    if n == s.len() {
        assert(s.take(n) =~= s);
        lemma_sum_nonneg(s);
    } else {
        lemma_sum_take_bound(s, n + 1);
        lemma_sum_prefix(s, n + 1);
        lemma_sum_nonneg(s.take(n));
    }
}

impl View for Ledger {
    type V = Map<Seq<char>, int>;

    closed spec fn view(&self) -> Map<Seq<char>, int> {
        model(self.names@, self.balances@)
    }
}

/// The ledger that a transaction starts from.
pub open spec fn seed() -> Map<Seq<char>, int> {
    map!["valid_client"@ => 5000, "travel_agency"@ => 50000]
}

/// `l` after `amount` leaves `from` and then reaches `to`.
pub open spec fn moved(l: Map<Seq<char>, int>, from: Seq<char>, to: Seq<char>, amount: int) -> Map<
    Seq<char>,
    int,
> {
    let debited = l.insert(from, l[from] - amount);
    debited.insert(to, debited[to] + amount)
}

pub open spec fn unknown_client() -> Seq<char> {
    "unknown client account"@
}

pub open spec fn unknown_destination() -> Seq<char> {
    "unknown destination account"@
}

pub open spec fn insufficient_funds() -> Seq<char> {
    "insufficient funds"@
}

/// What a transfer of `amount` from `from` to `to` does to ledger `l`: the ledger after it,
/// or the message of the error that ends it with `l` unchanged.
pub open spec fn transfer(l: Map<Seq<char>, int>, from: Seq<char>, to: Seq<char>, amount: int) -> Result<
    Map<Seq<char>, int>,
    Seq<char>,
> {
    if !l.contains_key(from) {
        Err(unknown_client())
    } else if !l.contains_key(to) {
        Err(unknown_destination())
    } else if l[from] - amount < 0 {
        Err(insufficient_funds())
    } else {
        Ok(moved(l, from, to, amount))
    }
}

/// The message of a refused pair of tokens.
pub open spec fn invalid_tokens() -> Seq<char> {
    "invalid tokens"@
}

/// The bank's test of the tokens of a payment over a channel: only the agency's account,
/// as destination, with the one client account, as source, is served.
pub fn check_tokens(to: &str, from: &str) -> (r: Result<(), String>)
    ensures
        r is Ok <==> (to@ == "travel_agency"@ && from@ == "valid_client"@),
        r matches Err(m) ==> m@ == invalid_tokens(),
{
    let t = String::from_str(to);
    let f = String::from_str(from);
    if t == String::from_str("travel_agency") && f == String::from_str("valid_client") {
        Ok(())
    } else {
        Err(String::from_str("invalid tokens"))
    }
}

/// A money transfer, in the state `S` of its lifecycle, with the ledger it works on.
pub struct Transaction<S> {
    pub accounts: Ledger,
    pub state: S,
}

/// The accounts and amount are known but not yet checked.
pub struct AccountValidation {
    pub from: String,
    pub to: String,
    pub amount: i64,
}

/// Both accounts exist.
pub struct Valid {
    pub from: String,
    pub to: String,
    pub amount: i64,
}

/// The transfer failed.
pub struct Error {
    pub message: String,
}

/// The transfer went through.
pub struct Finish;

pub enum AccountValidationResult {
    Valid(Transaction<Valid>),
    Error(Transaction<Error>),
}

pub enum TransactionResult {
    Finish(Transaction<Finish>),
    Error(Transaction<Error>),
}

impl Transaction<AccountValidation> {
    /// Starts a transfer of `amount` from `from` to `to` on a freshly seeded ledger.
    pub fn start_transaction(from: &str, to: &str, amount: i64) -> (r: Self)
        requires
            amount >= 0,
        ensures
            r.accounts@ == seed(),
            r.state.from@ == from@,
            r.state.to@ == to@,
            r.state.amount == amount,
    {
        Self::start_on(Ledger::seeded(), from, to, amount)
    }

    /// Starts a transfer of `amount` from `from` to `to` on `accounts`.
    pub fn start_on(accounts: Ledger, from: &str, to: &str, amount: i64) -> (r: Self)
        requires
            amount >= 0,
        ensures
            r.accounts == accounts,
            r.state.from@ == from@,
            r.state.to@ == to@,
            r.state.amount == amount,
    {
        Transaction {
            accounts,
            state: AccountValidation {
                from: String::from_str(from),
                to: String::from_str(to),
                amount,
            },
        }
    }

    /// Checks that both accounts exist.
    pub fn validate_accounts(self) -> (r: AccountValidationResult)
        ensures
            match r {
                AccountValidationResult::Valid(t) => {
                    &&& self.accounts@.contains_key(self.state.from@)
                    &&& self.accounts@.contains_key(self.state.to@)
                    &&& t.accounts == self.accounts
                    &&& t.state.from@ == self.state.from@
                    &&& t.state.to@ == self.state.to@
                    &&& t.state.amount == self.state.amount
                },
                AccountValidationResult::Error(t) => {
                    &&& t.accounts == self.accounts
                    &&& !self.accounts@.contains_key(self.state.from@) ==> t.state.message@
                        == unknown_client()
                    &&& self.accounts@.contains_key(self.state.from@) ==> (!self.accounts@.contains_key(
                        self.state.to@,
                    ) && t.state.message@ == unknown_destination())
                },
            },
    {
        if !self.accounts.contains(self.state.from.as_str()) {
            AccountValidationResult::Error(
                Transaction {
                    accounts: self.accounts,
                    state: Error { message: String::from_str("unknown client account") },
                },
            )
        } else if !self.accounts.contains(self.state.to.as_str()) {
            AccountValidationResult::Error(
                Transaction {
                    accounts: self.accounts,
                    state: Error { message: String::from_str("unknown destination account") },
                },
            )
        } else {
            let AccountValidation { from, to, amount } = self.state;
            AccountValidationResult::Valid(
                Transaction { accounts: self.accounts, state: Valid { from, to, amount } },
            )
        }
    }
}

impl Transaction<Valid> {
    /// Debits the source and credits the destination together, unless the source would
    /// go negative.
    pub fn perform_transaction(self) -> (r: TransactionResult)
        requires
            self.state.amount >= 0,
            self.accounts@.contains_key(self.state.from@),
            self.accounts@.contains_key(self.state.to@),
        ensures
            match r {
                TransactionResult::Finish(t) => transfer(
                    self.accounts@,
                    self.state.from@,
                    self.state.to@,
                    self.state.amount as int,
                ) == Ok::<Map<Seq<char>, int>, Seq<char>>(t.accounts@),
                TransactionResult::Error(t) => {
                    &&& transfer(
                        self.accounts@,
                        self.state.from@,
                        self.state.to@,
                        self.state.amount as int,
                    ) == Err::<Map<Seq<char>, int>, Seq<char>>(t.state.message@)
                    &&& t.accounts@ == self.accounts@
                },
            },
            match r {
                TransactionResult::Finish(t) => t.accounts.total() == self.accounts.total(),
                TransactionResult::Error(t) => t.accounts.total() == self.accounts.total(),
            },
    {
        let mut accounts = self.accounts;
        if accounts.move_funds(self.state.from.as_str(), self.state.to.as_str(), self.state.amount) {
            TransactionResult::Finish(Transaction { accounts, state: Finish })
        } else {
            TransactionResult::Error(
                Transaction {
                    accounts,
                    state: Error { message: String::from_str("insufficient funds") },
                },
            )
        }
    }
}

impl Transaction<Error> {
    /// Ends a failed transfer.
    pub fn finish(self) {
    }
}

impl Transaction<Finish> {
    /// Ends a transfer that went through.
    pub fn finish(self) {
    }
}

/// A transfer that goes through takes exactly `amount` from the source and adds exactly
/// `amount` to a different destination, so their sum stays the same; every other account
/// keeps its balance.
pub proof fn lemma_transfer_moves_amount(
    l: Map<Seq<char>, int>,
    from: Seq<char>,
    to: Seq<char>,
    amount: int,
)
    requires
        from != to,
        transfer(l, from, to, amount) is Ok,
    ensures
        ({
            let after = transfer(l, from, to, amount)->Ok_0;
            &&& after[from] == l[from] - amount
            &&& after[to] == l[to] + amount
            &&& after[from] + after[to] == l[from] + l[to]
            &&& after.dom() == l.dom()
            &&& forall|k: Seq<char>| l.contains_key(k) && k != from && k != to ==> after[k] == l[k]
        }),
{
    let after = transfer(l, from, to, amount)->Ok_0;
    assert(after.dom() =~= l.dom());
}

/// A transfer never leaves its source negative: where it would, it fails with
/// "insufficient funds" and the ledger stays as it was.
pub proof fn lemma_transfer_no_negative(
    l: Map<Seq<char>, int>,
    from: Seq<char>,
    to: Seq<char>,
    amount: int,
)
    requires
        amount >= 0,
        l.contains_key(from),
        l.contains_key(to),
        l[from] >= 0,
    ensures
        transfer(l, from, to, amount) is Ok ==> transfer(l, from, to, amount)->Ok_0[from] >= 0,
        l[from] < amount <==> transfer(l, from, to, amount) == Err::<Map<Seq<char>, int>, Seq<char>>(
            insufficient_funds(),
        ),
{
}

} // verus!
