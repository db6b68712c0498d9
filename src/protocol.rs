use vstd::prelude::*;

verus! {

/// The kinds of message the two parties exchange.
#[derive(Clone, Copy, Debug, PartialEq, Eq, Structural)]
pub enum Message {
    LoginDetails,
    LoginError,
    Search,
    SearchResult,
    Select,
    SelectResult,
    Buy,
    BuyResult,
    Tokens,
    Transfer,
    BankError,
}

/// What is left of a conversation, seen from one side.
#[derive(Debug)]
pub enum Protocol {
    /// Nothing more: the channel closes.
    End,
    /// Send a message, then go on.
    Send(Message, Box<Protocol>),
    /// Receive a message, then go on.
    Recv(Message, Box<Protocol>),
    /// Pick one of two continuations.
    Choose(Box<Protocol>, Box<Protocol>),
    /// Follow whichever of two continuations the other side picks.
    Offer(Box<Protocol>, Box<Protocol>),
    /// A point that `Var` can jump back to.
    Rec(Box<Protocol>),
    /// Jump back to the enclosing `Rec` this many levels out.
    Var(usize),
}

/// The other side's view of the same conversation: sends and receives swap, and so do
/// choosing and offering.
pub open spec fn dual_of(p: Protocol) -> Protocol
    decreases p,
{
    match p {
        Protocol::End => Protocol::End,
        Protocol::Send(m, k) => Protocol::Recv(m, Box::new(dual_of(*k))),
        Protocol::Recv(m, k) => Protocol::Send(m, Box::new(dual_of(*k))),
        Protocol::Choose(l, r) => Protocol::Offer(Box::new(dual_of(*l)), Box::new(dual_of(*r))),
        Protocol::Offer(l, r) => Protocol::Choose(Box::new(dual_of(*l)), Box::new(dual_of(*r))),
        Protocol::Rec(b) => Protocol::Rec(Box::new(dual_of(*b))),
        Protocol::Var(n) => Protocol::Var(n),
    }
}

/// Taking the dual twice gives the protocol back.
pub proof fn lemma_dual_involutive(p: Protocol)
    ensures
        dual_of(dual_of(p)) == p,
    decreases p,
{
    match p {
        Protocol::Send(_, k) => lemma_dual_involutive(*k),
        Protocol::Recv(_, k) => lemma_dual_involutive(*k),
        Protocol::Choose(l, r) => {
            lemma_dual_involutive(*l);
            lemma_dual_involutive(*r);
        },
        Protocol::Offer(l, r) => {
            lemma_dual_involutive(*l);
            lemma_dual_involutive(*r);
        },
        Protocol::Rec(b) => lemma_dual_involutive(*b),
        _ => {},
    }
}

impl Clone for Protocol {
    fn clone(&self) -> (r: Self)
        ensures
            r == *self,
        decreases self,
    {
        match self {
            Protocol::End => Protocol::End,
            Protocol::Send(m, k) => Protocol::Send(*m, Box::new((**k).clone())),
            Protocol::Recv(m, k) => Protocol::Recv(*m, Box::new((**k).clone())),
            Protocol::Choose(l, r) => Protocol::Choose(Box::new((**l).clone()), Box::new((**r).clone())),
            Protocol::Offer(l, r) => Protocol::Offer(Box::new((**l).clone()), Box::new((**r).clone())),
            Protocol::Rec(b) => Protocol::Rec(Box::new((**b).clone())),
            Protocol::Var(n) => Protocol::Var(*n),
        }
    }
}

impl Protocol {
    /// The dual protocol, which the other side must follow.
    pub fn dual(&self) -> (r: Protocol)
        ensures
            r == dual_of(*self),
        decreases self,
    {
        match self {
            Protocol::End => Protocol::End,
            Protocol::Send(m, k) => Protocol::Recv(*m, Box::new((**k).dual())),
            Protocol::Recv(m, k) => Protocol::Send(*m, Box::new((**k).dual())),
            Protocol::Choose(l, r) => Protocol::Offer(Box::new((**l).dual()), Box::new((**r).dual())),
            Protocol::Offer(l, r) => Protocol::Choose(Box::new((**l).dual()), Box::new((**r).dual())),
            Protocol::Rec(b) => Protocol::Rec(Box::new((**b).dual())),
            Protocol::Var(n) => Protocol::Var(*n),
        }
    }

    /// Whether the two protocols are the same, step for step.
    pub fn same(&self, other: &Protocol) -> (r: bool)
        ensures
            r == (*self == *other),
        decreases self,
    {
        match (self, other) {
            (Protocol::End, Protocol::End) => true,
            (Protocol::Send(m, k), Protocol::Send(m2, k2)) => *m == *m2 && (**k).same(&**k2),
            (Protocol::Recv(m, k), Protocol::Recv(m2, k2)) => *m == *m2 && (**k).same(&**k2),
            (Protocol::Choose(l, r), Protocol::Choose(l2, r2)) => (**l).same(&**l2) && (**r).same(&**r2),
            (Protocol::Offer(l, r), Protocol::Offer(l2, r2)) => (**l).same(&**l2) && (**r).same(&**r2),
            (Protocol::Rec(b), Protocol::Rec(b2)) => (**b).same(&**b2),
            (Protocol::Var(n), Protocol::Var(n2)) => *n == *n2,
            _ => false,
        }
    }

    /// Whether `other` is exactly this protocol's dual.
    pub fn is_dual_of(&self, other: &Protocol) -> (r: bool)
        ensures
            r == (*other == dual_of(*self)),
    {
        self.dual().same(other)
    }
}

/// One step that a side takes on its channel.
#[derive(Clone, Copy, Debug, PartialEq, Eq, Structural)]
pub enum Action {
    Send(Message),
    Recv(Message),
    /// Pick the first (`true`) or second continuation.
    Choose(bool),
    /// Learn that the other side picked the first (`true`) or second continuation.
    Offer(bool),
    /// Enter a `Rec`.
    Enter,
    /// Jump back from `Var(0)` to the innermost `Rec`.
    Zero,
    /// Leave the innermost `Rec` from `Var(n + 1)`, which becomes `Var(n)`.
    Succ,
    Close,
}

/// The step the other side takes at the same time.
pub open spec fn dual_action(a: Action) -> Action {
    match a {
        Action::Send(m) => Action::Recv(m),
        Action::Recv(m) => Action::Send(m),
        Action::Choose(b) => Action::Offer(b),
        Action::Offer(b) => Action::Choose(b),
        _ => a,
    }
}

/// Where an endpoint stands: what is left, and the bodies of the `Rec`s it is inside,
/// innermost last.
pub struct EndpointView {
    pub current: Protocol,
    pub frames: Seq<Protocol>,
}

/// The endpoint the other side holds.
pub open spec fn dual_endpoint(e: EndpointView) -> EndpointView {
    EndpointView { current: dual_of(e.current), frames: e.frames.map_values(|p: Protocol| dual_of(p)) }
}

/// An endpoint at the start of protocol `p`.
pub open spec fn start(p: Protocol) -> EndpointView {
    EndpointView { current: p, frames: Seq::empty() }
}

/// Where action `a` takes an endpoint, if the protocol allows it there.
pub open spec fn step(e: EndpointView, a: Action) -> Option<EndpointView> {
    match (e.current, a) {
        (Protocol::Send(m, k), Action::Send(m2)) => if m == m2 {
            Some(EndpointView { current: *k, frames: e.frames })
        } else {
            None
        },
        (Protocol::Recv(m, k), Action::Recv(m2)) => if m == m2 {
            Some(EndpointView { current: *k, frames: e.frames })
        } else {
            None
        },
        (Protocol::Choose(l, r), Action::Choose(b)) => Some(
            EndpointView { current: if b { *l } else { *r }, frames: e.frames },
        ),
        (Protocol::Offer(l, r), Action::Offer(b)) => Some(
            EndpointView { current: if b { *l } else { *r }, frames: e.frames },
        ),
        (Protocol::Rec(body), Action::Enter) => Some(
            EndpointView { current: *body, frames: e.frames.push(*body) },
        ),
        (Protocol::Var(n), Action::Zero) => if n == 0 && e.frames.len() > 0 {
            Some(EndpointView { current: e.frames.last(), frames: e.frames })
        } else {
            None
        },
        (Protocol::Var(n), Action::Succ) => if n > 0 && e.frames.len() > 0 {
            Some(EndpointView { current: Protocol::Var((n - 1) as usize), frames: e.frames.drop_last() })
        } else {
            None
        },
        (Protocol::End, Action::Close) => Some(e),
        _ => None,
    }
}

/// Duality is kept step by step: whatever one side of a dual pair may do, the other side
/// may do the matching step at the same time, and the two stay dual afterwards.
pub proof fn lemma_dual_step(e: EndpointView, a: Action)
    requires
        step(e, a) is Some,
    ensures
        step(dual_endpoint(e), dual_action(a)) == Some(dual_endpoint(step(e, a)->Some_0)),
{
    let d = dual_endpoint(e);
    let e2 = step(e, a)->Some_0;
    match (e.current, a) {
        (Protocol::Rec(body), Action::Enter) => {
            assert(d.frames.push(dual_of(*body)) =~= e2.frames.map_values(|p: Protocol| dual_of(p)));
        },
        (Protocol::Var(n), Action::Zero) => {
            assert(d.frames.last() == dual_of(e.frames.last()));
        },
        (Protocol::Var(n), Action::Succ) => {
            assert(d.frames.drop_last() =~= e2.frames.map_values(|p: Protocol| dual_of(p)));
        },
        _ => {},
    }
}

/// One side of a channel: the protocol it follows, checked at every step.
pub struct Endpoint {
    current: Protocol,
    frames: Vec<Protocol>,
}

impl View for Endpoint {
    type V = EndpointView;

    closed spec fn view(&self) -> EndpointView {
        EndpointView { current: self.current, frames: self.frames@ }
    }
}

impl Endpoint {
    /// An endpoint at the start of `p`.
    pub fn new(p: Protocol) -> (r: Endpoint)
        ensures
            r@ == start(p),
    {
        let r = Endpoint { current: p, frames: Vec::new() };
        assert(r@.frames =~= Seq::<Protocol>::empty());
        r
    }

    /// Takes step `a` where the protocol allows it; otherwise refuses it and changes nothing.
    pub fn perform(&mut self, a: Action) -> (r: bool)
        ensures
            r == step(old(self)@, a) is Some,
            r ==> final(self)@ == step(old(self)@, a)->Some_0,
            !r ==> *final(self) == *old(self),
    {
        let next: Protocol;
        match (&self.current, a) {
            (Protocol::Send(m, k), Action::Send(m2)) => {
                if *m != m2 {
                    return false;
                }
                next = (**k).clone();
            },
            (Protocol::Recv(m, k), Action::Recv(m2)) => {
                if *m != m2 {
                    return false;
                }
                next = (**k).clone();
            },
            (Protocol::Choose(l, r), Action::Choose(b)) => {
                next = if b { (**l).clone() } else { (**r).clone() };
            },
            (Protocol::Offer(l, r), Action::Offer(b)) => {
                next = if b { (**l).clone() } else { (**r).clone() };
            },
            (Protocol::Rec(body), Action::Enter) => {
                next = (**body).clone();
                self.frames.push((**body).clone());
            },
            (Protocol::Var(n), Action::Zero) => {
                if *n != 0 || self.frames.len() == 0 {
                    return false;
                }
                next = self.frames[self.frames.len() - 1].clone();
            },
            (Protocol::Var(n), Action::Succ) => {
                if *n == 0 || self.frames.len() == 0 {
                    return false;
                }
                next = Protocol::Var(*n - 1);
                self.frames.pop();
            },
            (Protocol::End, Action::Close) => {
                return true;
            },
            _ => {
                return false;
            },
        }
        self.current = next;
        true
    }

    /// Whether the conversation is over.
    pub fn is_done(&self) -> (r: bool)
        ensures
            r == (self@.current == Protocol::End),
    {
        match self.current {
            Protocol::End => true,
            _ => false,
        }
    }
}

/// Two endpoints wired together; they only ever exist as a dual pair.
pub struct Channel {
    server: Endpoint,
    client: Endpoint,
}

impl Channel {
    pub closed spec fn server_view(&self) -> EndpointView {
        self.server@
    }

    pub closed spec fn client_view(&self) -> EndpointView {
        self.client@
    }

    /// Both sides are exact mirror images.
    pub open spec fn is_dual_pair(&self) -> bool {
        self.client_view() == dual_endpoint(self.server_view())
    }

    /// Wires a server following `server` to a client following `client`. This succeeds
    /// exactly where `client` is the dual of `server`, before any message is exchanged.
    pub fn open(server: &Protocol, client: &Protocol) -> (r: Option<Channel>)
        ensures
            r is Some <==> *client == dual_of(*server),
            r is Some ==> r->Some_0.server_view() == start(*server) && r->Some_0.client_view()
                == start(*client) && r->Some_0.is_dual_pair(),
    {
        if server.is_dual_of(client) {
            let c = Channel { server: Endpoint::new(server.clone()), client: Endpoint::new(client.clone()) };
            assert(c.client_view().frames =~= c.server_view().frames.map_values(|p: Protocol| dual_of(p)));
            Some(c)
        } else {
            None
        }
    }

    /// A channel whose client follows the dual of `server`.
    pub fn session_channel(server: &Protocol) -> (r: Channel)
        ensures
            r.server_view() == start(*server),
            r.client_view() == start(dual_of(*server)),
            r.is_dual_pair(),
    {
        let c = Channel { server: Endpoint::new(server.clone()), client: Endpoint::new(server.dual()) };
        assert(c.client_view().frames =~= c.server_view().frames.map_values(|p: Protocol| dual_of(p)));
        c
    }

    /// The server takes step `a` and the client the matching step. Where the server's
    /// protocol allows `a`, both go through and the pair stays dual; otherwise nothing
    /// changes.
    pub fn exchange(&mut self, a: Action) -> (r: bool)
        requires
            old(self).is_dual_pair(),
        ensures
            r == step(old(self).server_view(), a) is Some,
            r ==> final(self).server_view() == step(old(self).server_view(), a)->Some_0,
            final(self).is_dual_pair(),
            !r ==> *final(self) == *old(self),
    {
        let ghost before = self.server@;
        if !self.server.perform(a) {
            return false;
        }
        proof {
            lemma_dual_step(before, a);
        }
        let b = match a {
            Action::Send(m) => Action::Recv(m),
            Action::Recv(m) => Action::Send(m),
            Action::Choose(x) => Action::Offer(x),
            Action::Offer(x) => Action::Choose(x),
            _ => a,
        };
        let ok = self.client.perform(b);
        assert(ok);
        true
    }

    /// Whether both sides have reached the end.
    pub fn is_closed(&self) -> (r: bool)
        ensures
            r == (self.server_view().current == Protocol::End && self.client_view().current
                == Protocol::End),
    {
        self.server.is_done() && self.client.is_done()
    }
}

/// The menu the agency offers after a login, repeated until the client leaves: search,
/// select, buy, stay, or leave.
pub open spec fn agency_commands() -> Protocol {
    Protocol::Offer(
        Box::new(Protocol::Recv(Message::Search, Box::new(Protocol::Send(Message::SearchResult, Box::new(Protocol::Var(0)))))),
        Box::new(Protocol::Offer(
            Box::new(Protocol::Recv(Message::Select, Box::new(Protocol::Send(Message::SelectResult, Box::new(Protocol::Var(0)))))),
            Box::new(Protocol::Offer(
                Box::new(Protocol::Recv(Message::Buy, Box::new(Protocol::Send(Message::BuyResult, Box::new(Protocol::Var(0)))))),
                Box::new(Protocol::Offer(Box::new(Protocol::Var(0)), Box::new(Protocol::End))),
            )),
        )),
    )
}

/// The agency's side: receive the login, then either serve the menu or send the error
/// and close.
pub open spec fn agency_server_spec() -> Protocol {
    Protocol::Recv(
        Message::LoginDetails,
        Box::new(Protocol::Choose(
            Box::new(Protocol::Rec(Box::new(agency_commands()))),
            Box::new(Protocol::Send(Message::LoginError, Box::new(Protocol::End))),
        )),
    )
}

/// The bank's side: receive the tokens, then either receive the amount and close on
/// success or send an error, or send an error at once.
pub open spec fn bank_server_spec() -> Protocol {
    Protocol::Recv(
        Message::Tokens,
        Box::new(Protocol::Choose(
            Box::new(Protocol::Recv(
                Message::Transfer,
                Box::new(Protocol::Choose(
                    Box::new(Protocol::End),
                    Box::new(Protocol::Send(Message::BankError, Box::new(Protocol::End))),
                )),
            )),
            Box::new(Protocol::Send(Message::BankError, Box::new(Protocol::End))),
        )),
    )
}

fn command(request: Message, reply: Message) -> (r: Protocol)
    ensures
        r == Protocol::Recv(request, Box::new(Protocol::Send(reply, Box::new(Protocol::Var(0))))),
{
    Protocol::Recv(request, Box::new(Protocol::Send(reply, Box::new(Protocol::Var(0)))))
}

/// The agency server's protocol.
pub fn agency_server() -> (r: Protocol)
    ensures
        r == agency_server_spec(),
{
    let leave = Protocol::Offer(Box::new(Protocol::Var(0)), Box::new(Protocol::End));
    let buy = Protocol::Offer(Box::new(command(Message::Buy, Message::BuyResult)), Box::new(leave));
    let select = Protocol::Offer(Box::new(command(Message::Select, Message::SelectResult)), Box::new(buy));
    let commands = Protocol::Offer(Box::new(command(Message::Search, Message::SearchResult)), Box::new(select));
    Protocol::Recv(
        Message::LoginDetails,
        Box::new(Protocol::Choose(
            Box::new(Protocol::Rec(Box::new(commands))),
            Box::new(Protocol::Send(Message::LoginError, Box::new(Protocol::End))),
        )),
    )
}

/// The bank server's protocol.
pub fn bank_server() -> (r: Protocol)
    ensures
        r == bank_server_spec(),
{
    let error = Protocol::Send(Message::BankError, Box::new(Protocol::End));
    let outcome = Protocol::Choose(
        Box::new(Protocol::End),
        Box::new(Protocol::Send(Message::BankError, Box::new(Protocol::End))),
    );
    Protocol::Recv(
        Message::Tokens,
        Box::new(Protocol::Choose(
            Box::new(Protocol::Recv(Message::Transfer, Box::new(outcome))),
            Box::new(error),
        )),
    )
}

fn ask_for(request: Message, reply: Message) -> (r: Protocol)
    ensures
        r == Protocol::Send(request, Box::new(Protocol::Recv(reply, Box::new(Protocol::Var(0))))),
{
    Protocol::Send(request, Box::new(Protocol::Recv(reply, Box::new(Protocol::Var(0)))))
}


proof fn lemma_dual_command(request: Message, reply: Message)
    ensures
        dual_of(Protocol::Recv(request, Box::new(Protocol::Send(reply, Box::new(Protocol::Var(0))))))
            == Protocol::Send(request, Box::new(Protocol::Recv(reply, Box::new(Protocol::Var(0))))),
{
    reveal_with_fuel(dual_of, 3);
}

/// The menu as the client sees it: pick search, select, buy, stay, or leave.
pub open spec fn agency_client_commands() -> Protocol {
    Protocol::Choose(
        Box::new(Protocol::Send(Message::Search, Box::new(Protocol::Recv(Message::SearchResult, Box::new(Protocol::Var(0)))))),
        Box::new(Protocol::Choose(
            Box::new(Protocol::Send(Message::Select, Box::new(Protocol::Recv(Message::SelectResult, Box::new(Protocol::Var(0)))))),
            Box::new(Protocol::Choose(
                Box::new(Protocol::Send(Message::Buy, Box::new(Protocol::Recv(Message::BuyResult, Box::new(Protocol::Var(0)))))),
                Box::new(Protocol::Choose(Box::new(Protocol::Var(0)), Box::new(Protocol::End))),
            )),
        )),
    )
}

proof fn lemma_agency_client_is_dual()
    ensures
        dual_of(agency_server_spec()) == Protocol::Send(
            Message::LoginDetails,
            Box::new(Protocol::Offer(
                Box::new(Protocol::Rec(Box::new(agency_client_commands()))),
                Box::new(Protocol::Recv(Message::LoginError, Box::new(Protocol::End))),
            )),
        ),
{
    let v0 = Protocol::Var(0);
    let end = Protocol::End;
    lemma_dual_command(Message::Search, Message::SearchResult);
    lemma_dual_command(Message::Select, Message::SelectResult);
    lemma_dual_command(Message::Buy, Message::BuyResult);
    assert(dual_of(v0) == v0);
    assert(dual_of(end) == end);
    let leave = Protocol::Offer(Box::new(v0), Box::new(end));
    assert(dual_of(leave) == Protocol::Choose(Box::new(v0), Box::new(end)));
    let buy = Protocol::Offer(
        Box::new(Protocol::Recv(Message::Buy, Box::new(Protocol::Send(Message::BuyResult, Box::new(v0))))),
        Box::new(leave),
    );
    assert(dual_of(buy) == Protocol::Choose(
        Box::new(Protocol::Send(Message::Buy, Box::new(Protocol::Recv(Message::BuyResult, Box::new(v0))))),
        Box::new(Protocol::Choose(Box::new(v0), Box::new(end))),
    ));
    let select = Protocol::Offer(
        Box::new(Protocol::Recv(Message::Select, Box::new(Protocol::Send(Message::SelectResult, Box::new(v0))))),
        Box::new(buy),
    );
    assert(dual_of(select) == *agency_client_commands()->Choose_1);
    assert(dual_of(agency_commands()) == agency_client_commands());
    let error = Protocol::Send(Message::LoginError, Box::new(end));
    assert(dual_of(error) == Protocol::Recv(Message::LoginError, Box::new(end)));
    let rec = Protocol::Rec(Box::new(agency_commands()));
    assert(dual_of(rec) == Protocol::Rec(Box::new(agency_client_commands())));
    let choice = Protocol::Choose(Box::new(rec), Box::new(error));
    assert(dual_of(choice) == Protocol::Offer(
        Box::new(Protocol::Rec(Box::new(agency_client_commands()))),
        Box::new(Protocol::Recv(Message::LoginError, Box::new(end))),
    ));
}

/// The traveller's protocol with the agency, written from the client's side: send the
/// login, then either pick from the menu until leaving or receive the error.
pub fn agency_client() -> (r: Protocol)
    ensures
        r == dual_of(agency_server_spec()),
{
    let leave = Protocol::Choose(Box::new(Protocol::Var(0)), Box::new(Protocol::End));
    let buy = Protocol::Choose(Box::new(ask_for(Message::Buy, Message::BuyResult)), Box::new(leave));
    let select = Protocol::Choose(Box::new(ask_for(Message::Select, Message::SelectResult)), Box::new(buy));
    let commands = Protocol::Choose(Box::new(ask_for(Message::Search, Message::SearchResult)), Box::new(select));
    let r = Protocol::Send(
        Message::LoginDetails,
        Box::new(Protocol::Offer(
            Box::new(Protocol::Rec(Box::new(commands))),
            Box::new(Protocol::Recv(Message::LoginError, Box::new(Protocol::End))),
        )),
    );
    proof {
        lemma_agency_client_is_dual();
    }
    r
}

/// The agency's protocol with the bank, written from the paying side: send the tokens,
/// then either send the amount and learn the outcome, or receive the error.
pub fn bank_client() -> (r: Protocol)
    ensures
        r == dual_of(bank_server_spec()),
{
    let outcome = Protocol::Offer(
        Box::new(Protocol::End),
        Box::new(Protocol::Recv(Message::BankError, Box::new(Protocol::End))),
    );
    let r = Protocol::Send(
        Message::Tokens,
        Box::new(Protocol::Offer(
            Box::new(Protocol::Send(Message::Transfer, Box::new(outcome))),
            Box::new(Protocol::Recv(Message::BankError, Box::new(Protocol::End))),
        )),
    );
    proof {
        reveal_with_fuel(dual_of, 6);
    }
    r
}

} // verus!
