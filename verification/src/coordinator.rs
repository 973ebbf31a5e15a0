//! The single-flight request coordinator.
//!
//! Many clients share one modem. The coordinator is the meeting point
//! between them and the engine: a slot for one request on its way to the
//! engine and a slot for one result on its way back. It admits a request
//! only while no other is pending, being served or waiting to be collected,
//! so at most one transaction is in flight. A client that is not admitted,
//! or whose result is not there yet, suspends and tries again; that waiting
//! is the caller's part.
//!
//! Every admitted request gets a number. The client keeps it as a `Ticket`,
//! the engine receives it as a `Job` with the request, and a result is
//! handed only to the ticket with the number of the job that it answers.
use crate::message::{ProxyRequest, ProxyResult, RequestView, ResultView};
use vstd::prelude::*;

verus! {

/// The claim of a client to the result of its request.
pub struct Ticket {
    number: u64,
}

impl View for Ticket {
    type V = nat;

    closed spec fn view(&self) -> nat {
        self.number as nat
    }
}

impl Ticket {
    /// The number of the request.
    pub fn number(&self) -> (n: u64)
        ensures
            n == self@,
    {
        self.number
    }
}

/// The duty of the engine to answer the request that it took.
pub struct Job {
    number: u64,
}

impl View for Job {
    type V = nat;

    closed spec fn view(&self) -> nat {
        self.number as nat
    }
}

impl Job {
    /// The number of the request.
    pub fn number(&self) -> (n: u64)
        ensures
            n == self@,
    {
        self.number
    }
}

/// What a `Coordinator` holds.
pub struct CoordinatorView {
    /// The request that waits for the engine, with its number.
    pub pending: Option<(nat, RequestView)>,
    /// The number of the request that the engine is serving.
    pub serving: Option<nat>,
    /// The result that waits for its client, with the number of its request.
    pub ready: Option<(nat, ResultView)>,
    /// The number that the next admitted request gets.
    pub next_number: nat,
}

impl CoordinatorView {
    /// No transaction is in flight.
    pub open spec fn is_idle(self) -> bool {
        self.pending is None && self.serving is None && self.ready is None
    }

    /// A coordinator in which nothing has happened yet.
    pub open spec fn initial() -> CoordinatorView {
        CoordinatorView { pending: None, serving: None, ready: None, next_number: 0 }
    }

    /// Whether a request is admitted now: nothing is in flight, and the
    /// numbers have not run out.
    pub open spec fn admits(self) -> bool {
        self.is_idle() && self.next_number < u64::MAX
    }

    /// The coordinator after `request` was offered: it is pending under the
    /// next number where it is admitted, and otherwise nothing changes.
    pub open spec fn offer(self, request: RequestView) -> CoordinatorView {
        if self.admits() {
            CoordinatorView {
                pending: Some((self.next_number, request)),
                next_number: self.next_number + 1,
                ..self
            }
        } else {
            self
        }
    }

    /// The coordinator after the engine asked for a request: the pending
    /// request, if there is one, is being served.
    pub open spec fn take(self) -> CoordinatorView {
        match self.pending {
            Some((number, _)) => CoordinatorView { pending: None, serving: Some(number), ..self },
            None => self,
        }
    }

    /// Whether a result is accepted as the answer to job `number`: that is
    /// the job being served, and no result is waiting.
    pub open spec fn accepts(self, number: nat) -> bool {
        self.serving == Some(number) && self.ready is None
    }

    /// The coordinator after the engine answered job `number` with `result`.
    pub open spec fn answer(self, number: nat, result: ResultView) -> CoordinatorView {
        if self.accepts(number) {
            CoordinatorView { serving: None, ready: Some((number, result)), ..self }
        } else {
            self
        }
    }

    /// Whether the result that is waiting belongs to ticket `number`.
    pub open spec fn holds_for(self, number: nat) -> bool {
        self.ready matches Some((owner, _)) && owner == number
    }

    /// The coordinator after the client with ticket `number` asked for its
    /// result.
    pub open spec fn collect(self, number: nat) -> CoordinatorView {
        if self.holds_for(number) {
            CoordinatorView { ready: None, ..self }
        } else {
            self
        }
    }
}

/// The meeting point of the clients and the engine.
pub struct Coordinator {
    pending: Option<(u64, ProxyRequest)>,
    serving: Option<u64>,
    ready: Option<(u64, ProxyResult)>,
    next_number: u64,
}

impl View for Coordinator {
    type V = CoordinatorView;

    closed spec fn view(&self) -> CoordinatorView {
        CoordinatorView {
            pending: match self.pending {
                Some((number, request)) => Some((number as nat, request@)),
                None => None,
            },
            serving: match self.serving {
                Some(number) => Some(number as nat),
                None => None,
            },
            ready: match self.ready {
                Some((number, result)) => Some((number as nat, result@)),
                None => None,
            },
            next_number: self.next_number as nat,
        }
    }
}

impl Coordinator {
    /// A coordinator in which nothing has happened yet.
    pub fn new() -> (coordinator: Coordinator)
        ensures
            coordinator@ == CoordinatorView::initial(),
    {
        Coordinator { pending: None, serving: None, ready: None, next_number: 0 }
    }

    /// Whether no transaction is in flight.
    pub fn is_idle(&self) -> (idle: bool)
        ensures
            idle == self@.is_idle(),
    {
        self.pending.is_none() && self.serving.is_none() && self.ready.is_none()
    }

    /// Offers `request` on behalf of a client. Where it is admitted, the
    /// client gets the ticket for its result; otherwise the request comes
    /// back and the client has to try again later.
    pub fn offer(&mut self, request: ProxyRequest) -> (r: Result<Ticket, ProxyRequest>)
        ensures
            final(self)@ == old(self)@.offer(request@),
            match r {
                Ok(ticket) => old(self)@.admits() && ticket@ == old(self)@.next_number,
                Err(back) => !old(self)@.admits() && back == request,
            },
    {
        if !self.is_idle() || self.next_number == u64::MAX {
            return Err(request);
        }
        let number = self.next_number;
        self.pending = Some((number, request));
        self.next_number = number + 1;
        Ok(Ticket { number })
    }

    /// Hands the pending request to the engine, with the job to answer it.
    /// There is nothing to hand out while no request is pending.
    pub fn take_request(&mut self) -> (r: Option<(Job, ProxyRequest)>)
        ensures
            final(self)@ == old(self)@.take(),
            match r {
                Some((job, request)) => old(self)@.pending == Some((job@, request@)),
                None => old(self)@.pending is None,
            },
    {
        match self.pending.take() {
            Some((number, request)) => {
                self.serving = Some(number);
                Some((Job { number }, request))
            },
            None => None,
        }
    }

    /// Takes `result` as the answer of the engine to `job`. A job that is
    /// not the one being served is turned down, and its result comes back.
    pub fn answer(&mut self, job: Job, result: ProxyResult) -> (r: Result<(), ProxyResult>)
        ensures
            final(self)@ == old(self)@.answer(job@, result@),
            match r {
                Ok(_) => old(self)@.accepts(job@),
                Err(back) => !old(self)@.accepts(job@) && back == result,
            },
    {
        let serving = match self.serving {
            Some(number) => number == job.number,
            None => false,
        };
        if !serving || self.ready.is_some() {
            return Err(result);
        }
        self.serving = None;
        self.ready = Some((job.number, result));
        Ok(())
    }

    /// Hands the waiting result to the client with `ticket`, if it is the
    /// result of that client's request. Otherwise the ticket comes back and
    /// the client has to try again later.
    pub fn collect(&mut self, ticket: Ticket) -> (r: Result<ProxyResult, Ticket>)
        ensures
            final(self)@ == old(self)@.collect(ticket@),
            match r {
                Ok(result) => old(self)@.ready == Some((ticket@, result@)),
                Err(back) => !old(self)@.holds_for(ticket@) && back@ == ticket@,
            },
    {
        let mine = match &self.ready {
            Some((number, _)) => *number == ticket.number,
            None => false,
        };
        if !mine {
            return Err(ticket);
        }
        match self.ready.take() {
            Some((_, result)) => Ok(result),
            None => Err(ticket),
        }
    }
}

/// One call at the coordinator, by its arguments.
pub enum Operation {
    /// A client offers a request.
    Offer(RequestView),
    /// The engine asks for a request.
    Take,
    /// The engine answers the job of this number with this result.
    Answer(nat, ResultView),
    /// The client with the ticket of this number asks for its result.
    Collect(nat),
}

/// The coordinator together with a record of all that went through it.
pub struct Ledger {
    pub state: CoordinatorView,
    /// The requests that were admitted, by their numbers.
    pub offered: Map<nat, RequestView>,
    /// The requests that the engine was handed, by the numbers of its jobs.
    pub taken: Map<nat, RequestView>,
    /// The results that the engine gave, by the numbers of its jobs.
    pub answered: Map<nat, ResultView>,
    /// The results that clients were handed, by the numbers of their
    /// tickets.
    pub collected: Map<nat, ResultView>,
    /// How many requests were admitted.
    pub admissions: nat,
    /// How many times the engine was handed a request.
    pub invocations: nat,
    /// How many times a client was handed a result.
    pub deliveries: nat,
}

/// The ledger of a coordinator in which nothing has happened yet.
pub open spec fn blank_ledger() -> Ledger {
    Ledger {
        state: CoordinatorView::initial(),
        offered: Map::empty(),
        taken: Map::empty(),
        answered: Map::empty(),
        collected: Map::empty(),
        admissions: 0,
        invocations: 0,
        deliveries: 0,
    }
}

/// The ledger after one more call.
pub open spec fn record(ledger: Ledger, operation: Operation) -> Ledger {
    let state = ledger.state;
    match operation {
        Operation::Offer(request) => if state.admits() {
            Ledger {
                state: state.offer(request),
                offered: ledger.offered.insert(state.next_number, request),
                admissions: ledger.admissions + 1,
                ..ledger
            }
        } else {
            ledger
        },
        Operation::Take => match state.pending {
            Some((number, request)) => Ledger {
                state: state.take(),
                taken: ledger.taken.insert(number, request),
                invocations: ledger.invocations + 1,
                ..ledger
            },
            None => ledger,
        },
        Operation::Answer(number, result) => if state.accepts(number) {
            Ledger {
                state: state.answer(number, result),
                answered: ledger.answered.insert(number, result),
                ..ledger
            }
        } else {
            ledger
        },
        Operation::Collect(number) => match state.ready {
            Some((owner, result)) => if owner == number {
                Ledger {
                    state: state.collect(number),
                    collected: ledger.collected.insert(number, result),
                    deliveries: ledger.deliveries + 1,
                    ..ledger
                }
            } else {
                ledger
            },
            None => ledger,
        },
    }
}

/// The ledger after the calls `operations`, in their order, at a coordinator
/// in which nothing had happened.
pub open spec fn replay(operations: Seq<Operation>) -> Ledger
    decreases operations.len(),
{
    if operations.len() == 0 {
        blank_ledger()
    } else {
        record(replay(operations.drop_last()), operations.last())
    }
}

/// The number of transactions in flight: 1 while a request is pending or
/// being served or its result is waiting, else 0.
pub open spec fn in_flight(state: CoordinatorView) -> nat {
    if state.is_idle() {
        0
    } else {
        1
    }
}

/// What holds of every ledger: at most one transaction is in flight, it
/// carries the number that was given last, and the record agrees with it.
pub open spec fn consistent(ledger: Ledger) -> bool {
    let state = ledger.state;
    let last = state.next_number - 1;
    &&& state.pending is Some ==> state.serving is None && state.ready is None
    &&& state.serving is Some ==> state.ready is None
    &&& state.pending matches Some((number, request)) ==> number == last
        && ledger.offered[number] == request
    &&& state.serving matches Some(number) ==> number == last
    &&& state.ready matches Some((number, result)) ==> number == last && ledger.answered[number]
        == result
    &&& ledger.admissions == state.next_number
    &&& ledger.invocations == state.next_number - (if state.pending is Some {
        1nat
    } else {
        0nat
    })
    &&& ledger.deliveries + in_flight(state) == ledger.admissions
    &&& forall|n: nat| ledger.offered.dom().contains(n) <==> n < ledger.admissions
    &&& forall|n: nat| ledger.taken.dom().contains(n) <==> n < ledger.invocations
    &&& forall|n: nat| ledger.collected.dom().contains(n) <==> n < ledger.deliveries
    &&& forall|n: nat|
        ledger.answered.dom().contains(n) <==> n < ledger.invocations && state.serving != Some(n)
    &&& forall|n: nat| ledger.taken.dom().contains(n) ==> ledger.taken[n] == ledger.offered[n]
    &&& forall|n: nat|
        ledger.collected.dom().contains(n) ==> ledger.collected[n] == ledger.answered[n]
}

/// One more call keeps a consistent ledger consistent.
proof fn lemma_record_keeps_consistent(ledger: Ledger, operation: Operation)
    requires
        consistent(ledger),
    ensures
        consistent(record(ledger, operation)),
{
}

/// Whatever the clients and the engine call in whatever order, the ledger
/// stays consistent.
pub proof fn lemma_replay_consistent(operations: Seq<Operation>)
    ensures
        consistent(replay(operations)),
    decreases operations.len(),
{
    if operations.len() > 0 {
        lemma_replay_consistent(operations.drop_last());
        lemma_record_keeps_consistent(replay(operations.drop_last()), operations.last());
    }
}

/// Single flight: in every order of calls, at most one transaction is in
/// flight, so the engine is never handed a request before the result of the
/// one before has been collected.
pub proof fn lemma_single_flight(operations: Seq<Operation>)
    ensures
        ({
            let ledger = replay(operations);
            &&& ledger.invocations <= ledger.deliveries + 1
            &&& ledger.admissions <= ledger.deliveries + 1
            &&& ledger.state.pending is Some ==> ledger.state.serving is None
                && ledger.state.ready is None
            &&& ledger.state.serving is Some ==> ledger.state.ready is None
        }),
{
    lemma_replay_consistent(operations);
}

/// As many engine invocations as requests: in every order of calls, every
/// admitted request is handed to the engine once and its result to a client
/// once. While one request is in flight the engine may not have been handed
/// it yet; with nothing in flight the three counts are equal.
pub proof fn lemma_one_invocation_per_request(operations: Seq<Operation>)
    ensures
        ({
            let ledger = replay(operations);
            &&& ledger.deliveries <= ledger.invocations <= ledger.admissions
            &&& ledger.admissions <= ledger.deliveries + 1
            &&& ledger.state.is_idle() ==> ledger.invocations == ledger.admissions
                && ledger.deliveries == ledger.admissions
            &&& forall|n: nat| ledger.offered.dom().contains(n) <==> n < ledger.admissions
            &&& forall|n: nat| ledger.taken.dom().contains(n) <==> n < ledger.invocations
            &&& forall|n: nat| ledger.collected.dom().contains(n) <==> n < ledger.deliveries
        }),
{
    lemma_replay_consistent(operations);
}

/// No cross-delivery: in every order of calls, the engine is handed under a
/// number the request that was admitted under it, and a client is handed
/// for its ticket the result that the engine gave for the job of the same
/// number.
pub proof fn lemma_no_cross_delivery(operations: Seq<Operation>, number: nat)
    ensures
        ({
            let ledger = replay(operations);
            &&& ledger.taken.dom().contains(number) ==> ledger.offered.dom().contains(number)
                && ledger.taken[number] == ledger.offered[number]
            &&& ledger.collected.dom().contains(number) ==> ledger.answered.dom().contains(number)
                && ledger.taken.dom().contains(number) && ledger.collected[number]
                == ledger.answered[number]
        }),
{
    lemma_replay_consistent(operations);
}

} // verus!
