//! The protocol of the listener, as a state machine: bind, announce the
//! address, start the pool, then accept connections for good.
//!
//! As with a connection, the machine decides and its driver does the
//! outside work: it performs each action and hands the outcome back as an
//! event.

use crate::server::Server;
use crate::thread_pool::{checked_pool_size, PoolError};
use vstd::prelude::*;
use vstd::string::StringExecFns;

verus! {

/// Why the server could not start.
#[derive(Debug, Clone, Copy, PartialEq, Eq, Structural)]
pub enum ListenError {
    /// The address could not be bound.
    AddressInUse,
    /// The worker pool could not be created.
    Pool(PoolError),
}

impl ListenError {
    /// The text of the diagnostic for each failure.
    pub open spec fn text(self) -> Seq<char> {
        match self {
            ListenError::AddressInUse => "Address already in used."@,
            ListenError::Pool(e) => "An error has occurred. The ThreadPool could not load: "@
                + e.text(),
        }
    }

    /// A diagnostic for the caller.
    pub fn message(&self) -> (m: String)
        ensures
            m@ == self.text(),
    {
        match self {
            ListenError::AddressInUse => String::from_str("Address already in used."),
            ListenError::Pool(e) => {
                let mut m = String::from_str(
                    "An error has occurred. The ThreadPool could not load: ",
                );
                m.append(e.message());
                m
            },
        }
    }
}

/// Where the listener stands.
#[derive(Debug, Clone, PartialEq, Eq)]
pub enum Listener {
    /// Waiting for the outcome of the bind on `address`.
    Binding { address: String, workers: usize },
    /// Waiting for the caller to have been told the address.
    Announcing { workers: usize },
    /// Waiting for the pool to have started.
    StartingPool,
    /// Waiting for the next connection.
    Accepting,
    /// The listener has ended.
    Stopped,
}

/// The outcome of the outside work that the last action asked for.
#[derive(Debug, Clone, Copy, PartialEq, Eq, Structural)]
pub enum ListenEvent {
    /// The address is bound.
    Bound,
    /// The address could not be bound.
    BindFailed,
    /// The caller was told the address.
    Announced,
    /// The pool runs.
    PoolStarted,
    /// A connection was accepted.
    Accepted,
    /// Accepting a connection failed.
    AcceptFailed,
}

/// The outside work that the machine asks for next.
#[derive(Debug, Clone, PartialEq, Eq)]
pub enum ListenAction {
    /// Bind this address.
    Bind(String),
    /// Tell the caller that the server is ready on this address.
    Announce(String),
    /// Start a pool of this many workers.
    StartPool(usize),
    /// Wait for the next connection.
    Accept,
    /// Submit the connection that was accepted to the pool as one job,
    /// then wait for the next connection.
    Serve,
    /// Return this error to the caller.
    Fail(ListenError),
    /// Nothing: the listener has ended.
    Nothing,
}

/// [`Listener`] over sequences of characters.
pub enum ListenerView {
    Binding { address: Seq<char>, workers: nat },
    Announcing { workers: nat },
    StartingPool,
    Accepting,
    Stopped,
}

/// [`ListenAction`] over sequences of characters.
pub enum ListenActionView {
    Bind(Seq<char>),
    Announce(Seq<char>),
    StartPool(nat),
    Accept,
    Serve,
    Fail(ListenError),
    Nothing,
}

impl View for Listener {
    type V = ListenerView;

    open spec fn view(&self) -> ListenerView {
        match self {
            Listener::Binding { address, workers } => ListenerView::Binding {
                address: address@,
                workers: *workers as nat,
            },
            Listener::Announcing { workers } => ListenerView::Announcing {
                workers: *workers as nat,
            },
            Listener::StartingPool => ListenerView::StartingPool,
            Listener::Accepting => ListenerView::Accepting,
            Listener::Stopped => ListenerView::Stopped,
        }
    }
}

impl View for ListenAction {
    type V = ListenActionView;

    open spec fn view(&self) -> ListenActionView {
        match self {
            ListenAction::Bind(address) => ListenActionView::Bind(address@),
            ListenAction::Announce(address) => ListenActionView::Announce(address@),
            ListenAction::StartPool(workers) => ListenActionView::StartPool(*workers as nat),
            ListenAction::Accept => ListenActionView::Accept,
            ListenAction::Serve => ListenActionView::Serve,
            ListenAction::Fail(e) => ListenActionView::Fail(*e),
            ListenAction::Nothing => ListenActionView::Nothing,
        }
    }
}

/// The address to bind: host, a colon, port; the loopback address and
/// port 8000 where none is given.
pub open spec fn bind_address(address: Option<Seq<char>>, port: Option<Seq<char>>) -> Seq<char> {
    (match address {
        Some(a) => a,
        None => "127.0.0.1"@,
    }) + ":"@ + (match port {
        Some(p) => p,
        None => "8000"@,
    })
}

/// A listener at its start: the address is to be bound.
pub open spec fn listening(
    workers: nat,
    address: Option<Seq<char>>,
    port: Option<Seq<char>>,
) -> (ListenerView, ListenActionView) {
    (
        ListenerView::Binding { address: bind_address(address, port), workers },
        ListenActionView::Bind(bind_address(address, port)),
    )
}

/// The transition of the machine: the next state, and the action for the
/// driver.
///
/// A bound address is announced, then the pool is started, unless its size
/// is zero. A failed bind ends the listener with an error and without an
/// announcement. A failed accept is skipped. An event that the state does
/// not wait for ends the listener.
pub open spec fn listen_next(state: ListenerView, event: ListenEvent) -> (
    ListenerView,
    ListenActionView,
) {
    match (state, event) {
        (ListenerView::Binding { address, workers }, ListenEvent::Bound) => (
            ListenerView::Announcing { workers },
            ListenActionView::Announce(address),
        ),
        (ListenerView::Binding { .. }, ListenEvent::BindFailed) => (
            ListenerView::Stopped,
            ListenActionView::Fail(ListenError::AddressInUse),
        ),
        (ListenerView::Announcing { workers }, ListenEvent::Announced) => if workers >= 1 {
            (ListenerView::StartingPool, ListenActionView::StartPool(workers))
        } else {
            (
                ListenerView::Stopped,
                ListenActionView::Fail(ListenError::Pool(PoolError::InvalidPoolSize)),
            )
        },
        (ListenerView::StartingPool, ListenEvent::PoolStarted) => (
            ListenerView::Accepting,
            ListenActionView::Accept,
        ),
        (ListenerView::Accepting, ListenEvent::Accepted) => (
            ListenerView::Accepting,
            ListenActionView::Serve,
        ),
        (ListenerView::Accepting, ListenEvent::AcceptFailed) => (
            ListenerView::Accepting,
            ListenActionView::Accept,
        ),
        _ => (ListenerView::Stopped, ListenActionView::Nothing),
    }
}

impl Server {
    /// Starts the listener protocol for this server on `address` and
    /// `port`, or on the loopback address and port 8000.
    pub fn start_listening(&self, address: Option<&str>, port: Option<&str>) -> (r: (
        Listener,
        ListenAction,
    ))
        ensures
            (r.0@, r.1@) == listening(
                self.workers(),
                match address {
                    Some(a) => Some(a@),
                    None => None,
                },
                match port {
                    Some(p) => Some(p@),
                    None => None,
                },
            ),
    {
        let host = match address {
            Some(a) => a,
            None => "127.0.0.1",
        };
        let port = match port {
            Some(p) => p,
            None => "8000",
        };
        let mut bound = String::from_str(host);
        bound.append(":");
        bound.append(port);
        let copy = bound.clone();
        (Listener::Binding { address: bound, workers: self.threads_size() }, ListenAction::Bind(copy))
    }
}

impl Listener {
    /// Takes the outcome of the last action and decides what comes next.
    pub fn step(self, event: ListenEvent) -> (r: (Listener, ListenAction))
        ensures
            (r.0@, r.1@) == listen_next(self@, event),
    {
        match self {
            Listener::Binding { address, workers } => match event {
                ListenEvent::Bound => (
                    Listener::Announcing { workers },
                    ListenAction::Announce(address),
                ),
                ListenEvent::BindFailed => (
                    Listener::Stopped,
                    ListenAction::Fail(ListenError::AddressInUse),
                ),
                _ => (Listener::Stopped, ListenAction::Nothing),
            },
            Listener::Announcing { workers } => match event {
                ListenEvent::Announced => match checked_pool_size(workers) {
                    Ok(size) => (Listener::StartingPool, ListenAction::StartPool(size)),
                    Err(e) => (Listener::Stopped, ListenAction::Fail(ListenError::Pool(e))),
                },
                _ => (Listener::Stopped, ListenAction::Nothing),
            },
            Listener::StartingPool => match event {
                ListenEvent::PoolStarted => (Listener::Accepting, ListenAction::Accept),
                _ => (Listener::Stopped, ListenAction::Nothing),
            },
            Listener::Accepting => match event {
                ListenEvent::Accepted => (Listener::Accepting, ListenAction::Serve),
                ListenEvent::AcceptFailed => (Listener::Accepting, ListenAction::Accept),
                _ => (Listener::Stopped, ListenAction::Nothing),
            },
            Listener::Stopped => (Listener::Stopped, ListenAction::Nothing),
        }
    }
}

/// The state that a listener reaches from `state` by `events`, and the
/// actions that it asks for on the way, one for each event.
pub open spec fn listen_run(state: ListenerView, events: Seq<ListenEvent>) -> (
    ListenerView,
    Seq<ListenActionView>,
)
    decreases events.len(),
{
    if events.len() == 0 {
        (state, Seq::empty())
    } else {
        let (before, actions) = listen_run(state, events.drop_last());
        let (after, action) = listen_next(before, events.last());
        (after, actions.push(action))
    }
}

/// How many of `events` are accepted connections.
pub open spec fn accepted_count(events: Seq<ListenEvent>) -> nat
    decreases events.len(),
{
    if events.len() == 0 {
        0
    } else {
        accepted_count(events.drop_last()) + if events.last() == ListenEvent::Accepted {
            1nat
        } else {
            0nat
        }
    }
}

/// How many of `actions` submit a connection to the pool.
pub open spec fn served_count(actions: Seq<ListenActionView>) -> nat
    decreases actions.len(),
{
    if actions.len() == 0 {
        0
    } else {
        served_count(actions.drop_last()) + if actions.last() is Serve {
            1nat
        } else {
            0nat
        }
    }
}

/// The listener answers each event with one action, and leaves the state
/// of binding with the first event.
proof fn lemma_past_binding(state: ListenerView, events: Seq<ListenEvent>)
    requires
        state is Binding,
    ensures
        listen_run(state, events).1.len() == events.len(),
        events.len() > 0 ==> !(listen_run(state, events).0 is Binding),
    decreases events.len(),
{
    if events.len() > 0 {
        lemma_past_binding(state, events.drop_last());
    }
}

/// Whatever the events are, the address is announced at most once: in
/// answer to a first event that says the address is bound, with the
/// address that was to be bound, and never otherwise.
pub proof fn law_announced_once(
    workers: nat,
    address: Option<Seq<char>>,
    port: Option<Seq<char>>,
    events: Seq<ListenEvent>,
    i: int,
)
    requires
        0 <= i < events.len(),
    ensures
        listen_run(listening(workers, address, port).0, events).1.len() == events.len(),
        listen_run(listening(workers, address, port).0, events).1[i] is Announce <==> i == 0
            && events[0] == ListenEvent::Bound,
        listen_run(listening(workers, address, port).0, events).1[i] is Announce ==> listen_run(
            listening(workers, address, port).0,
            events,
        ).1[i] == ListenActionView::Announce(bind_address(address, port)),
    decreases events.len(),
{
    let start = listening(workers, address, port).0;
    let earlier = events.drop_last();
    lemma_past_binding(start, earlier);
    lemma_past_binding(start, events);
    if i < events.len() - 1 {
        law_announced_once(workers, address, port, earlier, i);
        assert(events[0] == earlier[0]);
    } else if i == 0 {
        assert(earlier =~= Seq::<ListenEvent>::empty());
    }
}

/// A failed bind ends the listener: its answer is the error for the
/// caller, and every action after it is `Nothing`.
pub proof fn law_bind_failure_ends(
    workers: nat,
    address: Option<Seq<char>>,
    port: Option<Seq<char>>,
    events: Seq<ListenEvent>,
)
    requires
        events.len() > 0,
        events[0] == ListenEvent::BindFailed,
    ensures
        listen_run(listening(workers, address, port).0, events).0 is Stopped,
        listen_run(listening(workers, address, port).0, events).1.len() == events.len(),
        listen_run(listening(workers, address, port).0, events).1[0] == ListenActionView::Fail(
            ListenError::AddressInUse,
        ),
        forall|i: int|
            0 < i < events.len() ==> listen_run(
                listening(workers, address, port).0,
                events,
            ).1[i] is Nothing,
    decreases events.len(),
{
    let start = listening(workers, address, port).0;
    let earlier = events.drop_last();
    if events.len() == 1 {
        assert(earlier =~= Seq::<ListenEvent>::empty());
    } else {
        assert(earlier[0] == events[0]);
        law_bind_failure_ends(workers, address, port, earlier);
        let all = listen_run(start, events).1;
        let part = listen_run(start, earlier).1;
        assert forall|i: int| 0 < i < events.len() implies all[i] is Nothing by {
            if i < events.len() - 1 {
                assert(all[i] == part[i]);
            }
        }
        assert(all[0] == part[0]);
    }
}

/// While connections come in, the listener goes on accepting: a failed
/// accept is skipped, and each accepted connection is submitted to the pool
/// exactly once.
pub proof fn law_accept_loop(events: Seq<ListenEvent>)
    requires
        forall|i: int|
            0 <= i < events.len() ==> events[i] == ListenEvent::Accepted || events[i]
                == ListenEvent::AcceptFailed,
    ensures
        listen_run(ListenerView::Accepting, events).0 is Accepting,
        listen_run(ListenerView::Accepting, events).1.len() == events.len(),
        served_count(listen_run(ListenerView::Accepting, events).1) == accepted_count(events),
        forall|i: int|
            0 <= i < events.len() ==> listen_run(ListenerView::Accepting, events).1[i] == if events[i]
                == ListenEvent::Accepted {
                ListenActionView::Serve
            } else {
                ListenActionView::Accept
            },
    decreases events.len(),
{
    if events.len() > 0 {
        let earlier = events.drop_last();
        law_accept_loop(earlier);
        let all = listen_run(ListenerView::Accepting, events).1;
        let part = listen_run(ListenerView::Accepting, earlier).1;
        assert(all.drop_last() =~= part);
        assert forall|i: int| 0 <= i < events.len() implies all[i] == if events[i]
            == ListenEvent::Accepted {
            ListenActionView::Serve
        } else {
            ListenActionView::Accept
        } by {
            if i < events.len() - 1 {
                assert(all[i] == part[i]);
                assert(events[i] == earlier[i]);
            }
        }
    }
}

} // verus!
