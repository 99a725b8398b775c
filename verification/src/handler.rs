//! The protocol of one connection, as a state machine.
//!
//! The machine makes the decisions; its driver does the outside work. The
//! driver starts with [`Handler::start`], performs the action it is given
//! (read a line, load a resource, write a response), and hands the outcome
//! back to [`Handler::step`] as an event, until it is given
//! [`Action::Respond`]: it writes that buffer and closes the connection.

use crate::parser::parse;
use crate::resource::{
    climbs,
    default_resource,
    fallback,
    fallback_resource,
    has_parent_segment,
    resolve,
    resource_for,
};
use crate::types::{ParseError, RequestView};
use crate::response::{
    bare_not_found_response,
    bare_not_found_text,
    error_response,
    error_text,
    file_response,
    found_status,
    found_status_line,
    not_found_status,
    with_body,
};
use crate::server::Server;
use vstd::prelude::*;

verus! {

/// Where a connection stands.
#[derive(Debug, Clone, PartialEq, Eq)]
pub enum Handler {
    /// Reading the request, line by line; `lines` holds what was read.
    ReadLine { lines: Vec<String> },
    /// Waiting for the requested resource; `status_line` is the status
    /// line of the response in case it exists.
    Load { status_line: String },
    /// Waiting for the not-found page.
    FallbackLoad,
    /// The response was handed out.
    Closed,
}

/// The outcome of the outside work that the last action asked for.
#[derive(Debug, Clone, PartialEq, Eq)]
pub enum Event {
    /// A line was read (without its line ending).
    Line(String),
    /// The stream ended.
    EndOfStream,
    /// Reading the stream failed.
    ReadFailed,
    /// The resource exists, with this content.
    Found(String),
    /// The resource does not exist.
    Missing,
}

/// The outside work that the machine asks for next.
#[derive(Debug, Clone, PartialEq, Eq)]
pub enum Action {
    /// Read the next line of the request.
    ReadLine,
    /// Load this resource.
    Load(String),
    /// Write this buffer to the connection and close it.
    Respond(String),
    /// Nothing: the connection was closed before.
    Nothing,
}

/// [`Handler`] over sequences of characters.
pub enum HandlerView {
    ReadLine { lines: Seq<Seq<char>> },
    Load { status_line: Seq<char> },
    FallbackLoad,
    Closed,
}

/// [`Event`] over sequences of characters.
pub enum EventView {
    Line(Seq<char>),
    EndOfStream,
    ReadFailed,
    Found(Seq<char>),
    Missing,
}

/// [`Action`] over sequences of characters.
pub enum ActionView {
    ReadLine,
    Load(Seq<char>),
    Respond(Seq<char>),
    Nothing,
}

/// The lines of a buffer, each as a sequence of characters.
pub open spec fn line_views(lines: Seq<String>) -> Seq<Seq<char>> {
    Seq::new(lines.len(), |i: int| lines[i]@)
}

impl View for Handler {
    type V = HandlerView;

    open spec fn view(&self) -> HandlerView {
        match self {
            Handler::ReadLine { lines } => HandlerView::ReadLine { lines: line_views(lines@) },
            Handler::Load { status_line } => HandlerView::Load { status_line: status_line@ },
            Handler::FallbackLoad => HandlerView::FallbackLoad,
            Handler::Closed => HandlerView::Closed,
        }
    }
}

impl View for Event {
    type V = EventView;

    open spec fn view(&self) -> EventView {
        match self {
            Event::Line(line) => EventView::Line(line@),
            Event::EndOfStream => EventView::EndOfStream,
            Event::ReadFailed => EventView::ReadFailed,
            Event::Found(content) => EventView::Found(content@),
            Event::Missing => EventView::Missing,
        }
    }
}

impl View for Action {
    type V = ActionView;

    open spec fn view(&self) -> ActionView {
        match self {
            Action::ReadLine => ActionView::ReadLine,
            Action::Load(resource) => ActionView::Load(resource@),
            Action::Respond(buffer) => ActionView::Respond(buffer@),
            Action::Nothing => ActionView::Nothing,
        }
    }
}

/// A connection at its start: nothing read yet, and a line to read.
pub open spec fn initial() -> (HandlerView, ActionView) {
    (HandlerView::ReadLine { lines: Seq::empty() }, ActionView::ReadLine)
}

/// The end of a connection with the response to an unusable request.
pub open spec fn refuse() -> (HandlerView, ActionView) {
    (HandlerView::Closed, ActionView::Respond(error_text()))
}

/// What follows the end of the request: its first line is parsed. A
/// request without lines, or with a first line that does not parse, is
/// refused. A path with a segment `..` is answered as a resource that does
/// not exist, without any attempt to load it. For any other path its
/// resource is loaded.
pub open spec fn dispatch(lines: Seq<Seq<char>>) -> (HandlerView, ActionView) {
    if lines.len() == 0 {
        refuse()
    } else {
        match parse(lines[0]) {
            Err(_) => refuse(),
            Ok(request) => if climbs(request.path) {
                (HandlerView::FallbackLoad, ActionView::Load(fallback_resource()))
            } else {
                (
                    HandlerView::Load { status_line: found_status(request.http_version) },
                    ActionView::Load(resource_for(request.path)),
                )
            },
        }
    }
}

/// The transition of the machine: the next state, and the action for the
/// driver.
///
/// An event that the state does not wait for ends the connection as an
/// unusable request does. Once closed, the machine stays closed and asks
/// for nothing.
pub open spec fn next(state: HandlerView, event: EventView) -> (HandlerView, ActionView) {
    match state {
        HandlerView::ReadLine { lines } => match event {
            EventView::Line(line) => if line.len() == 0 {
                dispatch(lines)
            } else {
                (HandlerView::ReadLine { lines: lines.push(line) }, ActionView::ReadLine)
            },
            EventView::EndOfStream => dispatch(lines),
            _ => refuse(),
        },
        HandlerView::Load { status_line } => match event {
            EventView::Found(content) => (
                HandlerView::Closed,
                ActionView::Respond(with_body(status_line, content)),
            ),
            EventView::Missing => (
                HandlerView::FallbackLoad,
                ActionView::Load(fallback_resource()),
            ),
            _ => refuse(),
        },
        HandlerView::FallbackLoad => match event {
            EventView::Found(content) => (
                HandlerView::Closed,
                ActionView::Respond(with_body(not_found_status(), content)),
            ),
            EventView::Missing => (
                HandlerView::Closed,
                ActionView::Respond(bare_not_found_text()),
            ),
            _ => refuse(),
        },
        HandlerView::Closed => (HandlerView::Closed, ActionView::Nothing),
    }
}

/// Ends the connection with the response to an unusable request.
fn refused() -> (r: (Handler, Action))
    ensures
        (r.0@, r.1@) == refuse(),
{
    (Handler::Closed, Action::Respond(error_response()))
}

/// Parses the first line that was read and decides what to load.
fn dispatched(lines: Vec<String>) -> (r: (Handler, Action))
    ensures
        (r.0@, r.1@) == dispatch(line_views(lines@)),
{
    if lines.len() == 0 {
        return refused();
    }
    match Server::parse_status_line(&lines[0]) {
        Err(_) => refused(),
        Ok(request) => {
            if has_parent_segment(request.path.as_str()) {
                (Handler::FallbackLoad, Action::Load(fallback()))
            } else {
                (
                    Handler::Load { status_line: found_status_line(request.http_version.as_str()) },
                    Action::Load(resolve(request.path.as_str())),
                )
            }
        },
    }
}

impl Handler {
    /// A connection at its start.
    pub fn start() -> (r: (Handler, Action))
        ensures
            (r.0@, r.1@) == initial(),
    {
        let lines: Vec<String> = Vec::new();
        assert(line_views(lines@) =~= Seq::<Seq<char>>::empty());
        (Handler::ReadLine { lines }, Action::ReadLine)
    }

    /// Takes the outcome of the last action and decides what comes next.
    pub fn step(self, event: Event) -> (r: (Handler, Action))
        ensures
            (r.0@, r.1@) == next(self@, event@),
    {
        match self {
            Handler::ReadLine { lines } => match event {
                Event::Line(line) => {
                    if line.as_str().is_empty() {
                        dispatched(lines)
                    } else {
                        let ghost before = lines@;
                        let mut lines = lines;
                        lines.push(line);
                        assert(line_views(lines@) =~= line_views(before).push(line@));
                        (Handler::ReadLine { lines }, Action::ReadLine)
                    }
                },
                Event::EndOfStream => dispatched(lines),
                _ => refused(),
            },
            Handler::Load { status_line } => match event {
                Event::Found(content) => (
                    Handler::Closed,
                    Action::Respond(file_response(status_line.as_str(), content.as_str())),
                ),
                Event::Missing => (Handler::FallbackLoad, Action::Load(fallback())),
                _ => refused(),
            },
            Handler::FallbackLoad => match event {
                Event::Found(content) => {
                    proof {
                        reveal_strlit("HTTP/1.1 404 NOT FOUND");
                    }
                    (
                        Handler::Closed,
                        Action::Respond(file_response("HTTP/1.1 404 NOT FOUND", content.as_str())),
                    )
                },
                Event::Missing => (Handler::Closed, Action::Respond(bare_not_found_response())),
                _ => refused(),
            },
            Handler::Closed => (Handler::Closed, Action::Nothing),
        }
    }

    /// Whether the response was handed out.
    pub fn is_closed(&self) -> (r: bool)
        ensures
            r == (self@ is Closed),
    {
        match self {
            Handler::Closed => true,
            _ => false,
        }
    }
}

/// The state that a connection reaches from `state` by `events`, and the
/// actions that it asks for on the way, one for each event.
pub open spec fn run(state: HandlerView, events: Seq<EventView>) -> (HandlerView, Seq<ActionView>)
    decreases events.len(),
{
    if events.len() == 0 {
        (state, Seq::empty())
    } else {
        let (before, actions) = run(state, events.drop_last());
        let (after, action) = next(before, events.last());
        (after, actions.push(action))
    }
}

/// How many of `actions` hand out a response.
pub open spec fn responses(actions: Seq<ActionView>) -> nat
    decreases actions.len(),
{
    if actions.len() == 0 {
        0
    } else {
        responses(actions.drop_last()) + if actions.last() is Respond {
            1nat
        } else {
            0nat
        }
    }
}

/// How many of `actions` load a resource.
pub open spec fn loads(actions: Seq<ActionView>) -> nat
    decreases actions.len(),
{
    if actions.len() == 0 {
        0
    } else {
        loads(actions.drop_last()) + if actions.last() is Load {
            1nat
        } else {
            0nat
        }
    }
}

/// The loads that a connection in `state` may still ask for.
pub open spec fn loads_left(state: HandlerView) -> nat {
    match state {
        HandlerView::ReadLine { .. } => 2,
        HandlerView::Load { .. } => 1,
        _ => 0,
    }
}

/// Whatever the events are, a connection hands out at most one response:
/// exactly one once it is closed, none before. Every action after the
/// response is `Nothing`.
pub proof fn law_one_response(events: Seq<EventView>)
    ensures
        responses(run(initial().0, events).1) == if run(initial().0, events).0 is Closed {
            1nat
        } else {
            0nat
        },
        forall|i: int, j: int|
            0 <= i < j < events.len() && run(initial().0, events).1[i] is Respond ==> run(
                initial().0,
                events,
            ).1[j] is Nothing,
        run(initial().0, events).1.len() == events.len(),
    decreases events.len(),
{
    if events.len() > 0 {
        let earlier = events.drop_last();
        law_one_response(earlier);
        let (before, actions) = run(initial().0, earlier);
        let (after, action) = next(before, events.last());
        let all = run(initial().0, events).1;
        assert(all == actions.push(action));
        assert(all.drop_last() =~= actions);
        lemma_responded_is_closed(earlier);
        assert forall|i: int, j: int|
            0 <= i < j < events.len() && all[i] is Respond implies all[j] is Nothing by {
            assert(all[i] == actions[i]);
            if j < events.len() - 1 {
                assert(all[j] == actions[j]);
            }
        }
    }
}

/// Once a response was handed out, the connection is closed.
proof fn lemma_responded_is_closed(events: Seq<EventView>)
    ensures
        run(initial().0, events).1.len() == events.len(),
        forall|i: int|
            0 <= i < events.len() && run(initial().0, events).1[i] is Respond ==> run(
                initial().0,
                events,
            ).0 is Closed,
    decreases events.len(),
{
    if events.len() > 0 {
        let earlier = events.drop_last();
        lemma_responded_is_closed(earlier);
        let (before, actions) = run(initial().0, earlier);
        let all = run(initial().0, events).1;
        assert forall|i: int| 0 <= i < events.len() && all[i] is Respond implies run(
            initial().0,
            events,
        ).0 is Closed by {
            if i < events.len() - 1 {
                assert(all[i] == actions[i]);
            }
        }
    }
}

/// Whatever the events are, a connection loads at most two resources: the
/// one requested and, where that is missing, the not-found page. Nothing
/// is loaded after the not-found page.
pub proof fn law_bounded_fallback(events: Seq<EventView>)
    ensures
        loads(run(initial().0, events).1) + loads_left(run(initial().0, events).0) <= 2,
        forall|i: int, j: int|
            0 <= i < j < events.len() && run(initial().0, events).1[i] is Load && run(
                initial().0,
                events,
            ).1[j] is Load ==> run(initial().0, events).1[j] == ActionView::Load(
                fallback_resource(),
            ),
        run(initial().0, events).1.len() == events.len(),
    decreases events.len(),
{
    if events.len() > 0 {
        let earlier = events.drop_last();
        law_bounded_fallback(earlier);
        lemma_loaded_is_past_reading(earlier);
        let (before, actions) = run(initial().0, earlier);
        let (after, action) = next(before, events.last());
        let all = run(initial().0, events).1;
        assert(all == actions.push(action));
        assert(all.drop_last() =~= actions);
        assert forall|i: int, j: int|
            0 <= i < j < events.len() && all[i] is Load && all[j] is Load implies all[j]
            == ActionView::Load(fallback_resource()) by {
            assert(all[i] == actions[i]);
            if j < events.len() - 1 {
                assert(all[j] == actions[j]);
            }
        }
    }
}

/// Once a resource was loaded, the connection is past reading the
/// request.
proof fn lemma_loaded_is_past_reading(events: Seq<EventView>)
    ensures
        run(initial().0, events).1.len() == events.len(),
        forall|i: int|
            0 <= i < events.len() && run(initial().0, events).1[i] is Load ==> !(run(
                initial().0,
                events,
            ).0 is ReadLine),
    decreases events.len(),
{
    if events.len() > 0 {
        let earlier = events.drop_last();
        lemma_loaded_is_past_reading(earlier);
        let (before, actions) = run(initial().0, earlier);
        let all = run(initial().0, events).1;
        assert forall|i: int| 0 <= i < events.len() && all[i] is Load implies !(run(
            initial().0,
            events,
        ).0 is ReadLine) by {
            if i < events.len() - 1 {
                assert(all[i] == actions[i]);
            }
        }
    }
}

/// Whatever the events are, a connection never loads a resource that a
/// path with a segment `..` names: what it loads is the not-found page or
/// the resource of a path without such a segment.
pub proof fn law_confined_loads(events: Seq<EventView>, i: int)
    requires
        0 <= i < events.len(),
        run(initial().0, events).1[i] is Load,
    ensures
        run(initial().0, events).1[i] == ActionView::Load(fallback_resource()) || exists|
            path: Seq<char>,
        |
            !climbs(path) && run(initial().0, events).1[i] == ActionView::Load(
                #[trigger] resource_for(path),
            ),
    decreases events.len(),
{
    let earlier = events.drop_last();
    let (before, actions) = run(initial().0, earlier);
    let all = run(initial().0, events).1;
    law_one_response(earlier);
    if i < events.len() - 1 {
        law_confined_loads(earlier, i);
        assert(all[i] == actions[i]);
    } else {
        let (after, action) = next(before, events.last());
        assert(all[i] == action);
        if action != ActionView::Load(fallback_resource()) {
            let lines = before->ReadLine_lines;
            let request = parse(lines[0])->Ok_0;
            assert(action == ActionView::Load(resource_for(request.path)));
        }
    }
}

/// Once the request is read, the connection is closed after two more
/// events at the latest, whatever they are: the fallback is one level deep.
pub proof fn law_closed_after_two_loads(state: HandlerView, first: EventView, second: EventView)
    requires
        !(state is ReadLine),
    ensures
        run(state, seq![first, second]).0 is Closed,
{
    let e2 = seq![first, second];
    let e1 = seq![first];
    assert(e2.drop_last() =~= e1);
    assert(e1.drop_last() =~= Seq::<EventView>::empty());
    assert(run(state, Seq::<EventView>::empty()) == (state, Seq::<ActionView>::empty()));
    assert(run(state, e1).0 == next(state, first).0);
}

/// Every request for `/` asks for the default resource.
pub proof fn law_root_is_default(lines: Seq<Seq<char>>, request: RequestView)
    requires
        lines.len() > 0,
        parse(lines[0]) == Ok::<RequestView, ParseError>(request),
        request.path == seq!['/'],
    ensures
        dispatch(lines).1 == ActionView::Load(default_resource()),
{
    assert(!climbs(request.path));
}

/// Where neither the requested resource nor the not-found page exists, the
/// response is the bare 404 status line; the connection is then closed and
/// loads nothing more, whatever event follows.
pub proof fn law_missing_twice(state: HandlerView, event: EventView)
    requires
        state is Load,
    ensures
        run(state, seq![EventView::Missing, EventView::Missing, event]) == (
            HandlerView::Closed,
            seq![
                ActionView::Load(fallback_resource()),
                ActionView::Respond(bare_not_found_text()),
                ActionView::Nothing,
            ],
        ),
{
    let e3 = seq![EventView::Missing, EventView::Missing, event];
    let e2 = seq![EventView::Missing, EventView::Missing];
    let e1 = seq![EventView::Missing];
    assert(e3.drop_last() =~= e2);
    assert(e2.drop_last() =~= e1);
    assert(e1.drop_last() =~= Seq::<EventView>::empty());
    assert(run(state, Seq::<EventView>::empty()) == (state, Seq::<ActionView>::empty()));
    assert(run(state, e1).0 == HandlerView::FallbackLoad);
    assert(run(state, e1).1 =~= seq![ActionView::Load(fallback_resource())]);
    assert(run(state, e2).0 == HandlerView::Closed);
    assert(run(state, e2).1 =~= seq![
        ActionView::Load(fallback_resource()),
        ActionView::Respond(bare_not_found_text()),
    ]);
    assert(run(state, e3).1 =~= seq![
        ActionView::Load(fallback_resource()),
        ActionView::Respond(bare_not_found_text()),
        ActionView::Nothing,
    ]);
}

/// A request whose line parses and whose path has no segment `..` asks for
/// the resource of its path. Where that resource and the not-found page
/// are both missing, the connection ends with the bare 404 status line
/// after exactly two loads.
pub proof fn law_unserved_request(line: Seq<char>, request: RequestView)
    requires
        line.len() > 0,
        parse(line) == Ok::<RequestView, ParseError>(request),
        !climbs(request.path),
    ensures
        run(
            initial().0,
            seq![
                EventView::Line(line),
                EventView::EndOfStream,
                EventView::Missing,
                EventView::Missing,
            ],
        ) == (
            HandlerView::Closed,
            seq![
                ActionView::ReadLine,
                ActionView::Load(resource_for(request.path)),
                ActionView::Load(fallback_resource()),
                ActionView::Respond(bare_not_found_text()),
            ],
        ),
{
    let start = initial().0;
    let e4 = seq![
        EventView::Line(line),
        EventView::EndOfStream,
        EventView::Missing,
        EventView::Missing,
    ];
    let e3 = seq![EventView::Line(line), EventView::EndOfStream, EventView::Missing];
    let e2 = seq![EventView::Line(line), EventView::EndOfStream];
    let e1 = seq![EventView::Line(line)];
    assert(e4.drop_last() =~= e3);
    assert(e3.drop_last() =~= e2);
    assert(e2.drop_last() =~= e1);
    assert(e1.drop_last() =~= Seq::<EventView>::empty());
    assert(run(start, Seq::<EventView>::empty()) == (start, Seq::<ActionView>::empty()));
    let lines = Seq::<Seq<char>>::empty().push(line);
    assert(lines[0] == line);
    assert(run(start, e1).0 == (HandlerView::ReadLine { lines }));
    assert(run(start, e1).1 =~= seq![ActionView::ReadLine]);
    assert(run(start, e2).0 == (HandlerView::Load {
        status_line: found_status(request.http_version),
    }));
    assert(run(start, e2).1 =~= seq![
        ActionView::ReadLine,
        ActionView::Load(resource_for(request.path)),
    ]);
    assert(run(start, e3).0 == HandlerView::FallbackLoad);
    assert(run(start, e3).1 =~= seq![
        ActionView::ReadLine,
        ActionView::Load(resource_for(request.path)),
        ActionView::Load(fallback_resource()),
    ]);
    assert(run(start, e4).1 =~= seq![
        ActionView::ReadLine,
        ActionView::Load(resource_for(request.path)),
        ActionView::Load(fallback_resource()),
        ActionView::Respond(bare_not_found_text()),
    ]);
}

} // verus!
