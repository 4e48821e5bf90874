//! The per-request dispatch pipeline as a state machine.
//!
//! The pipeline itself performs no I/O and runs no user code. The caller
//! feeds it the outcome of each piece of outside work as an [`Event`]; the
//! pipeline answers with the next [`State`] and the [`Action`] to perform.
//! The order is fixed: context extraction, body read, body decode, handler,
//! response. Every failure is turned into a response at the stage where it
//! occurs.

use crate::error::Error;
use crate::error::ErrorView;
use crate::response::decode_failure_response;
use crate::response::error_response;
use crate::response::not_found;
use crate::response::not_found_response;
use crate::response::outcome_response;
use crate::response::Response;
use crate::response::ResponseView;
use crate::util::body_expected;
use crate::util::has_body;
use vstd::prelude::*;

verus! {

/// Where a request stands in the pipeline.
#[derive(Clone, Copy, Debug, PartialEq, Eq, Structural)]
pub enum State {
    /// Nothing is known yet about which route answers the request.
    Unmatched,
    /// Context value number `next` of `total` is being extracted.
    ContextPending { next: usize, total: usize, body_expected: bool },
    /// The body is being read.
    BodyPending,
    /// The body is being decoded.
    Decoding,
    /// The handler is running.
    HandlerRunning,
    /// The handler's result was encoded; its response is being sent.
    Success,
    /// Some stage failed; the failure's response is being sent.
    Failure,
    /// The response is out. Nothing more happens.
    Responded,
}

/// The outcome of a piece of outside work.
#[derive(Debug)]
pub enum Event {
    /// Lookup found a route whose handler takes `contexts` context values;
    /// `length_indicator` is the request's length indicator, if it has one.
    Matched { contexts: usize, length_indicator: Option<String> },
    /// Lookup found no route.
    Unrouted,
    /// The context value asked for was extracted.
    ContextReady,
    /// Extracting the context value asked for failed.
    ContextFailed(Error),
    /// The whole body is in the buffer.
    BodyRead,
    /// The body was decoded.
    Decoded,
    /// The body could not be decoded; the text is the decoder's diagnostic.
    DecodeFailed(String),
    /// The handler returned a value: its encoding, or the encoder's
    /// diagnostic where the value could not be encoded.
    Returned(Result<Vec<u8>, String>),
    /// The handler returned an error.
    Failed(Error),
    /// The response was written out.
    Sent,
}

/// What the caller is to do next.
#[derive(Debug)]
pub enum Action {
    /// Extract context value number `index`, in the order in which the
    /// handler declares them.
    ExtractContext { index: usize },
    /// Read the whole body.
    ReadBody,
    /// Decode the body that was read.
    DecodeBody,
    /// Run the handler: with the decoded body, or with the body type's
    /// default value where `default_body` is set.
    InvokeHandler { default_body: bool },
    /// Write this response out.
    Send(Response),
    /// Nothing; the request is done.
    Finish,
}

/// An event as plain values.
pub enum EventView {
    Matched { contexts: usize, length_indicator: Option<Seq<char>> },
    Unrouted,
    ContextReady,
    ContextFailed(ErrorView),
    BodyRead,
    Decoded,
    DecodeFailed(Seq<char>),
    Returned(Result<Seq<u8>, Seq<char>>),
    Failed(ErrorView),
    Sent,
}

/// An action as plain values.
pub enum ActionView {
    ExtractContext { index: usize },
    ReadBody,
    DecodeBody,
    InvokeHandler { default_body: bool },
    Send(ResponseView),
    Finish,
}

impl View for Event {
    type V = EventView;

    open spec fn view(&self) -> EventView {
        match self {
            Event::Matched { contexts, length_indicator } => EventView::Matched {
                contexts: *contexts,
                length_indicator: match length_indicator {
                    Some(value) => Some(value@),
                    None => None,
                },
            },
            Event::Unrouted => EventView::Unrouted,
            Event::ContextReady => EventView::ContextReady,
            Event::ContextFailed(error) => EventView::ContextFailed(error@),
            Event::BodyRead => EventView::BodyRead,
            Event::Decoded => EventView::Decoded,
            Event::DecodeFailed(diagnostic) => EventView::DecodeFailed(diagnostic@),
            Event::Returned(encoded) => EventView::Returned(
                match encoded {
                    Ok(body) => Ok(body@),
                    Err(diagnostic) => Err(diagnostic@),
                },
            ),
            Event::Failed(error) => EventView::Failed(error@),
            Event::Sent => EventView::Sent,
        }
    }
}

impl View for Action {
    type V = ActionView;

    open spec fn view(&self) -> ActionView {
        match self {
            Action::ExtractContext { index } => ActionView::ExtractContext { index: *index },
            Action::ReadBody => ActionView::ReadBody,
            Action::DecodeBody => ActionView::DecodeBody,
            Action::InvokeHandler { default_body } => ActionView::InvokeHandler {
                default_body: *default_body,
            },
            Action::Send(response) => ActionView::Send(response@),
            Action::Finish => ActionView::Finish,
        }
    }
}

/// What follows context extraction: the body read where a body is expected,
/// else the handler with the default body. The decode step is skipped with
/// the read.
pub open spec fn after_context(body_expected: bool) -> (State, ActionView) {
    if body_expected {
        (State::BodyPending, ActionView::ReadBody)
    } else {
        (State::HandlerRunning, ActionView::InvokeHandler { default_body: true })
    }
}

/// The transition relation: the state and action that follow `event` in
/// `state`, or `None` where the event is not one the state waits for.
pub open spec fn next(state: State, event: EventView) -> Option<(State, ActionView)> {
    match (state, event) {
        (State::Unmatched, EventView::Unrouted) => Some(
            (State::Failure, ActionView::Send(not_found_response())),
        ),
        (State::Unmatched, EventView::Matched { contexts, length_indicator }) => if contexts > 0 {
            Some(
                (
                    State::ContextPending {
                        next: 0,
                        total: contexts,
                        body_expected: body_expected(length_indicator),
                    },
                    ActionView::ExtractContext { index: 0 },
                ),
            )
        } else {
            Some(after_context(body_expected(length_indicator)))
        },
        (State::ContextPending { next, total, body_expected }, EventView::ContextReady) => if next
            + 1 < total {
            Some(
                (
                    State::ContextPending { next: (next + 1) as usize, total, body_expected },
                    ActionView::ExtractContext { index: (next + 1) as usize },
                ),
            )
        } else {
            Some(after_context(body_expected))
        },
        (State::ContextPending { .. }, EventView::ContextFailed(error)) => Some(
            (State::Failure, ActionView::Send(error_response(error))),
        ),
        (State::BodyPending, EventView::BodyRead) => Some((State::Decoding, ActionView::DecodeBody)),
        (State::Decoding, EventView::Decoded) => Some(
            (State::HandlerRunning, ActionView::InvokeHandler { default_body: false }),
        ),
        (State::Decoding, EventView::DecodeFailed(diagnostic)) => Some(
            (State::Failure, ActionView::Send(decode_failure_response(diagnostic))),
        ),
        (State::HandlerRunning, EventView::Returned(encoded)) => Some(
            (
                if encoded is Ok {
                    State::Success
                } else {
                    State::Failure
                },
                ActionView::Send(outcome_response(encoded)),
            ),
        ),
        (State::HandlerRunning, EventView::Failed(error)) => Some(
            (State::Failure, ActionView::Send(error_response(error))),
        ),
        (State::Success, EventView::Sent) => Some((State::Responded, ActionView::Finish)),
        (State::Failure, EventView::Sent) => Some((State::Responded, ActionView::Finish)),
        _ => None,
    }
}

/// How far a state is from the end. Every transition lowers it, so no state
/// is ever entered twice and every request is done after finitely many
/// events.
pub open spec fn distance(state: State) -> nat {
    match state {
        State::Unmatched => (usize::MAX + 6) as nat,
        State::ContextPending { next, total, .. } => if next < total {
            (total - next + 4) as nat
        } else {
            5
        },
        State::BodyPending => 4,
        State::Decoding => 3,
        State::HandlerRunning => 2,
        State::Success => 1,
        State::Failure => 1,
        State::Responded => 0,
    }
}

/// The state reached from `state` after `events`, one by one; an event the
/// current state does not wait for changes nothing.
pub open spec fn state_after(state: State, events: Seq<EventView>) -> State
    decreases events.len(),
{
    if events.len() == 0 {
        state
    } else {
        let before = state_after(state, events.drop_last());
        match next(before, events.last()) {
            Some((then, _)) => then,
            None => before,
        }
    }
}

/// The actions asked for, in order, while `events` arrive one by one from
/// `state`.
pub open spec fn actions_of(state: State, events: Seq<EventView>) -> Seq<ActionView>
    decreases events.len(),
{
    if events.len() == 0 {
        Seq::empty()
    } else {
        let earlier = actions_of(state, events.drop_last());
        match next(state_after(state, events.drop_last()), events.last()) {
            Some((_, action)) => earlier.push(action),
            None => earlier,
        }
    }
}

/// The actions that read the body, decode it, or run the handler.
pub open spec fn touches_body_or_handler(action: ActionView) -> bool {
    action is ReadBody || action is DecodeBody || action is InvokeHandler
}

/// No action of the sequence reads the body, decodes it, or runs the handler.
pub open spec fn spares_body_and_handler(actions: Seq<ActionView>) -> bool {
    forall|i: int| 0 <= i < actions.len() ==> !touches_body_or_handler(#[trigger] actions[i])
}

/// The request is still at or before context extraction.
pub open spec fn before_body(state: State) -> bool {
    state is Unmatched || state is ContextPending
}

/// Once past context extraction, a request never returns to it.
proof fn lemma_no_way_back(events: Seq<EventView>, j: int, k: int)
    requires
        0 <= j <= k <= events.len(),
        !before_body(state_after(State::Unmatched, events.take(j))),
    ensures
        !before_body(state_after(State::Unmatched, events.take(k))),
    decreases k - j,
{
    if j < k {
        lemma_no_way_back(events, j, k - 1);
        assert(events.take(k).drop_last() == events.take(k - 1));
    }
}

/// While a request is at or before context extraction, no action has
/// touched the body or the handler.
proof fn lemma_quiet_before_body(events: Seq<EventView>, j: int, k: int)
    requires
        0 <= j <= k <= events.len(),
        before_body(state_after(State::Unmatched, events.take(k))),
    ensures
        before_body(state_after(State::Unmatched, events.take(j))),
        spares_body_and_handler(actions_of(State::Unmatched, events.take(j))),
    decreases j,
{
    if !before_body(state_after(State::Unmatched, events.take(j))) {
        lemma_no_way_back(events, j, k);
    }
    if j > 0 {
        lemma_quiet_before_body(events, j - 1, k);
        assert(events.take(j).drop_last() == events.take(j - 1));
    }
}

/// After a failure only the sending of its response is left.
proof fn lemma_quiet_after_failure(events: Seq<EventView>, k: int, j: int)
    requires
        0 <= k < j <= events.len(),
        state_after(State::Unmatched, events.take(k + 1)) is Failure,
        spares_body_and_handler(actions_of(State::Unmatched, events.take(k + 1))),
    ensures
        state_after(State::Unmatched, events.take(j)) is Failure || state_after(
            State::Unmatched,
            events.take(j),
        ) is Responded,
        spares_body_and_handler(actions_of(State::Unmatched, events.take(j))),
    decreases j,
{
    if j > k + 1 {
        lemma_quiet_after_failure(events, k, j - 1);
        assert(events.take(j).drop_last() == events.take(j - 1));
    }
}

/// Short circuit: if a context extraction fails, the failure's response is
/// the action that follows, and in the whole course of the request, before
/// and after, no action reads the body, decodes it, or runs the handler.
pub proof fn lemma_context_failure_short_circuits(events: Seq<EventView>, k: int)
    requires
        0 <= k < events.len(),
        state_after(State::Unmatched, events.take(k)) is ContextPending,
        events[k] is ContextFailed,
    ensures
        actions_of(State::Unmatched, events.take(k + 1)).last() == ActionView::Send(
            error_response(events[k]->ContextFailed_0),
        ),
        spares_body_and_handler(actions_of(State::Unmatched, events)),
{
    lemma_quiet_before_body(events, k, k);
    assert(events.take(k + 1).drop_last() == events.take(k));
    lemma_quiet_after_failure(events, k, events.len() as int);
    assert(events.take(events.len() as int) == events);
}

/// How many of the actions send a response.
pub open spec fn responses_in(actions: Seq<ActionView>) -> nat
    decreases actions.len(),
{
    if actions.len() == 0 {
        0
    } else if actions.last() is Send {
        responses_in(actions.drop_last()) + 1
    } else {
        responses_in(actions.drop_last())
    }
}

/// The states in which the request's response has been determined.
pub open spec fn answered(state: State) -> bool {
    state is Success || state is Failure || state is Responded
}

/// One request, one response: whatever events arrive, a response is sent at
/// most once, and it has been sent exactly when the request has left the
/// handler stage, by success or by any failure.
pub proof fn lemma_one_response(events: Seq<EventView>)
    ensures
        responses_in(actions_of(State::Unmatched, events)) == if answered(
            state_after(State::Unmatched, events),
        ) {
            1nat
        } else {
            0nat
        },
    decreases events.len(),
{
    if events.len() > 0 {
        lemma_one_response(events.drop_last());
        let earlier = actions_of(State::Unmatched, events.drop_last());
        match next(state_after(State::Unmatched, events.drop_last()), events.last()) {
            Some((_, action)) => {
                assert(earlier.push(action).drop_last() == earlier);
            },
            None => {},
        }
    }
}

/// How many of the actions satisfy `wanted`.
pub open spec fn count_of(actions: Seq<ActionView>, wanted: spec_fn(ActionView) -> bool) -> nat
    decreases actions.len(),
{
    if actions.len() == 0 {
        0
    } else if wanted(actions.last()) {
        count_of(actions.drop_last(), wanted) + 1
    } else {
        count_of(actions.drop_last(), wanted)
    }
}

/// There is no retry: whatever events arrive, the body is read at most
/// once, decoded at most once, and the handler runs at most once; and none
/// of these has happened before the stage it belongs to is reached.
pub proof fn lemma_no_retry(events: Seq<EventView>)
    ensures
        ({
            let state = state_after(State::Unmatched, events);
            let actions = actions_of(State::Unmatched, events);
            let reads = count_of(actions, |a: ActionView| a is ReadBody);
            let decodes = count_of(actions, |a: ActionView| a is DecodeBody);
            let calls = count_of(actions, |a: ActionView| a is InvokeHandler);
            &&& reads <= 1
            &&& decodes <= reads
            &&& calls <= 1
            &&& before_body(state) ==> reads == 0 && calls == 0
            &&& state is BodyPending ==> reads == 1 && decodes == 0 && calls == 0
            &&& state is Decoding ==> decodes == 1 && calls == 0
            &&& state is HandlerRunning ==> calls == 1 && decodes == reads
            &&& state is Success ==> calls == 1
        }),
    decreases events.len(),
{
    if events.len() > 0 {
        lemma_no_retry(events.drop_last());
        let earlier = actions_of(State::Unmatched, events.drop_last());
        match next(state_after(State::Unmatched, events.drop_last()), events.last()) {
            Some((_, action)) => {
                assert(earlier.push(action).drop_last() == earlier);
            },
            None => {},
        }
    }
}

/// Context values are extracted in the order of their declaration: after a
/// match with `contexts` values to extract and `ready` successful
/// extractions, fewer than `contexts`, the pipeline waits for value number
/// `ready`, and the actions so far ask for the values `0..=ready` in turn.
pub proof fn lemma_contexts_in_order(
    contexts: usize,
    length_indicator: Option<Seq<char>>,
    ready: int,
)
    requires
        0 <= ready < contexts,
    ensures
        ({
            let events = Seq::new(
                (ready + 1) as nat,
                |i: int|
                    if i == 0 {
                        EventView::Matched { contexts, length_indicator }
                    } else {
                        EventView::ContextReady
                    },
            );
            &&& state_after(State::Unmatched, events) == (State::ContextPending {
                next: ready as usize,
                total: contexts,
                body_expected: body_expected(length_indicator),
            })
            &&& actions_of(State::Unmatched, events) == Seq::new(
                (ready + 1) as nat,
                |i: int| ActionView::ExtractContext { index: i as usize },
            )
        }),
    decreases ready,
{
    let events = Seq::new(
        (ready + 1) as nat,
        |i: int|
            if i == 0 {
                EventView::Matched { contexts, length_indicator }
            } else {
                EventView::ContextReady
            },
    );
    let shorter = Seq::new(
        ready as nat,
        |i: int|
            if i == 0 {
                EventView::Matched { contexts, length_indicator }
            } else {
                EventView::ContextReady
            },
    );
    assert(events.drop_last() == shorter);
    if ready == 0 {
        assert(actions_of(State::Unmatched, shorter) == Seq::<ActionView>::empty());
    } else {
        lemma_contexts_in_order(contexts, length_indicator, ready - 1);
    }
}

/// The plain-value form of a step's result.
pub open spec fn step_view(out: Option<(State, Action)>) -> Option<(State, ActionView)> {
    match out {
        Some((state, action)) => Some((state, action@)),
        None => None,
    }
}

fn proceed(body_expected: bool) -> (out: (State, Action))
    ensures
        (out.0, out.1@) == after_context(body_expected),
{
    if body_expected {
        (State::BodyPending, Action::ReadBody)
    } else {
        (State::HandlerRunning, Action::InvokeHandler { default_body: true })
    }
}

/// Advance the pipeline by one event. Returns the next state and the action
/// to perform, or `None` where `state` does not wait for `event`; then
/// nothing has happened and the state stands.
pub fn step(state: State, event: Event) -> (out: Option<(State, Action)>)
    ensures
        step_view(out) == next(state, event@),
        out matches Some((then, _)) ==> distance(then) < distance(state),
{
    match state {
        State::Unmatched => match event {
            Event::Unrouted => Some((State::Failure, Action::Send(not_found()))),
            Event::Matched { contexts, length_indicator } => {
                let expected = match &length_indicator {
                    Some(value) => has_body(Some(value.as_str())),
                    None => has_body(None),
                };
                if contexts > 0 {
                    Some(
                        (
                            State::ContextPending { next: 0, total: contexts, body_expected: expected },
                            Action::ExtractContext { index: 0 },
                        ),
                    )
                } else {
                    Some(proceed(expected))
                }
            },
            _ => None,
        },
        State::ContextPending { next, total, body_expected } => match event {
            Event::ContextReady => {
                if next < total && next + 1 < total {
                    Some(
                        (
                            State::ContextPending { next: next + 1, total, body_expected },
                            Action::ExtractContext { index: next + 1 },
                        ),
                    )
                } else {
                    Some(proceed(body_expected))
                }
            },
            Event::ContextFailed(error) => Some(
                (State::Failure, Action::Send(Response::from_error(&error))),
            ),
            _ => None,
        },
        State::BodyPending => match event {
            Event::BodyRead => Some((State::Decoding, Action::DecodeBody)),
            _ => None,
        },
        State::Decoding => match event {
            Event::Decoded => Some(
                (State::HandlerRunning, Action::InvokeHandler { default_body: false }),
            ),
            Event::DecodeFailed(diagnostic) => Some(
                (State::Failure, Action::Send(Response::decode_failure(diagnostic.as_str()))),
            ),
            _ => None,
        },
        State::HandlerRunning => match event {
            Event::Returned(encoded) => {
                let then = if encoded.is_ok() {
                    State::Success
                } else {
                    State::Failure
                };
                Some((then, Action::Send(Response::from_outcome(encoded))))
            },
            Event::Failed(error) => Some(
                (State::Failure, Action::Send(Response::from_error(&error))),
            ),
            _ => None,
        },
        State::Success => match event {
            Event::Sent => Some((State::Responded, Action::Finish)),
            _ => None,
        },
        State::Failure => match event {
            Event::Sent => Some((State::Responded, Action::Finish)),
            _ => None,
        },
        State::Responded => None,
    }
}

} // verus!
