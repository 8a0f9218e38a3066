//! What a client does with what comes back for a request.
//!
//! Sending a request and reading the answer is the work of whoever holds
//! the connection. The decisions are made here: each thing that happens on
//! the connection is an [`Event`], and [`on_event`] says what to do next.
//!
//! An exchange starts in [`Phase::AwaitingResponse`]. A failure ends it at
//! once; nothing is tried again and an answer is never used in part.

use vstd::prelude::*;
use crate::error::{Error, RequestFailure};

verus! {

/// Where an exchange stands.
#[derive(Debug, Clone, Copy, PartialEq, Eq, Structural)]
pub enum Phase {
    /// The request is on its way; no answer has arrived.
    AwaitingResponse,
    /// The catalog has answered with success; the body is being read.
    AwaitingBody,
    /// The exchange is over.
    Done,
}

/// What happened on the connection.
#[derive(Debug)]
pub enum Event {
    /// The connection failed; the text says why.
    Failed(String),
    /// The catalog answered with this status.
    Responded(u16),
    /// The body arrived and has the expected shape.
    Decoded,
    /// The body arrived and does not have the expected shape; the text
    /// says why.
    Malformed(String),
}

/// What to do next.
#[derive(Debug)]
pub enum Action {
    /// Read the body and decode it.
    ReadBody,
    /// Hand the decoded record to the caller.
    Deliver,
    /// Give up with this error.
    Fail(Error),
    /// Nothing: the event does not belong to the phase.
    Ignore,
}

/// The first status of the range of success.
pub const FIRST_SUCCESS: u16 = 200;

/// The last status of the range of success.
pub const LAST_SUCCESS: u16 = 299;

/// Whether a status lies in the range of success.
pub open spec fn is_success(status: u16) -> bool {
    FIRST_SUCCESS <= status <= LAST_SUCCESS
}

/// The next phase and what to do, after `event` in `phase`.
///
/// While the response is awaited, a failed connection and a status outside
/// the range of success end the exchange as a failed request, and a status
/// of success asks for the body. While the body is awaited, a failed connection ends the
/// exchange as a failed request, a body of the wrong shape ends it as a
/// failed decoding, and a body of the right shape is delivered. Any other
/// event leaves the phase as it is.
pub open spec fn step(phase: Phase, event: Event) -> (Phase, Action) {
    match (phase, event) {
        (Phase::AwaitingResponse, Event::Failed(cause)) => (
            Phase::Done,
            Action::Fail(Error::RequestFailed(RequestFailure::Transport(cause))),
        ),
        (Phase::AwaitingResponse, Event::Responded(status)) => if is_success(status) {
            (Phase::AwaitingBody, Action::ReadBody)
        } else {
            (Phase::Done, Action::Fail(Error::RequestFailed(RequestFailure::Status(status))))
        },
        (Phase::AwaitingBody, Event::Failed(cause)) => (
            Phase::Done,
            Action::Fail(Error::RequestFailed(RequestFailure::Transport(cause))),
        ),
        (Phase::AwaitingBody, Event::Decoded) => (Phase::Done, Action::Deliver),
        (Phase::AwaitingBody, Event::Malformed(reason)) => (
            Phase::Done,
            Action::Fail(Error::DecodeFailed(reason)),
        ),
        _ => (phase, Action::Ignore),
    }
}

/// Decides what to do after `event` in `phase`.
pub fn on_event(phase: Phase, event: Event) -> (r: (Phase, Action))
    ensures
        r == step(phase, event),
{
    match phase {
        Phase::AwaitingResponse => match event {
            Event::Failed(cause) => (
                Phase::Done,
                Action::Fail(Error::RequestFailed(RequestFailure::Transport(cause))),
            ),
            Event::Responded(status) => if FIRST_SUCCESS <= status && status <= LAST_SUCCESS {
                (Phase::AwaitingBody, Action::ReadBody)
            } else {
                (Phase::Done, Action::Fail(Error::RequestFailed(RequestFailure::Status(status))))
            },
            _ => (phase, Action::Ignore),
        },
        Phase::AwaitingBody => match event {
            Event::Failed(cause) => (
                Phase::Done,
                Action::Fail(Error::RequestFailed(RequestFailure::Transport(cause))),
            ),
            Event::Decoded => (Phase::Done, Action::Deliver),
            Event::Malformed(reason) => (Phase::Done, Action::Fail(Error::DecodeFailed(reason))),
            _ => (phase, Action::Ignore),
        },
        Phase::Done => (phase, Action::Ignore),
    }
}

/// The catalog answers with a status of success.
pub open spec fn answers_success(event: Event) -> bool {
    event matches Event::Responded(status) && is_success(status)
}

/// The phase after a run of events.
pub open spec fn phase_after(phase: Phase, events: Seq<Event>) -> Phase
    decreases events.len(),
{
    if events.len() == 0 {
        phase
    } else {
        step(phase_after(phase, events.drop_last()), events.last()).0
    }
}

/// What the last event of a run asks for.
pub open spec fn last_action(phase: Phase, events: Seq<Event>) -> Action
    recommends
        events.len() > 0,
{
    step(phase_after(phase, events.drop_last()), events.last()).1
}

/// An exchange that is over stays over, whatever happens.
pub proof fn lemma_done_is_final(events: Seq<Event>)
    ensures
        phase_after(Phase::Done, events) == Phase::Done,
        events.len() > 0 ==> last_action(Phase::Done, events) is Ignore,
    decreases events.len(),
{
    if events.len() > 0 {
        lemma_done_is_final(events.drop_last());
    }
}

/// The phase after a run that begins with `first`.
proof fn lemma_phase_after_first(phase: Phase, first: Event, later: Seq<Event>)
    ensures
        phase_after(phase, seq![first] + later) == phase_after(step(phase, first).0, later),
    decreases later.len(),
{
    let all = seq![first] + later;
    if later.len() == 0 {
        assert(all.drop_last() =~= Seq::<Event>::empty());
        assert(all.last() == first);
        assert(phase_after(phase, all.drop_last()) == phase);
        assert(phase_after(step(phase, first).0, later) == step(phase, first).0);
    } else {
        lemma_phase_after_first(phase, first, later.drop_last());
        assert(all.drop_last() =~= seq![first] + later.drop_last());
        assert(all.last() == later.last());
    }
}

/// A status outside the range of success ends the exchange as a failed
/// request with that status, and nothing that happens afterwards turns it
/// into anything else: every later event is ignored, so the exchange never
/// fails as a failed decoding.
pub proof fn lemma_failure_status_is_request_failure(status: u16, later: Seq<Event>)
    requires
        !is_success(status),
    ensures
        step(Phase::AwaitingResponse, Event::Responded(status)) == (
            Phase::Done,
            Action::Fail(Error::RequestFailed(RequestFailure::Status(status))),
        ),
        later.len() > 0 ==> last_action(
            Phase::AwaitingResponse,
            seq![Event::Responded(status)] + later,
        ) is Ignore,
{
    if later.len() > 0 {
        let first = Event::Responded(status);
        let all = seq![first] + later;
        assert(all.drop_last() =~= seq![first] + later.drop_last());
        assert(all.last() == later.last());
        lemma_phase_after_first(Phase::AwaitingResponse, first, later.drop_last());
        lemma_done_is_final(later.drop_last());
    }
}

/// An exchange fails as a failed decoding only after the catalog answered
/// with a status of success, and then only for a body of the wrong shape.
pub proof fn lemma_decode_failure_follows_success(events: Seq<Event>)
    requires
        events.len() > 0,
        last_action(Phase::AwaitingResponse, events) matches Action::Fail(e) && e is DecodeFailed,
    ensures
        events.last() is Malformed,
        exists|i: int|
            0 <= i < events.len() - 1 && #[trigger] answers_success(events[i]),
{
    let before = events.drop_last();
    assert(phase_after(Phase::AwaitingResponse, before) == Phase::AwaitingBody);
    lemma_body_follows_success(before);
    let i = choose|i: int|
        0 <= i < before.len() && #[trigger] answers_success(before[i]);
    assert(events[i] == before[i]);
}

/// Where the body is awaited, the catalog has answered with a status of
/// success.
proof fn lemma_body_follows_success(events: Seq<Event>)
    requires
        phase_after(Phase::AwaitingResponse, events) == Phase::AwaitingBody,
    ensures
        exists|i: int|
            0 <= i < events.len() && #[trigger] answers_success(events[i]),
    decreases events.len(),
{
    if events.len() > 0 {
        let before = events.drop_last();
        if phase_after(Phase::AwaitingResponse, before) == Phase::AwaitingBody {
            lemma_body_follows_success(before);
            let i = choose|i: int|
                0 <= i < before.len() && #[trigger] answers_success(before[i]);
            assert(events[i] == before[i]);
        } else {
            let i = events.len() - 1;
            assert(events[i] == events.last());
            assert(answers_success(events[i]));
        }
    }
}

} // verus!
