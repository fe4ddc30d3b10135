//! The ingestion loop of one account, as a machine: from where the loop
//! stands and from what just happened to where it stands next and what it
//! is to do.
//!
//! The loop loads the cursor once, then goes round: open a session, fetch
//! from the cursor on, publish the batch, store the cursor, idle, close
//! the session, rest. Whatever fails, the session is closed if one is open,
//! the loop rests, and the round starts again.

use crate::store::{Account, AccountView};
use vstd::prelude::*;

verus! {

/// What the loop is waiting for.
#[derive(Clone, Copy, Debug, PartialEq, Eq, Structural)]
pub enum Phase {
    /// For the cursor to be read from the store.
    LoadingCursor,
    /// For a session to be opened.
    OpeningSession,
    /// For the batch to be fetched.
    Fetching,
    /// For the batch to be published.
    Publishing,
    /// For the cursor to be stored.
    StoringCursor,
    /// For the idle wait to end.
    Idling,
    /// For the session to be closed.
    ClosingSession,
    /// For the rest between two rounds to be over.
    CoolingDown,
}

/// How an idle wait ended.
#[derive(Clone, Copy, Debug, PartialEq, Eq, Structural)]
pub enum IdleOutcome {
    /// The server sent something.
    NewData,
    /// The server ended the wait.
    ServerTimeout,
    /// The client ended the wait after its own deadline.
    ClientInterrupt,
}

/// Where the loop stands: what it waits for, and the cursor once it is
/// loaded.
#[derive(Clone, Copy, Debug, PartialEq, Eq)]
pub struct LoopState {
    pub phase: Phase,
    pub cursor: Option<u32>,
}

/// What just happened.
#[derive(Clone, Copy, Debug, PartialEq, Eq)]
pub enum LoopEvent {
    /// The store gave the cursor.
    CursorLoaded(u32),
    /// A session is open and the mailbox selected.
    SessionOpened,
    /// The batch is fetched.
    Fetched,
    /// The batch is published; the cursor to store is this one.
    BatchPublished(u32),
    /// The cursor is stored.
    CursorStored,
    /// The idle wait ended.
    IdleEnded(IdleOutcome),
    /// The session is closed.
    SessionClosed,
    /// The rest is over.
    CooldownElapsed,
    /// What the loop was waiting for failed.
    Failed,
}

/// What the loop is to do next.
#[derive(Clone, Copy, Debug, PartialEq, Eq)]
pub enum LoopAction {
    /// Read the cursor of the account from the store.
    LoadCursor,
    /// Open a session and select the mailbox.
    OpenSession,
    /// Fetch the messages from `low` to the end of the mailbox.
    Fetch { low: u32 },
    /// Publish the batch that was fetched from `cursor` on.
    PublishBatch { cursor: u32 },
    /// Store `value` as the cursor of the account.
    StoreCursor { value: u32 },
    /// Idle until the server speaks or the deadline passes.
    Idle { deadline_seconds: u64 },
    /// Log out and drop the connection.
    CloseSession,
    /// Rest.
    Sleep { seconds: u64 },
}

/// The cursor that a loaded value gives: the value, and 1 for zero, which
/// is no UID.
pub open spec fn first_cursor(loaded: u32) -> u32 {
    if loaded == 0 {
        1
    } else {
        loaded
    }
}

/// The larger of two cursors.
pub open spec fn later(a: u32, b: u32) -> u32 {
    if a >= b {
        a
    } else {
        b
    }
}

impl LoopState {
    /// The cursor is there from the moment it is loaded, not before, and
    /// is never zero.
    pub open spec fn wf(self) -> bool {
        match self.cursor {
            Some(c) => c >= 1 && self.phase != Phase::LoadingCursor,
            None => self.phase == Phase::LoadingCursor || self.phase == Phase::CoolingDown,
        }
    }

    /// The cursor as a number: zero as long as none is loaded.
    pub open spec fn floor(self) -> u32 {
        match self.cursor {
            Some(c) => c,
            None => 0,
        }
    }

    /// Where a fetch or a batch starts: at the cursor, and at 1 where
    /// there is none or it is zero, so that no fetch ever starts at zero.
    pub open spec fn first(self) -> u32 {
        first_cursor(self.floor())
    }
}

impl LoopState {
    /// Whether the state is one that the loop can be in.
    pub fn is_valid(&self) -> (r: bool)
        ensures
            r == self.wf(),
    {
        match self.cursor {
            Some(c) => c >= 1 && !matches!(self.phase, Phase::LoadingCursor),
            None => matches!(self.phase, Phase::LoadingCursor | Phase::CoolingDown),
        }
    }
}

/// Where the loop stands at its start.
pub open spec fn initial() -> LoopState {
    LoopState { phase: Phase::LoadingCursor, cursor: None }
}

/// The state that follows `state` on `event`, and the action to take.
pub open spec fn next(state: LoopState, event: LoopEvent, account: AccountView) -> (
    LoopState,
    LoopAction,
) {
    let rest = (
        LoopState { phase: Phase::CoolingDown, cursor: state.cursor },
        LoopAction::Sleep { seconds: account.wait_time_seconds },
    );
    let close = (
        LoopState { phase: Phase::ClosingSession, cursor: state.cursor },
        LoopAction::CloseSession,
    );
    match state.phase {
        Phase::LoadingCursor => match event {
            LoopEvent::CursorLoaded(v) => (
                LoopState { phase: Phase::OpeningSession, cursor: Some(first_cursor(v)) },
                LoopAction::OpenSession,
            ),
            _ => rest,
        },
        Phase::OpeningSession => match event {
            LoopEvent::SessionOpened => (
                LoopState { phase: Phase::Fetching, cursor: state.cursor },
                LoopAction::Fetch { low: state.first() },
            ),
            _ => rest,
        },
        Phase::Fetching => match event {
            LoopEvent::Fetched => (
                LoopState { phase: Phase::Publishing, cursor: state.cursor },
                LoopAction::PublishBatch { cursor: state.first() },
            ),
            _ => close,
        },
        Phase::Publishing => match event {
            LoopEvent::BatchPublished(v) => (
                LoopState { phase: Phase::StoringCursor, cursor: Some(later(state.first(), v)) },
                LoopAction::StoreCursor { value: later(state.first(), v) },
            ),
            _ => close,
        },
        Phase::StoringCursor => match event {
            LoopEvent::CursorStored => (
                LoopState { phase: Phase::Idling, cursor: state.cursor },
                LoopAction::Idle { deadline_seconds: account.idle_time_seconds },
            ),
            _ => close,
        },
        Phase::Idling => close,
        Phase::ClosingSession => rest,
        Phase::CoolingDown => match event {
            LoopEvent::CooldownElapsed => match state.cursor {
                Some(_) => (
                    LoopState { phase: Phase::OpeningSession, cursor: state.cursor },
                    LoopAction::OpenSession,
                ),
                None => (
                    LoopState { phase: Phase::LoadingCursor, cursor: state.cursor },
                    LoopAction::LoadCursor,
                ),
            },
            _ => rest,
        },
    }
}

/// Starts the loop: nothing is loaded yet, and the first thing to do is to
/// load the cursor.
pub fn start() -> (r: (LoopState, LoopAction))
    ensures
        r.0 == initial(),
        r.0.wf(),
        r.1 == LoopAction::LoadCursor,
{
    (LoopState { phase: Phase::LoadingCursor, cursor: None }, LoopAction::LoadCursor)
}

/// Takes one step of the loop of `account`.
///
/// In each phase one event is the expected one and leads on: the cursor
/// loaded, the session opened, the batch fetched, the batch published, the
/// cursor stored, the idle wait ended, the session closed, the rest over.
/// Any other event counts as a failure: with a session open the session is
/// closed, and then, as without one, the loop rests for the account's
/// waiting time and starts the round again. An idle wait that ends, however
/// it ends, is followed by closing the session.
///
/// The cursor moves when a batch is published, to the cursor reported if
/// that is the larger one, and it is this cursor that is stored next. No
/// fetch, no batch and no stored cursor is ever zero, whatever the state
/// that is handed in.
pub fn step(state: LoopState, event: LoopEvent, account: &Account) -> (r: (LoopState, LoopAction))
    ensures
        r == next(state, event, account@),
        state.wf() ==> r.0.wf(),
{
    let low = match state.cursor {
        Some(c) => if c == 0 {
            1
        } else {
            c
        },
        None => 1,
    };
    let rest = (
        LoopState { phase: Phase::CoolingDown, cursor: state.cursor },
        LoopAction::Sleep { seconds: account.wait_time_seconds },
    );
    let close = (
        LoopState { phase: Phase::ClosingSession, cursor: state.cursor },
        LoopAction::CloseSession,
    );
    match state.phase {
        Phase::LoadingCursor => match event {
            LoopEvent::CursorLoaded(v) => (
                LoopState {
                    phase: Phase::OpeningSession,
                    cursor: Some(if v == 0 { 1 } else { v }),
                },
                LoopAction::OpenSession,
            ),
            _ => rest,
        },
        Phase::OpeningSession => match event {
            LoopEvent::SessionOpened => (
                LoopState { phase: Phase::Fetching, cursor: state.cursor },
                LoopAction::Fetch { low },
            ),
            _ => rest,
        },
        Phase::Fetching => match event {
            LoopEvent::Fetched => (
                LoopState { phase: Phase::Publishing, cursor: state.cursor },
                LoopAction::PublishBatch { cursor: low },
            ),
            _ => close,
        },
        Phase::Publishing => match event {
            LoopEvent::BatchPublished(v) => {
                let value = if low >= v {
                    low
                } else {
                    v
                };
                (
                    LoopState { phase: Phase::StoringCursor, cursor: Some(value) },
                    LoopAction::StoreCursor { value },
                )
            },
            _ => close,
        },
        Phase::StoringCursor => match event {
            LoopEvent::CursorStored => (
                LoopState { phase: Phase::Idling, cursor: state.cursor },
                LoopAction::Idle { deadline_seconds: account.idle_time_seconds },
            ),
            _ => close,
        },
        Phase::Idling => close,
        Phase::ClosingSession => rest,
        Phase::CoolingDown => match event {
            LoopEvent::CooldownElapsed => match state.cursor {
                Some(_) => (
                    LoopState { phase: Phase::OpeningSession, cursor: state.cursor },
                    LoopAction::OpenSession,
                ),
                None => (
                    LoopState { phase: Phase::LoadingCursor, cursor: state.cursor },
                    LoopAction::LoadCursor,
                ),
            },
            _ => rest,
        },
    }
}

/// Where the loop stands after a run of events.
pub open spec fn state_after(
    state: LoopState,
    events: Seq<LoopEvent>,
    account: AccountView,
) -> LoopState
    decreases events.len(),
{
    if events.len() == 0 {
        state
    } else {
        next(state_after(state, events.drop_last(), account), events.last(), account).0
    }
}

/// The action that event `k` of a run leads to.
pub open spec fn action_at(
    state: LoopState,
    events: Seq<LoopEvent>,
    account: AccountView,
    k: int,
) -> LoopAction
    recommends
        0 <= k < events.len(),
{
    next(state_after(state, events.take(k), account), events[k], account).1
}

/// One step never lowers the cursor, and keeps the state valid.
pub proof fn lemma_step_keeps_cursor(state: LoopState, event: LoopEvent, account: AccountView)
    requires
        state.wf(),
    ensures
        next(state, event, account).0.wf(),
        next(state, event, account).0.floor() >= state.floor(),
{
}

/// Over a run the cursor never falls: after more events it is at least
/// what it was after fewer.
pub proof fn lemma_cursor_never_falls(
    state: LoopState,
    events: Seq<LoopEvent>,
    account: AccountView,
    k: int,
)
    requires
        state.wf(),
        0 <= k <= events.len(),
    ensures
        state_after(state, events, account).wf(),
        state_after(state, events.take(k), account).wf(),
        state_after(state, events.take(k), account).floor() <= state_after(
            state,
            events,
            account,
        ).floor(),
    decreases events.len(),
{
    if events.len() == 0 {
        assert(events.take(k) =~= events);
    } else if k == events.len() {
        assert(events.take(k) =~= events);
        lemma_cursor_never_falls(state, events.drop_last(), account, 0);
        lemma_step_keeps_cursor(
            state_after(state, events.drop_last(), account),
            events.last(),
            account,
        );
    } else {
        lemma_cursor_never_falls(state, events.drop_last(), account, k);
        assert(events.drop_last().take(k) =~= events.take(k));
        lemma_step_keeps_cursor(
            state_after(state, events.drop_last(), account),
            events.last(),
            account,
        );
    }
}

/// The cursors that the loop asks to store never fall: of two such
/// requests in a run, the later one carries a cursor that is not below
/// the earlier one's. And no fetch and no batch starts below a cursor that
/// the loop asked to store before.
pub proof fn lemma_stored_cursors_never_fall(
    state: LoopState,
    events: Seq<LoopEvent>,
    account: AccountView,
    i: int,
    j: int,
)
    requires
        state.wf(),
        0 <= i < j < events.len(),
        action_at(state, events, account, i) is StoreCursor,
    ensures
        action_at(state, events, account, j) matches LoopAction::StoreCursor { value }
            ==> value >= action_at(state, events, account, i)->value,
        action_at(state, events, account, j) matches LoopAction::Fetch { low } ==> low
            >= action_at(state, events, account, i)->value,
        action_at(state, events, account, j) matches LoopAction::PublishBatch { cursor }
            ==> cursor >= action_at(state, events, account, i)->value,
{
    let first = action_at(state, events, account, i)->value;
    let after_i = events.take(i + 1);
    assert(after_i.drop_last() =~= events.take(i));
    assert(after_i.last() == events[i]);
    lemma_cursor_never_falls(state, events, account, i);
    assert(state_after(state, after_i, account).floor() == first);
    let before_j = events.take(j);
    assert(before_j.take(i + 1) =~= after_i);
    lemma_cursor_never_falls(state, before_j, account, i + 1);
    let at_j = state_after(state, before_j, account);
    assert(at_j.floor() >= first);
    lemma_step_keeps_cursor(at_j, events[j], account);
}

/// A cursor that the loop asks to store is a UID, and is not below the
/// cursor that the loop had when the batch was published.
pub proof fn lemma_stored_cursor_is_the_new_cursor(
    state: LoopState,
    event: LoopEvent,
    account: AccountView,
)
    requires
        state.wf(),
    ensures
        next(state, event, account).1 matches LoopAction::StoreCursor { value } ==> {
            &&& value >= 1
            &&& value >= state.floor()
            &&& next(state, event, account).0.cursor == Some(value)
            &&& state.phase == Phase::Publishing
            &&& event matches LoopEvent::BatchPublished(v) && value == later(state.floor(), v)
        },
{
}

/// The loop idles only on the news that the cursor is stored, stores the
/// cursor only on the news that the batch is published, and opens a session
/// only at its start or after a rest. A failure is followed by closing the
/// session or by a rest.
pub proof fn lemma_order_of_actions(state: LoopState, event: LoopEvent, account: AccountView)
    ensures
        next(state, event, account).1 is Idle ==> state.phase == Phase::StoringCursor && event
            is CursorStored,
        next(state, event, account).1 is StoreCursor ==> state.phase == Phase::Publishing
            && event is BatchPublished,
        next(state, event, account).1 is PublishBatch ==> state.phase == Phase::Fetching && event
            is Fetched,
        next(state, event, account).1 is Fetch ==> state.phase == Phase::OpeningSession && event
            is SessionOpened,
        next(state, event, account).1 is OpenSession ==> state.phase == Phase::LoadingCursor
            || state.phase == Phase::CoolingDown,
        event is Failed ==> next(state, event, account).1 is CloseSession || next(
            state,
            event,
            account,
        ).1 is Sleep,
{
}

} // verus!
