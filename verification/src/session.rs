//! The life of one IMAP session: the commands that open it, fetch from it
//! and idle on it, and the phases it goes through.

use crate::store::{Account, AccountView};
use crate::text::{decimal, to_decimal};
use vstd::prelude::*;
use vstd::string::*;

verus! {

/// The port of IMAP over TLS.
pub const IMAP_PORT: u16 = 993;

/// What a session has reached.
#[derive(Clone, Copy, Debug, PartialEq, Eq, Structural)]
pub enum SessionPhase {
    /// Nothing is done yet.
    Fresh,
    /// The connection stands and is encrypted; nobody is logged in.
    Connected,
    /// The account is logged in.
    Authenticated,
    /// The mailbox is selected.
    Selected,
    /// A fetch is running.
    Fetching,
    /// The session idles.
    Idling,
    /// The session is over.
    Closed,
}

/// What happened on a session.
#[derive(Clone, Copy, Debug, PartialEq, Eq, Structural)]
pub enum SessionEvent {
    Connected,
    LoggedIn,
    CapabilitiesRead,
    MailboxesListed,
    MailboxSelected,
    FetchStarted,
    FetchFinished,
    IdleStarted,
    IdleFinished,
    LoggedOut,
    /// A command or the transport failed.
    Failed,
}

/// A command to a session, with what it needs.
#[derive(Debug, PartialEq, Eq)]
pub enum SessionCommand {
    /// Connect to `host` at `port` and start TLS, checking the
    /// certificate against `host`.
    Connect { host: String, port: u16 },
    Login { email: String, password: String },
    Capability,
    /// List the mailboxes, for the log.
    List,
    Select { mailbox: String },
    Fetch { sequence_set: String, query: String },
    Idle { deadline_seconds: u64 },
    Done,
    Logout,
}

/// What a `SessionCommand` holds.
pub ghost enum SessionCommandView {
    Connect { host: Seq<char>, port: u16 },
    Login { email: Seq<char>, password: Seq<char> },
    Capability,
    List,
    Select { mailbox: Seq<char> },
    Fetch { sequence_set: Seq<char>, query: Seq<char> },
    Idle { deadline_seconds: u64 },
    Done,
    Logout,
}

impl View for SessionCommand {
    type V = SessionCommandView;

    open spec fn view(&self) -> SessionCommandView {
        match *self {
            SessionCommand::Connect { host, port } => SessionCommandView::Connect {
                host: host@,
                port,
            },
            SessionCommand::Login { email, password } => SessionCommandView::Login {
                email: email@,
                password: password@,
            },
            SessionCommand::Capability => SessionCommandView::Capability,
            SessionCommand::List => SessionCommandView::List,
            SessionCommand::Select { mailbox } => SessionCommandView::Select { mailbox: mailbox@ },
            SessionCommand::Fetch { sequence_set, query } => SessionCommandView::Fetch {
                sequence_set: sequence_set@,
                query: query@,
            },
            SessionCommand::Idle { deadline_seconds } => SessionCommandView::Idle {
                deadline_seconds,
            },
            SessionCommand::Done => SessionCommandView::Done,
            SessionCommand::Logout => SessionCommandView::Logout,
        }
    }
}

/// What each command of a list holds.
pub open spec fn command_views(v: Seq<SessionCommand>) -> Seq<SessionCommandView> {
    v.map_values(|c: SessionCommand| c@)
}

/// The phase that follows `phase` on `event`.
///
/// A session goes from fresh to connected, authenticated and selected;
/// from selected it fetches or idles and comes back. A logout, a failure or
/// an event that the phase does not allow closes it, and closed it stays.
pub open spec fn phase_after(phase: SessionPhase, event: SessionEvent) -> SessionPhase {
    match (phase, event) {
        (SessionPhase::Fresh, SessionEvent::Connected) => SessionPhase::Connected,
        (SessionPhase::Connected, SessionEvent::LoggedIn) => SessionPhase::Authenticated,
        (SessionPhase::Authenticated, SessionEvent::CapabilitiesRead) => {
            SessionPhase::Authenticated
        },
        (SessionPhase::Authenticated, SessionEvent::MailboxesListed) => {
            SessionPhase::Authenticated
        },
        (SessionPhase::Authenticated, SessionEvent::MailboxSelected) => SessionPhase::Selected,
        (SessionPhase::Selected, SessionEvent::FetchStarted) => SessionPhase::Fetching,
        (SessionPhase::Fetching, SessionEvent::FetchFinished) => SessionPhase::Selected,
        (SessionPhase::Selected, SessionEvent::IdleStarted) => SessionPhase::Idling,
        (SessionPhase::Idling, SessionEvent::IdleFinished) => SessionPhase::Selected,
        _ => SessionPhase::Closed,
    }
}

/// The phase after a run of events.
pub open spec fn phase_after_all(phase: SessionPhase, events: Seq<SessionEvent>) -> SessionPhase
    decreases events.len(),
{
    if events.len() == 0 {
        phase
    } else {
        phase_after(phase_after_all(phase, events.drop_last()), events.last())
    }
}

/// The commands that open a session for an account, in order: connect to
/// its host on the IMAP port, log in, ask for the capabilities, list the
/// mailboxes, select its mailbox.
pub open spec fn opening_of(account: AccountView) -> Seq<SessionCommandView> {
    seq![
        SessionCommandView::Connect { host: account.imap_host, port: IMAP_PORT },
        SessionCommandView::Login { email: account.email, password: account.password },
        SessionCommandView::Capability,
        SessionCommandView::List,
        SessionCommandView::Select { mailbox: account.mailbox },
    ]
}

/// The events of an opening in which every command succeeds.
pub open spec fn opening_events() -> Seq<SessionEvent> {
    seq![
        SessionEvent::Connected,
        SessionEvent::LoggedIn,
        SessionEvent::CapabilitiesRead,
        SessionEvent::MailboxesListed,
        SessionEvent::MailboxSelected,
    ]
}

/// The messages from `low` to the end of the mailbox: `low:*`.
pub open spec fn sequence_set_of(low: u32) -> Seq<char> {
    decimal(low as nat) + ":*"@
}

/// What is asked of each message. The body is peeked at, so that fetching
/// marks nothing as seen.
pub open spec fn query_text() -> Seq<char> {
    "(FLAGS INTERNALDATE RFC822.SIZE BODY.PEEK[TEXT] ENVELOPE UID)"@
}

/// Takes a session one event further.
pub fn advance(phase: SessionPhase, event: SessionEvent) -> (r: SessionPhase)
    ensures
        r == phase_after(phase, event),
{
    match (phase, event) {
        (SessionPhase::Fresh, SessionEvent::Connected) => SessionPhase::Connected,
        (SessionPhase::Connected, SessionEvent::LoggedIn) => SessionPhase::Authenticated,
        (SessionPhase::Authenticated, SessionEvent::CapabilitiesRead) => {
            SessionPhase::Authenticated
        },
        (SessionPhase::Authenticated, SessionEvent::MailboxesListed) => {
            SessionPhase::Authenticated
        },
        (SessionPhase::Authenticated, SessionEvent::MailboxSelected) => SessionPhase::Selected,
        (SessionPhase::Selected, SessionEvent::FetchStarted) => SessionPhase::Fetching,
        (SessionPhase::Fetching, SessionEvent::FetchFinished) => SessionPhase::Selected,
        (SessionPhase::Selected, SessionEvent::IdleStarted) => SessionPhase::Idling,
        (SessionPhase::Idling, SessionEvent::IdleFinished) => SessionPhase::Selected,
        _ => SessionPhase::Closed,
    }
}

/// The commands that open a session for `account`.
pub fn opening_commands(account: &Account) -> (r: Vec<SessionCommand>)
    ensures
        command_views(r@) == opening_of(account@),
{
    let mut r: Vec<SessionCommand> = Vec::new();
    r.push(SessionCommand::Connect { host: account.imap_host.clone(), port: IMAP_PORT });
    r.push(
        SessionCommand::Login { email: account.email.clone(), password: account.password.clone() },
    );
    r.push(SessionCommand::Capability);
    r.push(SessionCommand::List);
    r.push(SessionCommand::Select { mailbox: account.mailbox.clone() });
    assert(command_views(r@) =~= opening_of(account@));
    r
}

/// The command that fetches every message from `low` on.
pub fn fetch_command(low: u32) -> (r: SessionCommand)
    ensures
        r@ == (SessionCommandView::Fetch {
            sequence_set: sequence_set_of(low),
            query: query_text(),
        }),
{
    let mut sequence_set = to_decimal(low);
    sequence_set.append(":*");
    SessionCommand::Fetch {
        sequence_set,
        query: "(FLAGS INTERNALDATE RFC822.SIZE BODY.PEEK[TEXT] ENVELOPE UID)".to_owned(),
    }
}

/// The command that idles on behalf of `account`, with its deadline.
pub fn idle_command(account: &Account) -> (r: SessionCommand)
    ensures
        r@ == (SessionCommandView::Idle { deadline_seconds: account.idle_time_seconds }),
{
    SessionCommand::Idle { deadline_seconds: account.idle_time_seconds }
}

/// An opening in which every command succeeds ends with the mailbox
/// selected, and one in which a command fails ends closed.
pub proof fn lemma_opening(k: int)
    requires
        0 <= k < opening_events().len(),
    ensures
        phase_after_all(SessionPhase::Fresh, opening_events()) == SessionPhase::Selected,
        phase_after_all(
            SessionPhase::Fresh,
            opening_events().take(k).push(SessionEvent::Failed),
        ) == SessionPhase::Closed,
{
    reveal_with_fuel(phase_after_all, 7);
    let all = opening_events();
    let four = all.drop_last();
    let three = four.drop_last();
    let two = three.drop_last();
    let one = two.drop_last();
    assert(four =~= seq![
        SessionEvent::Connected,
        SessionEvent::LoggedIn,
        SessionEvent::CapabilitiesRead,
        SessionEvent::MailboxesListed,
    ]);
    assert(three =~= seq![
        SessionEvent::Connected,
        SessionEvent::LoggedIn,
        SessionEvent::CapabilitiesRead,
    ]);
    assert(two =~= seq![SessionEvent::Connected, SessionEvent::LoggedIn]);
    assert(one =~= seq![SessionEvent::Connected]);
    assert(one.drop_last() =~= Seq::<SessionEvent>::empty());
    let failed = all.take(k).push(SessionEvent::Failed);
    assert(failed.last() == SessionEvent::Failed);
}

/// A fetch or an idle wait that comes to its end leaves the mailbox
/// selected, and a closed session stays closed whatever comes.
pub proof fn lemma_rounds(event: SessionEvent)
    ensures
        phase_after(
            phase_after(SessionPhase::Selected, SessionEvent::FetchStarted),
            SessionEvent::FetchFinished,
        ) == SessionPhase::Selected,
        phase_after(
            phase_after(SessionPhase::Selected, SessionEvent::IdleStarted),
            SessionEvent::IdleFinished,
        ) == SessionPhase::Selected,
        phase_after(SessionPhase::Closed, event) == SessionPhase::Closed,
{
}

/// A failure closes the session, whatever its phase.
pub proof fn lemma_failure_closes(phase: SessionPhase)
    ensures
        phase_after(phase, SessionEvent::Failed) == SessionPhase::Closed,
        phase_after(phase, SessionEvent::LoggedOut) == SessionPhase::Closed,
{
}

} // verus!
