use pregonero::session::{
    advance, fetch_command, idle_command, opening_commands, SessionCommand, SessionEvent,
    SessionPhase, IMAP_PORT,
};
use pregonero::store::Account;

fn account() -> Account {
    Account {
        email: "me@example.org".to_string(),
        password: "pw".to_string(),
        mailbox: "INBOX".to_string(),
        imap_host: "imap.example.org".to_string(),
        idle_time_seconds: 300,
        wait_time_seconds: 10,
    }
}

#[test]
fn opening_a_session() {
    assert_eq!(IMAP_PORT, 993);
    assert_eq!(
        opening_commands(&account()),
        vec![
            SessionCommand::Connect { host: "imap.example.org".to_string(), port: 993 },
            SessionCommand::Login { email: "me@example.org".to_string(), password: "pw".to_string() },
            SessionCommand::Capability,
            SessionCommand::List,
            SessionCommand::Select { mailbox: "INBOX".to_string() },
        ]
    );
    let mut phase = SessionPhase::Fresh;
    let mut seen = vec![];
    for event in [
        SessionEvent::Connected,
        SessionEvent::LoggedIn,
        SessionEvent::CapabilitiesRead,
        SessionEvent::MailboxesListed,
        SessionEvent::MailboxSelected,
    ] {
        phase = advance(phase, event);
        seen.push(phase);
    }
    assert_eq!(
        seen,
        vec![
            SessionPhase::Connected,
            SessionPhase::Authenticated,
            SessionPhase::Authenticated,
            SessionPhase::Authenticated,
            SessionPhase::Selected,
        ]
    );
}

#[test]
fn fetching_and_idling_return_to_selected() {
    let p = advance(SessionPhase::Selected, SessionEvent::FetchStarted);
    assert_eq!(p, SessionPhase::Fetching);
    assert_eq!(advance(p, SessionEvent::FetchFinished), SessionPhase::Selected);
    let p = advance(SessionPhase::Selected, SessionEvent::IdleStarted);
    assert_eq!(p, SessionPhase::Idling);
    assert_eq!(advance(p, SessionEvent::IdleFinished), SessionPhase::Selected);
}

#[test]
fn failure_logout_and_misuse_close() {
    let phases = [
        SessionPhase::Fresh,
        SessionPhase::Connected,
        SessionPhase::Authenticated,
        SessionPhase::Selected,
        SessionPhase::Fetching,
        SessionPhase::Idling,
        SessionPhase::Closed,
    ];
    for phase in phases {
        assert_eq!(advance(phase, SessionEvent::Failed), SessionPhase::Closed);
        assert_eq!(advance(phase, SessionEvent::LoggedOut), SessionPhase::Closed);
    }
    assert_eq!(advance(SessionPhase::Fresh, SessionEvent::LoggedIn), SessionPhase::Closed);
    assert_eq!(advance(SessionPhase::Authenticated, SessionEvent::FetchStarted), SessionPhase::Closed);
    assert_eq!(advance(SessionPhase::Idling, SessionEvent::FetchStarted), SessionPhase::Closed);
    assert_eq!(advance(SessionPhase::Closed, SessionEvent::Connected), SessionPhase::Closed);
}

#[test]
fn fetch_and_idle_commands() {
    assert_eq!(
        fetch_command(1),
        SessionCommand::Fetch {
            sequence_set: "1:*".to_string(),
            query: "(FLAGS INTERNALDATE RFC822.SIZE BODY.PEEK[TEXT] ENVELOPE UID)".to_string(),
        }
    );
    match fetch_command(4294967295) {
        SessionCommand::Fetch { sequence_set, .. } => assert_eq!(sequence_set, "4294967295:*"),
        other => panic!("not a fetch: {:?}", other),
    }
    assert_eq!(idle_command(&account()), SessionCommand::Idle { deadline_seconds: 300 });
}
