use pregonero::cycle::{start, step, IdleOutcome, LoopAction, LoopEvent, LoopState, Phase};
use pregonero::ingest::{perform, plan_batch, publish_all, publish_batch, BatchReport};
use pregonero::parsers::{EmailMessage, RawAddress, RawEnvelope, RawFetch};
use pregonero::queue::{topic, MemoryQueue, Outbox, Queue, QueueError, QueueMessage};
use pregonero::store::{Account, Ledger, MemoryStore, Store, StoreError};

const EMAIL: &str = "me@example.org";

fn account() -> Account {
    Account {
        email: EMAIL.to_string(),
        password: "pw".to_string(),
        mailbox: "INBOX".to_string(),
        imap_host: "imap.example.org".to_string(),
        idle_time_seconds: 300,
        wait_time_seconds: 10,
    }
}

fn fetch(uid: u32) -> RawFetch {
    RawFetch {
        uid: Some(uid),
        text: Some(format!("\r\nbody {}", uid).into_bytes()),
        envelope: Some(RawEnvelope {
            subject: Some(format!("subject {}", uid).into_bytes()),
            sender: Some(vec![RawAddress {
                name: None,
                mailbox: Some(b"ann".to_vec()),
                host: Some(b"example.org".to_vec()),
            }]),
        }),
    }
}

fn broken(uid: u32) -> RawFetch {
    RawFetch { uid: Some(uid), text: None, envelope: None }
}

fn uids(outbox: &Outbox<MemoryQueue>) -> Vec<u32> {
    outbox.get_ref().messages.iter().map(|m| m.email_message.seq_id).collect()
}

// One round of the loop between fetch and idle, as the service runs it:
// publish the batch, and store the cursor if all of it was published.
fn round(
    store: &mut MemoryStore,
    outbox: &mut Outbox<MemoryQueue>,
    cursor: u32,
    raws: &Vec<RawFetch>,
) -> Result<BatchReport, QueueError> {
    let report = publish_batch(outbox, EMAIL, cursor, raws)?;
    store.store_last_sequence(EMAIL, report.cursor).unwrap();
    Ok(report)
}

#[test]
fn fresh_account_three_new_messages() {
    let mut store = MemoryStore::new();
    let mut outbox = Outbox::new(MemoryQueue::new());
    let cursor = store.load_last_sequence(EMAIL).unwrap();
    assert_eq!(cursor, 1);
    let raws = vec![fetch(1), fetch(2), fetch(3)];
    let report = round(&mut store, &mut outbox, cursor, &raws).unwrap();
    assert_eq!(report, BatchReport { cursor: 3, published: 3, skipped: 0, stale: 0 });
    assert_eq!(uids(&outbox), vec![1, 2, 3]);
    assert_eq!(store.load_last_sequence(EMAIL), Ok(3));
    let queue = outbox.into_inner();
    assert_eq!(queue.messages[0].email_message.account, EMAIL);
    assert_eq!(queue.messages[1].email_message.subject, "subject 2");
    assert_eq!(queue.messages[2].email_message.body, "body 3");
}

#[test]
fn idle_wake_with_one_new_message() {
    let mut store = MemoryStore::new();
    let mut outbox = Outbox::new(MemoryQueue::new());
    store.store_last_sequence(EMAIL, 3).unwrap();
    let cursor = store.load_last_sequence(EMAIL).unwrap();
    let raws = vec![fetch(3), fetch(4)];
    let report = round(&mut store, &mut outbox, cursor, &raws).unwrap();
    assert_eq!(report.cursor, 4);
    assert_eq!(report.published, 2);
    assert_eq!(uids(&outbox), vec![3, 4]);
    assert_eq!(store.load_last_sequence(EMAIL), Ok(4));
}

#[test]
fn empty_batch_keeps_the_cursor() {
    let mut store = MemoryStore::new();
    let mut outbox = Outbox::new(MemoryQueue::new());
    let report = round(&mut store, &mut outbox, 7, &vec![]).unwrap();
    assert_eq!(report, BatchReport { cursor: 7, published: 0, skipped: 0, stale: 0 });
    assert_eq!(uids(&outbox), Vec::<u32>::new());
    assert_eq!(store.load_last_sequence(EMAIL), Ok(7));
}

#[test]
fn skipped_fetches_do_not_move_the_cursor() {
    let plan = plan_batch(EMAIL, 2, &vec![fetch(2), broken(9)]);
    assert_eq!(plan.cursor, 2);
    assert_eq!(plan.skipped, 1);
    assert_eq!(plan.messages.len(), 1);
    let plan = plan_batch(EMAIL, 2, &vec![broken(9), broken(10)]);
    assert_eq!(plan.cursor, 2);
    assert_eq!(plan.skipped, 2);
    assert_eq!(plan.messages.len(), 0);
    let with = plan_batch(EMAIL, 1, &vec![fetch(1), broken(2), fetch(3)]);
    let without = plan_batch(EMAIL, 1, &vec![fetch(1), fetch(3)]);
    assert_eq!(with.cursor, without.cursor);
    assert_eq!(with.messages, without.messages);
    assert_eq!(with.skipped, 1);
}

#[test]
fn stale_messages_are_not_published_again() {
    let plan = plan_batch(EMAIL, 5, &vec![fetch(3), fetch(5), fetch(4), fetch(6)]);
    let published: Vec<u32> = plan.messages.iter().map(|m| m.email_message.seq_id).collect();
    assert_eq!(published, vec![5, 6]);
    assert_eq!(plan.stale, 2);
    assert_eq!(plan.skipped, 0);
    assert_eq!(plan.cursor, 6);
}

#[test]
fn cursor_is_the_largest_uid_whatever_the_order() {
    let plan = plan_batch(EMAIL, 1, &vec![fetch(4), fetch(9), fetch(2)]);
    let published: Vec<u32> = plan.messages.iter().map(|m| m.email_message.seq_id).collect();
    assert_eq!(published, vec![4, 9, 2]);
    assert_eq!(plan.cursor, 9);
    let plan = plan_batch(EMAIL, u32::MAX, &vec![fetch(u32::MAX), fetch(1)]);
    assert_eq!(plan.cursor, u32::MAX);
    assert_eq!(plan.messages.len(), 1);
}

#[test]
fn every_fetch_is_published_skipped_or_stale() {
    let raws = vec![fetch(1), broken(2), fetch(7), fetch(3), broken(0), fetch(9)];
    for cursor in [1u32, 3, 8, 10] {
        let plan = plan_batch(EMAIL, cursor, &raws);
        assert_eq!(plan.messages.len() + plan.skipped + plan.stale, raws.len());
        assert!(plan.cursor >= cursor);
        for m in &plan.messages {
            assert!(cursor <= m.email_message.seq_id && m.email_message.seq_id <= plan.cursor);
        }
    }
}

#[test]
fn successive_cursors_never_fall() {
    let mut store = MemoryStore::new();
    let mut outbox = Outbox::new(MemoryQueue::new());
    let batches = vec![
        vec![fetch(1), fetch(2)],
        vec![],
        vec![fetch(2), broken(3)],
        vec![fetch(1)],
        vec![fetch(2), fetch(8), fetch(5)],
        vec![fetch(8)],
    ];
    let mut cursor = store.load_last_sequence(EMAIL).unwrap();
    let mut stored = vec![];
    for raws in &batches {
        let report = round(&mut store, &mut outbox, cursor, raws).unwrap();
        assert!(report.cursor >= cursor);
        cursor = report.cursor;
        stored.push(store.load_last_sequence(EMAIL).unwrap());
    }
    assert_eq!(stored, vec![2, 2, 2, 2, 8, 8]);
    assert_eq!(uids(&outbox), vec![1, 2, 2, 2, 8, 5, 8]);
}

#[test]
fn refused_message_fails_the_batch_and_keeps_the_cursor() {
    let mut store = MemoryStore::new();
    let mut outbox = Outbox::new(MemoryQueue::with_limit(2));
    store.store_last_sequence(EMAIL, 1).unwrap();
    let raws = vec![fetch(1), fetch(2), fetch(3)];
    let r = round(&mut store, &mut outbox, 1, &raws);
    assert_eq!(r, Err(QueueError::Full));
    assert_eq!(uids(&outbox), vec![1, 2]);
    assert_eq!(store.load_last_sequence(EMAIL), Ok(1));
}

#[test]
fn publish_all_in_order() {
    let mut outbox = Outbox::new(MemoryQueue::new());
    let plan = plan_batch(EMAIL, 1, &vec![fetch(3), fetch(1), fetch(2)]);
    assert_eq!(publish_all(&mut outbox, &plan.messages), Ok(()));
    assert_eq!(outbox.get_ref().messages, plan.messages);
    let mut small = Outbox::new(MemoryQueue::with_limit(0));
    assert_eq!(publish_all(&mut small, &plan.messages), Err(QueueError::Full));
    assert_eq!(small.get_ref().messages.len(), 0);
    assert_eq!(publish_all(&mut small, &vec![]), Ok(()));
}

#[test]
fn queue_keeps_what_it_took() {
    let mut queue = MemoryQueue::with_limit(1);
    let message = QueueMessage {
        email_message: EmailMessage {
            account: EMAIL.to_string(),
            senders: vec![],
            subject: "s".to_string(),
            body: "b".to_string(),
            seq_id: 1,
        },
    };
    assert_eq!(queue.publish_message(message.clone()), Ok(()));
    assert_eq!(queue.publish_message(message.clone()), Err(QueueError::Full));
    assert_eq!(queue.messages, vec![message.clone()]);
    let mut outbox = Outbox::new(queue);
    assert_eq!(outbox.publish(message.clone()), Err(QueueError::Full));
    assert_eq!(outbox.into_inner().messages.len(), 1);
    assert_eq!(topic(), "emails");
    assert_eq!(
        message.describe(),
        "(email_message: (account: me@example.org, senders: , subject: s, body: b))"
    );
}

// A queue that cannot be reached.
struct DownQueue;

impl Queue for DownQueue {
    fn publish_message(&mut self, _message: QueueMessage) -> Result<(), QueueError> {
        Err(QueueError::Unavailable)
    }
}

// A store that cannot be reached.
struct DownStore;

impl Store for DownStore {
    fn load_accounts_by_host(&self, _host: &str) -> Result<Vec<Account>, StoreError> {
        Err(StoreError::Unavailable)
    }

    fn load_account_by_email(&self, _email: &str) -> Result<Option<Account>, StoreError> {
        Err(StoreError::Unavailable)
    }

    fn store_account(&mut self, _account: Account) -> Result<Option<Account>, StoreError> {
        Err(StoreError::Unavailable)
    }

    fn destroy_account(&mut self, _email: &str) -> Result<(), StoreError> {
        Err(StoreError::Unavailable)
    }

    fn clear_host_accounts(&mut self, _host: &str) -> Result<(), StoreError> {
        Err(StoreError::Unavailable)
    }

    fn load_last_sequence(&self, _email: &str) -> Result<u32, StoreError> {
        Err(StoreError::Unavailable)
    }

    fn store_last_sequence(&mut self, _email: &str, _value: u32) -> Result<(), StoreError> {
        Err(StoreError::Unavailable)
    }
}

#[test]
fn unreachable_queue_fails_the_batch() {
    let mut outbox = Outbox::new(DownQueue);
    let r = publish_batch(&mut outbox, EMAIL, 1, &vec![broken(1), fetch(2)]);
    assert_eq!(r, Err(QueueError::Unavailable));
    // Nothing is handed to the queue where there is nothing to publish.
    let r = publish_batch(&mut outbox, EMAIL, 1, &vec![broken(1)]);
    assert_eq!(r, Ok(BatchReport { cursor: 1, published: 0, skipped: 1, stale: 0 }));
}

#[test]
fn perform_store_and_queue_actions() {
    let mut ledger = Ledger::new(MemoryStore::new());
    let mut outbox = Outbox::new(MemoryQueue::new());
    let raws = vec![fetch(2), fetch(5), broken(6)];
    let none = vec![];
    assert_eq!(
        perform(LoopAction::LoadCursor, &mut ledger, &mut outbox, EMAIL, &none),
        Some(LoopEvent::CursorLoaded(1))
    );
    assert_eq!(
        perform(LoopAction::PublishBatch { cursor: 1 }, &mut ledger, &mut outbox, EMAIL, &raws),
        Some(LoopEvent::BatchPublished(5))
    );
    assert_eq!(uids(&outbox), vec![2, 5]);
    assert_eq!(ledger.get_ref().load_last_sequence(EMAIL), Ok(1));
    assert_eq!(
        perform(LoopAction::StoreCursor { value: 5 }, &mut ledger, &mut outbox, EMAIL, &raws),
        Some(LoopEvent::CursorStored)
    );
    assert_eq!(ledger.get_ref().load_last_sequence(EMAIL), Ok(5));
    assert_eq!(uids(&outbox), vec![2, 5]);
    assert_eq!(
        perform(LoopAction::LoadCursor, &mut ledger, &mut outbox, EMAIL, &none),
        Some(LoopEvent::CursorLoaded(5))
    );
    for action in [
        LoopAction::OpenSession,
        LoopAction::Fetch { low: 5 },
        LoopAction::Idle { deadline_seconds: 1 },
        LoopAction::CloseSession,
        LoopAction::Sleep { seconds: 1 },
    ] {
        assert_eq!(perform(action, &mut ledger, &mut outbox, EMAIL, &raws), None);
    }
    assert_eq!(uids(&outbox), vec![2, 5]);
    assert_eq!(ledger.into_inner().load_last_sequence(EMAIL), Ok(5));
}

#[test]
fn ledger_passes_requests_and_answers_on() {
    let mut ledger = Ledger::new(MemoryStore::new());
    assert_eq!(ledger.load_last_sequence(EMAIL), Ok(1));
    assert_eq!(ledger.store_last_sequence(EMAIL, 12), Ok(()));
    assert_eq!(ledger.load_last_sequence(EMAIL), Ok(12));
    assert_eq!(ledger.load_last_sequence("other@example.org"), Ok(1));
    assert_eq!(ledger.get_ref().load_last_sequence(EMAIL), Ok(12));
    let mut down = Ledger::new(DownStore);
    assert_eq!(down.load_last_sequence(EMAIL), Err(StoreError::Unavailable));
    assert_eq!(down.store_last_sequence(EMAIL, 12), Err(StoreError::Unavailable));
}

#[test]
fn perform_reports_failures() {
    let mut ledger = Ledger::new(DownStore);
    let mut outbox = Outbox::new(DownQueue);
    let raws = vec![fetch(2)];
    assert_eq!(
        perform(LoopAction::LoadCursor, &mut ledger, &mut outbox, EMAIL, &raws),
        Some(LoopEvent::Failed)
    );
    assert_eq!(
        perform(LoopAction::PublishBatch { cursor: 1 }, &mut ledger, &mut outbox, EMAIL, &raws),
        Some(LoopEvent::Failed)
    );
    assert_eq!(
        perform(LoopAction::StoreCursor { value: 2 }, &mut ledger, &mut outbox, EMAIL, &raws),
        Some(LoopEvent::Failed)
    );
    let mut store = ledger.into_inner();
    assert_eq!(store.load_accounts_by_host("*"), Err(StoreError::Unavailable));
    assert_eq!(store.load_account_by_email(EMAIL), Err(StoreError::Unavailable));
    assert_eq!(store.store_account(account()), Err(StoreError::Unavailable));
    assert_eq!(store.destroy_account(EMAIL), Err(StoreError::Unavailable));
    assert_eq!(store.clear_host_accounts("*"), Err(StoreError::Unavailable));
}

// The whole loop against a store and a queue in memory, with a mailbox
// that the test plays: each round it answers the fetch with what it holds
// from the cursor on.
#[test]
fn loop_against_memory() {
    let account = account();
    let mut ledger = Ledger::new(MemoryStore::new());
    let mut outbox = Outbox::new(MemoryQueue::new());
    let mut mailbox: Vec<u32> = vec![1, 2, 3];
    let mut batch: Vec<RawFetch> = vec![];
    let mut stored = vec![];
    let mut idles = 0;
    let (mut state, mut action) = start();
    while idles < 3 {
        let event = match perform(action, &mut ledger, &mut outbox, EMAIL, &batch) {
            Some(event) => {
                if let LoopAction::StoreCursor { value } = action {
                    stored.push(value);
                }
                event
            }
            None => match action {
                LoopAction::OpenSession => LoopEvent::SessionOpened,
                LoopAction::Fetch { low } => {
                    batch = mailbox.iter().filter(|uid| **uid >= low).map(|uid| fetch(*uid)).collect();
                    LoopEvent::Fetched
                }
                LoopAction::Idle { .. } => {
                    idles += 1;
                    if idles == 1 {
                        mailbox.push(4);
                        LoopEvent::IdleEnded(IdleOutcome::NewData)
                    } else {
                        LoopEvent::IdleEnded(IdleOutcome::ClientInterrupt)
                    }
                }
                LoopAction::CloseSession => LoopEvent::SessionClosed,
                LoopAction::Sleep { .. } => LoopEvent::CooldownElapsed,
                _ => LoopEvent::Failed,
            },
        };
        let (next, then) = step(state, event, &account);
        state = next;
        action = then;
    }
    assert_eq!(uids(&outbox), vec![1, 2, 3, 3, 4, 4]);
    assert_eq!(stored, vec![3, 4, 4]);
    assert_eq!(ledger.get_ref().load_last_sequence(EMAIL), Ok(4));
    assert_eq!(state.cursor, Some(4));
}

#[test]
fn no_fetch_starts_at_zero() {
    let a = account();
    let (_, act) = step(LoopState { phase: Phase::OpeningSession, cursor: None }, LoopEvent::SessionOpened, &a);
    assert_eq!(act, LoopAction::Fetch { low: 1 });
    let (_, act) = step(LoopState { phase: Phase::OpeningSession, cursor: Some(0) }, LoopEvent::SessionOpened, &a);
    assert_eq!(act, LoopAction::Fetch { low: 1 });
    let (_, act) = step(LoopState { phase: Phase::Fetching, cursor: None }, LoopEvent::Fetched, &a);
    assert_eq!(act, LoopAction::PublishBatch { cursor: 1 });
    let (s, act) = step(LoopState { phase: Phase::Publishing, cursor: None }, LoopEvent::BatchPublished(0), &a);
    assert_eq!((s.cursor, act), (Some(1), LoopAction::StoreCursor { value: 1 }));
}

fn run(events: &[LoopEvent]) -> (LoopState, Vec<LoopAction>) {
    let account = account();
    let (mut state, first) = start();
    let mut actions = vec![first];
    for event in events {
        let (next, action) = step(state, *event, &account);
        state = next;
        actions.push(action);
    }
    (state, actions)
}

#[test]
fn one_round_of_the_loop() {
    let (state, actions) = run(&[
        LoopEvent::CursorLoaded(1),
        LoopEvent::SessionOpened,
        LoopEvent::Fetched,
        LoopEvent::BatchPublished(3),
        LoopEvent::CursorStored,
        LoopEvent::IdleEnded(IdleOutcome::NewData),
        LoopEvent::SessionClosed,
        LoopEvent::CooldownElapsed,
        LoopEvent::SessionOpened,
    ]);
    assert_eq!(
        actions,
        vec![
            LoopAction::LoadCursor,
            LoopAction::OpenSession,
            LoopAction::Fetch { low: 1 },
            LoopAction::PublishBatch { cursor: 1 },
            LoopAction::StoreCursor { value: 3 },
            LoopAction::Idle { deadline_seconds: 300 },
            LoopAction::CloseSession,
            LoopAction::Sleep { seconds: 10 },
            LoopAction::OpenSession,
            LoopAction::Fetch { low: 3 },
        ]
    );
    assert_eq!(state, LoopState { phase: Phase::Fetching, cursor: Some(3) });
}

#[test]
fn idle_client_timeout() {
    // The client leaves IDLE by itself; the loop fetches again, finds
    // nothing new, and idles again with the cursor where it was.
    let (state, actions) = run(&[
        LoopEvent::CursorLoaded(3),
        LoopEvent::SessionOpened,
        LoopEvent::Fetched,
        LoopEvent::BatchPublished(3),
        LoopEvent::CursorStored,
        LoopEvent::IdleEnded(IdleOutcome::ClientInterrupt),
        LoopEvent::SessionClosed,
        LoopEvent::CooldownElapsed,
        LoopEvent::SessionOpened,
        LoopEvent::Fetched,
        LoopEvent::BatchPublished(3),
        LoopEvent::CursorStored,
    ]);
    assert_eq!(actions[6], LoopAction::CloseSession);
    assert_eq!(actions[9], LoopAction::Fetch { low: 3 });
    assert_eq!(actions[10], LoopAction::PublishBatch { cursor: 3 });
    assert_eq!(actions[11], LoopAction::StoreCursor { value: 3 });
    assert_eq!(actions[12], LoopAction::Idle { deadline_seconds: 300 });
    assert_eq!(state, LoopState { phase: Phase::Idling, cursor: Some(3) });
    let mut outbox = Outbox::new(MemoryQueue::new());
    let report = publish_batch(&mut outbox, EMAIL, 3, &vec![]).unwrap();
    assert_eq!(report.cursor, 3);
    assert_eq!(uids(&outbox), Vec::<u32>::new());
}

#[test]
fn every_idle_outcome_leads_on() {
    let idling = LoopState { phase: Phase::Idling, cursor: Some(4) };
    for outcome in [IdleOutcome::NewData, IdleOutcome::ServerTimeout, IdleOutcome::ClientInterrupt] {
        let (next, action) = step(idling, LoopEvent::IdleEnded(outcome), &account());
        assert_eq!(action, LoopAction::CloseSession);
        assert_eq!(next, LoopState { phase: Phase::ClosingSession, cursor: Some(4) });
    }
}

#[test]
fn failures_lead_to_a_rest() {
    let a = account();
    let (s, act) = step(LoopState { phase: Phase::LoadingCursor, cursor: None }, LoopEvent::Failed, &a);
    assert_eq!((s.phase, act), (Phase::CoolingDown, LoopAction::Sleep { seconds: 10 }));
    let (s, act) = step(s, LoopEvent::CooldownElapsed, &a);
    assert_eq!((s.phase, act), (Phase::LoadingCursor, LoopAction::LoadCursor));
    let (s, act) = step(LoopState { phase: Phase::OpeningSession, cursor: Some(2) }, LoopEvent::Failed, &a);
    assert_eq!((s.phase, act), (Phase::CoolingDown, LoopAction::Sleep { seconds: 10 }));
    let (s, act) = step(s, LoopEvent::CooldownElapsed, &a);
    assert_eq!((s.phase, act), (Phase::OpeningSession, LoopAction::OpenSession));
    for phase in [Phase::Fetching, Phase::Publishing, Phase::StoringCursor, Phase::Idling] {
        let (s, act) = step(LoopState { phase, cursor: Some(2) }, LoopEvent::Failed, &a);
        assert_eq!((s.phase, s.cursor, act), (Phase::ClosingSession, Some(2), LoopAction::CloseSession));
        let (s, act) = step(s, LoopEvent::Failed, &a);
        assert_eq!((s.phase, s.cursor, act), (Phase::CoolingDown, Some(2), LoopAction::Sleep { seconds: 10 }));
    }
}

#[test]
fn unexpected_events_count_as_failures() {
    let a = account();
    let (s, act) = step(LoopState { phase: Phase::Fetching, cursor: Some(2) }, LoopEvent::BatchPublished(9), &a);
    assert_eq!((s.phase, s.cursor, act), (Phase::ClosingSession, Some(2), LoopAction::CloseSession));
    let (s, act) = step(LoopState { phase: Phase::CoolingDown, cursor: Some(2) }, LoopEvent::Fetched, &a);
    assert_eq!((s.phase, act), (Phase::CoolingDown, LoopAction::Sleep { seconds: 10 }));
}

#[test]
fn valid_states() {
    assert!(start().0.is_valid());
    assert!(LoopState { phase: Phase::CoolingDown, cursor: None }.is_valid());
    assert!(LoopState { phase: Phase::Idling, cursor: Some(1) }.is_valid());
    assert!(!LoopState { phase: Phase::Idling, cursor: None }.is_valid());
    assert!(!LoopState { phase: Phase::Idling, cursor: Some(0) }.is_valid());
    assert!(!LoopState { phase: Phase::LoadingCursor, cursor: Some(1) }.is_valid());
}

#[test]
fn loaded_cursor_zero_is_one_and_reports_never_lower_it() {
    let a = account();
    let (s, _) = step(LoopState { phase: Phase::LoadingCursor, cursor: None }, LoopEvent::CursorLoaded(0), &a);
    assert_eq!(s.cursor, Some(1));
    let (s, act) = step(LoopState { phase: Phase::Publishing, cursor: Some(7) }, LoopEvent::BatchPublished(5), &a);
    assert_eq!((s.cursor, act), (Some(7), LoopAction::StoreCursor { value: 7 }));
    let (s, act) = step(LoopState { phase: Phase::Publishing, cursor: Some(7) }, LoopEvent::BatchPublished(8), &a);
    assert_eq!((s.cursor, act), (Some(8), LoopAction::StoreCursor { value: 8 }));
}

#[test]
fn a_failed_store_keeps_the_new_cursor_in_mind() {
    // The batch was published up to 9, but the store failed: the next
    // round fetches from 9 on and asks to store 9 or more.
    let (state, actions) = run(&[
        LoopEvent::CursorLoaded(4),
        LoopEvent::SessionOpened,
        LoopEvent::Fetched,
        LoopEvent::BatchPublished(9),
        LoopEvent::Failed,
        LoopEvent::SessionClosed,
        LoopEvent::CooldownElapsed,
        LoopEvent::SessionOpened,
        LoopEvent::Fetched,
        LoopEvent::BatchPublished(9),
    ]);
    assert_eq!(actions[4], LoopAction::StoreCursor { value: 9 });
    assert_eq!(actions[5], LoopAction::CloseSession);
    assert_eq!(actions[6], LoopAction::Sleep { seconds: 10 });
    assert_eq!(actions[8], LoopAction::Fetch { low: 9 });
    assert_eq!(actions[10], LoopAction::StoreCursor { value: 9 });
    assert_eq!(state.cursor, Some(9));
}

#[test]
fn stored_cursors_never_fall_over_a_run() {
    let events = [
        LoopEvent::CursorLoaded(0),
        LoopEvent::SessionOpened,
        LoopEvent::Fetched,
        LoopEvent::BatchPublished(5),
        LoopEvent::CursorStored,
        LoopEvent::IdleEnded(IdleOutcome::ServerTimeout),
        LoopEvent::SessionClosed,
        LoopEvent::CooldownElapsed,
        LoopEvent::SessionOpened,
        LoopEvent::Fetched,
        LoopEvent::BatchPublished(2),
        LoopEvent::Failed,
        LoopEvent::Failed,
        LoopEvent::CooldownElapsed,
        LoopEvent::SessionOpened,
        LoopEvent::Fetched,
        LoopEvent::BatchPublished(6),
        LoopEvent::CursorStored,
    ];
    let (_, actions) = run(&events);
    let stored: Vec<u32> = actions
        .iter()
        .filter_map(|a| match a {
            LoopAction::StoreCursor { value } => Some(*value),
            _ => None,
        })
        .collect();
    assert_eq!(stored, vec![5, 5, 6]);
}
