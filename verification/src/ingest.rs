//! One batch of fetched messages: what is published from it, in what
//! order, and where the cursor stands afterwards.

use crate::cycle::{LoopAction, LoopEvent};
use crate::parsers::{parse_message, parsed, EmailMessageView, RawFetch};
use crate::queue::{Outbox, Queue, QueueError, QueueMessage, QueueMessageView};
use crate::store::{CursorRead, CursorWrite, Ledger, Store};
use vstd::prelude::*;

verus! {

/// The messages of a batch that are published, in the order of the batch:
/// those that parse and whose UID is not below the cursor.
pub open spec fn batch_messages(email: Seq<char>, cursor: u32, raws: Seq<RawFetch>) -> Seq<
    EmailMessageView,
>
    decreases raws.len(),
{
    if raws.len() == 0 {
        Seq::empty()
    } else {
        let before = batch_messages(email, cursor, raws.drop_last());
        match parsed(email, raws.last()) {
            Some(m) => if m.seq_id >= cursor {
                before.push(m)
            } else {
                before
            },
            None => before,
        }
    }
}

/// How many fetches of a batch do not parse.
pub open spec fn batch_skipped(email: Seq<char>, raws: Seq<RawFetch>) -> nat
    decreases raws.len(),
{
    if raws.len() == 0 {
        0
    } else {
        let before = batch_skipped(email, raws.drop_last());
        if parsed(email, raws.last()) is None {
            before + 1
        } else {
            before
        }
    }
}

/// How many fetches of a batch parse but lie below the cursor.
pub open spec fn batch_stale(email: Seq<char>, cursor: u32, raws: Seq<RawFetch>) -> nat
    decreases raws.len(),
{
    if raws.len() == 0 {
        0
    } else {
        let before = batch_stale(email, cursor, raws.drop_last());
        match parsed(email, raws.last()) {
            Some(m) => if m.seq_id < cursor {
                before + 1
            } else {
                before
            },
            None => before,
        }
    }
}

/// The larger of the cursor and the UIDs of `messages`.
pub open spec fn highest(cursor: u32, messages: Seq<EmailMessageView>) -> u32
    decreases messages.len(),
{
    if messages.len() == 0 {
        cursor
    } else {
        let before = highest(cursor, messages.drop_last());
        if messages.last().seq_id > before {
            messages.last().seq_id
        } else {
            before
        }
    }
}

/// Where the cursor stands after a batch: at the largest UID published, and
/// where it was if nothing was published.
pub open spec fn batch_cursor(email: Seq<char>, cursor: u32, raws: Seq<RawFetch>) -> u32 {
    highest(cursor, batch_messages(email, cursor, raws))
}

/// Each message wrapped for the queue.
pub open spec fn queued(messages: Seq<EmailMessageView>) -> Seq<QueueMessageView> {
    messages.map_values(|m: EmailMessageView| QueueMessageView { email_message: m })
}

/// What is to be done with a batch.
pub struct BatchPlan {
    /// The messages to publish, in order.
    pub messages: Vec<QueueMessage>,
    /// The cursor to store once all of them are published.
    pub cursor: u32,
    /// How many fetches did not parse.
    pub skipped: usize,
    /// How many messages lie below the cursor and are not published again.
    pub stale: usize,
}

/// What was done with a batch.
#[derive(Clone, Copy, Debug, PartialEq, Eq)]
pub struct BatchReport {
    /// The cursor to store now that the batch is published.
    pub cursor: u32,
    /// How many messages were published.
    pub published: usize,
    /// How many fetches did not parse.
    pub skipped: usize,
    /// How many messages lay below the cursor.
    pub stale: usize,
}

/// What each message of a list holds, wrapped as the list wraps it.
pub open spec fn planned(v: Seq<QueueMessage>) -> Seq<QueueMessageView> {
    v.map_values(|m: QueueMessage| m@)
}

/// Decides what to do with a batch fetched for the account `email` from
/// `cursor` on.
///
/// Every fetch is parsed. One that does not parse is counted as skipped,
/// one whose UID is below the cursor as stale; the others are to be
/// published, in the order in which they came. The new cursor is the
/// largest UID among them, and the old one if there is none.
pub fn plan_batch(email: &str, cursor: u32, raws: &Vec<RawFetch>) -> (plan: BatchPlan)
    ensures
        planned(plan.messages@) == queued(batch_messages(email@, cursor, raws@)),
        plan.messages@.len() == batch_messages(email@, cursor, raws@).len(),
        plan.cursor == batch_cursor(email@, cursor, raws@),
        plan.skipped == batch_skipped(email@, raws@),
        plan.stale == batch_stale(email@, cursor, raws@),
        plan.cursor >= cursor,
{
    let mut messages: Vec<QueueMessage> = Vec::new();
    let mut highest_seen: u32 = cursor;
    let mut skipped: usize = 0;
    let mut stale: usize = 0;
    let mut i: usize = 0;
    while i < raws.len()
        invariant
            i <= raws.len(),
            planned(messages@) == queued(batch_messages(email@, cursor, raws@.take(i as int))),
            highest_seen == batch_cursor(email@, cursor, raws@.take(i as int)),
            skipped == batch_skipped(email@, raws@.take(i as int)),
            stale == batch_stale(email@, cursor, raws@.take(i as int)),
            skipped + stale <= i,
            highest_seen >= cursor,
        decreases raws.len() - i,
    {
        let ghost before = messages@;
        let ghost seen = batch_messages(email@, cursor, raws@.take(i as int));
        assert(raws@.take(i + 1).drop_last() =~= raws@.take(i as int));
        assert(raws@.take(i + 1).last() == raws@[i as int]);
        match parse_message(email, &raws[i]) {
            Some(m) => {
                if m.seq_id >= cursor {
                    if m.seq_id > highest_seen {
                        highest_seen = m.seq_id;
                    }
                    let ghost view = m@;
                    messages.push(QueueMessage { email_message: m });
                    assert(seen.push(view).drop_last() =~= seen);
                    assert(planned(messages@) =~= planned(before).push(
                        QueueMessageView { email_message: view },
                    ));
                    assert(queued(seen.push(view)) =~= queued(seen).push(
                        QueueMessageView { email_message: view },
                    ));
                } else {
                    stale = stale + 1;
                }
            },
            None => {
                skipped = skipped + 1;
            },
        }
        i = i + 1;
    }
    assert(raws@.take(i as int) =~= raws@);
    BatchPlan { messages, cursor: highest_seen, skipped, stale }
}

/// Publishes the messages of a plan, in order, and stops at the first that
/// the queue refuses.
///
/// Each message is handed to the queue at most once, and none after a
/// refusal. Where all are taken, both records of the outbox have grown by
/// exactly these messages. Where one is refused, the record of what was
/// taken has grown by those before it, and the record of what was handed
/// over by those and the refused one.
pub fn publish_all<Q: Queue>(outbox: &mut Outbox<Q>, messages: &Vec<QueueMessage>) -> (r: Result<
    (),
    QueueError,
>)
    ensures
        r is Ok ==> {
            &&& final(outbox).taken() == old(outbox).taken() + planned(messages@)
            &&& final(outbox).offered() == old(outbox).offered() + planned(messages@)
        },
        r is Err ==> exists|k: int|
            {
                &&& 0 <= k < messages@.len()
                &&& final(outbox).taken() == old(outbox).taken() + #[trigger] planned(
                    messages@,
                ).take(k)
                &&& final(outbox).offered() == old(outbox).offered() + planned(messages@).take(
                    k + 1,
                )
            },
{
    let mut i: usize = 0;
    while i < messages.len()
        invariant
            i <= messages.len(),
            outbox.taken() == old(outbox).taken() + planned(messages@).take(i as int),
            outbox.offered() == old(outbox).offered() + planned(messages@).take(i as int),
        decreases messages.len() - i,
    {
        let r = outbox.publish(messages[i].clone());
        assert(planned(messages@).take(i + 1) =~= planned(messages@).take(i as int).push(
            messages@[i as int]@,
        ));
        assert(outbox.offered() =~= old(outbox).offered() + planned(messages@).take(i + 1));
        match r {
            Ok(()) => {
                assert(outbox.taken() =~= old(outbox).taken() + planned(messages@).take(i + 1));
            },
            Err(e) => {
                return Err(e);
            },
        }
        i = i + 1;
    }
    assert(planned(messages@).take(i as int) =~= planned(messages@));
    Ok(())
}

/// Handles one batch fetched for the account `email` from `cursor` on:
/// publishes what is to be published and says where the cursor now stands.
///
/// Where it succeeds, every message of the batch that parses and is not
/// below the cursor was handed to the queue exactly once, in the order of
/// the batch, and the queue took each; the cursor of the report is the one
/// to store, and it is not below the old one. Where the queue refuses a
/// message, the messages before it were taken, nothing was handed over
/// after it, and there is no cursor to store.
pub fn publish_batch<Q: Queue>(
    outbox: &mut Outbox<Q>,
    email: &str,
    cursor: u32,
    raws: &Vec<RawFetch>,
) -> (r: Result<BatchReport, QueueError>)
    ensures
        r matches Ok(report) ==> {
            &&& final(outbox).taken() == old(outbox).taken() + queued(
                batch_messages(email@, cursor, raws@),
            )
            &&& final(outbox).offered() == old(outbox).offered() + queued(
                batch_messages(email@, cursor, raws@),
            )
            &&& report.cursor == batch_cursor(email@, cursor, raws@)
            &&& report.cursor >= cursor
            &&& report.published == batch_messages(email@, cursor, raws@).len()
            &&& report.skipped == batch_skipped(email@, raws@)
            &&& report.stale == batch_stale(email@, cursor, raws@)
        },
        r is Err ==> exists|k: int|
            {
                &&& 0 <= k < batch_messages(email@, cursor, raws@).len()
                &&& final(outbox).taken() == old(outbox).taken() + #[trigger] queued(
                    batch_messages(email@, cursor, raws@),
                ).take(k)
                &&& final(outbox).offered() == old(outbox).offered() + queued(
                    batch_messages(email@, cursor, raws@),
                ).take(k + 1)
            },
{
    let plan = plan_batch(email, cursor, raws);
    match publish_all(outbox, &plan.messages) {
        Ok(()) => Ok(
            BatchReport {
                cursor: plan.cursor,
                published: plan.messages.len(),
                skipped: plan.skipped,
                stale: plan.stale,
            },
        ),
        Err(e) => Err(e),
    }
}

/// The cursor that an event of loading carries, if it carries one.
pub open spec fn loaded_cursor(event: LoopEvent) -> Option<u32> {
    match event {
        LoopEvent::CursorLoaded(v) => Some(v),
        _ => None,
    }
}

/// Carries out what the loop asks of the store and of the queue, and says
/// what came of it; what it asks of the session and of the clock is left to
/// the caller, and then nothing is touched and `None` is returned.
///
/// To load the cursor is to ask the store for the cursor of `email`, once:
/// the event carries the cursor that the store gave, and is `Failed` where
/// it gave none. To store a cursor is to hand it to the store for `email`,
/// once: the event is `CursorStored` where the store says that it has
/// stored it, and `Failed` where not. To publish a batch is to publish
/// `raws`, the batch that was fetched, for the account `email`: where every
/// message is taken, the event carries the cursor to store; where the
/// queue refuses one, the event is `Failed`.
pub fn perform<S: Store, Q: Queue>(
    action: LoopAction,
    ledger: &mut Ledger<S>,
    outbox: &mut Outbox<Q>,
    email: &str,
    raws: &Vec<RawFetch>,
) -> (r: Option<LoopEvent>)
    ensures
        match action {
            LoopAction::LoadCursor => {
                &&& r matches Some(event) && (event is CursorLoaded || event is Failed)
                &&& final(ledger).reads() == old(ledger).reads().push(
                    CursorRead { email: email@, answer: loaded_cursor(r->0) },
                )
                &&& final(ledger).asked() == old(ledger).asked()
                &&& final(ledger).stored() == old(ledger).stored()
                &&& final(outbox).taken() == old(outbox).taken()
                &&& final(outbox).offered() == old(outbox).offered()
            },
            LoopAction::PublishBatch { cursor } => {
                &&& final(ledger).same_records(old(ledger))
                &&& match r {
                    Some(LoopEvent::BatchPublished(value)) => {
                        &&& value == batch_cursor(email@, cursor, raws@)
                        &&& final(outbox).taken() == old(outbox).taken() + queued(
                            batch_messages(email@, cursor, raws@),
                        )
                        &&& final(outbox).offered() == old(outbox).offered() + queued(
                            batch_messages(email@, cursor, raws@),
                        )
                    },
                    Some(LoopEvent::Failed) => exists|k: int|
                        {
                            &&& 0 <= k < batch_messages(email@, cursor, raws@).len()
                            &&& final(outbox).taken() == old(outbox).taken() + #[trigger] queued(
                                batch_messages(email@, cursor, raws@),
                            ).take(k)
                            &&& final(outbox).offered() == old(outbox).offered() + queued(
                                batch_messages(email@, cursor, raws@),
                            ).take(k + 1)
                        },
                    _ => false,
                }
            },
            LoopAction::StoreCursor { value } => {
                &&& r matches Some(event) && (event is CursorStored || event is Failed)
                &&& final(ledger).asked() == old(ledger).asked().push(
                    CursorWrite { email: email@, value },
                )
                &&& r == Some(LoopEvent::CursorStored) ==> final(ledger).stored() == old(
                    ledger,
                ).stored().push(CursorWrite { email: email@, value })
                &&& r == Some(LoopEvent::Failed) ==> final(ledger).stored() == old(
                    ledger,
                ).stored()
                &&& final(ledger).reads() == old(ledger).reads()
                &&& final(outbox).taken() == old(outbox).taken()
                &&& final(outbox).offered() == old(outbox).offered()
            },
            _ => {
                &&& r is None
                &&& final(ledger).same_records(old(ledger))
                &&& final(outbox).taken() == old(outbox).taken()
                &&& final(outbox).offered() == old(outbox).offered()
            },
        },
{
    match action {
        LoopAction::LoadCursor => match ledger.load_last_sequence(email) {
            Ok(cursor) => Some(LoopEvent::CursorLoaded(cursor)),
            Err(_) => Some(LoopEvent::Failed),
        },
        LoopAction::PublishBatch { cursor } => match publish_batch(outbox, email, cursor, raws) {
            Ok(report) => Some(LoopEvent::BatchPublished(report.cursor)),
            Err(_) => Some(LoopEvent::Failed),
        },
        LoopAction::StoreCursor { value } => match ledger.store_last_sequence(email, value) {
            Ok(()) => Some(LoopEvent::CursorStored),
            Err(_) => Some(LoopEvent::Failed),
        },
        _ => None,
    }
}

/// Every fetch of a batch is accounted for once: it is published, skipped
/// or stale.
pub proof fn lemma_batch_accounts_for_every_fetch(
    email: Seq<char>,
    cursor: u32,
    raws: Seq<RawFetch>,
)
    ensures
        batch_messages(email, cursor, raws).len() + batch_skipped(email, raws) + batch_stale(
            email,
            cursor,
            raws,
        ) == raws.len(),
    decreases raws.len(),
{
    if raws.len() > 0 {
        lemma_batch_accounts_for_every_fetch(email, cursor, raws.drop_last());
    }
}

/// The cursor after a batch is not below the cursor before it, and not
/// below the UID of any message that the batch publishes; and it is the
/// old cursor or one of these UIDs.
pub proof fn lemma_highest(cursor: u32, messages: Seq<EmailMessageView>)
    ensures
        highest(cursor, messages) >= cursor,
        forall|i: int| 0 <= i < messages.len() ==> (#[trigger] messages[i]).seq_id <= highest(
            cursor,
            messages,
        ),
        highest(cursor, messages) == cursor || exists|i: int|
            0 <= i < messages.len() && (#[trigger] messages[i]).seq_id == highest(
                cursor,
                messages,
            ),
    decreases messages.len(),
{
    if messages.len() > 0 {
        let front = messages.drop_last();
        lemma_highest(cursor, front);
        assert forall|i: int| 0 <= i < messages.len() implies (#[trigger] messages[i]).seq_id
            <= highest(cursor, messages) by {
            if i < front.len() {
                assert(front[i] == messages[i]);
            }
        }
        if highest(cursor, messages) != cursor {
            if highest(cursor, messages) == messages.last().seq_id {
                assert(messages[messages.len() - 1].seq_id == highest(cursor, messages));
            } else {
                let i = choose|i: int|
                    0 <= i < front.len() && (#[trigger] front[i]).seq_id == highest(cursor, front);
                assert(messages[i].seq_id == highest(cursor, messages));
            }
        }
    }
}

/// The cursor never falls over a batch, and is never behind a message that
/// the batch publishes.
pub proof fn lemma_batch_cursor_covers_published(
    email: Seq<char>,
    cursor: u32,
    raws: Seq<RawFetch>,
)
    ensures
        batch_cursor(email, cursor, raws) >= cursor,
        forall|i: int|
            0 <= i < batch_messages(email, cursor, raws).len() ==> cursor <= (
            #[trigger] batch_messages(email, cursor, raws)[i]).seq_id <= batch_cursor(
                email,
                cursor,
                raws,
            ),
{
    lemma_highest(cursor, batch_messages(email, cursor, raws));
    lemma_published_not_below_cursor(email, cursor, raws);
}

/// No published message lies below the cursor that the batch was fetched
/// from.
pub proof fn lemma_published_not_below_cursor(email: Seq<char>, cursor: u32, raws: Seq<RawFetch>)
    ensures
        forall|i: int|
            0 <= i < batch_messages(email, cursor, raws).len() ==> (#[trigger] batch_messages(
                email,
                cursor,
                raws,
            )[i]).seq_id >= cursor,
    decreases raws.len(),
{
    if raws.len() > 0 {
        let front = batch_messages(email, cursor, raws.drop_last());
        let all = batch_messages(email, cursor, raws);
        lemma_published_not_below_cursor(email, cursor, raws.drop_last());
        assert forall|i: int| 0 <= i < all.len() implies (#[trigger] all[i]).seq_id >= cursor by {
            if i < front.len() {
                assert(all[i] == front[i]);
            }
        }
    }
}

/// A fetch that does not parse leaves no trace: with it or without it, the
/// batch publishes the same messages and ends at the same cursor.
pub proof fn lemma_skipped_fetch_leaves_no_trace(
    email: Seq<char>,
    cursor: u32,
    raws: Seq<RawFetch>,
    i: int,
)
    requires
        0 <= i < raws.len(),
        parsed(email, raws[i]) is None,
    ensures
        batch_messages(email, cursor, raws) == batch_messages(email, cursor, raws.remove(i)),
        batch_cursor(email, cursor, raws) == batch_cursor(email, cursor, raws.remove(i)),
    decreases raws.len(),
{
    if i == raws.len() - 1 {
        assert(raws.remove(i) =~= raws.drop_last());
    } else {
        lemma_skipped_fetch_leaves_no_trace(email, cursor, raws.drop_last(), i);
        assert(raws.remove(i).drop_last() =~= raws.drop_last().remove(i));
        assert(raws.remove(i).last() == raws.last());
    }
}

/// A batch in which nothing parses, and so an empty one, publishes nothing
/// and leaves the cursor where it was.
pub proof fn lemma_nothing_to_publish(email: Seq<char>, cursor: u32, raws: Seq<RawFetch>)
    requires
        forall|i: int| 0 <= i < raws.len() ==> parsed(email, #[trigger] raws[i]) is None,
    ensures
        batch_messages(email, cursor, raws).len() == 0,
        batch_cursor(email, cursor, raws) == cursor,
    decreases raws.len(),
{
    if raws.len() > 0 {
        lemma_nothing_to_publish(email, cursor, raws.drop_last());
    }
}

} // verus!
