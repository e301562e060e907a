use vstd::prelude::*;

use crate::ingest::{
    admissible, content_facts, ingest_synced, is_tagged_to, lemma_facts_decide, lemma_facts_record, lemma_read_keeps_ids,
    receipt_ids, record_of_message, whitelisted, DeliveryPath, Ingested, InboundMessage,
};
use crate::store::{ids_of, MessageRecord, MessageStore};

verus! {

/// How far back a first synchronisation reaches, in seconds.
pub const INITIAL_LOOKBACK_SECS: u64 = 86400;

/// Clock-skew allowance subtracted from a stored checkpoint, in seconds.
pub const SKEW_BUFFER_SECS: u64 = 5;

/// The watermark from which to fetch: a day before `now` when no checkpoint is stored
/// (a zero checkpoint), else the checkpoint less the skew buffer; both floored at zero.
pub open spec fn since_spec(checkpoint: u64, now: u64) -> u64 {
    if checkpoint == 0 {
        if now >= INITIAL_LOOKBACK_SECS {
            (now - INITIAL_LOOKBACK_SECS) as u64
        } else {
            0
        }
    } else if checkpoint >= SKEW_BUFFER_SECS {
        (checkpoint - SKEW_BUFFER_SECS) as u64
    } else {
        0
    }
}

/// The checkpoint after a pass that stored `inserted` new messages at `now`: it
/// advances only when something new was stored.
pub open spec fn next_checkpoint(prev: u64, now: u64, inserted: nat) -> u64 {
    if inserted > 0 {
        now
    } else {
        prev
    }
}

pub fn sync_since(checkpoint: u64, now: u64) -> (r: u64)
    ensures
        r == since_spec(checkpoint, now),
{
    if checkpoint == 0 {
        now.saturating_sub(INITIAL_LOOKBACK_SECS)
    } else {
        checkpoint.saturating_sub(SKEW_BUFFER_SECS)
    }
}

/// Bound on the first fetch of a pass, in seconds.
pub const FETCH_TIMEOUT_SECS: u64 = 15;

/// Pause before the one retry after a transport failure, in seconds.
pub const FETCH_RETRY_DELAY_SECS: u64 = 2;

/// Fetch attempts in one pass.
pub const FETCH_ATTEMPTS: u32 = 2;

/// How a fetch of Gift Wraps ended.
#[derive(Clone, Copy, Debug, PartialEq, Eq, Structural)]
pub enum FetchOutcome {
    Fetched,
    TransportError,
    TimedOut,
}

/// Why a synchronisation failed.
#[derive(Clone, Copy, Debug, PartialEq, Eq, Structural)]
pub enum SyncError {
    /// The fetch exceeded its time bound.
    Timeout,
    /// The fetch failed, also on its retry.
    FetchFailed,
}

/// What the caller does after a fetch attempt.
#[derive(Clone, Copy, Debug, PartialEq, Eq, Structural)]
pub enum FetchAction {
    /// Run the catch-up pass over what was fetched.
    Process,
    /// Wait this many seconds, then fetch again.
    RetryAfter(u64),
    /// Give up: the pass is not run, so the store and the checkpoint stay as they were.
    Fail(SyncError),
}

/// The decision after fetch attempt `attempt` (counted from 1): a transport failure is
/// retried once after two seconds; a timeout, or a second failure, fails the pass.
pub fn after_fetch(attempt: u32, outcome: FetchOutcome) -> (r: FetchAction)
    requires
        1 <= attempt <= FETCH_ATTEMPTS,
    ensures
        outcome == FetchOutcome::Fetched ==> r == FetchAction::Process,
        outcome == FetchOutcome::TimedOut ==> r == FetchAction::Fail(SyncError::Timeout),
        outcome == FetchOutcome::TransportError && attempt < FETCH_ATTEMPTS ==> r == FetchAction::RetryAfter(
            FETCH_RETRY_DELAY_SECS,
        ),
        outcome == FetchOutcome::TransportError && attempt == FETCH_ATTEMPTS ==> r == FetchAction::Fail(
            SyncError::FetchFailed,
        ),
{
    match outcome {
        FetchOutcome::Fetched => FetchAction::Process,
        FetchOutcome::TimedOut => FetchAction::Fail(SyncError::Timeout),
        FetchOutcome::TransportError => if attempt < FETCH_ATTEMPTS {
            FetchAction::RetryAfter(FETCH_RETRY_DELAY_SECS)
        } else {
            FetchAction::Fail(SyncError::FetchFailed)
        },
    }
}

/// A fetched Gift Wrap: its tags, and the unwrapped message where unwrapping succeeded.
pub struct FetchedEvent {
    pub tags: Vec<Vec<String>>,
    pub unwrapped: Option<InboundMessage>,
}

/// What a catch-up pass produced.
pub struct SyncReport {
    /// The newly stored messages, in the order they were stored.
    pub new_messages: Vec<MessageRecord>,
    /// The checkpoint to persist.
    pub checkpoint: u64,
}

pub open spec fn tagged_to(tags: Seq<Vec<String>>, me_hex: Seq<char>) -> bool {
    exists|i: int|
        0 <= i < tags.len() && #[trigger] tags[i]@.len() >= 2 && tags[i]@[0]@ == "p"@
            && tags[i]@[1]@ == me_hex
}

/// Whether a fetched event is one that a pass may store: tagged to us and unwrapped
/// into a message with this id.
pub open spec fn delivers(e: FetchedEvent, id: Seq<char>, me_hex: Seq<char>) -> bool {
    tagged_to(e.tags@, me_hex) && (e.unwrapped matches Some(m) && m.id@ == id)
}

/// Whether some event of `events` is tagged to `me_hex` and unwrapped into the message
/// of which `r` is the record for `me_npub`.
pub open spec fn produced_by(events: Seq<FetchedEvent>, r: MessageRecord, me_hex: Seq<char>, me_npub: Seq<char>) -> bool {
    exists|i: int|
        0 <= i < events.len() && tagged_to((#[trigger] events[i]).tags@, me_hex) && (
        events[i].unwrapped matches Some(m) && record_of_message(r, m, me_npub))
}

/// A record that a pass newly stored into `before`: its id was neither stored nor
/// tombstoned, its sender is us or a contact, and a fetched event produced it.
pub open spec fn new_record(
    before: MessageStore,
    r: MessageRecord,
    events: Seq<FetchedEvent>,
    me_hex: Seq<char>,
    me_npub: Seq<char>,
) -> bool {
    &&& !before.has_message(r.id@)
    &&& !before.is_tombstoned(r.id@)
    &&& whitelisted(before, r.sender@, me_npub)
    &&& produced_by(events, r, me_hex, me_npub)
}

/// Whether event `e` is tagged to `me_hex` and unwrapped into a message admissible in
/// `before`.
pub open spec fn admissible_event(before: MessageStore, e: FetchedEvent, me_hex: Seq<char>, me_npub: Seq<char>) -> bool {
    tagged_to(e.tags@, me_hex) && (e.unwrapped matches Some(m) && admissible(before, m, me_npub))
}

pub open spec fn unwrapped_id(e: FetchedEvent) -> Seq<char> {
    match e.unwrapped {
        Some(m) => m.id@,
        None => Seq::empty(),
    }
}

/// Runs one catch-up pass over fetched events at `now` (seconds): each event tagged to
/// `me_hex` that unwrapped is ingested as a synced message for `me_npub`, and the
/// checkpoint advances to `now` only if at least one message was newly stored.
pub fn sync_pass(
    store: &mut MessageStore,
    events: &Vec<FetchedEvent>,
    me_npub: &str,
    me_hex: &str,
    checkpoint: u64,
    now: u64,
) -> (r: SyncReport)
    requires
        old(store).wf(),
    ensures
        final(store).wf(),
        final(store).tombstones() == old(store).tombstones(),
        final(store).contacts() == old(store).contacts(),
        ids_of(final(store).messages()) == ids_of(old(store).messages()) + ids_of(r.new_messages@),
        forall|k: int|
            0 <= k < r.new_messages@.len() ==> #[trigger] new_record(
                *old(store),
                r.new_messages@[k],
                events@,
                me_hex@,
                me_npub@,
            ),
        forall|i: int|
            0 <= i < events@.len() && admissible_event(*old(store), #[trigger] events@[i], me_hex@, me_npub@)
                ==> ids_of(final(store).messages()).contains(unwrapped_id(events@[i])),
        r.checkpoint == next_checkpoint(checkpoint, now, r.new_messages@.len()),
{
    let mut out: Vec<MessageRecord> = Vec::new();
    let mut i: usize = 0;
    while i < events.len()
        invariant
            0 <= i <= events@.len(),
            store.wf(),
            store.tombstones() == old(store).tombstones(),
            store.contacts() == old(store).contacts(),
            ids_of(store.messages()) == ids_of(old(store).messages()) + ids_of(out@),
            forall|k: int|
                0 <= k < out@.len() ==> #[trigger] new_record(*old(store), out@[k], events@, me_hex@, me_npub@),
            forall|j: int|
                0 <= j < i && admissible_event(*old(store), #[trigger] events@[j], me_hex@, me_npub@)
                    ==> ids_of(store.messages()).contains(unwrapped_id(events@[j])),
        decreases events@.len() - i,
    {
        let e = &events[i];
        let ghost before = store.messages();
        let ghost before_store = *store;
        let ghost prev_out = out@;
        proof {
            assert forall|x: Seq<char>| #[trigger] before_store.is_contact(x) == old(store).is_contact(x) by {}
        }
        if is_tagged_to(&e.tags, me_hex) {
            match &e.unwrapped {
                Some(m) => {
                    let facts = content_facts(m.content.as_str());
                    let res = ingest_synced(store, m, &facts, me_npub);
                    proof {
                        lemma_facts_decide(before_store, *m, facts, me_npub@);
                        lemma_facts_decide(*old(store), *m, facts, me_npub@);
                    }
                    match res {
                        Ingested::Stored(rec) => {
                            proof {
                                lemma_facts_record(before_store, *m, facts, me_npub@, rec);
                                assert(ids_of(store.messages()) =~= ids_of(before).push(rec.id@));
                                assert(!ids_of(old(store).messages()).contains(rec.id@)) by {
                                    if ids_of(old(store).messages()).contains(rec.id@) {
                                        let k = choose|k: int|
                                            0 <= k < ids_of(old(store).messages()).len() && ids_of(
                                                old(store).messages(),
                                            )[k] == rec.id@;
                                        assert(ids_of(before)[k] == rec.id@);
                                    }
                                }
                                assert(tagged_to(events@[i as int].tags@, me_hex@));
                                assert(produced_by(events@, rec, me_hex@, me_npub@));
                                assert(new_record(*old(store), rec, events@, me_hex@, me_npub@));
                            }
                            out.push(rec);
                            proof {
                                assert(ids_of(out@) =~= ids_of(prev_out).push(out@[out@.len() - 1].id@));
                                assert forall|k: int| 0 <= k < out@.len() implies #[trigger] new_record(
                                    *old(store),
                                    out@[k],
                                    events@,
                                    me_hex@,
                                    me_npub@,
                                ) by {
                                    if k < prev_out.len() {
                                        assert(out@[k] == prev_out[k]);
                                    }
                                }
                                assert(ids_of(store.messages())[before.len() as int] == m.id@);
                            }
                        },
                        Ingested::ReadReceipt(_) => {
                            proof {
                                lemma_read_keeps_ids(before, store.messages(), receipt_ids(facts.control, DeliveryPath::CatchUp));
                            }
                        },
                        _ => {
                            proof {
                                if admissible(*old(store), *m, me_npub@) {
                                    assert(before_store.has_message(m.id@));
                                }
                            }
                        },
                    }
                    proof {
                        if admissible(*old(store), *m, me_npub@) {
                            assert(ids_of(store.messages()).contains(m.id@));
                        }
                    }
                },
                None => {},
            }
        }
        proof {
            assert forall|j: int|
                0 <= j < i + 1 && admissible_event(*old(store), #[trigger] events@[j], me_hex@, me_npub@)
                    implies ids_of(store.messages()).contains(unwrapped_id(events@[j])) by {
                if j < i {
                    let id = unwrapped_id(events@[j]);
                    assert(ids_of(before).contains(id));
                    let k = choose|k: int| 0 <= k < ids_of(before).len() && ids_of(before)[k] == id;
                    assert(ids_of(store.messages()).len() >= ids_of(before).len());
                    assert(ids_of(store.messages())[k] == id);
                }
            }
        }
        i += 1;
    }
    let next = if out.len() > 0 {
        now
    } else {
        checkpoint
    };
    SyncReport { new_messages: out, checkpoint: next }
}

/// A pass that stores nothing leaves the checkpoint where it was, so any number of
/// consecutive idle passes keep the prior watermark.
pub proof fn law_idle_sync_keeps_checkpoint(checkpoint: u64, now1: u64, now2: u64)
    ensures
        next_checkpoint(next_checkpoint(checkpoint, now1, 0), now2, 0) == checkpoint,
{
}

/// A pass over a single fetched event that is admissible stores exactly that message:
/// one new record, the message's record, and the checkpoint moves to `now`.
pub proof fn law_single_admissible_event(
    before: MessageStore,
    after: MessageStore,
    events: Seq<FetchedEvent>,
    r: SyncReport,
    me_hex: Seq<char>,
    me_npub: Seq<char>,
    checkpoint: u64,
    now: u64,
)
    requires
        after.wf(),
        events.len() == 1,
        admissible_event(before, events[0], me_hex, me_npub),
        ids_of(after.messages()) == ids_of(before.messages()) + ids_of(r.new_messages@),
        forall|k: int|
            0 <= k < r.new_messages@.len() ==> #[trigger] new_record(before, r.new_messages@[k], events, me_hex, me_npub),
        forall|i: int|
            0 <= i < events.len() && admissible_event(before, #[trigger] events[i], me_hex, me_npub)
                ==> ids_of(after.messages()).contains(unwrapped_id(events[i])),
        r.checkpoint == next_checkpoint(checkpoint, now, r.new_messages@.len()),
    ensures
        r.new_messages@.len() == 1,
        events[0].unwrapped matches Some(m) && record_of_message(r.new_messages@[0], m, me_npub),
        r.checkpoint == now,
{
    let m = events[0].unwrapped.unwrap();
    let n = before.messages().len();
    let all = ids_of(after.messages());
    assert(all.contains(m.id@));
    let k = choose|k: int| 0 <= k < all.len() && all[k] == m.id@;
    if k < n {
        assert(ids_of(before.messages())[k] == m.id@);
    }
    assert(r.new_messages@.len() >= 1) by {
        if r.new_messages@.len() == 0 {
            assert(all.len() == n);
        }
    }
    assert forall|a: int| 0 <= a < r.new_messages@.len() implies (#[trigger] r.new_messages@[a]).id@ == m.id@ by {
        assert(new_record(before, r.new_messages@[a], events, me_hex, me_npub));
        let j = choose|j: int|
            0 <= j < events.len() && tagged_to((#[trigger] events[j]).tags@, me_hex) && (
            events[j].unwrapped matches Some(mm) && record_of_message(r.new_messages@[a], mm, me_npub));
        assert(j == 0);
    }
    if r.new_messages@.len() > 1 {
        assert(all[n as int] == r.new_messages@[0].id@);
        assert(all[n as int + 1] == r.new_messages@[1].id@);
    }
    assert(new_record(before, r.new_messages@[0], events, me_hex, me_npub));
    let j = choose|j: int|
        0 <= j < events.len() && tagged_to((#[trigger] events[j]).tags@, me_hex) && (
        events[j].unwrapped matches Some(mm) && record_of_message(r.new_messages@[0], mm, me_npub));
    assert(j == 0);
}

} // verus!
