use ostia_core::ingest::{
    apply_profile_metadata, content_facts, ingest_live, ingest_synced, is_tagged_to, InboundMessage, Ingested,
};
use ostia_core::ratelimit::RateLimiter;
use ostia_core::store::{ContactRecord, MessageStore};
use ostia_core::records::KeyHolder;
use ostia_core::sync::{after_fetch, sync_pass, sync_since, FetchAction, FetchOutcome, FetchedEvent, SyncError};

const ME: &str = "npub1me";
const ME_HEX: &str = "abcdef0123";
const ALICE: &str = "npub1alice";

fn store_with_alice() -> MessageStore {
    let mut s = MessageStore::new();
    s.add_contact(ContactRecord {
        npub: ALICE.to_string(),
        name: None,
        display_name: None,
        picture: None,
        blocked: false,
        remark: None,
    });
    s
}

fn msg(id: &str, sender: &str, content: &str) -> InboundMessage {
    InboundMessage { id: id.to_string(), sender: sender.to_string(), content: content.to_string(), timestamp: 1700000000 }
}

fn tagged(m: InboundMessage) -> FetchedEvent {
    FetchedEvent { tags: vec![vec!["p".to_string(), ME_HEX.to_string()]], unwrapped: Some(m) }
}

#[test]
fn same_id_twice_is_stored_once() {
    let mut s = store_with_alice();
    let mut lim = RateLimiter::new();
    let m = msg("e1", ALICE, "hello");
    let f = content_facts(&m.content);
    assert!(matches!(ingest_live(&mut s, &mut lim, &m, &f, ME, 0), Ingested::Stored(_)));
    assert!(matches!(ingest_live(&mut s, &mut lim, &m, &f, ME, 1), Ingested::AlreadyStored));
    assert!(matches!(ingest_synced(&mut s, &m, &f, ME), Ingested::AlreadyStored));
    assert_eq!(s.message_count(), 1);
}

#[test]
fn tombstoned_id_is_never_stored() {
    let mut s = store_with_alice();
    s.add_deleted_event("e2");
    let mut lim = RateLimiter::new();
    let m = msg("e2", ALICE, "hello");
    let f = content_facts(&m.content);
    assert!(matches!(ingest_live(&mut s, &mut lim, &m, &f, ME, 0), Ingested::Tombstoned));
    assert!(matches!(ingest_synced(&mut s, &m, &f, ME), Ingested::Tombstoned));
    assert_eq!(s.message_count(), 0);
}

#[test]
fn unknown_sender_leaves_store_unchanged() {
    let mut s = store_with_alice();
    let mut lim = RateLimiter::new();
    let m = msg("e3", "npub1stranger", "hello");
    let f = content_facts(&m.content);
    assert!(matches!(ingest_live(&mut s, &mut lim, &m, &f, ME, 0), Ingested::UnknownSender));
    assert!(matches!(ingest_synced(&mut s, &m, &f, ME), Ingested::UnknownSender));
    assert_eq!(s.message_count(), 0);
    let own = msg("e4", ME, "note to self");
    let f = content_facts(&own.content);
    assert!(matches!(ingest_synced(&mut s, &own, &f, ME), Ingested::Stored(_)));
}

#[test]
fn twenty_per_ten_seconds() {
    let mut lim = RateLimiter::new();
    for i in 0..19u64 {
        assert!(lim.check_and_update(ALICE, i * 100), "message {} accepted", i + 1);
    }
    assert!(lim.check_and_update(ALICE, 1900), "20th accepted");
    assert!(!lim.check_and_update(ALICE, 2000), "21st dropped");
    assert!(lim.check_and_update("npub1other", 2000), "other senders unaffected");
    assert!(lim.check_and_update(ALICE, 10000), "window slides");
}

#[test]
fn rate_limit_applies_to_live_data_only() {
    let mut s = store_with_alice();
    let mut lim = RateLimiter::new();
    for i in 0..20u64 {
        assert!(lim.check_and_update(ALICE, i));
    }
    let m = msg("e5", ALICE, "flood");
    let f = content_facts(&m.content);
    assert!(matches!(ingest_live(&mut s, &mut lim, &m, &f, ME, 30), Ingested::RateLimited));
    let typing = msg("e6", ALICE, "{\"v\":1,\"type\":\"typing\",\"typing\":true}");
    let f = content_facts(&typing.content);
    assert!(matches!(ingest_live(&mut s, &mut lim, &typing, &f, ME, 31), Ingested::Typing(Some(true))));
    let m = msg("e5", ALICE, "flood");
    let f = content_facts(&m.content);
    assert!(matches!(ingest_synced(&mut s, &m, &f, ME), Ingested::Stored(_)));
}

#[test]
fn content_checks() {
    let mut s = store_with_alice();
    let mut lim = RateLimiter::new();
    let blank = msg("e7", ALICE, "   \n ");
    let f = content_facts(&blank.content);
    assert!(matches!(ingest_live(&mut s, &mut lim, &blank, &f, ME, 0), Ingested::EmptyContent));
    let big = msg("e8", ALICE, &"x".repeat(65537));
    let f = content_facts(&big.content);
    assert!(matches!(ingest_live(&mut s, &mut lim, &big, &f, ME, 0), Ingested::TooLarge));
    let edge = msg("e9", ALICE, &"x".repeat(65536));
    let f = content_facts(&edge.content);
    assert!(matches!(ingest_live(&mut s, &mut lim, &edge, &f, ME, 0), Ingested::Stored(_)));
}

#[test]
fn read_receipts_mark_messages() {
    let mut s = store_with_alice();
    let mut lim = RateLimiter::new();
    let m = msg("m1", ALICE, "hi");
    let f = content_facts(&m.content);
    ingest_live(&mut s, &mut lim, &m, &f, ME, 0);
    let r = msg("r1", ALICE, "{\"v\":1,\"type\":\"read_receipt\",\"messageIds\":[\"m1\", 5]}");
    let f = content_facts(&r.content);
    match ingest_live(&mut s, &mut lim, &r, &f, ME, 1) {
        Ingested::ReadReceipt(ids) => assert_eq!(ids, vec!["m1".to_string()]),
        _ => panic!("expected a read receipt"),
    }
    assert_eq!(s.message_at(0).status, "read");
    assert_eq!(s.message_count(), 1);
}

#[test]
fn synced_read_receipt_prefers_single_id() {
    let mut s = store_with_alice();
    let m = msg("m2", ALICE, "hi");
    let f = content_facts(&m.content);
    ingest_synced(&mut s, &m, &f, ME);
    let r = msg("r2", ALICE, "{\"type\":\"read_receipt\",\"messageId\":\"m2\",\"messageIds\":[\"zz\"]}");
    let f = content_facts(&r.content);
    match ingest_synced(&mut s, &r, &f, ME) {
        Ingested::ReadReceipt(ids) => assert_eq!(ids, vec!["m2".to_string()]),
        _ => panic!("expected a read receipt"),
    }
    assert_eq!(s.message_at(0).status, "read");
}

#[test]
fn presence_and_unknown_control() {
    let mut s = store_with_alice();
    let mut lim = RateLimiter::new();
    let p = msg("p1", ALICE, "{\"v\":1,\"type\":\"presence\",\"online\":false,\"lastSeen\":42}");
    let f = content_facts(&p.content);
    assert!(matches!(ingest_live(&mut s, &mut lim, &p, &f, ME, 0), Ingested::Presence(Some(false), 42)));
    let v2 = msg("p2", ALICE, "{\"v\":2,\"type\":\"typing\"}");
    let f = content_facts(&v2.content);
    assert!(matches!(ingest_live(&mut s, &mut lim, &v2, &f, ME, 0), Ingested::Stored(_)));
    let other = msg("p3", ALICE, "{\"v\":1,\"type\":\"reaction\"}");
    let f = content_facts(&other.content);
    assert!(matches!(ingest_live(&mut s, &mut lim, &other, &f, ME, 0), Ingested::Stored(_)));
}

#[test]
fn image_classification() {
    let mut s = store_with_alice();
    let mut lim = RateLimiter::new();
    let marked = msg("i1", ALICE, "  📷 Image: https://m.example/a.bin#key=1&nonce=2 ");
    let f = content_facts(&marked.content);
    match ingest_live(&mut s, &mut lim, &marked, &f, ME, 0) {
        Ingested::Stored(r) => {
            assert_eq!(r.message_type, "image");
            assert_eq!(r.media_url.as_deref(), Some("https://m.example/a.bin#key=1&nonce=2"));
            assert_eq!(r.content, "📷 Image: https://m.example/a.bin#key=1&nonce=2");
        }
        _ => panic!("expected a stored image"),
    }
    let raw = msg("i2", ALICE, "https://m.example/Photo.JPEG?x=1");
    let f = content_facts(&raw.content);
    match ingest_live(&mut s, &mut lim, &raw, &f, ME, 0) {
        Ingested::Stored(r) => {
            assert_eq!(r.message_type, "image");
            assert_eq!(r.media_url.as_deref(), Some("https://m.example/Photo.JPEG?x=1"));
        }
        _ => panic!("expected a stored image"),
    }
    let text = msg("i3", ALICE, "https://m.example/page.html");
    let f = content_facts(&text.content);
    match ingest_live(&mut s, &mut lim, &text, &f, ME, 0) {
        Ingested::Stored(r) => {
            assert_eq!(r.message_type, "text");
            assert_eq!(r.media_url, None);
            assert_eq!(r.status, "received");
            assert_eq!(r.receiver, ME);
        }
        _ => panic!("expected stored text"),
    }
}

#[test]
fn tags_addressed_to_me() {
    let tags = vec![vec!["e".to_string(), "x".to_string()], vec!["p".to_string(), ME_HEX.to_string()]];
    assert!(is_tagged_to(&tags, ME_HEX));
    assert!(!is_tagged_to(&tags, "ffff"));
    assert!(!is_tagged_to(&vec![vec!["p".to_string()]], ME_HEX));
}

#[test]
fn sync_of_one_message_from_a_contact() {
    let mut b = store_with_alice();
    let events = vec![tagged(msg("g1", ALICE, "hi"))];
    let report = sync_pass(&mut b, &events, ME, ME_HEX, 0, 1700000100);
    assert_eq!(report.new_messages.len(), 1);
    let r = &report.new_messages[0];
    assert_eq!(r.sender, ALICE);
    assert_eq!(r.content, "hi");
    assert_eq!(r.message_type, "text");
    assert_eq!(report.checkpoint, 1700000100);
}

#[test]
fn idle_syncs_keep_checkpoint() {
    let mut b = store_with_alice();
    let events = vec![tagged(msg("g1", ALICE, "hi"))];
    let first = sync_pass(&mut b, &events, ME, ME_HEX, 0, 1000);
    assert_eq!(first.checkpoint, 1000);
    let second = sync_pass(&mut b, &events, ME, ME_HEX, first.checkpoint, 2000);
    assert_eq!(second.new_messages.len(), 0);
    assert_eq!(second.checkpoint, 1000);
    let third = sync_pass(&mut b, &Vec::new(), ME, ME_HEX, second.checkpoint, 3000);
    assert_eq!(third.checkpoint, 1000);
    assert_eq!(b.message_count(), 1);
}

#[test]
fn sync_skips_untagged_and_undecryptable() {
    let mut b = store_with_alice();
    let untagged = FetchedEvent { tags: vec![vec!["p".to_string(), "other".to_string()]], unwrapped: Some(msg("u1", ALICE, "hi")) };
    let failed = FetchedEvent { tags: vec![vec!["p".to_string(), ME_HEX.to_string()]], unwrapped: None };
    let report = sync_pass(&mut b, &vec![untagged, failed], ME, ME_HEX, 77, 1000);
    assert_eq!(report.new_messages.len(), 0);
    assert_eq!(report.checkpoint, 77);
}

#[test]
fn sync_watermark() {
    assert_eq!(sync_since(0, 1_000_000), 1_000_000 - 86400);
    assert_eq!(sync_since(0, 100), 0);
    assert_eq!(sync_since(500, 1_000_000), 495);
    assert_eq!(sync_since(3, 1_000_000), 0);
}

#[test]
fn sync_pass_skips_tombstoned_and_strangers() {
    let mut b = store_with_alice();
    b.add_deleted_event("dead");
    let events = vec![
        tagged(msg("dead", ALICE, "gone")),
        tagged(msg("s1", "npub1stranger", "hello")),
        tagged(msg("ok1", ALICE, "  kept  ")),
        tagged(msg("ok1", ALICE, "again")),
    ];
    let report = sync_pass(&mut b, &events, ME, ME_HEX, 5, 900);
    assert_eq!(report.new_messages.len(), 1);
    let r = &report.new_messages[0];
    assert_eq!(r.id, "ok1");
    assert_eq!(r.content, "kept");
    assert_eq!(r.status, "received");
    assert_eq!(r.receiver, ME);
    assert!(!b.message_exists("dead"));
    assert!(!b.message_exists("s1"));
    assert_eq!(b.message_count(), 1);
}

#[test]
fn fetch_retry_decisions() {
    assert_eq!(after_fetch(1, FetchOutcome::Fetched), FetchAction::Process);
    assert_eq!(after_fetch(1, FetchOutcome::TransportError), FetchAction::RetryAfter(2));
    assert_eq!(after_fetch(2, FetchOutcome::TransportError), FetchAction::Fail(SyncError::FetchFailed));
    assert_eq!(after_fetch(1, FetchOutcome::TimedOut), FetchAction::Fail(SyncError::Timeout));
    assert_eq!(after_fetch(2, FetchOutcome::Fetched), FetchAction::Process);
}

#[test]
fn stale_window_does_not_count() {
    let mut lim = RateLimiter::new();
    for i in 0..20u64 {
        assert!(lim.check_and_update(ALICE, i));
    }
    let start = 50_000u64;
    for i in 0..20u64 {
        assert!(lim.check_and_update(ALICE, start + i * 10), "message {} accepted", i + 1);
    }
    assert!(!lim.check_and_update(ALICE, start + 500), "21st dropped");
}

#[test]
fn unicode_whitespace_is_trimmed() {
    let f = content_facts("\u{3000}\u{a0} hi \u{2028}");
    assert_eq!(f.text, "hi");
}

#[test]
fn profile_metadata_updates_contact() {
    let mut s = store_with_alice();
    assert!(apply_profile_metadata(&mut s, ALICE, "{\"name\":\"Alice\",\"picture\":\"p.png\"}"));
    let c = s.get_contact(ALICE).unwrap();
    assert_eq!(c.name.as_deref(), Some("Alice"));
    assert_eq!(c.picture.as_deref(), Some("p.png"));
    assert_eq!(c.display_name, None);
    assert!(apply_profile_metadata(&mut s, ALICE, "{\"display_name\":\"A\"}"));
    let c = s.get_contact(ALICE).unwrap();
    assert_eq!(c.name.as_deref(), Some("Alice"));
    assert_eq!(c.display_name.as_deref(), Some("A"));
    assert!(!apply_profile_metadata(&mut s, ALICE, "not json"));
    assert!(apply_profile_metadata(&mut s, "npub1nobody", "{\"name\":\"x\"}"));
    assert!(s.get_contact("npub1nobody").is_none());
}

#[test]
fn key_holder_binds_and_forgets() {
    let mut k = KeyHolder::new();
    assert_eq!(k.get_current_private_key(), None);
    k.set_current_private_key("nsec1abc".to_string());
    assert_eq!(k.get_stored_key().as_deref(), Some("nsec1abc"));
    k.clear_current_private_key();
    assert_eq!(k.get_current_private_key(), None);
}
