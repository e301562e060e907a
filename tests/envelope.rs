use aes_gcm::aead::{Aead, KeyInit};
use ostia_core::cache::MemoryCache;
use ostia_core::envelope::{open_gift_wrap, session_key_expiry, route_content, CryptoError, EncryptedPayload, ProtocolError, SealFields, SessionArchive};
use ostia_core::error::AppError;
use ostia_core::media::MediaUploader;
use ostia_core::platform::{get_database_path, get_platform_name};
use ostia_core::send::{after_confirmation, ConfirmAction, SendAction, SendError, SendEvent, SendMachine, SendPhase};

const ME_HEX: &str = "aa11";

fn seal(kind: u16, tags: Vec<Vec<String>>, content: &str) -> SealFields {
    SealFields { kind, tags, content: content.to_string(), pubkey_hex: "bb22".to_string(), created_at: 5 }
}

fn p_tag(who: &str) -> Vec<Vec<String>> {
    vec![vec!["p".to_string(), who.to_string()]]
}

#[test]
fn dual_format_routing() {
    assert_eq!(route_content("abc|def"), (true, "abc".to_string(), "def".to_string()));
    assert_eq!(route_content("abcdef"), (false, "abcdef".to_string(), String::new()));
    assert_eq!(route_content("a|b|c"), (true, "a".to_string(), "b|c".to_string()));
    let r = open_gift_wrap(1059, Some(seal(13, p_tag(ME_HEX), " abc|def ")), ME_HEX).ok().unwrap();
    assert!(r.legacy);
    assert_eq!(r.payload.ciphertext, "abc");
    assert_eq!(r.payload.nonce, "def");
    assert_eq!(r.payload.pubkey, "bb22");
    assert_eq!(r.payload.timestamp, 5);
    let r = open_gift_wrap(1059, Some(seal(13, p_tag(ME_HEX), "Ag3xyz==")), ME_HEX).ok().unwrap();
    assert!(!r.legacy);
    assert_eq!(r.payload.ciphertext, "Ag3xyz==");
}

#[test]
fn gift_wrap_rejections() {
    assert_eq!(open_gift_wrap(1, Some(seal(13, p_tag(ME_HEX), "x")), ME_HEX).err(), Some(ProtocolError::NotGiftWrap));
    assert_eq!(open_gift_wrap(1059, None, ME_HEX).err(), Some(ProtocolError::MalformedSeal));
    assert_eq!(open_gift_wrap(1059, Some(seal(14, p_tag(ME_HEX), "x")), ME_HEX).err(), Some(ProtocolError::NotSeal));
    assert_eq!(open_gift_wrap(1059, Some(seal(13, vec![], "x")), ME_HEX).err(), Some(ProtocolError::NoRecipientTag));
    assert_eq!(
        open_gift_wrap(1059, Some(seal(13, vec![vec!["p".to_string()]], "x")), ME_HEX).err(),
        Some(ProtocolError::InvalidRecipientTag)
    );
    assert_eq!(open_gift_wrap(1059, Some(seal(13, p_tag("cc33"), "x")), ME_HEX).err(), Some(ProtocolError::WrongRecipient));
}

#[test]
fn test_session_persistence() {
    let mut encryption = SessionArchive::new();
    let their_pubkey = "npub1test2";
    let (key1, fresh1) = encryption.get_session_key(their_pubkey, None);
    let (key2, fresh2) = encryption.get_session_key(their_pubkey, None);
    assert_eq!(key1, key2);
    assert_eq!(key1.len(), 32);
    assert_eq!(fresh1.unwrap(), hex::encode(&key1));
    assert!(fresh2.is_none());
}

#[test]
fn session_import_export_delete() {
    let mut a = SessionArchive::new();
    let hex_key = "00ff".repeat(16);
    assert_eq!(a.import_session("peer", "zz"), Err(CryptoError::InvalidKeyHex));
    assert_eq!(a.import_session("peer", "abc"), Err(CryptoError::InvalidKeyHex));
    assert_eq!(a.import_session("peer", "00ff"), Err(CryptoError::InvalidKeyLength));
    assert_eq!(a.import_session("peer", &hex_key.to_uppercase()), Ok(()));
    assert_eq!(a.lookup("peer").unwrap()[1], 0xff);
    let (text, fresh) = a.export_session("peer", None);
    assert_eq!(text, hex_key);
    assert!(fresh.is_none());
    assert_eq!(a.get_sessions(), vec!["peer".to_string()]);
    a.delete_session("peer");
    assert!(a.lookup("peer").is_none());
    assert!(a.get_sessions().is_empty());
}

#[test]
fn persisted_session_key_is_restored() {
    let mut a = SessionArchive::new();
    let stored = "0102".repeat(16);
    let (key, fresh) = a.get_session_key("p", Some(&stored));
    assert_eq!(key[0], 1);
    assert_eq!(key[1], 2);
    assert!(fresh.is_none());
    let (other, fresh) = a.get_session_key("q", Some("0102"));
    assert_eq!(other.len(), 32);
    assert!(fresh.is_some());
}

#[test]
fn legacy_decrypt() {
    let key = [7u8; 32];
    let nonce = [9u8; 12];
    let cipher = aes_gcm::Aes256Gcm::new(aes_gcm::aead::generic_array::GenericArray::from_slice(&key));
    let ct = cipher.encrypt(aes_gcm::aead::generic_array::GenericArray::from_slice(&nonce), "rumor json".as_bytes()).unwrap();
    let mut a = SessionArchive::new();
    a.import_session("author", &hex::encode(key)).unwrap();
    let payload = |c: &str, n: &str| EncryptedPayload { ciphertext: c.to_string(), nonce: n.to_string(), pubkey: "author".to_string(), timestamp: 0 };
    let (r, _) = a.decrypt_legacy(&payload(&hex::encode(&ct), &hex::encode(nonce)), None);
    assert_eq!(r, Ok("rumor json".to_string()));
    let (r, _) = a.decrypt_legacy(&payload(&hex::encode(&ct), "0011"), None);
    assert_eq!(r, Err(CryptoError::InvalidNonce));
    let (r, _) = a.decrypt_legacy(&payload("xyz", &hex::encode(nonce)), None);
    assert_eq!(r, Err(CryptoError::InvalidCiphertext));
    let (r, _) = a.decrypt_legacy(&payload("00112233445566778899aabbccddeeff", &hex::encode(nonce)), None);
    assert_eq!(r, Err(CryptoError::DecryptionFailed));
    let bad = cipher.encrypt(aes_gcm::aead::generic_array::GenericArray::from_slice(&nonce), &[0xffu8, 0xfe][..]).unwrap();
    let (r, _) = a.decrypt_legacy(&payload(&hex::encode(&bad), &hex::encode(nonce)), None);
    assert_eq!(r, Err(CryptoError::InvalidUtf8));
}

#[test]
fn invalid_recipient_fails_before_network() {
    let (m, a) = SendMachine::start(true, false);
    assert_eq!(m.phase, SendPhase::Failed(SendError::InvalidRecipient));
    assert!(matches!(a, SendAction::Fail(SendError::InvalidRecipient)));
    let (m, a) = SendMachine::start(false, true);
    assert_eq!(m.phase, SendPhase::Failed(SendError::NotInitialized));
    assert!(matches!(a, SendAction::Fail(SendError::NotInitialized)));
}

#[test]
fn send_flow_with_fallback_and_retry() {
    let (mut m, a) = SendMachine::start(true, true);
    assert!(matches!(a, SendAction::DiscoverRelays));
    let a = m.step(SendEvent::Discovered { targets: vec!["wss://b".to_string()], pool_size: 2 });
    assert!(matches!(a, SendAction::PublishTo(ref t) if t == &vec!["wss://b".to_string()]));
    assert!(matches!(m.step(SendEvent::Acks(vec![false])), SendAction::Broadcast));
    assert!(matches!(m.step(SendEvent::Broadcasted(false)), SendAction::Reconnect));
    assert!(matches!(m.step(SendEvent::Reconnected(true)), SendAction::PublishTo(_)));
    assert!(matches!(m.step(SendEvent::Acks(vec![false])), SendAction::Broadcast));
    assert!(matches!(m.step(SendEvent::Broadcasted(false)), SendAction::Fail(SendError::PublishFailed)));
}

#[test]
fn send_to_single_relay_pool_confirms() {
    let (mut m, _) = SendMachine::start(true, true);
    assert!(matches!(m.step(SendEvent::Discovered { targets: vec![], pool_size: 1 }), SendAction::Broadcast));
    assert!(matches!(m.step(SendEvent::Broadcasted(true)), SendAction::Succeed { confirm_in_background: true }));
    assert_eq!(after_confirmation(1, false), ConfirmAction::LookAgainAfter(600));
    assert_eq!(after_confirmation(2, false), ConfirmAction::Republish);
    assert_eq!(after_confirmation(1, true), ConfirmAction::Confirmed);
}

#[test]
fn send_timeouts_and_empty_pool() {
    let (mut m, _) = SendMachine::start(true, true);
    assert!(matches!(m.step(SendEvent::Discovered { targets: vec![], pool_size: 0 }), SendAction::Reconnect));
    assert!(matches!(m.step(SendEvent::Reconnected(false)), SendAction::Fail(SendError::NoRelaysAvailable)));
    let (mut m, _) = SendMachine::start(true, true);
    m.step(SendEvent::Discovered { targets: vec!["wss://x".to_string()], pool_size: 3 });
    assert!(matches!(m.step(SendEvent::TimedOut), SendAction::Fail(SendError::Timeout)));
    assert!(matches!(m.step(SendEvent::Acks(vec![true])), SendAction::Fail(SendError::Timeout)));
}

#[test]
fn memory_cache_expiry() {
    let mut c = MemoryCache::new();
    c.set_at("k", "v".to_string(), Some(10), 100);
    assert_eq!(c.get_at("k", 110), Some(&"v".to_string()));
    assert_eq!(c.get_at("k", 111), None);
    c.set_at("forever", "f".to_string(), None, 100);
    c.set_at("big", "b".to_string(), Some(u64::MAX), 100);
    assert_eq!(c.get_at("big", u64::MAX), Some(&"b".to_string()));
    c.cleanup_expired_at(110);
    assert_eq!(c.get_at("k", 0), None);
    assert_eq!(c.get_at("forever", u64::MAX), Some(&"f".to_string()));
    assert_eq!(c.remove("forever"), Some("f".to_string()));
    assert_eq!(c.remove("forever"), None);
    c.set("now", "n".to_string(), Some(3600));
    assert_eq!(c.get("now"), Some(&"n".to_string()));
    c.cleanup_expired();
    assert_eq!(c.get("now"), Some(&"n".to_string()));
    c.clear();
    assert_eq!(c.get("now"), None);
}

#[test]
fn media_uploader_settings() {
    let mut u = MediaUploader::new();
    u.set_blossom_server("  https://media.example///  ".to_string());
    assert_eq!(u.get_blossom_server().as_deref(), Some("https://media.example"));
    u.set_blossom_server(" / ".to_string());
    assert_eq!(u.get_blossom_server(), None);
    u.set_blossom_token("  tok ".to_string());
    assert_eq!(u.get_blossom_token().as_deref(), Some("tok"));
    u.set_blossom_token("   ".to_string());
    assert_eq!(u.get_blossom_token(), None);
    u.set_cache_dir("/tmp/media".to_string());
}

#[test]
fn platform_helpers() {
    assert_eq!(get_platform_name("linux"), "linux");
    assert_eq!(get_platform_name("ios"), "ios");
    assert_eq!(get_platform_name("freebsd"), "unknown");
    assert_eq!(get_database_path(Some("/data"), "ostia"), Some("/data/ostia/ostia.db".to_string()));
    assert_eq!(get_database_path(None, "ostia"), None);
}

#[test]
fn error_messages() {
    assert_eq!(AppError::Key("bad".to_string()).message(), "Key error: bad");
    assert_eq!(AppError::Network("down".to_string()).message(), "Network error: down");
}

#[test]
fn session_key_lives_thirty_days() {
    assert_eq!(session_key_expiry(1_000), 1_000 + 2_592_000);
    assert_eq!(session_key_expiry(u64::MAX - 1), u64::MAX);
}

#[test]
fn send_retry_keeps_targets() {
    let (mut m, _) = SendMachine::start(true, true);
    m.step(SendEvent::Discovered { targets: vec!["wss://t".to_string()], pool_size: 2 });
    assert!(matches!(m.step(SendEvent::Acks(vec![false])), SendAction::Broadcast));
    assert!(!m.retried);
    assert!(matches!(m.step(SendEvent::Broadcasted(false)), SendAction::Reconnect));
    assert!(m.retried);
    assert_eq!(m.targets, vec!["wss://t".to_string()]);
    assert_eq!(m.pool_size, 2);
}
