use ostia_core::records::{default_message_type, Contact, Message, SecureStorage};
use ostia_core::store::{ContactRecord, MessageRecord, MessageStore};

fn record(id: &str, status: &str) -> MessageRecord {
    MessageRecord {
        id: id.to_string(),
        sender: "npub1sender".to_string(),
        receiver: "npub1receiver".to_string(),
        content: "Test".to_string(),
        timestamp: 1700000000,
        status: status.to_string(),
        message_type: "text".to_string(),
        media_url: None,
    }
}

#[test]
fn test_secure_storage_new() {
    let result = SecureStorage::new();
    assert!(result.is_ok(), "SecureStorage::new() should succeed");
}

#[test]
fn secure_storage_keeps_no_key() {
    let storage = SecureStorage::new().unwrap();
    assert!(storage.save_private_key("nsec1whatever").is_ok());
}

#[test]
fn test_message_exists() {
    let mut db = MessageStore::new();
    assert!(!db.message_exists("test_id_2"), "Message should not exist initially");
    assert!(db.save_message(record("test_id_2", "sent")));
    assert!(db.message_exists("test_id_2"), "Message should exist after save");
}

#[test]
fn test_update_message_status() {
    let mut db = MessageStore::new();
    db.save_message(record("test_id_3", "pending"));
    db.update_message_status("test_id_3", "delivered");
    assert_eq!(db.message_at(0).status, "delivered");
}

#[test]
fn save_message_refuses_duplicates_and_tombstones() {
    let mut db = MessageStore::new();
    assert!(db.save_message(record("a", "sent")));
    assert!(!db.save_message(record("a", "sent")));
    db.add_deleted_event("b");
    assert!(db.deleted_event_exists("b"));
    assert!(!db.save_message(record("b", "sent")));
    assert_eq!(db.message_count(), 1);
}

#[test]
fn contacts_replace_by_key() {
    let mut db = MessageStore::new();
    assert!(db.get_contact("npub1test").is_none());
    db.add_contact(ContactRecord {
        npub: "npub1test".to_string(),
        name: Some("TestUser".to_string()),
        display_name: Some("Test User".to_string()),
        picture: Some("https://example.com/pic.png".to_string()),
        blocked: false,
        remark: None,
    });
    db.add_contact(ContactRecord {
        npub: "npub1test".to_string(),
        name: Some("Renamed".to_string()),
        display_name: None,
        picture: None,
        blocked: true,
        remark: None,
    });
    let c = db.get_contact("npub1test").unwrap();
    assert_eq!(c.name.as_deref(), Some("Renamed"));
    assert!(c.blocked);
}

#[test]
fn conversions_keep_fields() {
    let m: Message = record("x", "sent").into();
    assert_eq!(m.id, "x");
    assert_eq!(m.status, "sent");
    let back = m.to_record();
    assert_eq!(back.content, "Test");
    let c: Contact = ContactRecord {
        npub: "npub1c".to_string(),
        name: None,
        display_name: None,
        picture: None,
        blocked: false,
        remark: Some("r".to_string()),
    }
    .into();
    assert_eq!(c.remark.as_deref(), Some("r"));
    assert_eq!(default_message_type(), "text");
}
