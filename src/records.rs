use vstd::prelude::*;

use crate::store::{copy_opt_string, ContactRecord, MessageRecord};

verus! {

/// A contact as the user interface shows it.
#[derive(Debug)]
pub struct Contact {
    pub npub: String,
    pub name: Option<String>,
    pub display_name: Option<String>,
    pub picture: Option<String>,
    pub blocked: bool,
    pub remark: Option<String>,
}

/// A message as the user interface shows it.
#[derive(Debug)]
pub struct Message {
    pub id: String,
    pub sender: String,
    pub receiver: String,
    pub content: String,
    pub timestamp: i64,
    pub status: String,
    pub message_type: String,
    pub media_url: Option<String>,
}

/// The brute-force guard's state for master-password unlocking.
#[derive(Debug)]
pub struct UnlockLockoutState {
    pub date: String,
    pub attempts: u32,
    pub locked: bool,
}

/// The message type assumed when none is given.
pub fn default_message_type() -> (r: String)
    ensures
        r@ == "text"@,
{
    "text".to_owned()
}

impl From<ContactRecord> for Contact {
    fn from(record: ContactRecord) -> (r: Contact) {
        Contact {
            npub: record.npub,
            name: record.name,
            display_name: record.display_name,
            picture: record.picture,
            blocked: record.blocked,
            remark: record.remark,
        }
    }
}

impl vstd::std_specs::convert::FromSpecImpl<ContactRecord> for Contact {
    open spec fn obeys_from_spec() -> bool {
        true
    }

    open spec fn from_spec(record: ContactRecord) -> Contact {
        Contact {
            npub: record.npub,
            name: record.name,
            display_name: record.display_name,
            picture: record.picture,
            blocked: record.blocked,
            remark: record.remark,
        }
    }
}

impl From<MessageRecord> for Message {
    fn from(record: MessageRecord) -> (r: Message) {
        Message {
            id: record.id,
            sender: record.sender,
            receiver: record.receiver,
            content: record.content,
            timestamp: record.timestamp,
            status: record.status,
            message_type: record.message_type,
            media_url: record.media_url,
        }
    }
}

impl vstd::std_specs::convert::FromSpecImpl<MessageRecord> for Message {
    open spec fn obeys_from_spec() -> bool {
        true
    }

    open spec fn from_spec(record: MessageRecord) -> Message {
        Message {
            id: record.id,
            sender: record.sender,
            receiver: record.receiver,
            content: record.content,
            timestamp: record.timestamp,
            status: record.status,
            message_type: record.message_type,
            media_url: record.media_url,
        }
    }
}

impl Message {
    /// The stored form of this message.
    pub fn to_record(&self) -> (r: MessageRecord)
        ensures
            r == (MessageRecord {
                id: self.id,
                sender: self.sender,
                receiver: self.receiver,
                content: self.content,
                timestamp: self.timestamp,
                status: self.status,
                message_type: self.message_type,
                media_url: self.media_url,
            }),
    {
        MessageRecord {
            id: self.id.clone(),
            sender: self.sender.clone(),
            receiver: self.receiver.clone(),
            content: self.content.clone(),
            timestamp: self.timestamp,
            status: self.status.clone(),
            message_type: self.message_type.clone(),
            media_url: copy_opt_string(&self.media_url),
        }
    }
}

/// Key storage. Private keys are held for the session only and never written to disk.
pub struct SecureStorage {}

impl SecureStorage {
    pub fn new() -> (r: Result<SecureStorage, String>)
        ensures
            r is Ok,
    {
        Ok(SecureStorage {})
    }

    /// Accepts a key and keeps nothing: keys are not persisted.
    pub fn save_private_key(&self, _nsec: &str) -> (r: Result<(), String>)
        ensures
            r is Ok,
    {
        Ok(())
    }
}

/// The session's private key, held in memory only and never written anywhere.
pub struct KeyHolder {
    key: Option<String>,
}

impl KeyHolder {
    pub closed spec fn held(&self) -> Option<Seq<char>> {
        match self.key {
            Some(k) => Some(k@),
            None => None,
        }
    }

    pub fn new() -> (r: KeyHolder)
        ensures
            r.held() is None,
    {
        KeyHolder { key: None }
    }

    /// Binds the session's private key.
    pub fn set_current_private_key(&mut self, nsec: String)
        ensures
            final(self).held() == Some(nsec@),
    {
        self.key = Some(nsec);
    }

    /// Forgets the session's private key.
    pub fn clear_current_private_key(&mut self)
        ensures
            final(self).held() is None,
    {
        self.key = None;
    }

    /// The session's private key, if one is bound.
    pub fn get_current_private_key(&self) -> (r: Option<String>)
        ensures
            crate::media::opt_chars(r) == self.held(),
    {
        copy_opt_string(&self.key)
    }

    /// The key that commands use: the one bound to the session.
    pub fn get_stored_key(&self) -> (r: Option<String>)
        ensures
            crate::media::opt_chars(r) == self.held(),
    {
        self.get_current_private_key()
    }
}

} // verus!
