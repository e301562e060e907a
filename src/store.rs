use vstd::prelude::*;

use crate::text::str_eq;

verus! {

/// A direct message as the store keeps it.
#[derive(Debug)]
pub struct MessageRecord {
    pub id: String,
    pub sender: String,
    pub receiver: String,
    pub content: String,
    pub timestamp: i64,
    pub status: String,
    pub message_type: String,
    pub media_url: Option<String>,
}

/// A known contact: the whitelist of inbound senders.
#[derive(Debug)]
pub struct ContactRecord {
    pub npub: String,
    pub name: Option<String>,
    pub display_name: Option<String>,
    pub picture: Option<String>,
    pub blocked: bool,
    pub remark: Option<String>,
}

/// One row of the conversation list.
#[derive(Debug)]
pub struct ChatSession {
    pub contact: ContactRecord,
    pub last_message: String,
    pub last_timestamp: i64,
    pub unread_count: i32,
    pub last_message_type: Option<String>,
}

pub fn copy_opt_string(o: &Option<String>) -> (r: Option<String>)
    ensures
        r == *o,
{
    match o {
        Some(s) => Some(s.clone()),
        None => None,
    }
}

impl MessageRecord {
    pub fn duplicate(&self) -> (r: MessageRecord)
        ensures
            r == *self,
    {
        MessageRecord {
            id: self.id.clone(),
            sender: self.sender.clone(),
            receiver: self.receiver.clone(),
            content: self.content.clone(),
            timestamp: self.timestamp,
            status: self.status.clone(),
            message_type: self.message_type.clone(),
            media_url: copy_opt_string(&self.media_url),
        }
    }
}

impl ContactRecord {
    pub fn duplicate(&self) -> (r: ContactRecord)
        ensures
            r == *self,
    {
        ContactRecord {
            npub: self.npub.clone(),
            name: copy_opt_string(&self.name),
            display_name: copy_opt_string(&self.display_name),
            picture: copy_opt_string(&self.picture),
            blocked: self.blocked,
            remark: copy_opt_string(&self.remark),
        }
    }
}

/// In-memory model of the persistent message store: stored messages,
/// tombstoned (explicitly deleted) ids, and contacts.
pub struct MessageStore {
    messages: Vec<MessageRecord>,
    tombstones: Vec<String>,
    contacts: Vec<ContactRecord>,
}

pub open spec fn ids_of(ms: Seq<MessageRecord>) -> Seq<Seq<char>> {
    ms.map_values(|m: MessageRecord| m.id@)
}

pub open spec fn npubs_of(cs: Seq<ContactRecord>) -> Seq<Seq<char>> {
    cs.map_values(|c: ContactRecord| c.npub@)
}

impl MessageStore {
    pub closed spec fn messages(&self) -> Seq<MessageRecord> {
        self.messages@
    }

    pub closed spec fn tombstones(&self) -> Seq<Seq<char>> {
        self.tombstones@.map_values(|t: String| t@)
    }

    pub closed spec fn contacts(&self) -> Seq<ContactRecord> {
        self.contacts@
    }

    pub open spec fn has_message(&self, id: Seq<char>) -> bool {
        ids_of(self.messages()).contains(id)
    }

    pub open spec fn is_tombstoned(&self, id: Seq<char>) -> bool {
        self.tombstones().contains(id)
    }

    pub open spec fn is_contact(&self, npub: Seq<char>) -> bool {
        npubs_of(self.contacts()).contains(npub)
    }

    /// Every stored message id is unique, and so is every contact key.
    pub open spec fn wf(&self) -> bool {
        ids_of(self.messages()).no_duplicates() && npubs_of(self.contacts()).no_duplicates()
    }

    pub fn new() -> (r: MessageStore)
        ensures
            r.wf(),
            r.messages() == Seq::<MessageRecord>::empty(),
            r.tombstones() == Seq::<Seq<char>>::empty(),
            r.contacts() == Seq::<ContactRecord>::empty(),
    {
        let r = MessageStore { messages: Vec::new(), tombstones: Vec::new(), contacts: Vec::new() };
        assert(ids_of(r.messages()) =~= Seq::<Seq<char>>::empty());
        assert(npubs_of(r.contacts()) =~= Seq::<Seq<char>>::empty());
        assert(r.tombstones() =~= Seq::<Seq<char>>::empty());
        r
    }

    fn find_message(&self, id: &str) -> (r: Option<usize>)
        ensures
            match r {
                Some(i) => i < self.messages().len() && self.messages()[i as int].id@ == id@,
                None => !self.has_message(id@),
            },
    {
        let mut i: usize = 0;
        while i < self.messages.len()
            invariant
                0 <= i <= self.messages@.len(),
                forall|k: int| 0 <= k < i ==> self.messages@[k].id@ != id@,
            decreases self.messages@.len() - i,
        {
            if str_eq(self.messages[i].id.as_str(), id) {
                return Some(i);
            }
            i += 1;
        }
        assert(!ids_of(self.messages()).contains(id@)) by {
            if ids_of(self.messages()).contains(id@) {
                let k = choose|k: int|
                    0 <= k < ids_of(self.messages()).len() && ids_of(self.messages())[k] == id@;
                assert(self.messages@[k].id@ == id@);
            }
        }
        None
    }

    /// Whether a message with this id is stored.
    pub fn message_exists(&self, id: &str) -> (r: bool)
        ensures
            r == self.has_message(id@),
    {
        match self.find_message(id) {
            Some(i) => {
                assert(ids_of(self.messages())[i as int] == id@);
                true
            },
            None => false,
        }
    }

    /// Whether this id has been tombstoned.
    pub fn deleted_event_exists(&self, id: &str) -> (r: bool)
        ensures
            r == self.is_tombstoned(id@),
    {
        let mut i: usize = 0;
        while i < self.tombstones.len()
            invariant
                0 <= i <= self.tombstones@.len(),
                forall|k: int| 0 <= k < i ==> self.tombstones@[k]@ != id@,
            decreases self.tombstones@.len() - i,
        {
            if str_eq(self.tombstones[i].as_str(), id) {
                assert(self.tombstones()[i as int] == id@);
                return true;
            }
            i += 1;
        }
        assert(!self.tombstones().contains(id@)) by {
            if self.tombstones().contains(id@) {
                let k = choose|k: int|
                    0 <= k < self.tombstones().len() && self.tombstones()[k] == id@;
                assert(self.tombstones@[k]@ == id@);
            }
        }
        false
    }

    /// Records a tombstone for `id`: no later delivery stores a message with it.
    pub fn add_deleted_event(&mut self, id: &str)
        requires
            old(self).wf(),
        ensures
            final(self).wf(),
            final(self).is_tombstoned(id@),
            forall|t: Seq<char>| old(self).is_tombstoned(t) ==> final(self).is_tombstoned(t),
            forall|t: Seq<char>| final(self).is_tombstoned(t) ==> old(self).is_tombstoned(t) || t == id@,
            final(self).messages() == old(self).messages(),
            final(self).contacts() == old(self).contacts(),
    {
        if !self.deleted_event_exists(id) {
            let t = id.to_owned();
            self.tombstones.push(t);
            assert(self.tombstones() =~= old(self).tombstones().push(id@));
            assert(self.tombstones()[self.tombstones().len() - 1] == id@);
            assert forall|x: Seq<char>| old(self).is_tombstoned(x) implies self.is_tombstoned(x) by {
                let k = choose|k: int|
                    0 <= k < old(self).tombstones().len() && old(self).tombstones()[k] == x;
                assert(self.tombstones()[k] == x);
            }
            assert forall|x: Seq<char>| self.is_tombstoned(x) implies old(self).is_tombstoned(x) || x == id@ by {
                let k = choose|k: int| 0 <= k < self.tombstones().len() && self.tombstones()[k] == x;
                if k < old(self).tombstones().len() {
                    assert(old(self).tombstones()[k] == x);
                }
            }
        }
    }

    /// Stores `message` unless its id is already stored or tombstoned; returns whether
    /// it was newly stored.
    pub fn save_message(&mut self, message: MessageRecord) -> (r: bool)
        requires
            old(self).wf(),
        ensures
            final(self).wf(),
            r == (!old(self).has_message(message.id@) && !old(self).is_tombstoned(message.id@)),
            r ==> final(self).messages() == old(self).messages().push(message),
            !r ==> final(self).messages() == old(self).messages(),
            final(self).tombstones() == old(self).tombstones(),
            final(self).contacts() == old(self).contacts(),
    {
        if self.message_exists(message.id.as_str()) || self.deleted_event_exists(message.id.as_str()) {
            return false;
        }
        let ghost mid = message.id@;
        self.messages.push(message);
        assert(ids_of(self.messages()) =~= ids_of(old(self).messages()).push(mid));
        true
    }

    /// Sets the status of the stored message with this id, if any.
    pub fn update_message_status(&mut self, id: &str, status: &str)
        requires
            old(self).wf(),
        ensures
            final(self).wf(),
            final(self).messages().len() == old(self).messages().len(),
            forall|k: int|
                0 <= k < old(self).messages().len() ==> #[trigger] final(self).messages()[k] == (
                if old(self).messages()[k].id@ == id@ {
                    MessageRecord { status: final(self).messages()[k].status, ..old(self).messages()[k] }
                } else {
                    old(self).messages()[k]
                }),
            forall|k: int|
                0 <= k < old(self).messages().len() && old(self).messages()[k].id@ == id@
                    ==> #[trigger] final(self).messages()[k].status@ == status@,
            final(self).tombstones() == old(self).tombstones(),
            final(self).contacts() == old(self).contacts(),
    {
        match self.find_message(id) {
            Some(i) => {
                let mut m = self.messages.remove(i);
                m.status = status.to_owned();
                self.messages.insert(i, m);
                assert(ids_of(self.messages()) =~= ids_of(old(self).messages()));
                assert forall|k: int|
                    0 <= k < old(self).messages().len() && old(self).messages()[k].id@ == id@ implies k
                    == i by {
                    if k != i {
                        assert(ids_of(old(self).messages())[k] == ids_of(old(self).messages())[i as int]);
                    }
                }
            },
            None => {
                assert forall|k: int| 0 <= k < old(self).messages().len() implies old(
                    self,
                ).messages()[k].id@ != id@ by {
                    assert(ids_of(old(self).messages())[k] == old(self).messages()[k].id@);
                }
            },
        }
    }

    fn find_contact(&self, npub: &str) -> (r: Option<usize>)
        ensures
            match r {
                Some(i) => i < self.contacts().len() && self.contacts()[i as int].npub@ == npub@,
                None => !self.is_contact(npub@),
            },
    {
        let mut i: usize = 0;
        while i < self.contacts.len()
            invariant
                0 <= i <= self.contacts@.len(),
                forall|k: int| 0 <= k < i ==> self.contacts@[k].npub@ != npub@,
            decreases self.contacts@.len() - i,
        {
            if str_eq(self.contacts[i].npub.as_str(), npub) {
                return Some(i);
            }
            i += 1;
        }
        assert(!npubs_of(self.contacts()).contains(npub@)) by {
            if npubs_of(self.contacts()).contains(npub@) {
                let k = choose|k: int|
                    0 <= k < npubs_of(self.contacts()).len() && npubs_of(self.contacts())[k] == npub@;
                assert(self.contacts@[k].npub@ == npub@);
            }
        }
        None
    }

    /// The contact stored under `npub`, if any.
    pub fn get_contact(&self, npub: &str) -> (r: Option<ContactRecord>)
        ensures
            r.is_some() == self.is_contact(npub@),
            r matches Some(c) ==> c.npub@ == npub@ && self.contacts().contains(c),
    {
        match self.find_contact(npub) {
            Some(i) => {
                assert(npubs_of(self.contacts())[i as int] == npub@);
                Some(self.contacts[i].duplicate())
            },
            None => None,
        }
    }

    /// Adds `contact`, replacing any contact stored under the same key.
    pub fn add_contact(&mut self, contact: ContactRecord)
        requires
            old(self).wf(),
        ensures
            final(self).wf(),
            final(self).contacts().contains(contact),
            forall|n: Seq<char>|
                final(self).is_contact(n) <==> (old(self).is_contact(n) || n == contact.npub@),
            final(self).messages() == old(self).messages(),
            final(self).tombstones() == old(self).tombstones(),
    {
        let ghost key = contact.npub@;
        match self.find_contact(contact.npub.as_str()) {
            Some(i) => {
                self.contacts.set(i, contact);
                assert(npubs_of(self.contacts()) =~= npubs_of(old(self).contacts()));
                assert(npubs_of(old(self).contacts())[i as int] == key);
                assert(self.contacts()[i as int] == contact);
            },
            None => {
                self.contacts.push(contact);
                assert(npubs_of(self.contacts()) =~= npubs_of(old(self).contacts()).push(key));
                assert(self.contacts()[self.contacts().len() - 1] == contact);
                assert forall|n: Seq<char>|
                    self.is_contact(n) <==> (old(self).is_contact(n) || n == key) by {
                    if old(self).is_contact(n) {
                        let k = choose|k: int|
                            0 <= k < npubs_of(old(self).contacts()).len() && npubs_of(
                                old(self).contacts(),
                            )[k] == n;
                        assert(npubs_of(self.contacts())[k] == n);
                    }
                    if n == key {
                        assert(npubs_of(self.contacts())[self.contacts().len() - 1] == n);
                    }
                    if self.is_contact(n) {
                        let k = choose|k: int|
                            0 <= k < npubs_of(self.contacts()).len() && npubs_of(self.contacts())[k]
                                == n;
                        if k < old(self).contacts().len() {
                            assert(npubs_of(old(self).contacts())[k] == n);
                        }
                    }
                }
            },
        }
    }

    /// Updates the profile fields of the contact stored under `npub`; a field that is
    /// not given keeps its value. Nothing changes when no such contact is stored.
    pub fn update_contact_profile(
        &mut self,
        npub: &str,
        name: Option<String>,
        display_name: Option<String>,
        picture: Option<String>,
    )
        requires
            old(self).wf(),
        ensures
            final(self).wf(),
            final(self).messages() == old(self).messages(),
            final(self).tombstones() == old(self).tombstones(),
            final(self).contacts().len() == old(self).contacts().len(),
            forall|k: int|
                0 <= k < old(self).contacts().len() ==> #[trigger] final(self).contacts()[k] == if old(
                    self,
                ).contacts()[k].npub@ == npub@ {
                    ContactRecord {
                        name: if name is Some { name } else { old(self).contacts()[k].name },
                        display_name: if display_name is Some {
                            display_name
                        } else {
                            old(self).contacts()[k].display_name
                        },
                        picture: if picture is Some { picture } else { old(self).contacts()[k].picture },
                        ..old(self).contacts()[k]
                    }
                } else {
                    old(self).contacts()[k]
                },
    {
        match self.find_contact(npub) {
            Some(i) => {
                let mut c = self.contacts.remove(i);
                if name.is_some() {
                    c.name = name;
                }
                if display_name.is_some() {
                    c.display_name = display_name;
                }
                if picture.is_some() {
                    c.picture = picture;
                }
                self.contacts.insert(i, c);
                proof {
                    assert(npubs_of(self.contacts()) =~= npubs_of(old(self).contacts()));
                    assert forall|k: int|
                        0 <= k < old(self).contacts().len() && old(self).contacts()[k].npub@ == npub@ implies k
                        == i by {
                        if k != i {
                            assert(npubs_of(old(self).contacts())[k] == npubs_of(old(self).contacts())[i as int]);
                        }
                    }
                }
            },
            None => {
                proof {
                    assert forall|k: int| 0 <= k < old(self).contacts().len() implies old(
                        self,
                    ).contacts()[k].npub@ != npub@ by {
                        assert(npubs_of(old(self).contacts())[k] == old(self).contacts()[k].npub@);
                    }
                }
            },
        }
    }

    /// Number of stored messages.
    pub fn message_count(&self) -> (r: usize)
        ensures
            r == self.messages().len(),
    {
        self.messages.len()
    }

    /// The stored message at position `i`, in order of insertion.
    pub fn message_at(&self, i: usize) -> (r: MessageRecord)
        requires
            i < self.messages().len(),
        ensures
            r == self.messages()[i as int],
    {
        self.messages[i].duplicate()
    }
}

} // verus!
