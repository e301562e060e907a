use aes_gcm::aead::{Aead, KeyInit};
use rand::RngCore;
use vstd::prelude::*;

use crate::text::{str_eq, trim_of, trimmed};

verus! {

/// Event kind of a Gift Wrap, the only network-visible layer.
pub const KIND_GIFT_WRAP: u16 = 1059;

/// Event kind of a Seal, which travels only inside a Gift Wrap.
pub const KIND_SEAL: u16 = 13;

/// Length of a session key, in bytes.
pub const SESSION_KEY_LEN: usize = 32;

/// Length of a legacy AES-GCM nonce, in bytes.
pub const NONCE_LEN: usize = 12;

/// How long a persisted session key lives, in seconds (thirty days).
pub const SESSION_TTL_SECS: u64 = 2592000;

/// The fields of a parsed Seal that opening reads.
pub struct SealFields {
    pub kind: u16,
    pub tags: Vec<Vec<String>>,
    pub content: String,
    pub pubkey_hex: String,
    pub created_at: u64,
}

/// Why an inbound envelope was rejected.
#[derive(Clone, Copy, Debug, PartialEq, Eq, Structural)]
pub enum ProtocolError {
    NotGiftWrap,
    MalformedSeal,
    NotSeal,
    NoRecipientTag,
    InvalidRecipientTag,
    WrongRecipient,
}

/// The encrypted Rumor carried by a Seal: ciphertext, legacy nonce (empty on the
/// current path), the Seal author's public key and the Seal's time.
pub struct EncryptedPayload {
    pub ciphertext: String,
    pub nonce: String,
    pub pubkey: String,
    pub timestamp: u64,
}

/// Which decryption a Seal's content goes to.
pub struct SealRoute {
    pub legacy: bool,
    pub payload: EncryptedPayload,
}

/// Position of the first `c` in `s`, if any.
pub open spec fn first_index(s: Seq<char>, c: char) -> Option<int> {
    if exists|i: int| 0 <= i < s.len() && s[i] == c {
        Some(choose|i: int| 0 <= i < s.len() && s[i] == c && forall|j: int| 0 <= j < i ==> s[j] != c)
    } else {
        None
    }
}

/// Content `ciphertext|nonce` (split at the first pipe) goes to the legacy path;
/// content without a pipe goes whole to the current path.
pub open spec fn route_spec(s: Seq<char>) -> (bool, Seq<char>, Seq<char>) {
    match first_index(s, '|') {
        Some(i) => (true, s.subrange(0, i), s.subrange(i + 1, s.len() as int)),
        None => (false, s, Seq::empty()),
    }
}

proof fn lemma_first_index(s: Seq<char>, c: char, i: int)
    requires
        0 <= i < s.len(),
        s[i] == c,
        forall|j: int| 0 <= j < i ==> s[j] != c,
    ensures
        first_index(s, c) == Some(i),
{
    let k = choose|k: int| 0 <= k < s.len() && s[k] == c && forall|j: int| 0 <= j < k ==> s[j] != c;
    if k < i {
        assert(s[k] != c);
    } else if k > i {
        assert(s[i] != c);
    }
}

/// Splits a Seal's content into its decryption route.
pub fn route_content(content: &str) -> (r: (bool, String, String))
    ensures
        (r.0, r.1@, r.2@) == route_spec(content@),
{
    let n = content.unicode_len();
    let mut i: usize = 0;
    while i < n
        invariant
            0 <= i <= n,
            n == content@.len(),
            forall|j: int| 0 <= j < i ==> content@[j] != '|',
        decreases n - i,
    {
        if content.get_char(i) == '|' {
            proof {
                lemma_first_index(content@, '|', i as int);
            }
            let head = content.substring_char(0, i);
            let tail = content.substring_char(i + 1, n);
            return (true, head.to_owned(), tail.to_owned());
        }
        i += 1;
    }
    (false, content.to_owned(), String::new())
}

/// The outcome of opening a Gift Wrap whose Seal parsed as `seal`.
pub open spec fn open_spec(outer_kind: u16, seal: Option<SealFields>, me_hex: Seq<char>) -> Result<(), ProtocolError> {
    if outer_kind != KIND_GIFT_WRAP {
        Err(ProtocolError::NotGiftWrap)
    } else {
        match seal {
            None => Err(ProtocolError::MalformedSeal),
            Some(s) => if s.kind != KIND_SEAL {
                Err(ProtocolError::NotSeal)
            } else {
                match first_p_tag(s.tags@) {
                    None => Err(ProtocolError::NoRecipientTag),
                    Some(t) => if s.tags@[t]@.len() < 2 {
                        Err(ProtocolError::InvalidRecipientTag)
                    } else if s.tags@[t]@[1]@ != me_hex {
                        Err(ProtocolError::WrongRecipient)
                    } else {
                        Ok(())
                    },
                }
            },
        }
    }
}

pub open spec fn is_p_tag(t: Vec<String>) -> bool {
    t@.len() >= 1 && t@[0]@ == "p"@
}

/// Position of the first tag whose name is `p`.
pub open spec fn first_p_tag(tags: Seq<Vec<String>>) -> Option<int> {
    if exists|i: int| 0 <= i < tags.len() && is_p_tag(#[trigger] tags[i]) {
        Some(
            choose|i: int|
                0 <= i < tags.len() && is_p_tag(#[trigger] tags[i]) && forall|j: int|
                    0 <= j < i ==> !is_p_tag(#[trigger] tags[j]),
        )
    } else {
        None
    }
}

fn find_p_tag(tags: &Vec<Vec<String>>) -> (r: Option<usize>)
    ensures
        match r {
            Some(i) => i < tags@.len() && first_p_tag(tags@) == Some(i as int),
            None => first_p_tag(tags@) is None,
        },
{
    let mut i: usize = 0;
    while i < tags.len()
        invariant
            0 <= i <= tags@.len(),
            forall|j: int| 0 <= j < i ==> !is_p_tag(#[trigger] tags@[j]),
        decreases tags@.len() - i,
    {
        if tags[i].len() >= 1 && str_eq(tags[i][0].as_str(), "p") {
            proof {
                let k = choose|k: int|
                    0 <= k < tags@.len() && is_p_tag(#[trigger] tags@[k]) && forall|j: int|
                        0 <= j < k ==> !is_p_tag(#[trigger] tags@[j]);
                if k < i {
                    assert(!is_p_tag(tags@[k]));
                } else if k > i {
                    assert(!is_p_tag(tags@[i as int]));
                }
            }
            return Some(i);
        }
        i += 1;
    }
    None
}

/// Opens a Gift Wrap of kind `outer_kind` whose content parsed as `seal` (`None` where
/// it did not parse): checks the kinds and that the Seal's recipient is `me_hex`, then
/// routes the trimmed Seal content to the legacy or the current decryption.
pub fn open_gift_wrap(outer_kind: u16, seal: Option<SealFields>, me_hex: &str) -> (r: Result<SealRoute, ProtocolError>)
    ensures
        match r {
            Ok(route) => {
                &&& open_spec(outer_kind, seal, me_hex@) is Ok
                &&& (seal matches Some(s) && {
                    let rs = route_spec(trim_of(s.content@));
                    &&& route.legacy == rs.0
                    &&& route.payload.ciphertext@ == rs.1
                    &&& route.payload.nonce@ == rs.2
                    &&& route.payload.pubkey == s.pubkey_hex
                    &&& route.payload.timestamp == s.created_at
                })
            },
            Err(e) => open_spec(outer_kind, seal, me_hex@) == Err::<(), ProtocolError>(e),
        },
{
    if outer_kind != KIND_GIFT_WRAP {
        return Err(ProtocolError::NotGiftWrap);
    }
    let s = match seal {
        Some(s) => s,
        None => return Err(ProtocolError::MalformedSeal),
    };
    if s.kind != KIND_SEAL {
        return Err(ProtocolError::NotSeal);
    }
    let t = match find_p_tag(&s.tags) {
        Some(t) => t,
        None => return Err(ProtocolError::NoRecipientTag),
    };
    if s.tags[t].len() < 2 {
        return Err(ProtocolError::InvalidRecipientTag);
    }
    if !str_eq(s.tags[t][1].as_str(), me_hex) {
        return Err(ProtocolError::WrongRecipient);
    }
    let content = trimmed(s.content.as_str());
    let (legacy, ciphertext, nonce) = route_content(content.as_str());
    Ok(SealRoute {
        legacy,
        payload: EncryptedPayload { ciphertext, nonce, pubkey: s.pubkey_hex, timestamp: s.created_at },
    })
}

/// A Seal content with a pipe is routed to the legacy path and split at its first
/// pipe; one without a pipe goes whole to the current path.
pub proof fn law_dual_format(head: Seq<char>, tail: Seq<char>, plain: Seq<char>)
    requires
        forall|i: int| 0 <= i < head.len() ==> head[i] != '|',
        forall|i: int| 0 <= i < plain.len() ==> plain[i] != '|',
    ensures
        route_spec(head + seq!['|'] + tail) == (true, head, tail),
        route_spec(plain) == (false, plain, Seq::<char>::empty()),
{
    let s = head + seq!['|'] + tail;
    lemma_first_index(s, '|', head.len() as int);
    assert(s.subrange(0, head.len() as int) =~= head);
    assert(s.subrange(head.len() as int + 1, s.len() as int) =~= tail);
}

/// The value of a hex digit, or `None` for another character.
pub open spec fn hex_value(c: char) -> Option<u8> {
    if '0' <= c && c <= '9' {
        Some((c as u32 - '0' as u32) as u8)
    } else if 'a' <= c && c <= 'f' {
        Some((c as u32 - 'a' as u32 + 10) as u8)
    } else if 'A' <= c && c <= 'F' {
        Some((c as u32 - 'A' as u32 + 10) as u8)
    } else {
        None
    }
}

/// Whether `s` is hex text: even length, hex digits only.
pub open spec fn is_hex(s: Seq<char>) -> bool {
    s.len() % 2 == 0 && forall|i: int| 0 <= i < s.len() ==> hex_value(#[trigger] s[i]) is Some
}

/// The bytes that hex text `s` denotes, two digits each, high digit first.
pub open spec fn hex_bytes(s: Seq<char>) -> Seq<u8> {
    Seq::new(
        s.len() / 2,
        |i: int| (hex_value(s[2 * i]).unwrap() * 16 + hex_value(s[2 * i + 1]).unwrap()) as u8,
    )
}

/// The lowercase hex digit of a value below sixteen.
pub open spec fn hex_digit(v: u8) -> char {
    if v < 10 {
        ('0' as u32 + v) as char
    } else {
        ('a' as u32 + v - 10) as char
    }
}

/// Relies on `hex::decode`: `Ok` exactly for even-length text of hex digits (either
/// case), with one byte for each pair of digits.
#[verifier::external_body]
fn hex_decode(s: &str) -> (r: Option<Vec<u8>>)
    ensures
        r is Some <==> is_hex(s@),
        r matches Some(b) ==> b@ == hex_bytes(s@),
{
    hex::decode(s).ok()
}

/// `h` is the lowercase hex text of `b`: two digits per byte, high digit first.
pub open spec fn lower_hex_of(h: Seq<char>, b: Seq<u8>) -> bool {
    &&& h.len() == 2 * b.len()
    &&& forall|i: int|
        0 <= i < b.len() ==> h[2 * i] == hex_digit(#[trigger] b[i] / 16) && h[2 * i + 1] == hex_digit(b[i] % 16)
}

/// Relies on `hex::encode`: two lowercase digits per byte, high digit first.
#[verifier::external_body]
fn hex_encode(b: &Vec<u8>) -> (r: String)
    ensures
        lower_hex_of(r@, b@),
{
    hex::encode(b)
}

/// Relies on `rand::rngs::OsRng` filling a 32-byte array.
#[verifier::external_body]
fn random_key() -> (r: Vec<u8>)
    ensures
        r@.len() == SESSION_KEY_LEN,
{
    let mut key = [0u8; 32];
    rand::rngs::OsRng.fill_bytes(&mut key);
    key.to_vec()
}

/// What AES-256-GCM authenticated decryption yields for a key, nonce and ciphertext,
/// or `None` when authentication fails.
pub uninterp spec fn aes_gcm_opened(key: Seq<u8>, nonce: Seq<u8>, ciphertext: Seq<u8>) -> Option<Seq<u8>>;

/// Relies on `aes_gcm::Aes256Gcm` and `Aead::decrypt`, which need a 32-byte key and a
/// 12-byte nonce.
#[verifier::external_body]
fn aes_gcm_decrypt(key: &Vec<u8>, nonce: &Vec<u8>, ciphertext: &Vec<u8>) -> (r: Option<Vec<u8>>)
    requires
        key@.len() == SESSION_KEY_LEN,
        nonce@.len() == NONCE_LEN,
    ensures
        r matches Some(p) ==> aes_gcm_opened(key@, nonce@, ciphertext@) == Some(p@),
        r is None ==> aes_gcm_opened(key@, nonce@, ciphertext@) is None,
{
    let cipher = aes_gcm::Aes256Gcm::new(aes_gcm::aead::generic_array::GenericArray::from_slice(key));
    let n = aes_gcm::aead::generic_array::GenericArray::from_slice(nonce);
    cipher.decrypt(n, ciphertext.as_slice()).ok()
}

/// Relies on `String::from_utf8`: `Ok` exactly for valid UTF-8.
#[verifier::external_body]
fn utf8_text(b: Vec<u8>) -> (r: Option<String>)
    ensures
        r is Some <==> vstd::utf8::valid_utf8(b@),
        r matches Some(s) ==> s@ == vstd::utf8::decode_utf8(b@),
{
    String::from_utf8(b).ok()
}

/// Why a session-key or legacy-decrypt operation failed.
#[derive(Clone, Copy, Debug, PartialEq, Eq, Structural)]
pub enum CryptoError {
    InvalidKeyHex,
    InvalidKeyLength,
    InvalidNonce,
    InvalidCiphertext,
    DecryptionFailed,
    InvalidUtf8,
}

/// When a session key persisted at `now` (seconds) expires: thirty days later.
pub fn session_key_expiry(now: u64) -> (r: u64)
    ensures
        r == if now + SESSION_TTL_SECS > u64::MAX {
            u64::MAX
        } else {
            (now + SESSION_TTL_SECS) as u64
        },
{
    now.saturating_add(SESSION_TTL_SECS)
}

/// The per-peer symmetric keys of the legacy format, held in memory.
pub struct SessionArchive {
    sessions: Vec<(String, Vec<u8>)>,
}

impl SessionArchive {
    pub closed spec fn entries(&self) -> Seq<(Seq<char>, Seq<u8>)> {
        self.sessions@.map_values(|p: (String, Vec<u8>)| (p.0@, p.1@))
    }

    pub open spec fn peers(&self) -> Seq<Seq<char>> {
        self.entries().map_values(|e: (Seq<char>, Seq<u8>)| e.0)
    }

    /// The key held for `peer`.
    pub open spec fn key_of(&self, peer: Seq<char>) -> Option<Seq<u8>> {
        if self.peers().contains(peer) {
            let i = choose|i: int| 0 <= i < self.entries().len() && self.peers()[i] == peer;
            Some(self.entries()[i].1)
        } else {
            None
        }
    }

    /// One key per peer, each of session-key length.
    pub open spec fn wf(&self) -> bool {
        &&& self.peers().no_duplicates()
        &&& forall|i: int| 0 <= i < self.entries().len() ==> (#[trigger] self.entries()[i]).1.len() == SESSION_KEY_LEN
    }

    pub fn new() -> (r: SessionArchive)
        ensures
            r.wf(),
            r.entries() == Seq::<(Seq<char>, Seq<u8>)>::empty(),
    {
        let r = SessionArchive { sessions: Vec::new() };
        assert(r.entries() =~= Seq::<(Seq<char>, Seq<u8>)>::empty());
        assert(r.peers() =~= Seq::<Seq<char>>::empty());
        r
    }

    proof fn lemma_key_at(&self, i: int)
        requires
            self.wf(),
            0 <= i < self.entries().len(),
        ensures
            self.key_of(self.peers()[i]) == Some(self.entries()[i].1),
    {
        let u = self.peers()[i];
        let j = choose|j: int| 0 <= j < self.entries().len() && self.peers()[j] == u;
    }

    fn index_of(&self, peer: &str) -> (r: Option<usize>)
        ensures
            match r {
                Some(i) => i < self.entries().len() && self.peers()[i as int] == peer@,
                None => !self.peers().contains(peer@),
            },
    {
        let mut i: usize = 0;
        while i < self.sessions.len()
            invariant
                0 <= i <= self.sessions@.len(),
                forall|k: int| 0 <= k < i ==> self.sessions@[k].0@ != peer@,
            decreases self.sessions@.len() - i,
        {
            if str_eq(self.sessions[i].0.as_str(), peer) {
                return Some(i);
            }
            i += 1;
        }
        assert(!self.peers().contains(peer@)) by {
            if self.peers().contains(peer@) {
                let k = choose|k: int| 0 <= k < self.peers().len() && self.peers()[k] == peer@;
                assert(self.sessions@[k].0@ == peer@);
            }
        }
        None
    }

    /// The key held for `peer`, if any.
    pub fn lookup(&self, peer: &str) -> (r: Option<Vec<u8>>)
        requires
            self.wf(),
        ensures
            match r {
                Some(k) => self.key_of(peer@) == Some(k@),
                None => self.key_of(peer@) is None,
            },
    {
        match self.index_of(peer) {
            Some(i) => {
                proof {
                    self.lemma_key_at(i as int);
                }
                Some(self.sessions[i].1.clone())
            },
            None => None,
        }
    }

    /// Holds `key` for `peer`, replacing any key held before.
    pub fn insert(&mut self, peer: &str, key: Vec<u8>)
        requires
            old(self).wf(),
            key@.len() == SESSION_KEY_LEN,
        ensures
            final(self).wf(),
            final(self).key_of(peer@) == Some(key@),
            forall|p: Seq<char>| p != peer@ ==> #[trigger] final(self).key_of(p) == old(self).key_of(p),
    {
        let ghost kv = key@;
        match self.index_of(peer) {
            Some(i) => {
                let name = self.sessions[i].0.clone();
                self.sessions.set(i, (name, key));
                proof {
                    assert(self.entries() =~= old(self).entries().update(i as int, (peer@, kv)));
                    assert(self.peers() =~= old(self).peers());
                    self.lemma_key_at(i as int);
                    assert forall|p: Seq<char>| p != peer@ implies #[trigger] self.key_of(p) == old(self).key_of(p) by {
                        if old(self).peers().contains(p) {
                            let k = choose|k: int| 0 <= k < old(self).peers().len() && old(self).peers()[k] == p;
                            old(self).lemma_key_at(k);
                            self.lemma_key_at(k);
                        }
                    }
                }
            },
            None => {
                self.sessions.push((peer.to_owned(), key));
                proof {
                    let n = old(self).entries().len() as int;
                    assert(self.entries() =~= old(self).entries().push((peer@, kv)));
                    assert(self.peers() =~= old(self).peers().push(peer@));
                    self.lemma_key_at(n);
                    assert forall|p: Seq<char>| p != peer@ implies #[trigger] self.key_of(p) == old(self).key_of(p) by {
                        if old(self).peers().contains(p) {
                            let k = choose|k: int| 0 <= k < old(self).peers().len() && old(self).peers()[k] == p;
                            old(self).lemma_key_at(k);
                            self.lemma_key_at(k);
                        } else {
                            assert(!self.peers().contains(p)) by {
                                if self.peers().contains(p) {
                                    let k = choose|k: int| 0 <= k < self.peers().len() && self.peers()[k] == p;
                                    if k < n {
                                        assert(old(self).peers()[k] == p);
                                    }
                                }
                            }
                        }
                    }
                }
            },
        }
    }

    /// Forgets the key of `peer`.
    pub fn delete_session(&mut self, peer: &str)
        requires
            old(self).wf(),
        ensures
            final(self).wf(),
            final(self).key_of(peer@) is None,
            forall|p: Seq<char>| p != peer@ ==> #[trigger] final(self).key_of(p) == old(self).key_of(p),
    {
        if let Some(i) = self.index_of(peer) {
            self.sessions.remove(i);
            proof {
                let o = old(self).entries();
                assert(self.entries() =~= o.remove(i as int));
                assert(self.peers() =~= old(self).peers().remove(i as int));
                assert(!self.peers().contains(peer@)) by {
                    if self.peers().contains(peer@) {
                        let k = choose|k: int| 0 <= k < self.peers().len() && self.peers()[k] == peer@;
                        if k < i {
                            assert(old(self).peers()[k] == peer@);
                        } else {
                            assert(old(self).peers()[k + 1] == peer@);
                        }
                    }
                }
                assert forall|p: Seq<char>| p != peer@ implies #[trigger] self.key_of(p) == old(self).key_of(p) by {
                    if old(self).peers().contains(p) {
                        let k = choose|k: int| 0 <= k < old(self).peers().len() && old(self).peers()[k] == p;
                        old(self).lemma_key_at(k);
                        if k < i {
                            self.lemma_key_at(k);
                        } else {
                            assert(k != i);
                            self.lemma_key_at(k - 1);
                        }
                    } else {
                        assert(!self.peers().contains(p)) by {
                            if self.peers().contains(p) {
                                let k = choose|k: int| 0 <= k < self.peers().len() && self.peers()[k] == p;
                                if k < i {
                                    assert(old(self).peers()[k] == p);
                                } else {
                                    assert(old(self).peers()[k + 1] == p);
                                }
                            }
                        }
                    }
                }
            }
        }
    }

    /// The peers for which a key is held.
    pub fn get_sessions(&self) -> (r: Vec<String>)
        ensures
            r@.map_values(|s: String| s@) == self.peers(),
    {
        let mut out: Vec<String> = Vec::new();
        let mut i: usize = 0;
        while i < self.sessions.len()
            invariant
                0 <= i <= self.sessions@.len(),
                out@.map_values(|s: String| s@) == self.peers().subrange(0, i as int),
            decreases self.sessions@.len() - i,
        {
            let ghost prev = out@;
            out.push(self.sessions[i].0.clone());
            assert(self.peers()[i as int] == self.sessions@[i as int].0@);
            assert(out@.map_values(|s: String| s@) =~= prev.map_values(|s: String| s@).push(self.sessions@[i as int].0@));
            assert(self.peers().subrange(0, i + 1) =~= self.peers().subrange(0, i as int).push(self.peers()[i as int]));
            assert(out@.map_values(|s: String| s@) =~= self.peers().subrange(0, i + 1));
            i += 1;
        }
        assert(self.peers().subrange(0, self.peers().len() as int) =~= self.peers());
        out
    }

    /// The key for `peer`: the one held in memory, else the persisted one (`persisted`,
    /// hex) when it decodes to a key of the right length, else a fresh random key. The
    /// key is held afterwards; when it is fresh, the second result is its hex text, to
    /// persist until `session_key_expiry`.
    pub fn get_session_key(&mut self, peer: &str, persisted: Option<&str>) -> (r: (Vec<u8>, Option<String>))
        requires
            old(self).wf(),
        ensures
            final(self).wf(),
            r.0@.len() == SESSION_KEY_LEN,
            final(self).key_of(peer@) == Some(r.0@),
            forall|p: Seq<char>| p != peer@ ==> #[trigger] final(self).key_of(p) == old(self).key_of(p),
            old(self).key_of(peer@) matches Some(k) ==> r.0@ == k && r.1 is None,
            old(self).key_of(peer@) is None ==> match persisted {
                Some(h) if is_hex(h@) && hex_bytes(h@).len() == SESSION_KEY_LEN => r.0@ == hex_bytes(h@) && r.1 is None,
                _ => r.1 matches Some(h) && lower_hex_of(h@, r.0@),
            },
    {
        if let Some(k) = self.lookup(peer) {
            proof {
                let i = choose|i: int| 0 <= i < self.entries().len() && self.peers()[i] == peer@;
                assert(self.entries()[i].1.len() == SESSION_KEY_LEN);
            }
            return (k, None);
        }
        if let Some(h) = persisted {
            if let Some(bytes) = hex_decode(h) {
                if bytes.len() == SESSION_KEY_LEN {
                    let kept = bytes.clone();
                    self.insert(peer, bytes);
                    return (kept, None);
                }
            }
        }
        let key = random_key();
        let text = hex_encode(&key);
        let kept = key.clone();
        self.insert(peer, key);
        (kept, Some(text))
    }

    /// Holds a key given as hex text for `peer`: it must decode to exactly 32 bytes.
    pub fn import_session(&mut self, peer: &str, key_hex: &str) -> (r: Result<(), CryptoError>)
        requires
            old(self).wf(),
        ensures
            final(self).wf(),
            !is_hex(key_hex@) ==> r == Err::<(), CryptoError>(CryptoError::InvalidKeyHex) && *final(self) == *old(self),
            is_hex(key_hex@) && hex_bytes(key_hex@).len() != SESSION_KEY_LEN ==> r == Err::<(), CryptoError>(
                CryptoError::InvalidKeyLength,
            ) && *final(self) == *old(self),
            is_hex(key_hex@) && hex_bytes(key_hex@).len() == SESSION_KEY_LEN ==> r is Ok && final(self).key_of(peer@)
                == Some(hex_bytes(key_hex@)),
            forall|p: Seq<char>| p != peer@ ==> #[trigger] final(self).key_of(p) == old(self).key_of(p),
    {
        let bytes = match hex_decode(key_hex) {
            Some(b) => b,
            None => return Err(CryptoError::InvalidKeyHex),
        };
        if bytes.len() != SESSION_KEY_LEN {
            return Err(CryptoError::InvalidKeyLength);
        }
        self.insert(peer, bytes);
        Ok(())
    }

    /// The key for `peer` as hex text, creating it as `get_session_key` does.
    pub fn export_session(&mut self, peer: &str, persisted: Option<&str>) -> (r: (String, Option<String>))
        requires
            old(self).wf(),
        ensures
            final(self).wf(),
            final(self).key_of(peer@) is Some,
            lower_hex_of(r.0@, final(self).key_of(peer@).unwrap()),
            old(self).key_of(peer@) is Some ==> final(self).key_of(peer@) == old(self).key_of(peer@),
            forall|p: Seq<char>| p != peer@ ==> #[trigger] final(self).key_of(p) == old(self).key_of(p),
    {
        let (key, fresh) = self.get_session_key(peer, persisted);
        (hex_encode(&key), fresh)
    }

    /// Decrypts a legacy payload: hex ciphertext and hex nonce under the session key of
    /// the payload's author (created as `get_session_key` does when none is held).
    pub fn decrypt_legacy(&mut self, payload: &EncryptedPayload, persisted: Option<&str>) -> (r: (Result<String, CryptoError>, Option<String>))
        requires
            old(self).wf(),
        ensures
            final(self).wf(),
            final(self).key_of(payload.pubkey@) is Some,
            forall|p: Seq<char>| p != payload.pubkey@ ==> #[trigger] final(self).key_of(p) == old(self).key_of(p),
            ({
                let key = final(self).key_of(payload.pubkey@).unwrap();
                let n = payload.nonce@;
                let c = payload.ciphertext@;
                match r.0 {
                    Ok(text) => is_hex(n) && hex_bytes(n).len() == NONCE_LEN && is_hex(c)
                        && (aes_gcm_opened(key, hex_bytes(n), hex_bytes(c)) matches Some(p)
                        && vstd::utf8::valid_utf8(p) && text@ == vstd::utf8::decode_utf8(p)),
                    Err(CryptoError::InvalidNonce) => !is_hex(n) || hex_bytes(n).len() != NONCE_LEN,
                    Err(CryptoError::InvalidCiphertext) => is_hex(n) && hex_bytes(n).len() == NONCE_LEN && !is_hex(c),
                    Err(CryptoError::DecryptionFailed) => is_hex(n) && hex_bytes(n).len() == NONCE_LEN && is_hex(c)
                        && aes_gcm_opened(key, hex_bytes(n), hex_bytes(c)) is None,
                    Err(CryptoError::InvalidUtf8) => is_hex(n) && hex_bytes(n).len() == NONCE_LEN && is_hex(c)
                        && (aes_gcm_opened(key, hex_bytes(n), hex_bytes(c)) matches Some(p) && !vstd::utf8::valid_utf8(p)),
                    Err(_) => false,
                }
            }),
    {
        let (key, fresh) = self.get_session_key(payload.pubkey.as_str(), persisted);
        let nonce = match hex_decode(payload.nonce.as_str()) {
            Some(n) => n,
            None => return (Err(CryptoError::InvalidNonce), fresh),
        };
        if nonce.len() != NONCE_LEN {
            return (Err(CryptoError::InvalidNonce), fresh);
        }
        let ciphertext = match hex_decode(payload.ciphertext.as_str()) {
            Some(c) => c,
            None => return (Err(CryptoError::InvalidCiphertext), fresh),
        };
        let plain = match aes_gcm_decrypt(&key, &nonce, &ciphertext) {
            Some(p) => p,
            None => return (Err(CryptoError::DecryptionFailed), fresh),
        };
        match utf8_text(plain) {
            Some(t) => (Ok(t), fresh),
            None => (Err(CryptoError::InvalidUtf8), fresh),
        }
    }
}

} // verus!
