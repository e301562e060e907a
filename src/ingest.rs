use serde_json::Value;
use vstd::prelude::*;

use crate::ratelimit::{admits, RateLimiter};
use crate::store::{ids_of, ContactRecord, MessageRecord, MessageStore};
use crate::text::{
    ends_with_str, lower_of, lowercase, trim_of, trimmed, seq_ends_with, seq_starts_with, starts_with_str, str_eq,
};

verus! {

/// Largest accepted message body, in bytes.
pub const MAX_CONTENT_BYTES: usize = 65536;

/// Marker that opens an image message; the rest is the media reference.
pub const IMAGE_PREFIX: &'static str = "📷 Image: ";

/// An unwrapped inbound direct message: the Gift Wrap's id and the Rumor's fields.
pub struct InboundMessage {
    pub id: String,
    pub sender: String,
    pub content: String,
    pub timestamp: i64,
}

/// The fields of a JSON control envelope that ingestion reads.
pub struct ControlFields {
    pub version: Option<i64>,
    pub kind: Option<String>,
    pub message_id: Option<String>,
    pub message_ids: Option<Vec<Option<String>>>,
    pub typing: Option<bool>,
    pub online: Option<bool>,
    pub last_seen: Option<i64>,
}

/// What the outside parsers say of a message body.
pub struct ContentFacts {
    /// The body without surrounding whitespace.
    pub text: String,
    /// The control envelope's fields, when the body opens with `{` and is JSON.
    pub control: Option<ControlFields>,
    /// The lowercased path of the body read as a URL, when it is one.
    pub url_path: Option<String>,
}

/// The control fields that a JSON parse of `s` yields, or `None` where `s` is no JSON.
pub uninterp spec fn control_fields_of(s: Seq<char>) -> Option<ControlFields>;

/// The path of `s` parsed as an absolute URL, or `None` where it does not parse.
pub uninterp spec fn url_path_of(s: Seq<char>) -> Option<Seq<char>>;

/// Relies on `serde_json::from_str` into a `Value`, then `Value::get` and the `as_*`
/// accessors to read the named fields.
#[verifier::external_body]
fn read_control_fields(s: &str) -> (r: Option<ControlFields>)
    ensures
        r == control_fields_of(s@),
{
    let v: Value = serde_json::from_str(s).ok()?;
    let g = |k: &str| v.get(k);
    let text = |k: &str| g(k).and_then(Value::as_str).map(String::from);
    Some(ControlFields {
        version: g("v").and_then(Value::as_i64),
        kind: text("type"),
        message_id: text("messageId"),
        message_ids: g("messageIds").and_then(Value::as_array).map(|a| a.iter().map(|x| x.as_str().map(String::from)).collect()),
        typing: g("typing").and_then(Value::as_bool),
        online: g("online").and_then(Value::as_bool),
        last_seen: g("lastSeen").and_then(Value::as_i64),
    })
}

/// Relies on `url::Url::parse` and `Url::path`.
#[verifier::external_body]
fn parsed_url_path(s: &str) -> (r: Option<String>)
    ensures
        r matches Some(p) ==> url_path_of(s@) == Some(p@),
        r is None ==> url_path_of(s@) is None,
{
    url::Url::parse(s).ok().map(|u| u.path().to_string())
}

pub open spec fn opt_view(o: Option<String>) -> Option<Seq<char>> {
    match o {
        Some(s) => Some(s@),
        None => None,
    }
}

pub open spec fn facts_of(raw: Seq<char>, f: ContentFacts) -> bool {
    &&& f.text@ == trim_of(raw)
    &&& f.control == if seq_starts_with(trim_of(raw), "{"@) {
        control_fields_of(trim_of(raw))
    } else {
        None
    }
    &&& opt_view(f.url_path) == match url_path_of(trim_of(raw)) {
        Some(p) => Some(lower_of(p)),
        None => None,
    }
}

/// Runs the outside parsers over a raw message body.
pub fn content_facts(raw: &str) -> (r: ContentFacts)
    ensures
        facts_of(raw@, r),
{
    let text = trimmed(raw);
    let control = if starts_with_str(text.as_str(), "{") {
        read_control_fields(text.as_str())
    } else {
        None
    };
    let url_path = match parsed_url_path(text.as_str()) {
        Some(p) => Some(lowercase(p.as_str())),
        None => None,
    };
    ContentFacts { text, control, url_path }
}

/// Where a message arrived from.
#[derive(Clone, Copy, Debug, PartialEq, Eq, Structural)]
pub enum DeliveryPath {
    /// The live subscription.
    Live,
    /// Offline catch-up synchronisation.
    CatchUp,
}

/// The recognised control-message kinds.
#[derive(Clone, Copy, Debug, PartialEq, Eq, Structural)]
pub enum ControlKind {
    Typing,
    ReadReceipt,
    Presence,
}

/// The decision that ingestion takes for one message.
#[derive(Clone, Copy, Debug, PartialEq, Eq, Structural)]
pub enum Verdict {
    AlreadyStored,
    Tombstoned,
    UnknownSender,
    EmptyContent,
    TooLarge,
    Control(ControlKind),
    RateLimited,
    Stored,
}

/// The outcome of ingesting one message, with what the caller needs to notify.
pub enum Ingested {
    AlreadyStored,
    Tombstoned,
    UnknownSender,
    EmptyContent,
    TooLarge,
    /// A typing indicator, with its flag when one was given.
    Typing(Option<bool>),
    /// A read receipt, with the ids that were marked read.
    ReadReceipt(Vec<String>),
    /// A presence notice, with its flag when one was given and its last-seen time.
    Presence(Option<bool>, i64),
    RateLimited,
    /// A newly stored message.
    Stored(MessageRecord),
}

impl Ingested {
    pub open spec fn verdict(&self) -> Verdict {
        match self {
            Ingested::AlreadyStored => Verdict::AlreadyStored,
            Ingested::Tombstoned => Verdict::Tombstoned,
            Ingested::UnknownSender => Verdict::UnknownSender,
            Ingested::EmptyContent => Verdict::EmptyContent,
            Ingested::TooLarge => Verdict::TooLarge,
            Ingested::Typing(_) => Verdict::Control(ControlKind::Typing),
            Ingested::ReadReceipt(_) => Verdict::Control(ControlKind::ReadReceipt),
            Ingested::Presence(_, _) => Verdict::Control(ControlKind::Presence),
            Ingested::RateLimited => Verdict::RateLimited,
            Ingested::Stored(_) => Verdict::Stored,
        }
    }
}

pub open spec fn byte_len(s: Seq<char>) -> nat {
    vstd::utf8::encode_utf8(s).len()
}

/// The control kind of a body, from its parsed fields: a version-1 envelope (an absent
/// version counts as 1) whose type is one of the three known names.
pub open spec fn control_kind(c: Option<ControlFields>) -> Option<ControlKind> {
    match c {
        Some(f) => {
            let v = match f.version {
                Some(v) => v,
                None => 1,
            };
            if v != 1 {
                None
            } else {
                match f.kind {
                    Some(k) => if k@ == "typing"@ {
                        Some(ControlKind::Typing)
                    } else if k@ == "read_receipt"@ {
                        Some(ControlKind::ReadReceipt)
                    } else if k@ == "presence"@ {
                        Some(ControlKind::Presence)
                    } else {
                        None
                    },
                    None => None,
                }
            }
        },
        None => None,
    }
}

/// The text values among `v`, in order.
pub open spec fn present(v: Seq<Option<String>>) -> Seq<Seq<char>>
    decreases v.len(),
{
    if v.len() == 0 {
        Seq::empty()
    } else {
        let p = present(v.drop_last());
        match v.last() {
            Some(s) => p.push(s@),
            None => p,
        }
    }
}

/// The ids that a read receipt marks: on the live path its `messageIds` list; during
/// catch-up its single `messageId` when present, else that list.
pub open spec fn receipt_ids(c: Option<ControlFields>, path: DeliveryPath) -> Seq<Seq<char>> {
    match c {
        Some(f) => {
            let list = match f.message_ids {
                Some(v) => present(v@),
                None => Seq::empty(),
            };
            match (path, f.message_id) {
                (DeliveryPath::CatchUp, Some(id)) => seq![id@],
                _ => list,
            }
        },
        None => Seq::empty(),
    }
}

/// Whether the sender may write to us: ourselves or a stored contact.
pub open spec fn whitelisted(store: MessageStore, sender: Seq<char>, me: Seq<char>) -> bool {
    sender == me || store.is_contact(sender)
}

/// The decision for `msg`, where `rate_ok` says whether the rate limiter admits it.
pub open spec fn verdict(
    store: MessageStore,
    msg: InboundMessage,
    f: ContentFacts,
    me: Seq<char>,
    path: DeliveryPath,
    rate_ok: bool,
) -> Verdict {
    if store.has_message(msg.id@) {
        Verdict::AlreadyStored
    } else if store.is_tombstoned(msg.id@) {
        Verdict::Tombstoned
    } else if !whitelisted(store, msg.sender@, me) {
        Verdict::UnknownSender
    } else if f.text@.len() == 0 {
        Verdict::EmptyContent
    } else if byte_len(f.text@) > MAX_CONTENT_BYTES {
        Verdict::TooLarge
    } else if control_kind(f.control) is Some {
        Verdict::Control(control_kind(f.control).unwrap())
    } else if path == DeliveryPath::Live && !rate_ok {
        Verdict::RateLimited
    } else {
        Verdict::Stored
    }
}

/// `s` with every leading copy of `p` removed.
pub open spec fn strip_all(s: Seq<char>, p: Seq<char>) -> Seq<char>
    decreases s.len(),
{
    if p.len() > 0 && seq_starts_with(s, p) {
        strip_all(s.subrange(p.len() as int, s.len() as int), p)
    } else {
        s
    }
}

pub open spec fn is_image_path(p: Seq<char>) -> bool {
    seq_ends_with(p, ".png"@) || seq_ends_with(p, ".jpg"@) || seq_ends_with(p, ".jpeg"@)
        || seq_ends_with(p, ".gif"@) || seq_ends_with(p, ".webp"@)
}

/// Whether a body is an image reference: the image marker, or a URL whose path ends
/// in a known image extension.
pub open spec fn is_image(f: ContentFacts) -> bool {
    seq_starts_with(f.text@, IMAGE_PREFIX@) || match f.url_path {
        Some(p) => is_image_path(p@),
        None => false,
    }
}

/// The media reference of an image body.
pub open spec fn media_of(f: ContentFacts) -> Seq<char> {
    if seq_starts_with(f.text@, IMAGE_PREFIX@) {
        strip_all(f.text@, IMAGE_PREFIX@)
    } else {
        f.text@
    }
}

/// `r` is the record that ingestion stores for `msg`.
pub open spec fn record_for(r: MessageRecord, msg: InboundMessage, f: ContentFacts, me: Seq<char>) -> bool {
    &&& r.id@ == msg.id@
    &&& r.sender@ == msg.sender@
    &&& r.receiver@ == me
    &&& r.content@ == f.text@
    &&& r.timestamp == msg.timestamp
    &&& r.status@ == "received"@
    &&& if is_image(f) {
        r.message_type@ == "image"@ && opt_view(r.media_url) == Some(media_of(f))
    } else {
        r.message_type@ == "text"@ && r.media_url is None
    }
}

/// The control fields read from a trimmed body: parsed only when it opens with `{`.
pub open spec fn control_of_text(t: Seq<char>) -> Option<ControlFields> {
    if seq_starts_with(t, "{"@) {
        control_fields_of(t)
    } else {
        None
    }
}

/// Whether a trimmed body is an image reference.
pub open spec fn image_text(t: Seq<char>) -> bool {
    seq_starts_with(t, IMAGE_PREFIX@) || (url_path_of(t) matches Some(q) && is_image_path(lower_of(q)))
}

/// The media reference of a trimmed image body.
pub open spec fn media_text(t: Seq<char>) -> Seq<char> {
    if seq_starts_with(t, IMAGE_PREFIX@) {
        strip_all(t, IMAGE_PREFIX@)
    } else {
        t
    }
}

/// A message that ingestion stores as data when delivered to `store`: new, not
/// tombstoned, from us or a contact, with a trimmed body of 1 to 65536 bytes that is
/// not a control envelope.
pub open spec fn admissible(store: MessageStore, m: InboundMessage, me: Seq<char>) -> bool {
    let t = trim_of(m.content@);
    &&& !store.has_message(m.id@)
    &&& !store.is_tombstoned(m.id@)
    &&& whitelisted(store, m.sender@, me)
    &&& t.len() > 0
    &&& byte_len(t) <= MAX_CONTENT_BYTES
    &&& control_kind(control_of_text(t)) is None
}

/// `r` is the record stored for message `m` received by `me`, stated over the raw body.
pub open spec fn record_of_message(r: MessageRecord, m: InboundMessage, me: Seq<char>) -> bool {
    let t = trim_of(m.content@);
    &&& r.id@ == m.id@
    &&& r.sender@ == m.sender@
    &&& r.receiver@ == me
    &&& r.content@ == t
    &&& t.len() > 0
    &&& byte_len(t) <= MAX_CONTENT_BYTES
    &&& r.timestamp == m.timestamp
    &&& r.status@ == "received"@
    &&& if image_text(t) {
        r.message_type@ == "image"@ && opt_view(r.media_url) == Some(media_text(t))
    } else {
        r.message_type@ == "text"@ && r.media_url is None
    }
}

/// With the facts of a message's body, the synced decision is to store it exactly when
/// it is admissible.
pub proof fn lemma_facts_decide(store: MessageStore, m: InboundMessage, f: ContentFacts, me: Seq<char>)
    requires
        facts_of(m.content@, f),
    ensures
        (verdict(store, m, f, me, DeliveryPath::CatchUp, true) == Verdict::Stored) == admissible(store, m, me),
{
}

/// A record built from the facts of a stored message's body is its record.
pub proof fn lemma_facts_record(store: MessageStore, m: InboundMessage, f: ContentFacts, me: Seq<char>, r: MessageRecord)
    requires
        facts_of(m.content@, f),
        verdict(store, m, f, me, DeliveryPath::CatchUp, true) == Verdict::Stored,
        record_for(r, m, f, me),
    ensures
        record_of_message(r, m, me),
{
    let t = trim_of(m.content@);
    assert(is_image(f) == image_text(t)) by {
        match f.url_path {
            Some(p) => {
                assert(opt_view(f.url_path) == Some(p@));
            },
            None => {},
        }
    }
}

/// `after` is `before` with the status of each record whose id is in `ids` set to "read".
pub open spec fn read_applied(before: Seq<MessageRecord>, after: Seq<MessageRecord>, ids: Seq<Seq<char>>) -> bool {
    &&& after.len() == before.len()
    &&& forall|k: int|
        0 <= k < before.len() ==> #[trigger] after[k] == if ids.contains(before[k].id@) {
            MessageRecord { status: after[k].status, ..before[k] }
        } else {
            before[k]
        }
    &&& forall|k: int|
        0 <= k < before.len() && ids.contains(before[k].id@) ==> (#[trigger] after[k]).status@
            == "read"@
}

/// The notice a control outcome carries, as read from the parsed fields: the typing
/// flag; the online flag and last-seen time (zero when absent); the receipt's ids.
pub open spec fn payload_of(out: Ingested, c: Option<ControlFields>, path: DeliveryPath) -> bool {
    match out {
        Ingested::Typing(flag) => flag == match c {
            Some(f) => f.typing,
            None => None,
        },
        Ingested::Presence(online, seen) => match c {
            Some(f) => online == f.online && seen == match f.last_seen {
                Some(t) => t,
                None => 0,
            },
            None => online is None && seen == 0,
        },
        Ingested::ReadReceipt(ids) => ids@.map_values(|s: String| s@) == receipt_ids(c, path),
        _ => true,
    }
}

/// How the stored messages change under a decision.
pub open spec fn messages_after(
    before: Seq<MessageRecord>,
    after: Seq<MessageRecord>,
    v: Verdict,
    out: Ingested,
    msg: InboundMessage,
    f: ContentFacts,
    me: Seq<char>,
    path: DeliveryPath,
) -> bool {
    match v {
        Verdict::Stored => out matches Ingested::Stored(r) && record_for(r, msg, f, me) && after
            == before.push(r),
        Verdict::Control(ControlKind::ReadReceipt) => read_applied(
            before,
            after,
            receipt_ids(f.control, path),
        ),
        _ => after == before,
    }
}

fn present_strings(v: &Vec<Option<String>>) -> (r: Vec<String>)
    ensures
        r@.map_values(|s: String| s@) == present(v@),
{
    let mut out: Vec<String> = Vec::new();
    let mut i: usize = 0;
    while i < v.len()
        invariant
            0 <= i <= v@.len(),
            out@.map_values(|s: String| s@) == present(v@.subrange(0, i as int)),
        decreases v@.len() - i,
    {
        assert(v@.subrange(0, i + 1).drop_last() =~= v@.subrange(0, i as int));
        match &v[i] {
            Some(s) => {
                let ghost before = out@;
                out.push(s.clone());
                assert(out@.map_values(|s: String| s@) =~= before.map_values(|s: String| s@).push(
                    s@,
                ));
            },
            None => {},
        }
        i += 1;
    }
    assert(v@.subrange(0, v@.len() as int) =~= v@);
    out
}

fn control_kind_exec(c: &Option<ControlFields>) -> (r: Option<ControlKind>)
    ensures
        r == control_kind(*c),
{
    match c {
        Some(f) => {
            let v = match f.version {
                Some(v) => v,
                None => 1,
            };
            if v != 1 {
                return None;
            }
            match &f.kind {
                Some(k) => {
                    if str_eq(k.as_str(), "typing") {
                        Some(ControlKind::Typing)
                    } else if str_eq(k.as_str(), "read_receipt") {
                        Some(ControlKind::ReadReceipt)
                    } else if str_eq(k.as_str(), "presence") {
                        Some(ControlKind::Presence)
                    } else {
                        None
                    }
                },
                None => None,
            }
        },
        None => None,
    }
}

fn receipt_ids_exec(c: &Option<ControlFields>, path: DeliveryPath) -> (r: Vec<String>)
    ensures
        r@.map_values(|s: String| s@) == receipt_ids(*c, path),
{
    match c {
        Some(f) => {
            if path == DeliveryPath::CatchUp {
                if let Some(id) = &f.message_id {
                    let mut r: Vec<String> = Vec::new();
                    r.push(id.clone());
                    assert(r@.map_values(|s: String| s@) =~= seq![id@]);
                    return r;
                }
            }
            match &f.message_ids {
                Some(v) => present_strings(v),
                None => {
                    let r: Vec<String> = Vec::new();
                    assert(r@.map_values(|s: String| s@) =~= Seq::<Seq<char>>::empty());
                    r
                },
            }
        },
        None => {
            let r: Vec<String> = Vec::new();
            assert(r@.map_values(|s: String| s@) =~= Seq::<Seq<char>>::empty());
            r
        },
    }
}

/// Marks each stored message whose id is listed as read.
fn mark_read(store: &mut MessageStore, ids: &Vec<String>)
    requires
        old(store).wf(),
    ensures
        final(store).wf(),
        read_applied(old(store).messages(), final(store).messages(), ids@.map_values(|s: String| s@)),
        final(store).tombstones() == old(store).tombstones(),
        final(store).contacts() == old(store).contacts(),
{
    let ghost start = store.messages();
    let mut j: usize = 0;
    while j < ids.len()
        invariant
            0 <= j <= ids@.len(),
            store.wf(),
            store.tombstones() == old(store).tombstones(),
            store.contacts() == old(store).contacts(),
            start == old(store).messages(),
            read_applied(start, store.messages(), ids@.subrange(0, j as int).map_values(|s: String| s@)),
        decreases ids@.len() - j,
    {
        let ghost mid = store.messages();
        let ghost done = ids@.subrange(0, j as int).map_values(|s: String| s@);
        let ghost next = ids@.subrange(0, j + 1).map_values(|s: String| s@);
        assert(next =~= done.push(ids@[j as int]@));
        store.update_message_status(ids[j].as_str(), "read");
        assert forall|k: int| 0 <= k < start.len() implies #[trigger] store.messages()[k] == if next.contains(
            start[k].id@,
        ) {
            MessageRecord { status: store.messages()[k].status, ..start[k] }
        } else {
            start[k]
        } by {
            assert(mid[k].id@ == start[k].id@);
            if done.contains(start[k].id@) {
                assert(next.contains(start[k].id@)) by {
                    let x = choose|x: int| 0 <= x < done.len() && done[x] == start[k].id@;
                    assert(next[x] == start[k].id@);
                }
            }
            if start[k].id@ == ids@[j as int]@ {
                assert(next[j as int] == start[k].id@);
            }
            if next.contains(start[k].id@) && !done.contains(start[k].id@) {
                let x = choose|x: int| 0 <= x < next.len() && next[x] == start[k].id@;
                if x < done.len() {
                    assert(done[x] == start[k].id@);
                }
            }
        }
        assert forall|k: int|
            0 <= k < start.len() && next.contains(start[k].id@) implies (#[trigger] store.messages()[k]).status@
            == "read"@ by {
            assert(mid[k].id@ == start[k].id@);
            if !done.contains(start[k].id@) {
                let x = choose|x: int| 0 <= x < next.len() && next[x] == start[k].id@;
                if x < done.len() {
                    assert(done[x] == start[k].id@);
                }
            }
        }
        j += 1;
    }
    assert(ids@.subrange(0, ids@.len() as int) =~= ids@);
}

fn strip_prefixes(s: &str, p: &str) -> (r: String)
    ensures
        r@ == strip_all(s@, p@),
{
    let plen = p.unicode_len();
    if plen == 0 {
        return s.to_owned();
    }
    let mut cur: &str = s;
    while starts_with_str(cur, p)
        invariant
            plen == p@.len(),
            plen > 0,
            strip_all(cur@, p@) == strip_all(s@, p@),
        decreases cur@.len(),
    {
        let n = cur.unicode_len();
        cur = cur.substring_char(plen, n);
    }
    cur.to_owned()
}

fn is_image_path_exec(p: &str) -> (r: bool)
    ensures
        r == is_image_path(p@),
{
    ends_with_str(p, ".png") || ends_with_str(p, ".jpg") || ends_with_str(p, ".jpeg")
        || ends_with_str(p, ".gif") || ends_with_str(p, ".webp")
}

/// Builds the stored record of a data message.
fn build_record(msg: &InboundMessage, f: &ContentFacts, me: &str) -> (r: MessageRecord)
    ensures
        record_for(r, *msg, *f, me@),
{
    let marked = starts_with_str(f.text.as_str(), IMAGE_PREFIX);
    let by_url = match &f.url_path {
        Some(p) => is_image_path_exec(p.as_str()),
        None => false,
    };
    let (message_type, media_url) = if marked {
        ("image".to_owned(), Some(strip_prefixes(f.text.as_str(), IMAGE_PREFIX)))
    } else if by_url {
        ("image".to_owned(), Some(f.text.clone()))
    } else {
        ("text".to_owned(), None)
    };
    MessageRecord {
        id: msg.id.clone(),
        sender: msg.sender.clone(),
        receiver: me.to_owned(),
        content: f.text.clone(),
        timestamp: msg.timestamp,
        status: "received".to_owned(),
        message_type,
        media_url,
    }
}

/// Everything ingestion decides before the rate limiter: `None` means that the message
/// is a data message that passed every check.
fn screen(store: &mut MessageStore, msg: &InboundMessage, f: &ContentFacts, me: &str, path: DeliveryPath) -> (r: Option<Ingested>)
    requires
        old(store).wf(),
    ensures
        final(store).wf(),
        final(store).tombstones() == old(store).tombstones(),
        final(store).contacts() == old(store).contacts(),
        match r {
            Some(out) => {
                &&& out.verdict() != Verdict::Stored && out.verdict() != Verdict::RateLimited
                &&& out.verdict() == verdict(*old(store), *msg, *f, me@, path, true)
                &&& messages_after(old(store).messages(), final(store).messages(), out.verdict(), out, *msg, *f, me@, path)
                &&& payload_of(out, f.control, path)
            },
            None => {
                &&& verdict(*old(store), *msg, *f, me@, path, true) == Verdict::Stored
                &&& final(store).messages() == old(store).messages()
            },
        },
{
    if store.message_exists(msg.id.as_str()) {
        return Some(Ingested::AlreadyStored);
    }
    if store.deleted_event_exists(msg.id.as_str()) {
        return Some(Ingested::Tombstoned);
    }
    if !str_eq(msg.sender.as_str(), me) && store.get_contact(msg.sender.as_str()).is_none() {
        return Some(Ingested::UnknownSender);
    }
    if f.text.unicode_len() == 0 {
        return Some(Ingested::EmptyContent);
    }
    if f.text.as_str().as_bytes().len() > MAX_CONTENT_BYTES {
        return Some(Ingested::TooLarge);
    }
    match control_kind_exec(&f.control) {
        Some(ControlKind::Typing) => {
            let flag = match &f.control {
                Some(c) => c.typing,
                None => None,
            };
            Some(Ingested::Typing(flag))
        },
        Some(ControlKind::ReadReceipt) => {
            let ids = receipt_ids_exec(&f.control, path);
            mark_read(store, &ids);
            Some(Ingested::ReadReceipt(ids))
        },
        Some(ControlKind::Presence) => {
            let (online, seen) = match &f.control {
                Some(c) => (
                    c.online,
                    match c.last_seen {
                        Some(t) => t,
                        None => 0,
                    },
                ),
                None => (None, 0),
            };
            Some(Ingested::Presence(online, seen))
        },
        None => None,
    }
}

/// Ingests a message that arrived on the live subscription at `now` (milliseconds on a
/// monotonic clock). Control messages bypass the rate limiter; data messages are
/// rate-limited per sender, then stored at most once.
pub fn ingest_live(
    store: &mut MessageStore,
    limiter: &mut RateLimiter,
    msg: &InboundMessage,
    f: &ContentFacts,
    me: &str,
    now: u64,
) -> (r: Ingested)
    requires
        old(store).wf(),
        old(limiter).wf(),
    ensures
        final(store).wf(),
        final(limiter).wf(),
        r.verdict() == verdict(
            *old(store),
            *msg,
            *f,
            me@,
            DeliveryPath::Live,
            admits(old(limiter).window(msg.sender@), now),
        ),
        messages_after(old(store).messages(), final(store).messages(), r.verdict(), r, *msg, *f, me@, DeliveryPath::Live),
        payload_of(r, f.control, DeliveryPath::Live),
        final(store).tombstones() == old(store).tombstones(),
        final(store).contacts() == old(store).contacts(),
        r.verdict() == Verdict::Stored || r.verdict() == Verdict::RateLimited || *final(limiter)
            == *old(limiter),
{
    match screen(store, msg, f, me, DeliveryPath::Live) {
        Some(out) => out,
        None => {
            if !limiter.check_and_update(msg.sender.as_str(), now) {
                return Ingested::RateLimited;
            }
            let rec = build_record(msg, f, me);
            let saved = rec.duplicate();
            let is_new = store.save_message(rec);
            assert(is_new);
            Ingested::Stored(saved)
        },
    }
}

/// Ingests a message fetched during catch-up synchronisation: the same checks as the
/// live path, without rate limiting, and with typing and presence notices ignored.
pub fn ingest_synced(store: &mut MessageStore, msg: &InboundMessage, f: &ContentFacts, me: &str) -> (r: Ingested)
    requires
        old(store).wf(),
    ensures
        final(store).wf(),
        r.verdict() == verdict(*old(store), *msg, *f, me@, DeliveryPath::CatchUp, true),
        messages_after(old(store).messages(), final(store).messages(), r.verdict(), r, *msg, *f, me@, DeliveryPath::CatchUp),
        payload_of(r, f.control, DeliveryPath::CatchUp),
        final(store).tombstones() == old(store).tombstones(),
        final(store).contacts() == old(store).contacts(),
{
    match screen(store, msg, f, me, DeliveryPath::CatchUp) {
        Some(out) => out,
        None => {
            let rec = build_record(msg, f, me);
            let saved = rec.duplicate();
            let is_new = store.save_message(rec);
            assert(is_new);
            Ingested::Stored(saved)
        },
    }
}

/// The profile fields of a metadata event's JSON content.
pub struct ProfileFields {
    pub name: Option<String>,
    pub display_name: Option<String>,
    pub picture: Option<String>,
}

/// The profile fields that a JSON parse of `s` yields, or `None` where `s` is no JSON.
pub uninterp spec fn profile_fields_of(s: Seq<char>) -> Option<ProfileFields>;

/// Relies on `serde_json::from_str` into a `Value`, then `Value::get` and `as_str`.
#[verifier::external_body]
fn read_profile_fields(s: &str) -> (r: Option<ProfileFields>)
    ensures
        r == profile_fields_of(s@),
{
    let v: Value = serde_json::from_str(s).ok()?;
    let text = |k: &str| v.get(k).and_then(Value::as_str).map(String::from);
    Some(ProfileFields { name: text("name"), display_name: text("display_name"), picture: text("picture") })
}

/// Applies a profile-metadata event by `author` to the contact stored under that key:
/// when the content parses, its name, display name and picture replace the stored ones
/// that it gives. Returns whether it parsed, that is whether contacts must be refreshed.
pub fn apply_profile_metadata(store: &mut MessageStore, author: &str, content: &str) -> (r: bool)
    requires
        old(store).wf(),
    ensures
        final(store).wf(),
        r == profile_fields_of(content@) is Some,
        final(store).messages() == old(store).messages(),
        final(store).tombstones() == old(store).tombstones(),
        !r ==> final(store).contacts() == old(store).contacts(),
        final(store).contacts().len() == old(store).contacts().len(),
        r ==> forall|k: int|
            0 <= k < old(store).contacts().len() ==> #[trigger] final(store).contacts()[k] == if old(
                store,
            ).contacts()[k].npub@ == author@ {
                {
                    let p = profile_fields_of(content@).unwrap();
                    let c = old(store).contacts()[k];
                    ContactRecord {
                        name: if p.name is Some { p.name } else { c.name },
                        display_name: if p.display_name is Some { p.display_name } else { c.display_name },
                        picture: if p.picture is Some { p.picture } else { c.picture },
                        ..c
                    }
                }
            } else {
                old(store).contacts()[k]
            },
{
    match read_profile_fields(content) {
        Some(p) => {
            store.update_contact_profile(author, p.name, p.display_name, p.picture);
            true
        },
        None => false,
    }
}

/// Whether an event's tag list holds a `p` tag naming `me`.
pub fn is_tagged_to(tags: &Vec<Vec<String>>, me: &str) -> (r: bool)
    ensures
        r == exists|i: int|
            0 <= i < tags@.len() && #[trigger] tags@[i]@.len() >= 2 && tags@[i]@[0]@ == "p"@
                && tags@[i]@[1]@ == me@,
{
    let mut i: usize = 0;
    while i < tags.len()
        invariant
            0 <= i <= tags@.len(),
            forall|k: int|
                0 <= k < i ==> !(#[trigger] tags@[k]@.len() >= 2 && tags@[k]@[0]@ == "p"@ && tags@[k]@[1]@
                    == me@),
        decreases tags@.len() - i,
    {
        let t = &tags[i];
        if t.len() >= 2 && str_eq(t[0].as_str(), "p") && str_eq(t[1].as_str(), me) {
            return true;
        }
        i += 1;
    }
    false
}

/// Delivering a message whose id the previous delivery stored, by either path and
/// whatever its body, stores nothing: exactly one record with that id remains.
pub proof fn law_idempotent_ingestion(
    s0: MessageStore,
    s1: MessageStore,
    first: InboundMessage,
    f1: ContentFacts,
    out1: Ingested,
    p1: DeliveryPath,
    ok1: bool,
    second: InboundMessage,
    f2: ContentFacts,
    p2: DeliveryPath,
    ok2: bool,
    me: Seq<char>,
)
    requires
        s0.wf(),
        verdict(s0, first, f1, me, p1, ok1) == Verdict::Stored,
        messages_after(s0.messages(), s1.messages(), Verdict::Stored, out1, first, f1, me, p1),
        s1.tombstones() == s0.tombstones(),
        s1.contacts() == s0.contacts(),
        second.id@ == first.id@,
    ensures
        verdict(s1, second, f2, me, p2, ok2) == Verdict::AlreadyStored,
        exists|k: int|
            0 <= k < s1.messages().len() && s1.messages()[k].id@ == first.id@ && forall|j: int|
                0 <= j < s1.messages().len() && (#[trigger] s1.messages()[j]).id@ == first.id@ ==> j == k,
{
    let n = s0.messages().len();
    assert(ids_of(s1.messages())[n as int] == first.id@);
    assert forall|j: int|
        0 <= j < s1.messages().len() && (#[trigger] s1.messages()[j]).id@ == first.id@ implies j == n by {
        if j < n {
            assert(s1.messages()[j] == s0.messages()[j]);
            assert(ids_of(s0.messages())[j] == first.id@);
        }
    }
}

pub proof fn lemma_read_keeps_ids(before: Seq<MessageRecord>, after: Seq<MessageRecord>, ids: Seq<Seq<char>>)
    requires
        read_applied(before, after, ids),
    ensures
        ids_of(after) == ids_of(before),
{
    assert forall|k: int| 0 <= k < before.len() implies ids_of(after)[k] == ids_of(before)[k] by {
        assert(after[k].id == before[k].id);
    }
    assert(ids_of(after) =~= ids_of(before));
}

/// A tombstoned id is never stored again: whatever path delivers a message with it,
/// the set of stored ids does not change.
pub proof fn law_tombstone_precedence(
    before: MessageStore,
    after: Seq<MessageRecord>,
    msg: InboundMessage,
    f: ContentFacts,
    out: Ingested,
    path: DeliveryPath,
    rate_ok: bool,
    me: Seq<char>,
)
    requires
        before.is_tombstoned(msg.id@),
        messages_after(before.messages(), after, verdict(before, msg, f, me, path, rate_ok), out, msg, f, me, path),
    ensures
        verdict(before, msg, f, me, path, rate_ok) != Verdict::Stored,
        ids_of(after) == ids_of(before.messages()),
{
    if verdict(before, msg, f, me, path, rate_ok) == Verdict::Control(ControlKind::ReadReceipt) {
        lemma_read_keeps_ids(before.messages(), after, receipt_ids(f.control, path));
    }
}

/// A message whose sender is neither us nor a stored contact leaves the stored
/// messages unchanged, on either path.
pub proof fn law_whitelist(
    before: MessageStore,
    after: Seq<MessageRecord>,
    msg: InboundMessage,
    f: ContentFacts,
    out: Ingested,
    path: DeliveryPath,
    rate_ok: bool,
    me: Seq<char>,
)
    requires
        msg.sender@ != me,
        !before.is_contact(msg.sender@),
        messages_after(before.messages(), after, verdict(before, msg, f, me, path, rate_ok), out, msg, f, me, path),
    ensures
        after == before.messages(),
{
}

} // verus!
