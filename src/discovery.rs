use vstd::prelude::*;

use crate::text::{
    contains_str, lower_of, lowercase, replace_all, replace_str, seq_contains, str_eq, trim_of, trimmed,
};

verus! {

/// One relay of a peer's published relay list.
#[derive(Debug)]
pub struct RelayListEntry {
    pub url: String,
    pub read: bool,
    pub write: bool,
}

/// The address fragments of private ranges that other devices cannot reach:
/// 10.0.0.0/8 networks other than the emulator's 10.0.2.x, and 172.16.0.0/12.
pub open spec fn blocked_fragments() -> Seq<Seq<char>> {
    seq![
        "10.0.0."@, "10.0.1."@, "10.0.3."@, "10.0.4."@, "10.0.5."@, "10.0.6."@, "10.0.7."@,
        "10.0.8."@, "10.0.9."@, "10.0.10."@, "172.16."@, "172.17."@, "172.18."@, "172.19."@,
        "172.20."@, "172.21."@, "172.22."@, "172.23."@, "172.24."@, "172.25."@, "172.26."@,
        "172.27."@, "172.28."@, "172.29."@, "172.30."@, "172.31."@,
    ]
}

/// A relay address usable across devices: its lowercase form holds no blocked fragment.
/// Loopback and other local addresses are kept.
pub open spec fn is_public_spec(url: Seq<char>) -> bool {
    forall|i: int| 0 <= i < blocked_fragments().len() ==> !seq_contains(lower_of(url), #[trigger] blocked_fragments()[i])
}

/// Whether a relay address is usable across devices.
pub fn is_public_relay_url(url: &str) -> (r: bool)
    ensures
        r == is_public_spec(url@),
{
    let lower = lowercase(url);
    let fragments: Vec<&str> = vec![
        "10.0.0.", "10.0.1.", "10.0.3.", "10.0.4.", "10.0.5.", "10.0.6.", "10.0.7.", "10.0.8.",
        "10.0.9.", "10.0.10.", "172.16.", "172.17.", "172.18.", "172.19.", "172.20.", "172.21.",
        "172.22.", "172.23.", "172.24.", "172.25.", "172.26.", "172.27.", "172.28.", "172.29.",
        "172.30.", "172.31.",
    ];
    assert(fragments@.map_values(|f: &str| f@) =~= blocked_fragments());
    let mut i: usize = 0;
    while i < fragments.len()
        invariant
            0 <= i <= fragments@.len(),
            lower@ == lower_of(url@),
            fragments@.map_values(|f: &str| f@) == blocked_fragments(),
            forall|k: int| 0 <= k < i ==> !seq_contains(lower_of(url@), #[trigger] blocked_fragments()[k]),
        decreases fragments@.len() - i,
    {
        if contains_str(lower.as_str(), fragments[i]) {
            assert(blocked_fragments()[i as int] == fragments@[i as int]@);
            return false;
        }
        assert(blocked_fragments()[i as int] == fragments@[i as int]@);
        i += 1;
    }
    true
}

/// Whether any qualifier in `q` contains `word`.
pub open spec fn any_contains(q: Seq<Seq<char>>, word: Seq<char>) -> bool {
    exists|i: int| 0 <= i < q.len() && seq_contains(#[trigger] q[i], word)
}

pub open spec fn views(v: Seq<String>) -> Seq<Seq<char>> {
    v.map_values(|s: String| s@)
}

/// The relay that a tag names, with its flags: an `r` tag with a url whose address is
/// public; with no qualifier both flags hold, else a flag holds when some qualifier
/// contains its word.
pub open spec fn parse_tag_spec(tag: Seq<Seq<char>>) -> Option<(Seq<char>, bool, bool)> {
    if tag.len() >= 2 && tag[0] == "r"@ && is_public_spec(tag[1]) {
        let q = tag.subrange(2, tag.len() as int);
        Some((tag[1], q.len() == 0 || any_contains(q, "read"@), q.len() == 0 || any_contains(q, "write"@)))
    } else {
        None
    }
}

pub open spec fn entry_view(e: RelayListEntry) -> (Seq<char>, bool, bool) {
    (e.url@, e.read, e.write)
}

pub open spec fn entries_view(v: Seq<RelayListEntry>) -> Seq<(Seq<char>, bool, bool)> {
    v.map_values(|e: RelayListEntry| entry_view(e))
}

fn any_qualifier_contains(tag: &Vec<String>, word: &str) -> (r: bool)
    requires
        tag@.len() >= 2,
    ensures
        r == any_contains(views(tag@).subrange(2, tag@.len() as int), word@),
{
    let ghost q = views(tag@).subrange(2, tag@.len() as int);
    let mut i: usize = 2;
    while i < tag.len()
        invariant
            2 <= i <= tag@.len(),
            q == views(tag@).subrange(2, tag@.len() as int),
            forall|k: int| 0 <= k < i - 2 ==> !seq_contains(#[trigger] q[k], word@),
        decreases tag@.len() - i,
    {
        if contains_str(tag[i].as_str(), word) {
            assert(q[i - 2] == tag@[i as int]@);
            return true;
        }
        assert(q[i - 2] == tag@[i as int]@);
        i += 1;
    }
    false
}

/// Reads one tag of a relay-list event.
pub fn parse_relay_tag(tag: &Vec<String>) -> (r: Option<RelayListEntry>)
    ensures
        match r {
            Some(e) => parse_tag_spec(views(tag@)) == Some(entry_view(e)),
            None => parse_tag_spec(views(tag@)) is None,
        },
{
    if tag.len() < 2 || !str_eq(tag[0].as_str(), "r") || !is_public_relay_url(tag[1].as_str()) {
        return None;
    }
    assert(views(tag@)[0] == tag@[0]@ && views(tag@)[1] == tag@[1]@);
    let bare = tag.len() == 2;
    let read = bare || any_qualifier_contains(tag, "read");
    let write = bare || any_qualifier_contains(tag, "write");
    Some(RelayListEntry { url: tag[1].clone(), read, write })
}

/// The relays that a tag list names, in tag order.
pub open spec fn parse_tags_spec(tags: Seq<Seq<Seq<char>>>) -> Seq<(Seq<char>, bool, bool)>
    decreases tags.len(),
{
    if tags.len() == 0 {
        Seq::empty()
    } else {
        let p = parse_tags_spec(tags.drop_last());
        match parse_tag_spec(tags.last()) {
            Some(e) => p.push(e),
            None => p,
        }
    }
}

pub open spec fn tags_view(tags: Seq<Vec<String>>) -> Seq<Seq<Seq<char>>> {
    tags.map_values(|t: Vec<String>| views(t@))
}

/// Reads the relay list from the tags of a peer's latest relay-list event.
pub fn parse_relay_list(tags: &Vec<Vec<String>>) -> (r: Vec<RelayListEntry>)
    ensures
        entries_view(r@) == parse_tags_spec(tags_view(tags@)),
{
    let mut out: Vec<RelayListEntry> = Vec::new();
    let mut i: usize = 0;
    while i < tags.len()
        invariant
            0 <= i <= tags@.len(),
            entries_view(out@) == parse_tags_spec(tags_view(tags@.subrange(0, i as int))),
        decreases tags@.len() - i,
    {
        assert(tags_view(tags@.subrange(0, i + 1)).drop_last() =~= tags_view(tags@.subrange(0, i as int)));
        assert(tags_view(tags@.subrange(0, i + 1)).last() == views(tags@[i as int]@));
        let ghost before = out@;
        match parse_relay_tag(&tags[i]) {
            Some(e) => {
                out.push(e);
                assert(entries_view(out@) =~= entries_view(before).push(entry_view(out@[out@.len() - 1])));
            },
            None => {},
        }
        i += 1;
    }
    assert(tags@.subrange(0, tags@.len() as int) =~= tags@);
    out
}

/// Whether some entry of `all` names `url` with the read (or write) flag set.
pub open spec fn some_read(all: Seq<(Seq<char>, bool, bool)>, url: Seq<char>) -> bool {
    exists|i: int| 0 <= i < all.len() && (#[trigger] all[i]).0 == url && all[i].1
}

pub open spec fn some_write(all: Seq<(Seq<char>, bool, bool)>, url: Seq<char>) -> bool {
    exists|i: int| 0 <= i < all.len() && (#[trigger] all[i]).0 == url && all[i].2
}

pub open spec fn names(all: Seq<(Seq<char>, bool, bool)>, url: Seq<char>) -> bool {
    exists|i: int| 0 <= i < all.len() && (#[trigger] all[i]).0 == url
}

/// `merged` holds each url of `all` once, with each flag the OR of that url's flags.
pub open spec fn merged_from(merged: Seq<(Seq<char>, bool, bool)>, all: Seq<(Seq<char>, bool, bool)>) -> bool {
    &&& forall|i: int, j: int| 0 <= i < j < merged.len() ==> (#[trigger] merged[i]).0 != (#[trigger] merged[j]).0
    &&& forall|u: Seq<char>| #[trigger] names(merged, u) <==> names(all, u)
    &&& forall|i: int|
        0 <= i < merged.len() ==> (#[trigger] merged[i]).1 == some_read(all, merged[i].0) && merged[i].2
            == some_write(all, merged[i].0)
}

fn find_url(v: &Vec<RelayListEntry>, url: &str) -> (r: Option<usize>)
    ensures
        match r {
            Some(j) => j < v@.len() && entries_view(v@)[j as int].0 == url@,
            None => !names(entries_view(v@), url@),
        },
{
    let mut j: usize = 0;
    while j < v.len()
        invariant
            0 <= j <= v@.len(),
            forall|k: int| 0 <= k < j ==> v@[k].url@ != url@,
        decreases v@.len() - j,
    {
        if str_eq(v[j].url.as_str(), url) {
            return Some(j);
        }
        j += 1;
    }
    assert(!names(entries_view(v@), url@)) by {
        if names(entries_view(v@), url@) {
            let k = choose|k: int| 0 <= k < entries_view(v@).len() && (#[trigger] entries_view(v@)[k]).0 == url@;
            assert(v@[k].url@ == url@);
        }
    }
    None
}

/// Merges relay lists: one entry per url, most permissive flags.
pub fn merge_relay_entries(all: &Vec<RelayListEntry>) -> (r: Vec<RelayListEntry>)
    ensures
        merged_from(entries_view(r@), entries_view(all@)),
{
    let ghost av = entries_view(all@);
    let mut out: Vec<RelayListEntry> = Vec::new();
    let mut i: usize = 0;
    while i < all.len()
        invariant
            0 <= i <= all@.len(),
            av == entries_view(all@),
            merged_from(entries_view(out@), av.subrange(0, i as int)),
        decreases all@.len() - i,
    {
        let ghost pre = av.subrange(0, i as int);
        let ghost post = av.subrange(0, i + 1);
        let ghost ov = entries_view(out@);
        let e = &all[i];
        let ghost ev = entry_view(*e);
        assert(post =~= pre.push(ev));
        assert(av[i as int] == ev);
        let found = find_url(&out, e.url.as_str());
        assert forall|u: Seq<char>| names(post, u) <==> names(pre, u) || u == ev.0 by {
            if names(post, u) {
                let k = choose|k: int| 0 <= k < post.len() && (#[trigger] post[k]).0 == u;
                if k < pre.len() {
                    assert(pre[k] == post[k]);
                }
            }
            if names(pre, u) {
                let k = choose|k: int| 0 <= k < pre.len() && (#[trigger] pre[k]).0 == u;
                assert(post[k] == pre[k]);
            }
            if u == ev.0 {
                assert(post[pre.len() as int] == ev);
            }
        }
        assert forall|u: Seq<char>|
            some_read(post, u) == (some_read(pre, u) || (u == ev.0 && ev.1)) && some_write(post, u) == (
            some_write(pre, u) || (u == ev.0 && ev.2)) by {
            if some_read(post, u) {
                let k = choose|k: int| 0 <= k < post.len() && (#[trigger] post[k]).0 == u && post[k].1;
                if k < pre.len() {
                    assert(pre[k] == post[k]);
                }
            }
            if some_read(pre, u) {
                let k = choose|k: int| 0 <= k < pre.len() && (#[trigger] pre[k]).0 == u && pre[k].1;
                assert(post[k] == pre[k]);
            }
            if some_write(post, u) {
                let k = choose|k: int| 0 <= k < post.len() && (#[trigger] post[k]).0 == u && post[k].2;
                if k < pre.len() {
                    assert(pre[k] == post[k]);
                }
            }
            if some_write(pre, u) {
                let k = choose|k: int| 0 <= k < pre.len() && (#[trigger] pre[k]).0 == u && pre[k].2;
                assert(post[k] == pre[k]);
            }
            if u == ev.0 {
                assert(post[pre.len() as int] == ev);
            }
        }
        if let Some(j) = found {
            assert(ov[j as int].0 == ev.0);
            let old_e = out.remove(j);
            let merged = RelayListEntry { url: old_e.url, read: old_e.read || e.read, write: old_e.write || e.write };
            let ghost mv = entry_view(merged);
            out.insert(j, merged);
            assert(entries_view(out@) =~= ov.update(j as int, mv));
            assert forall|u: Seq<char>| names(entries_view(out@), u) <==> names(ov, u) by {
                let nv = entries_view(out@);
                if names(nv, u) {
                    let k = choose|k: int| 0 <= k < nv.len() && (#[trigger] nv[k]).0 == u;
                    assert(ov[k].0 == u);
                }
                if names(ov, u) {
                    let k = choose|k: int| 0 <= k < ov.len() && (#[trigger] ov[k]).0 == u;
                    assert(nv[k].0 == u);
                }
            }
            assert(names(ov, ev.0));
            let ghost nv = entries_view(out@);
            assert forall|a: int, b: int| 0 <= a < b < nv.len() implies (#[trigger] nv[a]).0 != (#[trigger] nv[b]).0 by {
                assert(nv[a].0 == ov[a].0 && nv[b].0 == ov[b].0);
            }
            assert forall|k: int| 0 <= k < nv.len() implies (#[trigger] nv[k]).1 == some_read(post, nv[k].0) && nv[k].2 == some_write(post, nv[k].0) by {
                if k != j {
                    assert(nv[k] == ov[k]);
                    assert(ov[k].0 != ov[j as int].0);
                }
            }
            assert forall|u: Seq<char>| #[trigger] names(nv, u) <==> names(post, u) by {
                assert(names(nv, u) <==> names(ov, u));
                assert(names(ov, u) <==> names(pre, u));
            }
            assert(merged_from(nv, post));
        } else {
            let fresh = RelayListEntry { url: e.url.clone(), read: e.read, write: e.write };
            out.push(fresh);
            assert(entries_view(out@) =~= ov.push(ev));
            assert forall|u: Seq<char>| names(entries_view(out@), u) <==> names(ov, u) || u == ev.0 by {
                let nv = entries_view(out@);
                if names(nv, u) {
                    let k = choose|k: int| 0 <= k < nv.len() && (#[trigger] nv[k]).0 == u;
                    if k < ov.len() {
                        assert(ov[k] == nv[k]);
                    }
                }
                if names(ov, u) {
                    let k = choose|k: int| 0 <= k < ov.len() && (#[trigger] ov[k]).0 == u;
                    assert(nv[k] == ov[k]);
                }
                if u == ev.0 {
                    assert(nv[ov.len() as int] == ev);
                }
            }
            assert(!names(pre, ev.0)) by {
                if names(pre, ev.0) {
                    assert(names(ov, ev.0));
                    let k = choose|k: int| 0 <= k < ov.len() && (#[trigger] ov[k]).0 == ev.0;
                }
            }
            assert(!some_read(pre, ev.0) && !some_write(pre, ev.0)) by {
                if some_read(pre, ev.0) {
                    let k = choose|k: int| 0 <= k < pre.len() && (#[trigger] pre[k]).0 == ev.0 && pre[k].1;
                    assert(names(pre, ev.0));
                }
                if some_write(pre, ev.0) {
                    let k = choose|k: int| 0 <= k < pre.len() && (#[trigger] pre[k]).0 == ev.0 && pre[k].2;
                    assert(names(pre, ev.0));
                }
            }
            let ghost nv = entries_view(out@);
            assert forall|a: int, b: int| 0 <= a < b < nv.len() implies (#[trigger] nv[a]).0 != (#[trigger] nv[b]).0 by {
                if b == ov.len() {
                    assert(nv[a] == ov[a]);
                    assert(names(ov, nv[a].0));
                } else {
                    assert(nv[a] == ov[a] && nv[b] == ov[b]);
                }
            }
            assert forall|k: int| 0 <= k < nv.len() implies (#[trigger] nv[k]).1 == some_read(post, nv[k].0) && nv[k].2 == some_write(post, nv[k].0) by {
                if k < ov.len() {
                    assert(nv[k] == ov[k]);
                    assert(names(ov, ov[k].0));
                }
            }
            assert forall|u: Seq<char>| #[trigger] names(nv, u) <==> names(post, u) by {
                assert(names(nv, u) <==> names(ov, u) || u == ev.0);
                assert(names(ov, u) <==> names(pre, u));
            }
            assert(merged_from(nv, post));
        }
        i += 1;
    }
    assert(av.subrange(0, all@.len() as int) =~= av);
    out
}

/// The tag that publishing emits for an entry: none when neither flag is set or the
/// address is private; no qualifier when both flags are set.
pub open spec fn publish_tag_spec(url: Seq<char>, read: bool, write: bool) -> Option<Seq<Seq<char>>> {
    if !(read || write) || !is_public_spec(url) {
        None
    } else if read && !write {
        Some(seq!["r"@, url, "read"@])
    } else if write && !read {
        Some(seq!["r"@, url, "write"@])
    } else {
        Some(seq!["r"@, url])
    }
}

pub open spec fn publish_tags_spec(es: Seq<(Seq<char>, bool, bool)>) -> Seq<Seq<Seq<char>>>
    decreases es.len(),
{
    if es.len() == 0 {
        Seq::empty()
    } else {
        let p = publish_tags_spec(es.drop_last());
        match publish_tag_spec(es.last().0, es.last().1, es.last().2) {
            Some(t) => p.push(t),
            None => p,
        }
    }
}

/// The tags of the relay-list event that publishes `relays`.
pub fn relay_list_tags(relays: &Vec<RelayListEntry>) -> (r: Vec<Vec<String>>)
    ensures
        tags_view(r@) == publish_tags_spec(entries_view(relays@)),
{
    let mut out: Vec<Vec<String>> = Vec::new();
    let mut i: usize = 0;
    while i < relays.len()
        invariant
            0 <= i <= relays@.len(),
            tags_view(out@) == publish_tags_spec(entries_view(relays@.subrange(0, i as int))),
        decreases relays@.len() - i,
    {
        let e = &relays[i];
        assert(entries_view(relays@.subrange(0, i + 1)).drop_last() =~= entries_view(relays@.subrange(0, i as int)));
        assert(entries_view(relays@.subrange(0, i + 1)).last() == entry_view(*e));
        let ghost before = out@;
        if (e.read || e.write) && is_public_relay_url(e.url.as_str()) {
            let mut t: Vec<String> = Vec::new();
            t.push("r".to_owned());
            t.push(e.url.clone());
            if e.read && !e.write {
                t.push("read".to_owned());
            } else if e.write && !e.read {
                t.push("write".to_owned());
            }
            out.push(t);
            assert(tags_view(out@) =~= tags_view(before).push(views(t@)));
            assert(views(t@) =~= publish_tag_spec(e.url@, e.read, e.write).unwrap());
        }
        i += 1;
    }
    assert(relays@.subrange(0, relays@.len() as int) =~= relays@);
    out
}

/// The addresses a relay list is sent to: each write-capable relay, followed, for an
/// address that mentions `localhost`, by the same address with `127.0.0.1` in its place.
pub open spec fn targets_spec(es: Seq<(Seq<char>, bool, bool)>) -> Seq<Seq<char>>
    decreases es.len(),
{
    if es.len() == 0 {
        Seq::empty()
    } else {
        let p = targets_spec(es.drop_last());
        let e = es.last();
        if !e.2 {
            p
        } else if seq_contains(e.0, "localhost"@) {
            p.push(e.0).push(replace_all(e.0, "localhost"@, "127.0.0.1"@))
        } else {
            p.push(e.0)
        }
    }
}

/// The addresses to which a relay list is published.
pub fn publish_targets(relays: &Vec<RelayListEntry>) -> (r: Vec<String>)
    ensures
        views(r@) == targets_spec(entries_view(relays@)),
{
    let mut out: Vec<String> = Vec::new();
    let mut i: usize = 0;
    while i < relays.len()
        invariant
            0 <= i <= relays@.len(),
            views(out@) == targets_spec(entries_view(relays@.subrange(0, i as int))),
        decreases relays@.len() - i,
    {
        let e = &relays[i];
        assert(entries_view(relays@.subrange(0, i + 1)).drop_last() =~= entries_view(relays@.subrange(0, i as int)));
        assert(entries_view(relays@.subrange(0, i + 1)).last() == entry_view(*e));
        let ghost before = out@;
        if e.write {
            out.push(e.url.clone());
            if contains_str(e.url.as_str(), "localhost") {
                proof {
                    reveal_strlit("localhost");
                }
                let fallback = replace_str(e.url.as_str(), "localhost", "127.0.0.1");
                out.push(fallback);
                assert(views(out@) =~= views(before).push(e.url@).push(fallback@));
            } else {
                assert(views(out@) =~= views(before).push(e.url@));
            }
        }
        i += 1;
    }
    assert(relays@.subrange(0, relays@.len() as int) =~= relays@);
    out
}

/// Publishing succeeds when at least one target acknowledged.
pub fn publish_succeeded(acks: &Vec<bool>) -> (r: bool)
    ensures
        r == exists|i: int| 0 <= i < acks@.len() && #[trigger] acks@[i],
{
    let mut i: usize = 0;
    while i < acks.len()
        invariant
            0 <= i <= acks@.len(),
            forall|k: int| 0 <= k < i ==> !#[trigger] acks@[k],
        decreases acks@.len() - i,
    {
        if acks[i] {
            return true;
        }
        i += 1;
    }
    false
}

/// A tag with an unqualified relay is read and write; a "read" qualifier alone gives
/// read only; a private 172.16.0.0/12 address is dropped; a loopback address is kept.
pub proof fn law_relay_tag_parsing(url: Seq<char>)
    requires
        is_public_spec(url),
    ensures
        parse_tag_spec(seq!["r"@, url]) == Some((url, true, true)),
        parse_tag_spec(seq!["r"@, url, "read"@]) == Some((url, true, false)),
{
    let t1 = seq!["r"@, url];
    assert(t1.subrange(2, 2).len() == 0);
    let t2 = seq!["r"@, url, "read"@];
    let q = t2.subrange(2, 3);
    assert(q =~= seq!["read"@]);
    assert(seq_contains(q[0], "read"@)) by {
        assert(crate::text::occurs_at(q[0], "read"@, 0)) by {
            assert("read"@.subrange(0, "read"@.len() as int) =~= "read"@);
        }
    }
    assert(!any_contains(q, "write"@)) by {
        if any_contains(q, "write"@) {
            let i = choose|i: int| 0 <= i < q.len() && seq_contains(#[trigger] q[i], "write"@);
            let j = choose|j: int| crate::text::occurs_at(q[0], "write"@, j);
            reveal_strlit("write");
            reveal_strlit("read");
        }
    }
}

/// A relay address whose lowercase form holds a blocked private-range fragment is
/// dropped from a parsed relay list, whatever its qualifiers.
pub proof fn law_private_relay_dropped(url: Seq<char>, qualifiers: Seq<Seq<char>>, i: int)
    requires
        0 <= i < blocked_fragments().len(),
        seq_contains(lower_of(url), blocked_fragments()[i]),
    ensures
        parse_tag_spec(seq!["r"@, url] + qualifiers) is None,
{
    let t = seq!["r"@, url] + qualifiers;
    assert(t[1] == url);
    assert(!is_public_spec(url));
}

/// What probing a relay found, in the order the probes run: no client bound; the
/// address refused; connected (directly or through the loopback fallback); or not
/// connected within the time bound.
pub enum HealthProbe {
    NoClient,
    InvalidAddress(String),
    Connected,
    Unreachable,
}

/// The result of a relay health check.
#[derive(Debug)]
pub struct RelayHealthResult {
    pub url: String,
    pub status: String,
    pub reason: Option<String>,
}

/// The address a health check probes: the given one without surrounding whitespace, or
/// `None` when that is empty.
pub fn health_target(url: &str) -> (r: Option<String>)
    ensures
        match r {
            Some(t) => t@ == trim_of(url@) && t@.len() > 0,
            None => trim_of(url@).len() == 0,
        },
{
    let t = trimmed(url);
    if t.unicode_len() == 0 {
        None
    } else {
        Some(t)
    }
}

/// The loopback fallback of an address that names `localhost`, when it differs.
pub fn localhost_fallback(url: &str) -> (r: Option<String>)
    ensures
        match r {
            Some(f) => seq_contains(url@, "localhost"@) && f@ == replace_all(url@, "localhost"@, "127.0.0.1"@)
                && f@ != url@,
            None => !seq_contains(url@, "localhost"@) || replace_all(url@, "localhost"@, "127.0.0.1"@) == url@,
        },
{
    if !contains_str(url, "localhost") {
        return None;
    }
    proof {
        reveal_strlit("localhost");
    }
    let f = replace_str(url, "localhost", "127.0.0.1");
    if str_eq(f.as_str(), url) {
        None
    } else {
        Some(f)
    }
}

/// Classifies a health check of `url` (as given, before trimming) from what probing
/// found: an empty address is invalid; no client means disconnected; a refused
/// address is invalid; otherwise connected or disconnected.
pub fn check_relay_health(url: &str, probe: HealthProbe) -> (r: RelayHealthResult)
    ensures
        trim_of(url@).len() == 0 ==> r.url@ == trim_of(url@) && r.status@ == "invalid"@ && r.reason is Some,
        trim_of(url@).len() > 0 ==> r.url@ == trim_of(url@) && match probe {
            HealthProbe::NoClient => r.status@ == "disconnected"@ && r.reason is Some,
            HealthProbe::InvalidAddress(e) => r.status@ == "invalid"@ && (r.reason matches Some(m)
                && seq_contains(m@, e@)),
            HealthProbe::Connected => r.status@ == "connected"@ && r.reason is None,
            HealthProbe::Unreachable => r.status@ == "disconnected"@ && r.reason is Some,
        },
{
    let t = trimmed(url);
    if t.unicode_len() == 0 {
        return RelayHealthResult { url: t, status: "invalid".to_owned(), reason: Some("地址为空".to_owned()) };
    }
    match probe {
        HealthProbe::NoClient => RelayHealthResult {
            url: t,
            status: "disconnected".to_owned(),
            reason: Some("客户端未初始化".to_owned()),
        },
        HealthProbe::InvalidAddress(e) => {
            let prefix = "地址无效: ".to_owned();
            let ghost pv = prefix@;
            let m = prefix.concat(e.as_str());
            proof {
                assert(m@.subrange(pv.len() as int, (pv.len() + e@.len()) as int) =~= e@);
                assert(crate::text::occurs_at(m@, e@, pv.len() as int));
            }
            RelayHealthResult { url: t, status: "invalid".to_owned(), reason: Some(m) }
        },
        HealthProbe::Connected => RelayHealthResult { url: t, status: "connected".to_owned(), reason: None },
        HealthProbe::Unreachable => RelayHealthResult {
            url: t,
            status: "disconnected".to_owned(),
            reason: Some("连接失败或超时".to_owned()),
        },
    }
}

} // verus!
