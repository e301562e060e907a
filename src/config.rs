use vstd::prelude::*;

use crate::discovery::{is_public_relay_url, is_public_spec};
use crate::relay::{RelayManager, RelayMode};
use crate::text::{contains_str, lower_of, lowercase, seq_contains, seq_starts_with, starts_with_str, str_eq};

verus! {

/// The JSON text of a list of strings.
pub uninterp spec fn json_of_list(items: Seq<Seq<char>>) -> Seq<char>;

/// The list of strings that JSON text `s` holds, or `None` where it holds none.
pub uninterp spec fn list_of_json(s: Seq<char>) -> Option<Seq<Seq<char>>>;

pub open spec fn views(v: Seq<String>) -> Seq<Seq<char>> {
    crate::relay::strs(v)
}

/// Relies on `serde_json::to_string` of a `Vec<String>`.
#[verifier::external_body]
fn list_to_json(items: &Vec<String>) -> (r: String)
    ensures
        r@ == json_of_list(views(items@)),
{
    serde_json::to_string(items).unwrap_or_default()
}

/// Relies on `serde_json::from_str` into a `Vec<String>`.
#[verifier::external_body]
fn list_from_json(s: &str) -> (r: Option<Vec<String>>)
    ensures
        r matches Some(v) ==> list_of_json(s@) == Some(views(v@)),
        r is None ==> list_of_json(s@) is None,
{
    serde_json::from_str::<Vec<String>>(s).ok()
}

/// The public entries of `v`, in order.
pub open spec fn public_only(v: Seq<Seq<char>>) -> Seq<Seq<char>> {
    v.filter(|u: Seq<char>| is_public_spec(u))
}

fn public_relays(v: &Vec<String>) -> (r: Vec<String>)
    ensures
        views(r@) == public_only(views(v@)),
{
    let mut out: Vec<String> = Vec::new();
    let mut i: usize = 0;
    while i < v.len()
        invariant
            0 <= i <= v@.len(),
            views(out@) == public_only(views(v@.subrange(0, i as int))),
        decreases v@.len() - i,
    {
        proof {
            reveal(Seq::filter);
            assert(views(v@.subrange(0, i + 1)).drop_last() =~= views(v@.subrange(0, i as int)));
            assert(views(v@.subrange(0, i + 1)).last() == v@[i as int]@);
        }
        let ghost before = out@;
        if is_public_relay_url(v[i].as_str()) {
            out.push(v[i].clone());
            assert(views(out@) =~= views(before).push(v@[i as int]@));
        }
        i += 1;
    }
    assert(v@.subrange(0, v@.len() as int) =~= v@);
    out
}

/// The JSON text under which the custom relays are persisted: the public ones only.
pub fn saved_relay_list(manager: &RelayManager) -> (r: String)
    ensures
        r@ == json_of_list(public_only(views(manager.customs()))),
{
    let customs = manager.get_custom_relays();
    let kept = public_relays(&customs);
    list_to_json(&kept)
}

/// Adds to `manager` each public relay of a persisted list; a list that does not parse
/// adds nothing.
pub fn restore_relay_list(manager: &mut RelayManager, saved: &str)
    requires
        old(manager).wf(),
    ensures
        final(manager).wf(),
        final(manager).mode() == old(manager).mode(),
        final(manager).defaults() == old(manager).defaults(),
        list_of_json(saved@) is None ==> final(manager).customs() == old(manager).customs(),
        forall|u: Seq<char>|
            #[trigger] views(final(manager).customs()).contains(u) <==> (views(old(manager).customs()).contains(u) || (
            list_of_json(saved@) matches Some(l) && l.contains(u) && is_public_spec(u))),
{
    let list = match list_from_json(saved) {
        Some(l) => l,
        None => return,
    };
    let ghost l = views(list@);
    let mut i: usize = 0;
    while i < list.len()
        invariant
            0 <= i <= list@.len(),
            l == views(list@),
            list_of_json(saved@) == Some(l),
            manager.wf(),
            manager.mode() == old(manager).mode(),
            manager.defaults() == old(manager).defaults(),
            forall|u: Seq<char>|
                #[trigger] views(manager.customs()).contains(u) <==> (views(old(manager).customs()).contains(u) || (
                l.subrange(0, i as int).contains(u) && is_public_spec(u))),
        decreases list@.len() - i,
    {
        let ghost before = manager.customs();
        let public = is_public_relay_url(list[i].as_str());
        if public {
            manager.add_relay(list[i].clone());
        }
        proof {
            let u0 = list@[i as int]@;
            assert(l[i as int] == u0);
            let bv = views(before);
            let av = views(manager.customs());
            let li = l.subrange(0, i as int);
            let lj = l.subrange(0, i + 1);
            assert(lj =~= li.push(u0));
            assert forall|u: Seq<char>| #[trigger] lj.contains(u) <==> (li.contains(u) || u == u0) by {
                if lj.contains(u) {
                    let k = choose|k: int| 0 <= k < lj.len() && lj[k] == u;
                    if k < i {
                        assert(li[k] == u);
                    }
                }
                if li.contains(u) {
                    let k = choose|k: int| 0 <= k < li.len() && li[k] == u;
                    assert(lj[k] == u);
                }
                if u == u0 {
                    assert(lj[i as int] == u);
                }
            }
            assert forall|u: Seq<char>| #[trigger] av.contains(u) <==> (bv.contains(u) || (public && u == u0)) by {
                if public && !bv.contains(u0) {
                    assert(av =~= bv.push(u0));
                    if av.contains(u) {
                        let k = choose|k: int| 0 <= k < av.len() && av[k] == u;
                        if k < bv.len() {
                            assert(bv[k] == u);
                        }
                    }
                    if bv.contains(u) {
                        let k = choose|k: int| 0 <= k < bv.len() && bv[k] == u;
                        assert(av[k] == u);
                    }
                    if u == u0 {
                        assert(av[bv.len() as int] == u);
                    }
                }
            }
            assert forall|u: Seq<char>|
                #[trigger] views(manager.customs()).contains(u) <==> (views(old(manager).customs()).contains(u) || (
                lj.contains(u) && is_public_spec(u))) by {
                assert(av.contains(u) <==> (bv.contains(u) || (public && u == u0)));
                assert(lj.contains(u) <==> (li.contains(u) || u == u0));
            }
        }
        i += 1;
    }
    assert(l.subrange(0, list@.len() as int) =~= l);
}

/// The mode a persisted setting names; anything unrecognised means hybrid.
pub fn mode_from_saved(name: &str) -> (r: RelayMode)
    ensures
        r == if name@ == "exclusive"@ {
            RelayMode::Exclusive
        } else {
            RelayMode::Hybrid
        },
{
    if str_eq(name, "exclusive") {
        RelayMode::Exclusive
    } else {
        RelayMode::Hybrid
    }
}

/// The media-server address persisted with the relay settings: empty when private.
pub fn saved_media_server(url: &str) -> (r: String)
    ensures
        r@ == if is_public_spec(url@) {
            url@
        } else {
            Seq::<char>::empty()
        },
{
    if is_public_relay_url(url) {
        url.to_owned()
    } else {
        String::new()
    }
}

/// Hosts that run relays and are known not to be media servers.
pub open spec fn junk_hosts() -> Seq<Seq<char>> {
    seq!["damus.io"@, "nos.lol"@, "nostr.band"@, "nostr.wine"@, "snort.social"@]
}

/// What startup does with a persisted media-server address.
#[derive(Clone, Copy, Debug, PartialEq, Eq, Structural)]
pub enum SavedMediaServer {
    /// Nothing was set.
    Unset,
    /// The address is private or a relay host: forget it.
    Discard,
    /// Use the address.
    Use,
}

pub open spec fn is_junk(url: Seq<char>) -> bool {
    exists|i: int| 0 <= i < junk_hosts().len() && seq_contains(lower_of(url), #[trigger] junk_hosts()[i])
}

pub fn saved_media_server_action(url: &str) -> (r: SavedMediaServer)
    ensures
        r == if url@.len() == 0 {
            SavedMediaServer::Unset
        } else if !is_public_spec(url@) || is_junk(url@) {
            SavedMediaServer::Discard
        } else {
            SavedMediaServer::Use
        },
{
    if url.unicode_len() == 0 {
        return SavedMediaServer::Unset;
    }
    if !is_public_relay_url(url) {
        return SavedMediaServer::Discard;
    }
    let lower = lowercase(url);
    let hosts: Vec<&str> = vec!["damus.io", "nos.lol", "nostr.band", "nostr.wine", "snort.social"];
    assert(hosts@.map_values(|h: &str| h@) =~= junk_hosts());
    let mut i: usize = 0;
    while i < hosts.len()
        invariant
            0 <= i <= hosts@.len(),
            lower@ == lower_of(url@),
            url@.len() > 0,
            is_public_spec(url@),
            hosts@.map_values(|h: &str| h@) == junk_hosts(),
            forall|k: int| 0 <= k < i ==> !seq_contains(lower_of(url@), #[trigger] junk_hosts()[k]),
        decreases hosts@.len() - i,
    {
        assert(junk_hosts()[i as int] == hosts@[i as int]@);
        if contains_str(lower.as_str(), hosts[i]) {
            assert(seq_contains(lower_of(url@), junk_hosts()[i as int]));
            assert(is_junk(url@));
            return SavedMediaServer::Discard;
        }
        i += 1;
    }
    SavedMediaServer::Use
}

/// A media-server address must be an http or https URL.
pub fn valid_media_server_url(url: &str) -> (r: bool)
    ensures
        r == (seq_starts_with(url@, "http://"@) || seq_starts_with(url@, "https://"@)),
{
    starts_with_str(url, "http://") || starts_with_str(url, "https://")
}

/// Adds a custom relay when its address is public; a private address is ignored.
/// Returns whether it was accepted.
pub fn add_custom_relay(manager: &mut RelayManager, url: String) -> (r: bool)
    requires
        old(manager).wf(),
    ensures
        final(manager).wf(),
        r == is_public_spec(url@),
        !r ==> *final(manager) == *old(manager),
        r ==> final(manager).customs() == if views(old(manager).customs()).contains(url@) {
            old(manager).customs()
        } else {
            old(manager).customs().push(url)
        },
        final(manager).mode() == old(manager).mode(),
{
    if !is_public_relay_url(url.as_str()) {
        return false;
    }
    proof {
        assert(views(old(manager).customs()) == crate::relay::strs(old(manager).customs()));
    }
    manager.add_relay(url);
    true
}

/// Whether binding `secret` needs a full initialisation: not when it is the key
/// already bound.
pub fn needs_initialize(bound: Option<&str>, secret: &str) -> (r: bool)
    ensures
        r == !(bound matches Some(b) && b@ == secret@),
{
    match bound {
        Some(b) => !str_eq(b, secret),
        None => true,
    }
}

} // verus!
