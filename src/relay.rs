use vstd::prelude::*;

use crate::text::{clone_strings, str_eq};

verus! {

/// Which relays the pool uses.
#[derive(Clone, Copy, Debug, PartialEq, Eq, Structural)]
pub enum RelayMode {
    /// The default relays together with the custom ones.
    Hybrid,
    /// The custom relays only.
    Exclusive,
}

/// Connection state of one relay.
#[derive(Debug)]
pub enum RelayStatus {
    Connected,
    Connecting,
    Disconnected,
    Failed(String),
}

impl RelayStatus {
    pub fn duplicate(&self) -> (r: RelayStatus)
        ensures
            r == *self,
    {
        match self {
            RelayStatus::Connected => RelayStatus::Connected,
            RelayStatus::Connecting => RelayStatus::Connecting,
            RelayStatus::Disconnected => RelayStatus::Disconnected,
            RelayStatus::Failed(reason) => RelayStatus::Failed(reason.clone()),
        }
    }
}

/// Bookkeeping of the tracked relay set: mode, default and custom relays, and the
/// last known status of each relay. No network I/O.
pub struct RelayManager {
    mode: RelayMode,
    default_relays: Vec<String>,
    custom_relays: Vec<String>,
    relay_status: Vec<(String, RelayStatus)>,
}

pub open spec fn strs(v: Seq<String>) -> Seq<Seq<char>> {
    v.map_values(|s: String| s@)
}

impl RelayManager {
    pub closed spec fn mode(&self) -> RelayMode {
        self.mode
    }

    pub closed spec fn defaults(&self) -> Seq<String> {
        self.default_relays@
    }

    pub closed spec fn customs(&self) -> Seq<String> {
        self.custom_relays@
    }

    /// The tracked statuses, in order of first report.
    pub closed spec fn statuses(&self) -> Seq<(String, RelayStatus)> {
        self.relay_status@
    }

    pub open spec fn status_keys(&self) -> Seq<Seq<char>> {
        self.statuses().map_values(|p: (String, RelayStatus)| p.0@)
    }

    /// The last status reported for `url`.
    pub open spec fn status_of(&self, url: Seq<char>) -> Option<RelayStatus> {
        if self.status_keys().contains(url) {
            let i = choose|i: int| 0 <= i < self.statuses().len() && self.status_keys()[i] == url;
            Some(self.statuses()[i].1)
        } else {
            None
        }
    }

    /// Custom relays are listed once each, and each relay has at most one status.
    pub open spec fn wf(&self) -> bool {
        strs(self.customs()).no_duplicates() && self.status_keys().no_duplicates()
    }

    /// The relays in use under the current mode.
    pub open spec fn active(&self) -> Seq<String> {
        match self.mode() {
            RelayMode::Hybrid => self.defaults() + self.customs(),
            RelayMode::Exclusive => self.customs(),
        }
    }

    /// An empty pool in exclusive mode, with no default relays.
    pub fn new() -> (r: RelayManager)
        ensures
            r.wf(),
            r.mode() == RelayMode::Exclusive,
            r.defaults() == Seq::<String>::empty(),
            r.customs() == Seq::<String>::empty(),
            r.statuses() == Seq::<(String, RelayStatus)>::empty(),
    {
        let r = RelayManager {
            mode: RelayMode::Exclusive,
            default_relays: Vec::new(),
            custom_relays: Vec::new(),
            relay_status: Vec::new(),
        };
        assert(strs(r.customs()) =~= Seq::<Seq<char>>::empty());
        assert(r.status_keys() =~= Seq::<Seq<char>>::empty());
        r
    }

    pub fn get_active_relays(&self) -> (r: Vec<String>)
        ensures
            r@ == self.active(),
    {
        match self.mode {
            RelayMode::Hybrid => {
                let mut relays = clone_strings(&self.default_relays);
                let mut extra = clone_strings(&self.custom_relays);
                relays.append(&mut extra);
                relays
            },
            RelayMode::Exclusive => clone_strings(&self.custom_relays),
        }
    }

    fn custom_index(&self, relay: &str) -> (r: Option<usize>)
        ensures
            match r {
                Some(i) => i < self.customs().len() && self.customs()[i as int]@ == relay@,
                None => !strs(self.customs()).contains(relay@),
            },
    {
        let mut i: usize = 0;
        while i < self.custom_relays.len()
            invariant
                0 <= i <= self.custom_relays@.len(),
                forall|k: int| 0 <= k < i ==> self.custom_relays@[k]@ != relay@,
            decreases self.custom_relays@.len() - i,
        {
            if str_eq(self.custom_relays[i].as_str(), relay) {
                return Some(i);
            }
            i += 1;
        }
        assert(!strs(self.customs()).contains(relay@)) by {
            if strs(self.customs()).contains(relay@) {
                let k = choose|k: int| 0 <= k < strs(self.customs()).len() && strs(self.customs())[k] == relay@;
                assert(self.custom_relays@[k]@ == relay@);
            }
        }
        None
    }

    /// Adds a custom relay unless it is already listed.
    pub fn add_relay(&mut self, relay: String)
        requires
            old(self).wf(),
        ensures
            final(self).wf(),
            final(self).customs() == if strs(old(self).customs()).contains(relay@) {
                old(self).customs()
            } else {
                old(self).customs().push(relay)
            },
            final(self).mode() == old(self).mode(),
            final(self).defaults() == old(self).defaults(),
            final(self).statuses() == old(self).statuses(),
    {
        match self.custom_index(relay.as_str()) {
            Some(i) => {
                assert(strs(self.customs())[i as int] == relay@);
            },
            None => {
                let ghost r = relay;
                self.custom_relays.push(relay);
                assert(strs(self.customs()) =~= strs(old(self).customs()).push(r@));
            },
        }
    }

    /// Removes every custom relay equal to `relay`.
    pub fn remove_relay(&mut self, relay: &str)
        requires
            old(self).wf(),
        ensures
            final(self).wf(),
            final(self).customs() == old(self).customs().filter(|r: String| r@ != relay@),
            final(self).mode() == old(self).mode(),
            final(self).defaults() == old(self).defaults(),
            final(self).statuses() == old(self).statuses(),
    {
        let ghost start = self.custom_relays@;
        let mut kept: Vec<String> = Vec::new();
        let mut i: usize = 0;
        while i < self.custom_relays.len()
            invariant
                0 <= i <= self.custom_relays@.len(),
                self.custom_relays@ == start,
                start == old(self).customs(),
                strs(start).no_duplicates(),
                kept@ == start.subrange(0, i as int).filter(|r: String| r@ != relay@),
                forall|a: int| 0 <= a < kept@.len() ==> strs(start.subrange(0, i as int)).contains(#[trigger] kept@[a]@),
                strs(kept@).no_duplicates(),
            decreases self.custom_relays@.len() - i,
        {
            proof {
                reveal(Seq::filter);
                assert(start.subrange(0, i + 1).drop_last() =~= start.subrange(0, i as int));
            }
            assert forall|a: int| 0 <= a < kept@.len() implies strs(start.subrange(0, i + 1)).contains(#[trigger] kept@[a]@) by {
                assert(strs(start.subrange(0, i as int)).contains(kept@[a]@));
                let c = choose|c: int| 0 <= c < i && #[trigger] strs(start.subrange(0, i as int))[c] == kept@[a]@;
                assert(strs(start.subrange(0, i + 1))[c] == kept@[a]@);
            }
            if !str_eq(self.custom_relays[i].as_str(), relay) {
                let ghost before = kept@;
                kept.push(self.custom_relays[i].clone());
                assert(strs(kept@) =~= strs(before).push(start[i as int]@));
                assert forall|a: int, b: int| 0 <= a < b < strs(kept@).len() implies strs(kept@)[a] != strs(kept@)[b] by {
                    if b == before.len() {
                        assert(strs(start.subrange(0, i as int)).contains(kept@[a]@));
                        let c = choose|c: int| 0 <= c < i && #[trigger] strs(start.subrange(0, i as int))[c] == kept@[a]@;
                        assert(strs(start)[c] == kept@[a]@);
                        assert(strs(start)[i as int] == strs(kept@)[b]);
                    } else {
                        assert(strs(kept@)[a] == strs(before)[a] && strs(kept@)[b] == strs(before)[b]);
                    }
                }
                assert forall|a: int| 0 <= a < kept@.len() implies strs(start.subrange(0, i + 1)).contains(#[trigger] kept@[a]@) by {
                    if a == before.len() {
                        assert(strs(start.subrange(0, i + 1))[i as int] == kept@[a]@);
                    } else {
                        assert(strs(start.subrange(0, i as int)).contains(before[a]@));
                        let c = choose|c: int| 0 <= c < i && #[trigger] strs(start.subrange(0, i as int))[c] == before[a]@;
                        assert(strs(start.subrange(0, i + 1))[c] == kept@[a]@);
                    }
                }
            }
            i += 1;
        }
        assert(start.subrange(0, start.len() as int) =~= start);
        self.custom_relays = kept;
    }

    pub fn set_mode(&mut self, mode: RelayMode)
        ensures
            final(self).mode() == mode,
            final(self).defaults() == old(self).defaults(),
            final(self).customs() == old(self).customs(),
            final(self).statuses() == old(self).statuses(),
    {
        self.mode = mode;
    }

    fn status_index(&self, relay: &str) -> (r: Option<usize>)
        ensures
            match r {
                Some(i) => i < self.statuses().len() && self.status_keys()[i as int] == relay@,
                None => !self.status_keys().contains(relay@),
            },
    {
        let mut i: usize = 0;
        while i < self.relay_status.len()
            invariant
                0 <= i <= self.relay_status@.len(),
                forall|k: int| 0 <= k < i ==> self.relay_status@[k].0@ != relay@,
            decreases self.relay_status@.len() - i,
        {
            if str_eq(self.relay_status[i].0.as_str(), relay) {
                return Some(i);
            }
            i += 1;
        }
        assert(!self.status_keys().contains(relay@)) by {
            if self.status_keys().contains(relay@) {
                let k = choose|k: int| 0 <= k < self.status_keys().len() && self.status_keys()[k] == relay@;
                assert(self.relay_status@[k].0@ == relay@);
            }
        }
        None
    }

    proof fn lemma_status_at(&self, i: int)
        requires
            self.wf(),
            0 <= i < self.statuses().len(),
        ensures
            self.status_of(self.status_keys()[i]) == Some(self.statuses()[i].1),
    {
        let u = self.status_keys()[i];
        let j = choose|j: int| 0 <= j < self.statuses().len() && self.status_keys()[j] == u;
    }

    /// Records the status of `relay`.
    pub fn update_status(&mut self, relay: &str, status: RelayStatus)
        requires
            old(self).wf(),
        ensures
            final(self).wf(),
            final(self).status_of(relay@) == Some(status),
            forall|u: Seq<char>| u != relay@ ==> #[trigger] final(self).status_of(u) == old(self).status_of(u),
            final(self).mode() == old(self).mode(),
            final(self).defaults() == old(self).defaults(),
            final(self).customs() == old(self).customs(),
    {
        let ghost st = status;
        match self.status_index(relay) {
            Some(i) => {
                let key = self.relay_status[i].0.clone();
                self.relay_status.set(i, (key, status));
                proof {
                    assert(self.status_keys() =~= old(self).status_keys());
                    self.lemma_status_at(i as int);
                    assert forall|u: Seq<char>| u != relay@ implies #[trigger] self.status_of(u) == old(self).status_of(u) by {
                        if old(self).status_keys().contains(u) {
                            let k = choose|k: int| 0 <= k < old(self).statuses().len() && old(self).status_keys()[k] == u;
                            old(self).lemma_status_at(k);
                            self.lemma_status_at(k);
                        }
                    }
                }
            },
            None => {
                self.relay_status.push((relay.to_owned(), status));
                proof {
                    let n = self.statuses().len() - 1;
                    assert(self.status_keys() =~= old(self).status_keys().push(relay@));
                    self.lemma_status_at(n);
                    assert forall|u: Seq<char>| u != relay@ implies #[trigger] self.status_of(u) == old(self).status_of(u) by {
                        if old(self).status_keys().contains(u) {
                            let k = choose|k: int| 0 <= k < old(self).statuses().len() && old(self).status_keys()[k] == u;
                            old(self).lemma_status_at(k);
                            self.lemma_status_at(k);
                        } else {
                            assert(!self.status_keys().contains(u)) by {
                                if self.status_keys().contains(u) {
                                    let k = choose|k: int| 0 <= k < self.status_keys().len() && self.status_keys()[k] == u;
                                    if k < n {
                                        assert(old(self).status_keys()[k] == u);
                                    }
                                }
                            }
                        }
                    }
                }
            },
        }
    }

    /// The last status reported for `relay`.
    pub fn get_status(&self, relay: &str) -> (r: Option<&RelayStatus>)
        requires
            self.wf(),
        ensures
            match r {
                Some(s) => self.status_of(relay@) == Some(*s),
                None => self.status_of(relay@) is None,
            },
    {
        match self.status_index(relay) {
            Some(i) => {
                proof {
                    self.lemma_status_at(i as int);
                }
                Some(&self.relay_status[i].1)
            },
            None => None,
        }
    }

    pub fn get_mode(&self) -> (r: &RelayMode)
        ensures
            *r == self.mode(),
    {
        &self.mode
    }

    pub fn get_default_relays(&self) -> (r: Vec<String>)
        ensures
            r@ == self.defaults(),
    {
        clone_strings(&self.default_relays)
    }

    pub fn get_custom_relays(&self) -> (r: Vec<String>)
        ensures
            r@ == self.customs(),
    {
        clone_strings(&self.custom_relays)
    }

    /// Every tracked relay with its status.
    pub fn get_all_status(&self) -> (r: Vec<(String, RelayStatus)>)
        ensures
            r@ == self.statuses(),
    {
        let mut out: Vec<(String, RelayStatus)> = Vec::new();
        let mut i: usize = 0;
        while i < self.relay_status.len()
            invariant
                0 <= i <= self.relay_status@.len(),
                out@ == self.relay_status@.subrange(0, i as int),
            decreases self.relay_status@.len() - i,
        {
            let (url, status) = &self.relay_status[i];
            out.push((url.clone(), status.duplicate()));
            assert(out@ =~= self.relay_status@.subrange(0, i + 1));
            i += 1;
        }
        assert(self.relay_status@.subrange(0, self.relay_status@.len() as int) =~= self.relay_status@);
        out
    }
}

/// The label under which a relay's status is shown.
pub fn status_label(status: &RelayStatus) -> (r: String)
    ensures
        match status {
            RelayStatus::Connected => r@ == "connected"@,
            RelayStatus::Connecting => r@ == "connecting"@,
            RelayStatus::Disconnected => r@ == "disconnected"@,
            RelayStatus::Failed(e) => r@ == "failed: "@ + e@,
        },
{
    match status {
        RelayStatus::Connected => "connected".to_owned(),
        RelayStatus::Connecting => "connecting".to_owned(),
        RelayStatus::Disconnected => "disconnected".to_owned(),
        RelayStatus::Failed(e) => "failed: ".to_owned().concat(e.as_str()),
    }
}

/// The name under which a mode is stored.
pub fn mode_name(mode: RelayMode) -> (r: &'static str)
    ensures
        mode == RelayMode::Hybrid ==> r@ == "hybrid"@,
        mode == RelayMode::Exclusive ==> r@ == "exclusive"@,
{
    match mode {
        RelayMode::Hybrid => "hybrid",
        RelayMode::Exclusive => "exclusive",
    }
}

/// The mode a setting names, when it names one.
pub fn parse_mode(name: &str) -> (r: Option<RelayMode>)
    ensures
        r == if name@ == "hybrid"@ {
            Some(RelayMode::Hybrid)
        } else if name@ == "exclusive"@ {
            Some(RelayMode::Exclusive)
        } else {
            None
        },
{
    if str_eq(name, "hybrid") {
        Some(RelayMode::Hybrid)
    } else if str_eq(name, "exclusive") {
        Some(RelayMode::Exclusive)
    } else {
        None
    }
}

} // verus!
