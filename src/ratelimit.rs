use vstd::prelude::*;

use crate::text::str_eq;

verus! {

/// Length of the sliding window, in milliseconds.
pub const WINDOW_MS: u64 = 10000;

/// Most messages one sender may have in the window.
pub const MAX_IN_WINDOW: usize = 20;

/// Whether an event recorded at `t` is still inside the window ending at `now`.
pub open spec fn in_window(t: u64, now: u64) -> bool {
    now < t + WINDOW_MS
}

/// The recorded instants that remain after pruning at `now`.
pub open spec fn prune(w: Seq<u64>, now: u64) -> Seq<u64> {
    w.filter(|t: u64| in_window(t, now))
}

/// Whether a message at `now` is accepted given the sender's recorded instants `w`.
pub open spec fn admits(w: Seq<u64>, now: u64) -> bool {
    prune(w, now).len() < MAX_IN_WINDOW
}

/// The sender's recorded instants after a message at `now`.
pub open spec fn after_check(w: Seq<u64>, now: u64) -> Seq<u64> {
    if admits(w, now) {
        prune(w, now).push(now)
    } else {
        prune(w, now)
    }
}

/// The recorded instants after messages at each instant of `ts`, in order, starting
/// from the recorded instants `w0`.
pub open spec fn replay(w0: Seq<u64>, ts: Seq<u64>) -> Seq<u64>
    decreases ts.len(),
{
    if ts.len() == 0 {
        w0
    } else {
        after_check(replay(w0, ts.drop_last()), ts.last())
    }
}

/// Whether the message at position `k` of `ts` is accepted, starting from `w0`.
pub open spec fn accepted_at(w0: Seq<u64>, ts: Seq<u64>, k: int) -> bool {
    admits(replay(w0, ts.subrange(0, k)), ts[k])
}

struct SenderWindow {
    sender: String,
    times: Vec<u64>,
}

/// Per-sender sliding-window guard against message floods.
pub struct RateLimiter {
    windows: Vec<SenderWindow>,
}

proof fn lemma_filter_all<A>(s: Seq<A>, pred: spec_fn(A) -> bool)
    requires
        forall|i: int| 0 <= i < s.len() ==> pred(#[trigger] s[i]),
    ensures
        s.filter(pred) == s,
    decreases s.len(),
{
    reveal(Seq::filter);
    if s.len() > 0 {
        lemma_filter_all(s.drop_last(), pred);
        assert(s.drop_last().push(s.last()) =~= s);
    }
}

impl RateLimiter {
    pub closed spec fn keys(&self) -> Seq<Seq<char>> {
        self.windows@.map_values(|w: SenderWindow| w.sender@)
    }

    /// The instants recorded for `sender`.
    pub closed spec fn window(&self, sender: Seq<char>) -> Seq<u64> {
        if self.keys().contains(sender) {
            let i = choose|i: int| 0 <= i < self.keys().len() && self.keys()[i] == sender;
            self.windows@[i].times@
        } else {
            Seq::empty()
        }
    }

    pub closed spec fn wf(&self) -> bool {
        self.keys().no_duplicates()
    }

    pub fn new() -> (r: RateLimiter)
        ensures
            r.wf(),
            forall|s: Seq<char>| #[trigger] r.window(s) == Seq::<u64>::empty(),
    {
        let r = RateLimiter { windows: Vec::new() };
        assert(r.keys() =~= Seq::<Seq<char>>::empty());
        r
    }

    proof fn lemma_window_at(&self, i: int)
        requires
            self.wf(),
            0 <= i < self.windows@.len(),
        ensures
            self.window(self.windows@[i].sender@) == self.windows@[i].times@,
    {
        let s = self.windows@[i].sender@;
        assert(self.keys()[i] == s);
        let j = choose|j: int| 0 <= j < self.keys().len() && self.keys()[j] == s;
        assert(self.keys()[j] == s);
    }

    fn find_window(&self, sender: &str) -> (r: Option<usize>)
        ensures
            match r {
                Some(i) => i < self.windows@.len() && self.windows@[i as int].sender@ == sender@,
                None => !self.keys().contains(sender@),
            },
    {
        let mut i: usize = 0;
        while i < self.windows.len()
            invariant
                0 <= i <= self.windows@.len(),
                forall|k: int| 0 <= k < i ==> self.windows@[k].sender@ != sender@,
            decreases self.windows@.len() - i,
        {
            if str_eq(self.windows[i].sender.as_str(), sender) {
                return Some(i);
            }
            i += 1;
        }
        assert(!self.keys().contains(sender@)) by {
            if self.keys().contains(sender@) {
                let k = choose|k: int| 0 <= k < self.keys().len() && self.keys()[k] == sender@;
                assert(self.windows@[k].sender@ == sender@);
            }
        }
        None
    }

    fn pruned(times: &Vec<u64>, now: u64) -> (r: Vec<u64>)
        ensures
            r@ == prune(times@, now),
    {
        let mut out: Vec<u64> = Vec::new();
        let mut i: usize = 0;
        while i < times.len()
            invariant
                0 <= i <= times@.len(),
                out@ == prune(times@.subrange(0, i as int), now),
            decreases times@.len() - i,
        {
            proof {
                reveal(Seq::filter);
                assert(times@.subrange(0, i + 1).drop_last() =~= times@.subrange(0, i as int));
            }
            let t = times[i];
            if now < t || now - t < WINDOW_MS {
                out.push(t);
            }
            i += 1;
        }
        assert(times@.subrange(0, times@.len() as int) =~= times@);
        out
    }

    /// Records a message from `sender` at `now` (milliseconds on a monotonic clock) and
    /// says whether it is accepted: the sender's instants are first pruned to those less
    /// than ten seconds old, and the message is accepted and recorded only if fewer than
    /// twenty remain.
    pub fn check_and_update(&mut self, sender: &str, now: u64) -> (r: bool)
        requires
            old(self).wf(),
        ensures
            final(self).wf(),
            r == admits(old(self).window(sender@), now),
            final(self).window(sender@) == after_check(old(self).window(sender@), now),
            forall|s: Seq<char>| s != sender@ ==> #[trigger] final(self).window(s) == old(self).window(s),
    {
        let found = self.find_window(sender);
        if found.is_none() {
            assert(Seq::<u64>::empty().filter(|t: u64| in_window(t, now)) == Seq::<u64>::empty())
                by {
                reveal(Seq::filter);
            }
            let mut times: Vec<u64> = Vec::new();
            times.push(now);
            self.windows.push(SenderWindow { sender: sender.to_owned(), times });
            proof {
                assert(self.keys() =~= old(self).keys().push(sender@));
                let n = self.windows@.len() - 1;
                self.lemma_window_at(n);
                assert(self.windows@[n].times@ =~= seq![now]);
                assert(Seq::<u64>::empty().push(now) =~= seq![now]);
                assert forall|s: Seq<char>| s != sender@ implies #[trigger] self.window(s) == old(
                    self,
                ).window(s) by {
                    if old(self).keys().contains(s) {
                        let k = choose|k: int|
                            0 <= k < old(self).keys().len() && old(self).keys()[k] == s;
                        old(self).lemma_window_at(k);
                        self.lemma_window_at(k);
                    } else {
                        assert(!self.keys().contains(s)) by {
                            if self.keys().contains(s) {
                                let k = choose|k: int| 0 <= k < self.keys().len() && self.keys()[k] == s;
                                if k < old(self).keys().len() {
                                    assert(old(self).keys()[k] == s);
                                }
                            }
                        }
                    }
                }
            }
            return true;
        }
        let i = found.unwrap();
        proof {
            old(self).lemma_window_at(i as int);
        }
        let w = self.windows.remove(i);
        let mut kept = Self::pruned(&w.times, now);
        let accepted = kept.len() < MAX_IN_WINDOW;
        if accepted {
            kept.push(now);
        }
        let ghost new_w = SenderWindow { sender: w.sender, times: kept };
        self.windows.insert(i, SenderWindow { sender: w.sender, times: kept });
        proof {
            assert(self.windows@ =~= old(self).windows@.update(i as int, new_w));
            assert(self.keys() =~= old(self).keys());
            self.lemma_window_at(i as int);
            assert forall|s: Seq<char>| s != sender@ implies #[trigger] self.window(s) == old(self).window(
                s,
            ) by {
                if old(self).keys().contains(s) {
                    let k = choose|k: int|
                        0 <= k < old(self).keys().len() && old(self).keys()[k] == s;
                    old(self).lemma_window_at(k);
                    self.lemma_window_at(k);
                }
            }
        }
        accepted
    }
}

proof fn lemma_filter_none<A>(s: Seq<A>, pred: spec_fn(A) -> bool)
    requires
        forall|i: int| 0 <= i < s.len() ==> !pred(#[trigger] s[i]),
    ensures
        s.filter(pred) == Seq::<A>::empty(),
    decreases s.len(),
{
    reveal(Seq::filter);
    if s.len() > 0 {
        lemma_filter_none(s.drop_last(), pred);
    }
}

/// The conditions of the twenty-per-window law: instants that never decrease, all
/// within ten seconds of the first, after a window whose entries are all ten seconds
/// or more older than the first.
pub open spec fn burst(w0: Seq<u64>, ts: Seq<u64>) -> bool {
    &&& ts.len() > 0
    &&& forall|i: int, j: int| 0 <= i <= j < ts.len() ==> ts[i] <= ts[j]
    &&& forall|i: int| 0 <= i < ts.len() ==> #[trigger] ts[i] < ts[0] + WINDOW_MS
    &&& forall|i: int| 0 <= i < w0.len() ==> #[trigger] w0[i] + WINDOW_MS <= ts[0]
}

proof fn lemma_replay_within(w0: Seq<u64>, ts: Seq<u64>, k: int)
    requires
        1 <= k <= ts.len(),
        burst(w0, ts),
    ensures
        replay(w0, ts.subrange(0, k)) == ts.subrange(0, if k < MAX_IN_WINDOW { k } else { MAX_IN_WINDOW as int }),
    decreases k,
{
    let prev = ts.subrange(0, k - 1);
    assert(ts.subrange(0, k).drop_last() =~= prev);
    let now = ts[k - 1];
    if k == 1 {
        assert(prev =~= Seq::<u64>::empty());
        assert forall|i: int| 0 <= i < w0.len() implies !in_window(#[trigger] w0[i], now) by {
            assert(ts[0] <= ts[k - 1]);
        }
        lemma_filter_none(w0, |t: u64| in_window(t, now));
        assert(replay(w0, prev) == w0);
        assert(prune(w0, now) == Seq::<u64>::empty());
        assert(after_check(w0, now) == Seq::<u64>::empty().push(now));
        assert(replay(w0, ts.subrange(0, k)) == after_check(replay(w0, prev), now));
        assert(Seq::<u64>::empty().push(now) =~= ts.subrange(0, 1));
    } else {
        lemma_replay_within(w0, ts, k - 1);
        let w = replay(w0, prev);
        assert forall|i: int| 0 <= i < w.len() implies in_window(#[trigger] w[i], now) by {
            assert(w[i] == ts[i]);
            assert(ts[0] <= ts[i]);
        }
        lemma_filter_all(w, |t: u64| in_window(t, now));
        assert(replay(w0, ts.subrange(0, k)) == after_check(w, now));
        let m = if k - 1 < MAX_IN_WINDOW { k - 1 } else { MAX_IN_WINDOW as int };
        if k - 1 < MAX_IN_WINDOW {
            assert(ts.subrange(0, m).push(now) =~= ts.subrange(0, k));
        }
    }
}

/// For messages from one sender at non-decreasing instants that all lie within ten
/// seconds of the first, where every instant recorded before is at least ten seconds
/// older than the first, the first twenty are accepted and every later one is dropped.
pub proof fn law_twenty_per_window(w0: Seq<u64>, ts: Seq<u64>, k: int)
    requires
        0 <= k < ts.len(),
        burst(w0, ts),
    ensures
        accepted_at(w0, ts, k) == (k < MAX_IN_WINDOW),
{
    let now = ts[k];
    if k == 0 {
        assert(ts.subrange(0, 0) =~= Seq::<u64>::empty());
        assert forall|i: int| 0 <= i < w0.len() implies !in_window(#[trigger] w0[i], now) by {}
        lemma_filter_none(w0, |t: u64| in_window(t, now));
    } else {
        lemma_replay_within(w0, ts, k);
        let w = replay(w0, ts.subrange(0, k));
        assert forall|i: int| 0 <= i < w.len() implies in_window(#[trigger] w[i], now) by {
            assert(w[i] == ts[i]);
            assert(ts[0] <= ts[i]);
        }
        lemma_filter_all(w, |t: u64| in_window(t, now));
    }
}

} // verus!
