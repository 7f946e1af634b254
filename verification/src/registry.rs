//! The registry of the nexus: which endpoints have identified, with the
//! sender that reaches each, and which endpoints listen on which channel,
//! until when, and through which sender.
//!
//! Instants are nanoseconds since the Unix epoch; senders are
//! the numbers by which the caller finds a connection again.
use vstd::prelude::*;
use crate::clock::{wall_clock_nanos, MAX_DURATION_NANOS};
use crate::frame::{relay_frame, spec_relay_frame};
use crate::table::{has_key, keys_unique, lemma_entries_map, Table};

verus! {

/// A listener to whom a text is to be relayed.
pub struct Recipient {
    pub ep_id: String,
    pub sender: u64,
}

/// What relaying a text amounts to: the frame to send, and to whom.
pub struct Relay {
    pub frame: String,
    pub recipients: Vec<Recipient>,
}

/// The subscriptions of a channel that are still valid at `now`.
pub open spec fn fresh_subs(m: Map<Seq<char>, (u128, u64)>, now: u128) -> Map<Seq<char>, (u128, u64)> {
    Map::new(|k: Seq<char>| m.contains_key(k) && m[k].0 >= now, |k: Seq<char>| m[k])
}

/// The subscriptions of channel `chan` (none if there is no such channel).
pub open spec fn subs_of(
    chans: Map<Seq<char>, Map<Seq<char>, (u128, u64)>>,
    chan: Seq<char>,
) -> Map<Seq<char>, (u128, u64)> {
    if chans.contains_key(chan) {
        chans[chan]
    } else {
        Map::empty()
    }
}

/// The instant `sec` seconds and `nanos` nanoseconds after the Unix epoch,
/// in nanoseconds.
pub open spec fn expiry(sec: u64, nanos: u64) -> int {
    sec * 1_000_000_000 + nanos
}

/// `rs` lists, once each and with the sender recorded at subscription, every
/// listener of `subs` other than `src` whose subscription is valid at `now`.
pub open spec fn recipients_exact(
    rs: Seq<Recipient>,
    subs: Map<Seq<char>, (u128, u64)>,
    src: Seq<char>,
    now: u128,
) -> bool {
    &&& forall|i: int, j: int|
        0 <= i < rs.len() && 0 <= j < rs.len() && i != j ==> (#[trigger] rs[i]).ep_id@ != (
        #[trigger] rs[j]).ep_id@
    &&& forall|i: int|
        0 <= i < rs.len() ==> {
            let k = (#[trigger] rs[i]).ep_id@;
            &&& subs.contains_key(k)
            &&& subs[k].0 >= now
            &&& k != src
            &&& rs[i].sender == subs[k].1
        }
    &&& forall|k: Seq<char>|
        #![trigger subs[k]]
        subs.contains_key(k) && subs[k].0 >= now && k != src ==> exists|i: int|
            0 <= i < rs.len() && (#[trigger] rs[i]).ep_id@ == k
}

/// What a relay on channel `chan` at `now` does: expired subscriptions of
/// the channel are dropped, and the text goes to every other valid listener.
pub open spec fn push_outcome(
    old_chans: Map<Seq<char>, Map<Seq<char>, (u128, u64)>>,
    new_chans: Map<Seq<char>, Map<Seq<char>, (u128, u64)>>,
    src: Seq<char>,
    chan: Seq<char>,
    rs: Seq<Recipient>,
    now: u128,
) -> bool {
    if old_chans.contains_key(chan) {
        &&& new_chans == old_chans.insert(chan, fresh_subs(old_chans[chan], now))
        &&& recipients_exact(rs, old_chans[chan], src, now)
    } else {
        &&& new_chans == old_chans
        &&& rs.len() == 0
    }
}

/// Splits the subscriptions of a channel into those still valid at `now`,
/// and the listeners other than `src` to whom a text goes.
fn split_fresh(subs: &Table<(u128, u64)>, src: &String, now: u128) -> (r: (
    Table<(u128, u64)>,
    Vec<Recipient>,
))
    requires
        subs.wf(),
    ensures
        r.0.wf(),
        r.0@ == fresh_subs(subs@, now),
        recipients_exact(r.1@, subs@, src@, now),
{
    let ghost s = subs.entries@;
    proof {
        lemma_entries_map(s);
    }
    let mut kept: Vec<(String, (u128, u64))> = Vec::new();
    let mut rs: Vec<Recipient> = Vec::new();
    let ghost mut kidx: Seq<int> = Seq::empty();
    let ghost mut ridx: Seq<int> = Seq::empty();
    let mut j: usize = 0;
    while j < subs.entries.len()
        invariant
            s == subs.entries@,
            keys_unique(s),
            j <= s.len(),
            kidx.len() == kept@.len(),
            forall|a: int| 0 <= a < kidx.len() ==> 0 <= #[trigger] kidx[a] < j,
            forall|a: int, b: int| 0 <= a < b < kidx.len() ==> kidx[a] < kidx[b],
            forall|a: int| 0 <= a < kidx.len() ==> #[trigger] kept@[a] == s[kidx[a]],
            forall|a: int| 0 <= a < kidx.len() ==> s[#[trigger] kidx[a]].1.0 >= now,
            forall|b: int|
                0 <= b < j && (#[trigger] s[b]).1.0 >= now ==> exists|a: int|
                    0 <= a < kidx.len() && #[trigger] kidx[a] == b,
            ridx.len() == rs@.len(),
            forall|a: int| 0 <= a < ridx.len() ==> 0 <= #[trigger] ridx[a] < j,
            forall|a: int, b: int| 0 <= a < b < ridx.len() ==> ridx[a] < ridx[b],
            forall|a: int|
                0 <= a < ridx.len() ==> (#[trigger] rs@[a]).ep_id@ == s[ridx[a]].0@ && rs@[a].sender
                    == s[ridx[a]].1.1,
            forall|a: int|
                0 <= a < ridx.len() ==> s[#[trigger] ridx[a]].1.0 >= now && s[ridx[a]].0@ != src@,
            forall|b: int|
                0 <= b < j && (#[trigger] s[b]).1.0 >= now && s[b].0@ != src@ ==> exists|a: int|
                    0 <= a < ridx.len() && #[trigger] ridx[a] == b,
        decreases s.len() - j,
    {
        let ghost kidx0 = kidx;
        let ghost ridx0 = ridx;
        let entry = &subs.entries[j];
        let valid_until = entry.1.0;
        if valid_until >= now {
            if entry.0 != *src {
                rs.push(Recipient { ep_id: entry.0.clone(), sender: entry.1.1 });
                proof {
                    ridx = ridx.push(j as int);
                    assert(ridx[ridx.len() - 1] == j);
                }
            }
            kept.push((entry.0.clone(), entry.1));
            proof {
                kidx = kidx.push(j as int);
                assert(kidx[kidx.len() - 1] == j);
            }
        }
        assert forall|b: int|
            0 <= b < j + 1 && (#[trigger] s[b]).1.0 >= now implies exists|a: int|
            0 <= a < kidx.len() && #[trigger] kidx[a] == b by {
            if b < j {
                let a = choose|a: int| 0 <= a < kidx0.len() && #[trigger] kidx0[a] == b;
                assert(kidx[a] == kidx0[a]);
            } else {
                assert(kidx[kidx.len() - 1] == b);
            }
        }
        assert forall|b: int|
            0 <= b < j + 1 && (#[trigger] s[b]).1.0 >= now && s[b].0@ != src@ implies exists|a: int|
            0 <= a < ridx.len() && #[trigger] ridx[a] == b by {
            if b < j {
                let a = choose|a: int| 0 <= a < ridx0.len() && #[trigger] ridx0[a] == b;
                assert(ridx[a] == ridx0[a]);
            } else {
                assert(ridx[ridx.len() - 1] == b);
            }
        }
        j = j + 1;
    }
    let ghost k = kept@;
    assert forall|a: int, b: int|
        0 <= a < k.len() && 0 <= b < k.len() && a != b implies (#[trigger] k[a]).0@ != (
    #[trigger] k[b]).0@ by {
        assert(k[a] == s[kidx[a]]);
        assert(k[b] == s[kidx[b]]);
        assert(kidx[a] != kidx[b]);
    }
    proof {
        lemma_entries_map(k);
    }
    let table = Table { entries: kept };
    let ghost target = fresh_subs(subs@, now);
    assert forall|q: Seq<char>| table@.contains_key(q) <==> target.contains_key(q) by {
        if has_key(k, q) {
            let a = choose|a: int| 0 <= a < k.len() && (#[trigger] k[a]).0@ == q;
            assert(k[a] == s[kidx[a]]);
            assert(s[kidx[a]].1.0 >= now);
            assert(subs@[s[kidx[a]].0@] == s[kidx[a]].1@);
            assert(has_key(s, q));
        }
        if target.contains_key(q) {
            assert(has_key(s, q));
            let b = choose|b: int| 0 <= b < s.len() && (#[trigger] s[b]).0@ == q;
            assert(subs@[s[b].0@] == s[b].1@);
            let a = choose|a: int| 0 <= a < kidx.len() && #[trigger] kidx[a] == b;
            assert(k[a] == s[b]);
            assert(has_key(k, q));
        }
    }
    assert forall|q: Seq<char>| #[trigger] table@.contains_key(q) implies table@[q] == target[q] by {
        let a = choose|a: int| 0 <= a < k.len() && (#[trigger] k[a]).0@ == q;
        assert(k[a] == s[kidx[a]]);
        assert(subs@[s[kidx[a]].0@] == s[kidx[a]].1@);
        assert(table@[k[a].0@] == k[a].1@);
    }
    assert(table@ =~= target);
    let ghost r = rs@;
    assert forall|a: int, b: int|
        0 <= a < r.len() && 0 <= b < r.len() && a != b implies (#[trigger] r[a]).ep_id@ != (
    #[trigger] r[b]).ep_id@ by {
        assert(ridx[a] != ridx[b]);
    }
    assert forall|a: int| 0 <= a < r.len() implies {
        let q = (#[trigger] r[a]).ep_id@;
        &&& subs@.contains_key(q)
        &&& subs@[q].0 >= now
        &&& q != src@
        &&& r[a].sender == subs@[q].1
    } by {
        let b = ridx[a];
        assert(subs@[s[b].0@] == s[b].1@);
        assert(has_key(s, s[b].0@));
    }
    assert forall|q: Seq<char>|
        #![trigger subs@[q]]
        subs@.contains_key(q) && subs@[q].0 >= now && q != src@ implies exists|a: int|
        0 <= a < r.len() && (#[trigger] r[a]).ep_id@ == q by {
        assert(has_key(s, q));
        let b = choose|b: int| 0 <= b < s.len() && (#[trigger] s[b]).0@ == q;
        assert(subs@[s[b].0@] == s[b].1@);
        let a = choose|a: int| 0 <= a < ridx.len() && #[trigger] ridx[a] == b;
        assert(r[a].ep_id@ == q);
    }
    (table, rs)
}

/// `rs` lists, once each, every identified endpoint with its sender.
pub open spec fn lists_endpoints(rs: Seq<Recipient>, eps: Map<Seq<char>, u64>) -> bool {
    &&& forall|i: int, j: int|
        0 <= i < rs.len() && 0 <= j < rs.len() && i != j ==> (#[trigger] rs[i]).ep_id@ != (
        #[trigger] rs[j]).ep_id@
    &&& forall|i: int|
        0 <= i < rs.len() ==> eps.contains_key((#[trigger] rs[i]).ep_id@) && rs[i].sender
            == eps[rs[i].ep_id@]
    &&& forall|k: Seq<char>|
        #[trigger] eps.contains_key(k) ==> exists|i: int| 0 <= i < rs.len() && (#[trigger] rs[i]).ep_id@ == k
}

/// Every channel, with endpoint `ep` taken out of its listeners.
pub open spec fn without_listener(
    chans: Map<Seq<char>, Map<Seq<char>, (u128, u64)>>,
    ep: Seq<char>,
) -> Map<Seq<char>, Map<Seq<char>, (u128, u64)>> {
    Map::new(|c: Seq<char>| chans.contains_key(c), |c: Seq<char>| chans[c].remove(ep))
}

/// The registry of the nexus.
pub struct Env {
    ep: Table<u64>,
    chan: Table<Table<(u128, u64)>>,
}

impl Env {
    /// The identified endpoints, each with the sender that reaches it.
    pub closed spec fn spec_eps(&self) -> Map<Seq<char>, u64> {
        self.ep@
    }

    /// The channels, each with its listeners: until when each listens, and
    /// through which sender.
    pub closed spec fn spec_chans(&self) -> Map<Seq<char>, Map<Seq<char>, (u128, u64)>> {
        self.chan@
    }

    pub closed spec fn wf(&self) -> bool {
        &&& self.ep.wf()
        &&& self.chan.wf()
        &&& forall|i: int| 0 <= i < self.chan.entries@.len() ==> (#[trigger] self.chan.entries@[i]).1.wf()
    }

    /// An empty registry.
    pub fn new() -> (r: Self)
        ensures
            r.wf(),
            r.spec_eps() == Map::<Seq<char>, u64>::empty(),
            r.spec_chans() == Map::<Seq<char>, Map<Seq<char>, (u128, u64)>>::empty(),
    {
        Env { ep: Table::new(), chan: Table::new() }
    }

    /// Records that endpoint `ep_id` is reached through `sender`.
    pub fn add_ep(&mut self, ep_id: String, sender: u64)
        requires
            old(self).wf(),
        ensures
            final(self).wf(),
            final(self).spec_eps() == old(self).spec_eps().insert(ep_id@, sender),
            final(self).spec_chans() == old(self).spec_chans(),
    {
        self.ep.insert(ep_id, sender);
    }

    /// Subscribes endpoint `ep_id` to channel `chan_id` until the instant
    /// `time_sec` seconds and `time_nanos` nanoseconds after the Unix epoch,
    /// through the sender of the endpoint, and returns that instant. An
    /// endpoint that has not identified is refused.
    pub fn ep_reg_chan(&mut self, ep_id: String, chan_id: String, time_sec: u64, time_nanos: u64) -> (r:
        Option<u128>)
        requires
            old(self).wf(),
        ensures
            final(self).wf(),
            final(self).spec_eps() == old(self).spec_eps(),
            r is Some <==> old(self).spec_eps().contains_key(ep_id@),
            r is None ==> final(self).spec_chans() == old(self).spec_chans(),
            r matches Some(e) ==> {
                &&& e == expiry(time_sec, time_nanos)
                &&& final(self).spec_chans() == old(self).spec_chans().insert(
                    chan_id@,
                    subs_of(old(self).spec_chans(), chan_id@).insert(
                        ep_id@,
                        (e, old(self).spec_eps()[ep_id@]),
                    ),
                )
            },
    {
        let sender: u64 = match self.ep.get(&ep_id) {
            Some(s) => *s,
            None => {
                return None;
            },
        };
        let expire: u128 = (time_sec as u128) * 1_000_000_000 + (time_nanos as u128);
        let ghost old_chan = self.chan@;
        match self.chan.find(&chan_id) {
            Some(i) => {
                proof {
                    lemma_entries_map(self.chan.entries@);
                }
                let ghost old_entries = self.chan.entries@;
                let mut subs = self.chan.swap_value(i, Table::new());
                subs.insert(ep_id, (expire, sender));
                self.chan.swap_value(i, subs);
                proof {
                    assert(self.chan.entries@ =~= old_entries.update(
                        i as int,
                        (old_entries[i as int].0, subs),
                    ));
                    assert forall|a: int| 0 <= a < self.chan.entries@.len() implies (
                    #[trigger] self.chan.entries@[a]).1.wf() by {
                        if a != i {
                            assert(self.chan.entries@[a] == old_entries[a]);
                        }
                    }
                }
            },
            None => {
                let mut subs = Table::new();
                subs.insert(ep_id, (expire, sender));
                let ghost old_entries = self.chan.entries@;
                let ghost new_entry = (chan_id, subs);
                self.chan.insert(chan_id, subs);
                proof {
                    assert forall|a: int| 0 <= a < self.chan.entries@.len() implies (
                    #[trigger] self.chan.entries@[a]).1.wf() by {
                        if self.chan.entries@[a] != new_entry {
                            assert(self.chan.entries@[a] == old_entries[a]);
                        }
                    }
                }
            },
        }
        Some(expire)
    }

    /// Relays `text`, sent by `src_ep_id`, on channel `chan_id` at `now`:
    /// subscriptions of the channel that expired before `now` are dropped,
    /// and the frame goes to every other listener of the channel.
    pub fn push_text_at(&mut self, src_ep_id: String, chan_id: String, text: String, now: u128) -> (r:
        Relay)
        requires
            old(self).wf(),
        ensures
            final(self).wf(),
            final(self).spec_eps() == old(self).spec_eps(),
            r.frame@ == spec_relay_frame(src_ep_id@, chan_id@, text@),
            push_outcome(
                old(self).spec_chans(),
                final(self).spec_chans(),
                src_ep_id@,
                chan_id@,
                r.recipients@,
                now,
            ),
    {
        let frame = relay_frame(src_ep_id.as_str(), chan_id.as_str(), text.as_str());
        match self.chan.find(&chan_id) {
            Some(i) => {
                proof {
                    lemma_entries_map(self.chan.entries@);
                }
                let ghost old_entries = self.chan.entries@;
                let subs = self.chan.swap_value(i, Table::new());
                assert(subs@ == old(self).spec_chans()[chan_id@]);
                let (fresh, recipients) = split_fresh(&subs, &src_ep_id, now);
                self.chan.swap_value(i, fresh);
                assert(self.chan@ == old(self).spec_chans().insert(chan_id@, fresh_subs(old(self).spec_chans()[chan_id@], now)));
                assert(recipients_exact(recipients@, old(self).spec_chans()[chan_id@], src_ep_id@, now));
                proof {
                    assert(self.chan.entries@ =~= old_entries.update(
                        i as int,
                        (old_entries[i as int].0, fresh),
                    ));
                    assert forall|a: int| 0 <= a < self.chan.entries@.len() implies (
                    #[trigger] self.chan.entries@[a]).1.wf() by {
                        if a != i {
                            assert(self.chan.entries@[a] == old_entries[a]);
                        }
                    }
                }
                Relay { frame, recipients }
            },
            None => Relay { frame, recipients: Vec::new() },
        }
    }

    /// Relays `text`, sent by `src_ep_id`, on channel `chan_id`, at the
    /// current instant of the wall clock (see `push_text_at`).
    pub fn push_text(&mut self, src_ep_id: String, chan_id: String, text: String) -> (r: Relay)
        requires
            old(self).wf(),
        ensures
            final(self).wf(),
            final(self).spec_eps() == old(self).spec_eps(),
            r.frame@ == spec_relay_frame(src_ep_id@, chan_id@, text@),
            exists|now: u128|
                now <= MAX_DURATION_NANOS && push_outcome(
                    old(self).spec_chans(),
                    final(self).spec_chans(),
                    src_ep_id@,
                    chan_id@,
                    r.recipients@,
                    now,
                ),
    {
        let now = wall_clock_nanos();
        self.push_text_at(src_ep_id, chan_id, text, now)
    }

    /// Forgets endpoint `ep_id`, and takes it out of every channel.
    pub fn remove_ep(&mut self, ep_id: String)
        requires
            old(self).wf(),
        ensures
            final(self).wf(),
            final(self).spec_eps() == old(self).spec_eps().remove(ep_id@),
            final(self).spec_chans() == without_listener(old(self).spec_chans(), ep_id@),
    {
        self.ep.remove(&ep_id);
        let ghost eps_after = self.ep@;
        let ghost old_entries = self.chan.entries@;
        proof {
            lemma_entries_map(old_entries);
        }
        let mut i: usize = 0;
        while i < self.chan.entries.len()
            invariant
                self.chan.wf(),
                self.ep.wf(),
                self.ep@ == eps_after,
                i <= self.chan.entries@.len(),
                self.chan.entries@.len() == old_entries.len(),
                forall|a: int| 0 <= a < self.chan.entries@.len() ==> (#[trigger] self.chan.entries@[a]).1.wf(),
                forall|a: int| 0 <= a < old_entries.len() ==> (#[trigger] self.chan.entries@[a]).0 == old_entries[a].0,
                forall|a: int| 0 <= a < i ==> (#[trigger] self.chan.entries@[a]).1@ == old_entries[a].1@.remove(ep_id@),
                forall|a: int| i <= a < old_entries.len() ==> #[trigger] self.chan.entries@[a] == old_entries[a],
            decreases old_entries.len() - i,
        {
            let ghost before = self.chan.entries@;
            let mut subs = self.chan.swap_value(i, Table::new());
            subs.remove(&ep_id);
            self.chan.swap_value(i, subs);
            proof {
                assert(self.chan.entries@ =~= before.update(i as int, (before[i as int].0, subs)));
                assert forall|a: int| 0 <= a < self.chan.entries@.len() implies (
                #[trigger] self.chan.entries@[a]).1.wf() by {
                    if a != i {
                        assert(self.chan.entries@[a] == before[a]);
                    }
                }
            }
            i = i + 1;
        }
        proof {
            let s = self.chan.entries@;
            lemma_entries_map(s);
            let target = without_listener(old(self).spec_chans(), ep_id@);
            assert forall|q: Seq<char>| self.chan@.contains_key(q) <==> target.contains_key(q) by {
                if has_key(s, q) {
                    let a = choose|a: int| 0 <= a < s.len() && (#[trigger] s[a]).0@ == q;
                    assert(old_entries[a].0 == s[a].0);
                    assert(has_key(old_entries, q));
                }
                if has_key(old_entries, q) {
                    let a = choose|a: int| 0 <= a < old_entries.len() && (#[trigger] old_entries[a]).0@ == q;
                    assert(old_entries[a].0 == s[a].0);
                    assert(has_key(s, q));
                }
            }
            assert forall|q: Seq<char>| #[trigger] self.chan@.contains_key(q) implies self.chan@[q]
                == target[q] by {
                let a = choose|a: int| 0 <= a < s.len() && (#[trigger] s[a]).0@ == q;
                assert(old_entries[a].0 == s[a].0);
                assert(self.chan@[s[a].0@] == s[a].1@);
                assert(old(self).spec_chans()[old_entries[a].0@] == old_entries[a].1@);
            }
            assert(self.chan@ =~= target);
        }
    }

    /// Lists every identified endpoint with its sender: those to whom the
    /// shutdown is announced by closing their connections. Once every close
    /// has gone out, `clear` empties the registry.
    pub fn broadcast_and_shutdown(&self) -> (r: Vec<Recipient>)
        requires
            self.wf(),
        ensures
            lists_endpoints(r@, self.spec_eps()),
    {
        let ghost s = self.ep.entries@;
        proof {
            lemma_entries_map(s);
        }
        let mut rs: Vec<Recipient> = Vec::new();
        let mut i: usize = 0;
        while i < self.ep.entries.len()
            invariant
                s == self.ep.entries@,
                keys_unique(s),
                i <= s.len(),
                rs@.len() == i,
                forall|a: int| 0 <= a < i ==> (#[trigger] rs@[a]).ep_id@ == s[a].0@ && rs@[a].sender == s[a].1,
            decreases s.len() - i,
        {
            let entry = &self.ep.entries[i];
            rs.push(Recipient { ep_id: entry.0.clone(), sender: entry.1 });
            i = i + 1;
        }
        proof {
            let r = rs@;
            assert forall|a: int, b: int|
                0 <= a < r.len() && 0 <= b < r.len() && a != b implies (#[trigger] r[a]).ep_id@ != (
            #[trigger] r[b]).ep_id@ by {
                assert(r[a].ep_id@ == s[a].0@ && r[b].ep_id@ == s[b].0@);
            }
            assert forall|a: int| 0 <= a < r.len() implies self.ep@.contains_key((#[trigger] r[a]).ep_id@)
                && r[a].sender == self.ep@[r[a].ep_id@] by {
                assert(r[a].ep_id@ == s[a].0@);
                assert(has_key(s, s[a].0@));
            }
            assert forall|k: Seq<char>| #[trigger] self.ep@.contains_key(k) implies exists|a: int|
                0 <= a < r.len() && (#[trigger] r[a]).ep_id@ == k by {
                let a = choose|a: int| 0 <= a < s.len() && (#[trigger] s[a]).0@ == k;
                assert(r[a].ep_id@ == s[a].0@);
            }
        }
        rs
    }

    /// Forgets every endpoint and every channel.
    pub fn clear(&mut self)
        ensures
            final(self).wf(),
            final(self).spec_eps() == Map::<Seq<char>, u64>::empty(),
            final(self).spec_chans() == Map::<Seq<char>, Map<Seq<char>, (u128, u64)>>::empty(),
    {
        self.ep = Table::new();
        self.chan = Table::new();
    }

    /// The number of identified endpoints, and the number of channels.
    pub fn size_summary(&self) -> (r: (usize, usize))
        requires
            self.wf(),
        ensures
            r.0 == self.spec_eps().len(),
            r.1 == self.spec_chans().len(),
    {
        (self.ep.len(), self.chan.len())
    }
}

/// A listener that subscribed to a channel is relayed every text that
/// another endpoint sends on it while the subscription holds, through the
/// sender recorded when it subscribed; once the subscription has expired, a
/// relay drops it and it receives nothing.
pub proof fn lemma_subscriber_receives_until_expiry(
    chans: Map<Seq<char>, Map<Seq<char>, (u128, u64)>>,
    chan: Seq<char>,
    ep: Seq<char>,
    until: u128,
    sender: u64,
    src: Seq<char>,
    now: u128,
    new_chans: Map<Seq<char>, Map<Seq<char>, (u128, u64)>>,
    rs: Seq<Recipient>,
)
    requires
        push_outcome(
            chans.insert(chan, subs_of(chans, chan).insert(ep, (until, sender))),
            new_chans,
            src,
            chan,
            rs,
            now,
        ),
    ensures
        now <= until && ep != src ==> exists|i: int|
            0 <= i < rs.len() && (#[trigger] rs[i]).ep_id@ == ep && rs[i].sender == sender,
        now <= until ==> new_chans[chan].contains_key(ep) && new_chans[chan][ep] == (until, sender),
        until < now ==> !new_chans[chan].contains_key(ep),
        until < now ==> forall|i: int| 0 <= i < rs.len() ==> (#[trigger] rs[i]).ep_id@ != ep,
{
    let subs = subs_of(chans, chan).insert(ep, (until, sender));
    let c1 = chans.insert(chan, subs);
    assert(c1.contains_key(chan));
    assert(c1[chan] == subs);
    assert(subs.contains_key(ep) && subs[ep] == (until, sender));
    if now <= until && ep != src {
        assert(subs[ep].0 >= now);
    }
    assert(new_chans[chan] == fresh_subs(subs, now));
}

/// The endpoint that sends a text is never among those to whom it is
/// relayed.
pub proof fn lemma_sender_not_relayed_to(
    chans: Map<Seq<char>, Map<Seq<char>, (u128, u64)>>,
    new_chans: Map<Seq<char>, Map<Seq<char>, (u128, u64)>>,
    src: Seq<char>,
    chan: Seq<char>,
    rs: Seq<Recipient>,
    now: u128,
)
    requires
        push_outcome(chans, new_chans, src, chan, rs, now),
    ensures
        forall|i: int| 0 <= i < rs.len() ==> (#[trigger] rs[i]).ep_id@ != src,
{
}

/// Once an endpoint is removed, it is no longer identified and listens on
/// no channel; every other endpoint and subscription stays.
pub proof fn lemma_removed_endpoint_is_gone(
    eps: Map<Seq<char>, u64>,
    chans: Map<Seq<char>, Map<Seq<char>, (u128, u64)>>,
    ep: Seq<char>,
)
    ensures
        !eps.remove(ep).contains_key(ep),
        forall|c: Seq<char>|
            #[trigger] without_listener(chans, ep).contains_key(c) ==> !without_listener(chans, ep)[c].contains_key(ep),
        forall|c: Seq<char>, k: Seq<char>|
            chans.contains_key(c) && (#[trigger] chans[c]).contains_key(k) && k != ep
                ==> #[trigger] without_listener(chans, ep)[c].contains_key(k)
                && without_listener(chans, ep)[c][k] == chans[c][k],
{
}

} // verus!
