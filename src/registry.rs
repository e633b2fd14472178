use vstd::prelude::*;

use tokio::sync::mpsc::UnboundedSender;

use crate::codec::{encode, encode_spec};
use crate::message::{same_text, ChatMessage};

verus! {

/// The sending half of a peer's outbound channel, as tokio defines it.
#[verifier::external_type_specification]
#[verifier::external_body]
#[verifier::reject_recursive_types(T)]
pub struct ExUnboundedSender<T>(UnboundedSender<T>);

/// Relies on tokio's `UnboundedSender::send`: queues the frame without
/// waiting, and fails only when the receiving half has closed. Whether it
/// has is not known here, so nothing is promised of the result.
#[verifier::external_body]
fn deliver(outbox: &UnboundedSender<String>, frame: String) -> (accepted: bool) {
    outbox.send(frame).is_ok()
}

/// One registered peer: its identity and the endpoint that feeds its writer.
struct PeerEntry {
    id: String,
    outbox: UnboundedSender<String>,
}

/// The outcome of one delivery attempt during a broadcast.
#[derive(Clone, Debug, PartialEq, Eq)]
pub struct Delivery {
    pub peer: String,
    pub accepted: bool,
}

/// What a broadcast did: the frame it handed out, and to whom.
#[derive(Clone, Debug, PartialEq, Eq)]
pub struct BroadcastReport {
    pub frame: String,
    pub deliveries: Vec<Delivery>,
}

/// The identities of the recipients of a broadcast from `sender`: every
/// registered peer but the sender, in registration order.
pub open spec fn recipients(ids: Seq<Seq<char>>, sender: Seq<char>) -> Seq<Seq<char>> {
    ids.filter(|x: Seq<char>| x != sender)
}

/// A registry's contents: identity and endpoint, in registration order.
pub type Entries = Seq<(Seq<char>, UnboundedSender<String>)>;

pub open spec fn has_id(v: Entries, id: Seq<char>) -> bool {
    exists|i: int| 0 <= i < v.len() && v[i].0 == id
}

/// Where `id` stands in `v` (meaningful when `has_id(v, id)`).
pub open spec fn slot_of(v: Entries, id: Seq<char>) -> int {
    choose|i: int| 0 <= i < v.len() && v[i].0 == id
}

/// The contents after registering `id`: a new identity goes last, a known
/// one keeps its place and takes the new endpoint.
pub open spec fn register_spec(v: Entries, id: Seq<char>, outbox: UnboundedSender<String>) -> Entries {
    if has_id(v, id) {
        v.update(slot_of(v, id), (id, outbox))
    } else {
        v.push((id, outbox))
    }
}

/// The contents after unregistering `id`: its entry is gone, the rest keep
/// their order.
pub open spec fn unregister_spec(v: Entries, id: Seq<char>) -> Entries {
    if has_id(v, id) {
        v.remove(slot_of(v, id))
    } else {
        v
    }
}

pub open spec fn ids_of(v: Entries) -> Seq<Seq<char>> {
    v.map_values(|p: (Seq<char>, UnboundedSender<String>)| p.0)
}

/// The contents after registering each of `peers` in turn, from empty.
pub open spec fn registrations(peers: Entries) -> Entries
    decreases peers.len(),
{
    if peers.len() == 0 {
        Seq::empty()
    } else {
        register_spec(registrations(peers.drop_last()), peers.last().0, peers.last().1)
    }
}

/// Peers with distinct identities that each register once, in any order,
/// leave one entry each: the registry holds exactly them, in the order they
/// registered, with distinct identities. A connection's identification
/// changes the registry by `register_spec` and nothing else, so this is
/// what N connections that identify leave behind.
pub proof fn lemma_distinct_registrations(peers: Entries)
    requires
        ids_of(peers).no_duplicates(),
    ensures
        registrations(peers) == peers,
        registrations(peers).len() == peers.len(),
        ids_of(registrations(peers)).no_duplicates(),
    decreases peers.len(),
{
    if peers.len() > 0 {
        let rest = peers.drop_last();
        assert(ids_of(rest) =~= ids_of(peers).drop_last());
        lemma_distinct_registrations(rest);
        let id = peers.last().0;
        if has_id(rest, id) {
            let k = choose|k: int| 0 <= k < rest.len() && rest[k].0 == id;
            assert(ids_of(peers)[k] == ids_of(peers)[peers.len() - 1]);
        }
        assert(rest.push(peers.last()) =~= peers);
    }
}

proof fn lemma_unregister_removes(v: Entries, id: Seq<char>)
    requires
        ids_of(v).no_duplicates(),
    ensures
        !has_id(unregister_spec(v, id), id),
        !ids_of(unregister_spec(v, id)).contains(id),
{
    let w = unregister_spec(v, id);
    if has_id(v, id) {
        let i = slot_of(v, id);
        assert(ids_of(w) =~= ids_of(v).remove(i));
        assert(!has_id(w, id)) by {
            if has_id(w, id) {
                let k = choose|k: int| 0 <= k < w.len() && w[k].0 == id;
                if k < i {
                    assert(ids_of(v)[k] == ids_of(v)[i]);
                } else {
                    assert(ids_of(v)[k + 1] == ids_of(v)[i]);
                }
            }
        }
    }
    if ids_of(w).contains(id) {
        let k = choose|k: int| 0 <= k < ids_of(w).len() && ids_of(w)[k] == id;
        assert(w[k].0 == id);
    }
}

proof fn lemma_unregister_keeps_distinct(v: Entries, id: Seq<char>)
    requires
        ids_of(v).no_duplicates(),
    ensures
        ids_of(unregister_spec(v, id)).no_duplicates(),
{
    if has_id(v, id) {
        let i = slot_of(v, id);
        let ids = ids_of(v);
        let w = ids_of(unregister_spec(v, id));
        assert(w =~= ids.remove(i));
        assert forall|a: int, b: int| 0 <= a < b < w.len() implies w[a] != w[b] by {
            let a2 = if a < i { a } else { a + 1 };
            let b2 = if b < i { b } else { b + 1 };
            assert(w[a] == ids[a2]);
            assert(w[b] == ids[b2]);
        }
    }
}

/// Removing a peer takes it out of every later broadcast, and removing it
/// again, or after it is gone, changes nothing.
pub proof fn lemma_unregister_idempotent(v: Entries, id: Seq<char>, sender: Seq<char>)
    requires
        ids_of(v).no_duplicates(),
    ensures
        !has_id(unregister_spec(v, id), id),
        !recipients(ids_of(unregister_spec(v, id)), sender).contains(id),
        unregister_spec(unregister_spec(v, id), id) == unregister_spec(v, id),
{
    lemma_unregister_removes(v, id);
    lemma_unregister_keeps_distinct(v, id);
    lemma_recipients(ids_of(unregister_spec(v, id)), sender);
}

/// A broadcast from `sender` reaches each other registered peer exactly
/// once, and never the sender.
pub proof fn lemma_recipients(ids: Seq<Seq<char>>, sender: Seq<char>)
    requires
        ids.no_duplicates(),
    ensures
        recipients(ids, sender).no_duplicates(),
        !recipients(ids, sender).contains(sender),
        forall|q: Seq<char>| #[trigger]
            recipients(ids, sender).contains(q) <==> (ids.contains(q) && q != sender),
    decreases ids.len(),
{
    reveal(Seq::filter);
    if ids.len() > 0 {
        let rest = ids.drop_last();
        let last = ids.last();
        assert(rest.no_duplicates());
        lemma_recipients(rest, sender);
        let r = recipients(rest, sender);
        assert(!rest.contains(last)) by {
            if rest.contains(last) {
                let k = choose|k: int| 0 <= k < rest.len() && rest[k] == last;
                assert(ids[k] == ids[ids.len() - 1]);
            }
        }
        assert forall|q: Seq<char>| ids.contains(q) <==> (rest.contains(q) || q == last) by {
            if ids.contains(q) {
                let k = choose|k: int| 0 <= k < ids.len() && ids[k] == q;
                if k < ids.len() - 1 {
                    assert(rest[k] == q);
                }
            }
            if rest.contains(q) {
                let k = choose|k: int| 0 <= k < rest.len() && rest[k] == q;
                assert(ids[k] == q);
            }
            if q == last {
                assert(ids[ids.len() - 1] == q);
            }
        }
        if last != sender {
            let r2 = r.push(last);
            assert(recipients(ids, sender) == r2);
            assert(!r.contains(last));
            assert forall|a: int, b: int| 0 <= a < b < r2.len() implies r2[a] != r2[b] by {
                if b == r.len() {
                    assert(r.contains(r2[a]));
                } else {
                    assert(r[a] != r[b]);
                }
            }
            assert forall|q: Seq<char>| r2.contains(q) <==> (r.contains(q) || q == last) by {
                if r2.contains(q) {
                    let k = choose|k: int| 0 <= k < r2.len() && r2[k] == q;
                    if k < r.len() {
                        assert(r[k] == q);
                    }
                }
                if r.contains(q) {
                    let k = choose|k: int| 0 <= k < r.len() && r[k] == q;
                    assert(r2[k] == q);
                }
                if q == last {
                    assert(r2[r.len() as int] == q);
                }
            }
        } else {
            assert(recipients(ids, sender) == r);
        }
    }
}

/// The peer registry: identity to outbound endpoint, at most one entry per
/// identity.
pub struct PeerRegistry {
    entries: Vec<PeerEntry>,
}

impl PeerRegistry {
    /// The registry's entries, in registration order.
    pub closed spec fn view(&self) -> Seq<(Seq<char>, UnboundedSender<String>)> {
        self.entries@.map_values(|e: PeerEntry| (e.id@, e.outbox))
    }

    /// The registered identities, in registration order.
    pub open spec fn ids(&self) -> Seq<Seq<char>> {
        ids_of(self@)
    }

    pub open spec fn has(&self, id: Seq<char>) -> bool {
        self.ids().contains(id)
    }

    /// No identity is registered twice.
    pub open spec fn wf(&self) -> bool {
        self.ids().no_duplicates()
    }

    proof fn lemma_slot_unique(&self, id: Seq<char>, i: int)
        requires
            self.wf(),
            0 <= i < self@.len(),
            self@[i].0 == id,
        ensures
            has_id(self@, id),
            slot_of(self@, id) == i,
    {
        let k = slot_of(self@, id);
        assert(self.ids()[k] == self.ids()[i]);
    }

    /// `has` and `has_id` say the same of the contents.
    pub proof fn lemma_has(&self, id: Seq<char>)
        ensures
            self.has(id) == has_id(self@, id),
    {
        if self.has(id) {
            let k = choose|k: int| 0 <= k < self.ids().len() && self.ids()[k] == id;
            assert(self@[k].0 == id);
        }
        if has_id(self@, id) {
            let k = choose|k: int| 0 <= k < self@.len() && self@[k].0 == id;
            assert(self.ids()[k] == id);
        }
    }

    pub fn new() -> (r: PeerRegistry)
        ensures
            r.wf(),
            r@ == Seq::<(Seq<char>, UnboundedSender<String>)>::empty(),
    {
        let r = PeerRegistry { entries: Vec::new() };
        assert(r@ =~= Seq::<(Seq<char>, UnboundedSender<String>)>::empty());
        assert(r.ids() =~= Seq::<Seq<char>>::empty());
        r
    }

    /// The number of registered peers.
    pub fn len(&self) -> (n: usize)
        ensures
            n == self@.len(),
    {
        self.entries.len()
    }

    fn position(&self, id: &str) -> (r: Option<usize>)
        ensures
            match r {
                Some(i) => i < self@.len() && self@[i as int].0 == id@,
                None => !self.has(id@),
            },
    {
        let mut i: usize = 0;
        while i < self.entries.len()
            invariant
                i <= self@.len(),
                self@.len() == self.entries@.len(),
                forall|k: int| 0 <= k < i ==> self.ids()[k] != id@,
            decreases self.entries.len() - i,
        {
            assert(self.ids()[i as int] == self.entries@[i as int].id@);
            if same_text(self.entries[i].id.as_str(), id) {
                return Some(i);
            }
            i = i + 1;
        }
        None
    }

    /// Whether `id` is registered.
    pub fn contains(&self, id: &str) -> (r: bool)
        ensures
            r == self.has(id@),
    {
        match self.position(id) {
            Some(i) => {
                assert(self.ids()[i as int] == id@);
                true
            },
            None => false,
        }
    }

    /// Registers `id` with its outbound endpoint. An identity that is already
    /// registered keeps its place and takes the new endpoint; the result says
    /// whether that happened.
    pub fn register(&mut self, id: String, outbox: UnboundedSender<String>) -> (replaced: bool)
        requires
            old(self).wf(),
        ensures
            final(self).wf(),
            replaced == old(self).has(id@),
            final(self)@ == register_spec(old(self)@, id@, outbox),
    {
        match self.position(id.as_str()) {
            Some(i) => {
                assert(old(self).ids()[i as int] == id@);
                proof {
                    old(self).lemma_slot_unique(id@, i as int);
                }
                let ghost before = self@;
                self.entries.set(i, PeerEntry { id, outbox });
                assert(self@ =~= before.update(i as int, (id@, outbox)));
                assert(self.ids() =~= old(self).ids());
                true
            },
            None => {
                proof {
                    old(self).lemma_has(id@);
                }
                let ghost before = self@;
                let ghost key = id@;
                self.entries.push(PeerEntry { id, outbox });
                assert(self@ =~= before.push((key, outbox)));
                assert(self.ids() =~= old(self).ids().push(key));
                false
            },
        }
    }

    /// Removes the entry of `id`, if there is one; the result says whether
    /// there was. Removing an identity that is not registered changes nothing.
    pub fn unregister(&mut self, id: &str) -> (removed: bool)
        requires
            old(self).wf(),
        ensures
            final(self).wf(),
            removed == old(self).has(id@),
            !final(self).has(id@),
            final(self)@ == unregister_spec(old(self)@, id@),
    {
        match self.position(id) {
            Some(i) => {
                assert(old(self).ids()[i as int] == id@);
                proof {
                    old(self).lemma_slot_unique(id@, i as int);
                }
                let ghost before = self@;
                let ghost ids0 = self.ids();
                self.entries.remove(i);
                assert(self@ =~= before.remove(i as int));
                assert(self.ids() =~= ids0.remove(i as int));
                assert(!self.has(id@)) by {
                    if self.ids().contains(id@) {
                        let k = choose|k: int| 0 <= k < self.ids().len() && self.ids()[k] == id@;
                        if k < i {
                            assert(ids0[k] == ids0[i as int]);
                        } else {
                            assert(ids0[k + 1] == ids0[i as int]);
                        }
                    }
                }
                true
            },
            None => {
                proof {
                    old(self).lemma_has(id@);
                }
                false
            },
        }
    }

    /// Hands the wire text of `message` to every registered peer but
    /// `sender`, each once, in registration order. A refused delivery is
    /// recorded and does not stop the others.
    pub fn broadcast(&self, sender: &str, message: &ChatMessage) -> (report: BroadcastReport)
        requires
            self.wf(),
        ensures
            report.frame@ == encode_spec(message.username@, message.content@),
            report.deliveries@.map_values(|d: Delivery| d.peer@) == recipients(
                self.ids(),
                sender@,
            ),
    {
        let frame = encode(message);
        let mut deliveries: Vec<Delivery> = Vec::new();
        let mut i: usize = 0;
        while i < self.entries.len()
            invariant
                i <= self@.len(),
                self@.len() == self.entries@.len(),
                deliveries@.map_values(|d: Delivery| d.peer@) == recipients(
                    self.ids().take(i as int),
                    sender@,
                ),
            decreases self.entries.len() - i,
        {
            let entry = &self.entries[i];
            proof {
                let ids = self.ids();
                reveal(Seq::filter);
                assert(ids.take(i as int + 1).drop_last() =~= ids.take(i as int));
                assert(ids.take(i as int + 1).last() == entry.id@);
                assert(recipients(ids.take(i as int + 1), sender@) == if entry.id@ != sender@ {
                    recipients(ids.take(i as int), sender@).push(entry.id@)
                } else {
                    recipients(ids.take(i as int), sender@)
                });
            }
            if !same_text(entry.id.as_str(), sender) {
                let accepted = deliver(&entry.outbox, frame.clone());
                let ghost prev = deliveries@;
                deliveries.push(Delivery { peer: entry.id.clone(), accepted });
                assert(deliveries@.map_values(|d: Delivery| d.peer@) =~= prev.map_values(
                    |d: Delivery| d.peer@,
                ).push(entry.id@));
            }
            i = i + 1;
        }
        assert(self.ids().take(self@.len() as int) =~= self.ids());
        BroadcastReport { frame, deliveries }
    }
}

} // verus!
