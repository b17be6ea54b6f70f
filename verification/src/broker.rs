//! Messages that actors exchange through the process-wide broker.

use vstd::prelude::*;
use crate::actors::muxrpc::blobs_wants::RpcBlobsWantsEvent;
use crate::actors::replication::ebt::EbtEvent;
use crate::storage::blob::StoreBlobEvent;
use crate::storage::kv::StoKvEvent;

verus! {

/// Who a broker message is for.
#[derive(Clone, Debug)]
pub enum Destination {
    Actor(String),
    Broadcast,
}

/// Payload of a broker message.
#[derive(Clone, Debug)]
pub enum BrokerMessage {
    RpcBlobsWants(RpcBlobsWantsEvent),
    StoreBlob(StoreBlobEvent),
    Ebt(EbtEvent),
    StoKv(StoKvEvent),
}

/// What travels through the broker.
#[derive(Clone, Debug)]
pub enum BrokerEvent {
    Terminate,
    Message(Destination, BrokerMessage),
}

/// One registered actor.
#[derive(Clone, Debug)]
pub struct Registered {
    /// Identifier of the actor, unique among all that ever registered.
    pub id: usize,
    /// Name of the actor. Several actors may share a name.
    pub name: String,
    /// Whether the actor is signalled on termination and waited for.
    pub terminate: bool,
}

/// The actors that are registered with the broker, oldest first.
pub struct Registry {
    actors: Vec<Registered>,
    last_actor_id: usize,
}

/// A registered actor as contracts see it: identifier, name, termination
/// flag.
pub type Entry = (usize, Seq<char>, bool);

/// The registered actors as contracts see them.
pub open spec fn entries_of(v: Seq<Registered>) -> Seq<Entry> {
    Seq::new(v.len(), |i: int| (v[i].id, v[i].name@, v[i].terminate))
}

/// The identifiers of the actors that a message for this destination is
/// delivered to, oldest first.
pub open spec fn recipients_of(actors: Seq<Entry>, to: Destination) -> Seq<usize>
    decreases actors.len(),
{
    if actors.len() == 0 {
        Seq::empty()
    } else if to.reaches(actors.last().1) {
        recipients_of(actors.drop_last(), to).push(actors.last().0)
    } else {
        recipients_of(actors.drop_last(), to)
    }
}

/// The identifiers of the actors that are signalled on termination, oldest
/// first.
pub open spec fn terminated_of(actors: Seq<Entry>) -> Seq<usize>
    decreases actors.len(),
{
    if actors.len() == 0 {
        Seq::empty()
    } else if actors.last().2 {
        terminated_of(actors.drop_last()).push(actors.last().0)
    } else {
        terminated_of(actors.drop_last())
    }
}

/// The actors without the one of this identifier.
pub open spec fn without(actors: Seq<Entry>, id: usize) -> Seq<Entry>
    decreases actors.len(),
{
    if actors.len() == 0 {
        Seq::empty()
    } else if actors.last().0 == id {
        without(actors.drop_last(), id)
    } else {
        without(actors.drop_last(), id).push(actors.last())
    }
}

/// No two actors have the same identifier.
pub open spec fn ids_distinct(actors: Seq<Entry>) -> bool {
    forall|i: int, j: int| 0 <= i < j < actors.len() ==> actors[i].0 != actors[j].0
}

/// What is left when an actor is removed was there before, and is not the
/// removed one.
pub proof fn lemma_without_member(actors: Seq<Entry>, id: usize, k: int)
    requires
        0 <= k < without(actors, id).len(),
    ensures
        without(actors, id)[k].0 != id,
        exists|j: int| 0 <= j < actors.len() && #[trigger] actors[j] == without(actors, id)[k],
    decreases actors.len(),
{
    let rest = actors.drop_last();
    if actors.last().0 != id && k == without(rest, id).len() {
        assert(actors[actors.len() - 1] == without(actors, id)[k]);
    } else {
        lemma_without_member(rest, id, k);
        let j = choose|j: int| 0 <= j < rest.len() && #[trigger] rest[j] == without(rest, id)[k];
        assert(actors[j] == without(actors, id)[k]);
    }
}

/// Removing an actor leaves the identifiers of the others distinct.
pub proof fn lemma_without_distinct(actors: Seq<Entry>, id: usize)
    requires
        ids_distinct(actors),
    ensures
        ids_distinct(without(actors, id)),
    decreases actors.len(),
{
    if actors.len() > 0 {
        let rest = actors.drop_last();
        let before = without(rest, id);
        let w = without(actors, id);
        assert(ids_distinct(rest)) by {
            assert forall|i: int, j: int| 0 <= i < j < rest.len() implies rest[i].0
                != rest[j].0 by {
                assert(actors[i].0 != actors[j].0);
            }
        }
        lemma_without_distinct(rest, id);
        assert forall|a: int, b: int| 0 <= a < b < w.len() implies w[a].0 != w[b].0 by {
            if b < before.len() {
                assert(w[a] == before[a] && w[b] == before[b]);
            } else {
                lemma_without_member(rest, id, a);
                let j = choose|j: int| 0 <= j < rest.len() && #[trigger] rest[j] == before[a];
                assert(actors[j].0 != actors[actors.len() - 1].0);
            }
        }
    }
}

impl Registry {
    /// The registered actors, oldest first.
    pub closed spec fn view(&self) -> Seq<Entry> {
        entries_of(self.actors@)
    }

    /// The highest identifier handed out so far.
    pub closed spec fn last_id(&self) -> usize {
        self.last_actor_id
    }

    /// Every registered actor has an identifier that was handed out, and
    /// no two have the same.
    pub open spec fn wf(&self) -> bool {
        &&& forall|i: int| 0 <= i < self@.len() ==> 1 <= (#[trigger] self@[i]).0 <= self.last_id()
        &&& ids_distinct(self@)
    }

    /// A registry without actors.
    pub fn new() -> (r: Self)
        ensures
            r.wf(),
            r@.len() == 0,
            r.last_id() == 0,
    {
        Registry { actors: Vec::new(), last_actor_id: 0 }
    }

    /// Registers an actor and hands out its identifier, one more than the
    /// last. `None` where the identifiers are used up; the registry is then
    /// as before.
    pub fn register(&mut self, name: String, terminate: bool) -> (id: Option<usize>)
        requires
            old(self).wf(),
        ensures
            final(self).wf(),
            match id {
                Some(id) => id == old(self).last_id() + 1 && final(self).last_id() == id
                    && final(self)@ == old(self)@.push((id, name@, terminate)),
                None => old(self).last_id() == usize::MAX && final(self)@ == old(self)@
                    && final(self).last_id() == old(self).last_id(),
            },
    {
        if self.last_actor_id == usize::MAX {
            return None;
        }
        let id = self.last_actor_id + 1;
        let ghost before = self@;
        self.last_actor_id = id;
        self.actors.push(Registered { id, name, terminate });
        assert(self@ =~= before.push((id, name@, terminate)));
        Some(id)
    }

    /// Removes the actor of this identifier, if it is registered.
    pub fn unregister(&mut self, id: usize)
        requires
            old(self).wf(),
        ensures
            final(self).wf(),
            final(self)@ == without(old(self)@, id),
            final(self).last_id() == old(self).last_id(),
    {
        let ghost all = self@;
        let mut kept: Vec<Registered> = Vec::new();
        let mut i: usize = 0;
        while i < self.actors.len()
            invariant
                0 <= i <= self.actors@.len(),
                all == entries_of(self.actors@),
                entries_of(kept@) == without(all.take(i as int), id),
            decreases self.actors.len() - i,
        {
            let ghost before = entries_of(kept@);
            assert(all.take(i + 1).drop_last() =~= all.take(i as int));
            assert(all.take(i + 1).last() == all[i as int]);
            if self.actors[i].id != id {
                kept.push(self.actors[i].clone_entry());
                assert(entries_of(kept@) =~= before.push(all[i as int]));
            }
            i += 1;
        }
        proof {
            assert(all.take(self.actors@.len() as int) =~= all);
            lemma_without_distinct(all, id);
            let after = without(all, id);
            assert forall|k: int| 0 <= k < after.len() implies 1 <= (#[trigger] after[k]).0
                <= self.last_id() by {
                lemma_without_member(all, id, k);
                let j = choose|j: int| 0 <= j < all.len() && #[trigger] all[j] == after[k];
                assert(1 <= all[j].0 <= self.last_id());
            }
        }
        self.actors = kept;
    }

    /// The identifiers of the actors that a message for this destination
    /// is delivered to, oldest first: all of them for a broadcast, those of
    /// the name for a named destination.
    pub fn recipients(&self, to: &Destination) -> (ids: Vec<usize>)
        ensures
            ids@ == recipients_of(self@, *to),
    {
        let ghost all = self@;
        let mut ids: Vec<usize> = Vec::new();
        let mut i: usize = 0;
        while i < self.actors.len()
            invariant
                0 <= i <= self.actors@.len(),
                all == entries_of(self.actors@),
                ids@ == recipients_of(all.take(i as int), *to),
            decreases self.actors.len() - i,
        {
            assert(all.take(i + 1).drop_last() =~= all.take(i as int));
            assert(all.take(i + 1).last() == all[i as int]);
            if to.is_for(&self.actors[i].name) {
                ids.push(self.actors[i].id);
            }
            i += 1;
        }
        assert(all.take(self.actors@.len() as int) =~= all);
        ids
    }

    /// The identifiers of the actors to signal on termination and to wait
    /// for, oldest first.
    pub fn terminate_targets(&self) -> (ids: Vec<usize>)
        ensures
            ids@ == terminated_of(self@),
    {
        let ghost all = self@;
        let mut ids: Vec<usize> = Vec::new();
        let mut i: usize = 0;
        while i < self.actors.len()
            invariant
                0 <= i <= self.actors@.len(),
                all == entries_of(self.actors@),
                ids@ == terminated_of(all.take(i as int)),
            decreases self.actors.len() - i,
        {
            assert(all.take(i + 1).drop_last() =~= all.take(i as int));
            assert(all.take(i + 1).last() == all[i as int]);
            if self.actors[i].terminate {
                ids.push(self.actors[i].id);
            }
            i += 1;
        }
        assert(all.take(self.actors@.len() as int) =~= all);
        ids
    }
}

impl Registered {
    /// A copy of the entry.
    fn clone_entry(&self) -> (r: Registered)
        ensures
            r.id == self.id,
            r.name@ == self.name@,
            r.terminate == self.terminate,
    {
        Registered { id: self.id, name: self.name.clone(), terminate: self.terminate }
    }
}

impl BrokerEvent {
    /// A message for a destination.
    pub fn new(to: Destination, msg: BrokerMessage) -> (event: Self)
        ensures
            event == BrokerEvent::Message(to, msg),
    {
        BrokerEvent::Message(to, msg)
    }
}

impl Destination {
    /// Whether a message for this destination is delivered to the actor of
    /// this name.
    pub open spec fn reaches(&self, actor: Seq<char>) -> bool {
        match self {
            Destination::Broadcast => true,
            Destination::Actor(name) => name@ == actor,
        }
    }

    /// Decides whether a message for this destination is delivered to the
    /// actor of this name.
    pub fn is_for(&self, actor: &String) -> (b: bool)
        ensures
            b == self.reaches(actor@),
    {
        match self {
            Destination::Broadcast => true,
            Destination::Actor(name) => *name == *actor,
        }
    }
}

} // verus!
