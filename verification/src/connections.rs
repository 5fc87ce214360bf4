//! The open connections, by peer.

use crate::table::Table;
use crate::table::TableKey;
use vstd::prelude::*;

verus! {

/// The sender of each connected peer.
pub struct LiveConnections<S> {
    senders: Table<String, S>,
}

impl<S> LiveConnections<S> {
    /// What holds of every value.
    pub closed spec fn wf(&self) -> bool {
        self.senders.wf()
    }

    /// The sender of each connected peer.
    pub closed spec fn senders(&self) -> Map<Seq<char>, S> {
        self.senders@
    }

    /// No connections.
    pub fn new() -> (c: LiveConnections<S>)
        ensures
            c.wf(),
            c.senders() == Map::<Seq<char>, S>::empty(),
    {
        LiveConnections { senders: Table::new() }
    }

    /// Registers the sender of a peer, in place of the one it had.
    pub fn register(&mut self, peer_id: String, sender: S)
        requires
            old(self).wf(),
        ensures
            final(self).wf(),
            final(self).senders() == old(self).senders().insert(peer_id@, sender),
    {
        self.senders.insert(peer_id, sender);
    }

    /// Forgets the sender of a peer, if it had one.
    pub fn unregister(&mut self, peer_id: &str)
        requires
            old(self).wf(),
        ensures
            final(self).wf(),
            final(self).senders() == old(self).senders().remove(peer_id@),
    {
        let _ = self.senders.remove(&peer_id.to_owned());
    }

    /// The sender to which a message for a peer goes; none where it is not
    /// connected.
    pub fn sender_for(&self, peer_id: &str) -> (r: Option<&S>)
        requires
            self.wf(),
        ensures
            match r {
                Some(s) => self.senders().contains_key(peer_id@) && *s == self.senders()[peer_id@],
                None => !self.senders().contains_key(peer_id@),
            },
    {
        self.senders.get(&peer_id.to_owned())
    }
}

impl<S> Default for LiveConnections<S> {
    fn default() -> (c: LiveConnections<S>)
        ensures
            c.wf(),
            c.senders() == Map::<Seq<char>, S>::empty(),
    {
        LiveConnections::new()
    }
}

/// A message for a peer goes to the sender that it registered last, until it is
/// unregistered; then it goes nowhere. The other peers see nothing of this.
pub proof fn law_messages_go_to_the_last_sender<S>(
    registering: &mut LiveConnections<S>,
    unregistering: &mut LiveConnections<S>,
    connected: &LiveConnections<S>,
    gone: &LiveConnections<S>,
    peer: String,
    peer_id: &str,
    other: &str,
    sender: S,
    to_peer: Option<&S>,
    to_other: Option<&S>,
    after: Option<&S>,
    to_other_after: Option<&S>,
)
    requires
        call_ensures(LiveConnections::<S>::register, (registering, peer, sender), ()),
        peer_id@ == peer@,
        other@ != peer@,
        *connected == *final(registering),
        call_ensures(LiveConnections::<S>::sender_for, (connected, peer_id), to_peer),
        call_ensures(LiveConnections::<S>::sender_for, (connected, other), to_other),
        *old(unregistering) == *final(registering),
        call_ensures(LiveConnections::<S>::unregister, (unregistering, peer_id), ()),
        *gone == *final(unregistering),
        call_ensures(LiveConnections::<S>::sender_for, (gone, peer_id), after),
        call_ensures(LiveConnections::<S>::sender_for, (gone, other), to_other_after),
    ensures
        to_peer is Some && *(to_peer->0) == sender,
        to_other is Some <==> old(registering).senders().contains_key(other@),
        to_other is Some ==> *(to_other->0) == old(registering).senders()[other@],
        after is None,
        to_other_after is Some <==> to_other is Some,
        to_other_after is Some ==> *(to_other_after->0) == *(to_other->0),
{
}

} // verus!
