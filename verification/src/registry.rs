use vstd::prelude::*;

use crate::command::CmdView;
use crate::mailbox::Mailbox;
use crate::peer::PeerId;

verus! {

/// The mailboxes a [`PeerRegistry`] holds, as a map from peer identity
/// to the queued outbound commands. All contracts on the registry
/// speak of this map.
pub uninterp spec fn registry_contents(registry: PeerRegistry) -> Map<PeerId, Seq<CmdView>>;

/// The registry of connected peers: one mailbox per live registration.
/// Backed by a sharded concurrent map so that, under concurrent use,
/// operations on different peers do not contend; this crate reasons
/// about it only through [`registry_contents`] and the contracts below.
#[verifier::external_body]
pub struct PeerRegistry {
    map: dashmap::DashMap<PeerId, Mailbox>,
}

impl PeerRegistry {
    /// Relies on `dashmap::DashMap::with_capacity`: a freshly made map
    /// holds no entries.
    #[verifier::external_body]
    pub fn new() -> (r: PeerRegistry)
        ensures
            registry_contents(r) =~= Map::empty(),
    {
        PeerRegistry { map: dashmap::DashMap::with_capacity(128) }
    }

    /// Relies on `dashmap::DashMap::insert`: the mailbox is stored
    /// under the identity, replacing any previous one.
    #[verifier::external_body]
    pub fn register(&mut self, id: PeerId, mailbox: Mailbox)
        ensures
            registry_contents(*final(self)) == registry_contents(*old(self)).insert(id, mailbox@),
    {
        self.map.insert(id, mailbox);
    }

    /// Relies on `dashmap::DashMap::remove`: the entry under the
    /// identity, if any, is taken out; other entries are untouched.
    #[verifier::external_body]
    pub fn unregister(&mut self, id: PeerId)
        ensures
            registry_contents(*final(self)) == registry_contents(*old(self)).remove(id),
    {
        self.map.remove(&id);
    }

    /// Relies on `dashmap::DashMap::get`: the mailbox stored under the
    /// identity, if any. The returned mailbox is a copy of the stored
    /// one.
    #[verifier::external_body]
    pub fn get_cloned(&self, id: PeerId) -> (mailbox: Option<Mailbox>)
        ensures
            match mailbox {
                Some(mb) => registry_contents(*self).dom().contains(id) && mb@ == registry_contents(
                    *self,
                )[id],
                None => !registry_contents(*self).dom().contains(id),
            },
    {
        self.map.get(&id).map(|entry| entry.value().clone())
    }
}

} // verus!
