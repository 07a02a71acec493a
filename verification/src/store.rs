use vstd::prelude::*;

use crate::session::Session;
use crate::session::SessionView;

verus! {

/// The sessions a [`SessionStore`] holds, as a map from session name
/// to session value. All contracts on the store speak of this map.
pub uninterp spec fn store_contents(store: SessionStore) -> Map<Seq<char>, SessionView>;

/// The names in `names`, read as character sequences.
pub open spec fn name_views(names: Seq<String>) -> Seq<Seq<char>> {
    names.map_values(|n: String| n@)
}

/// The store of live sessions, keyed by session name. Backed by a
/// sharded concurrent map so that, under concurrent use, operations on
/// different sessions do not contend; this crate reasons about it only
/// through [`store_contents`] and the contracts below.
#[verifier::external_body]
pub struct SessionStore {
    map: dashmap::DashMap<String, Session>,
}

impl SessionStore {
    /// Relies on `dashmap::DashMap::with_capacity`: a freshly made map
    /// holds no entries.
    #[verifier::external_body]
    pub fn new() -> (r: SessionStore)
        ensures
            store_contents(r) =~= Map::empty(),
    {
        SessionStore { map: dashmap::DashMap::with_capacity(64) }
    }

    /// Relies on `dashmap::DashMap::insert`: the value is stored under
    /// the key, replacing any previous value under the same key.
    #[verifier::external_body]
    pub fn insert(&mut self, name: String, session: Session)
        ensures
            store_contents(*final(self)) == store_contents(*old(self)).insert(name@, session@),
    {
        self.map.insert(name, session);
    }

    /// Relies on `dashmap::DashMap::remove`: the entry under the key,
    /// if any, is taken out; other entries are untouched.
    #[verifier::external_body]
    pub fn remove(&mut self, name: &String)
        ensures
            store_contents(*final(self)) == store_contents(*old(self)).remove(name@),
    {
        self.map.remove(name);
    }

    /// Relies on `dashmap::DashMap::get`: the value stored under the
    /// key, if any. The returned session is a copy of the stored one.
    #[verifier::external_body]
    pub fn get_cloned(&self, name: &String) -> (session: Option<Session>)
        ensures
            match session {
                Some(s) => store_contents(*self).dom().contains(name@) && s@ == store_contents(
                    *self,
                )[name@],
                None => !store_contents(*self).dom().contains(name@),
            },
    {
        self.map.get(name).map(|entry| entry.value().clone())
    }

    /// Relies on `dashmap::DashMap::iter`: with the store otherwise
    /// untouched, the iteration yields every entry exactly once, in no
    /// particular order.
    #[verifier::external_body]
    pub fn key_list(&self) -> (names: Vec<String>)
        ensures
            name_views(names@).no_duplicates(),
            forall|i: int|
                0 <= i < names@.len() ==> store_contents(*self).dom().contains(
                    #[trigger] name_views(names@)[i],
                ),
            forall|k: Seq<char>|
                #[trigger] store_contents(*self).dom().contains(k) ==> name_views(
                    names@,
                ).contains(k),
    {
        self.map.iter().map(|entry| entry.key().clone()).collect()
    }
}

} // verus!
