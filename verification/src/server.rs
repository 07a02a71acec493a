use vstd::prelude::*;

use crate::command::cmd_session;
use crate::command::CmdView;
use crate::command::SyncCommand;
use crate::mailbox::push_bounded;
use crate::mailbox::Mailbox;
use crate::peer::PeerId;
use crate::registry::registry_contents;
use crate::registry::PeerRegistry;
use crate::session::join_spec;
use crate::session::leave_spec;
use crate::session::new_session_spec;
use crate::session::SESSION_TIMEOUT_SECS;
use crate::session::set_owner_spec;
use crate::session::update_spec;
use crate::session::Session;
use crate::session::SessionView;
use crate::store::name_views;
use crate::store::store_contents;
use crate::store::SessionStore;

verus! {

/// Best-effort delivery of one command to one peer: an unknown peer or
/// a full mailbox drops the command; the rest of the registry is
/// untouched.
pub open spec fn send_spec(
    reg: Map<PeerId, Seq<CmdView>>,
    id: PeerId,
    c: CmdView,
) -> Map<PeerId, Seq<CmdView>> {
    if reg.dom().contains(id) {
        reg.insert(id, push_bounded(reg[id], c))
    } else {
        reg
    }
}

/// Best-effort delivery of one command to each listed peer, first to
/// last.
pub open spec fn broadcast_spec(
    reg: Map<PeerId, Seq<CmdView>>,
    members: Seq<PeerId>,
    c: CmdView,
) -> Map<PeerId, Seq<CmdView>>
    decreases members.len(),
{
    if members.len() == 0 {
        reg
    } else {
        send_spec(broadcast_spec(reg, members.drop_last(), c), members.last(), c)
    }
}

/// What `create` does to the session store: an unused name gets a
/// fresh session owned by the caller; an existing one is offered an
/// ownership claim, which its stored token decides.
pub open spec fn create_spec(
    st: Map<Seq<char>, SessionView>,
    sender: PeerId,
    name: Seq<char>,
    token: Seq<char>,
) -> Map<Seq<char>, SessionView> {
    if st.dom().contains(name) {
        st.insert(name, set_owner_spec(st[name], sender, token))
    } else {
        st.insert(name, new_session_spec(sender, name, token))
    }
}

/// The garbage-collection sweep at time `now`: exactly the sessions
/// whose owner has been absent past the timeout are removed; every
/// other session is kept as it is.
pub open spec fn gc_spec(st: Map<Seq<char>, SessionView>, now: u64) -> Map<Seq<char>, SessionView> {
    Map::new(|k: Seq<char>| st.dom().contains(k) && !st[k].expired(now), |k: Seq<char>| st[k])
}

/// What a peer's disconnect does to the session store: the peer leaves
/// every member set, and sessions owned by it record the absence time.
pub open spec fn disconnect_sessions_spec(
    st: Map<Seq<char>, SessionView>,
    peer: PeerId,
    now: u64,
) -> Map<Seq<char>, SessionView> {
    Map::new(|k: Seq<char>| st.dom().contains(k), |k: Seq<char>| leave_spec(st[k], peer, now))
}

/// What one routed command does to the session store.
///
/// `create` inserts or re-owns, then sweeps; `join` on an existing
/// session adds the sender to its members; an authorized `tick`/`play`
/// updates the addressed session's playback state. Everything else —
/// `join` on an unknown name, unauthorized or unaddressed mutations,
/// `clients` from a client — leaves the store exactly as it is.
pub open spec fn step_sessions_spec(
    st: Map<Seq<char>, SessionView>,
    c: CmdView,
    sender: PeerId,
    now: u64,
) -> Map<Seq<char>, SessionView> {
    match c {
        CmdView::Create { session, token } => gc_spec(create_spec(st, sender, session, token), now),
        CmdView::Join { session } => if st.dom().contains(session) {
            st.insert(session, join_spec(st[session], sender))
        } else {
            st
        },
        CmdView::Tick { session, .. } | CmdView::Play { session, .. } => if st.dom().contains(
            session,
        ) && st[session].owner == sender {
            st.insert(session, update_spec(st[session], c))
        } else {
            st
        },
        CmdView::Clients { .. } => st,
    }
}

/// What one routed command delivers.
///
/// `join` on an existing session sends the joiner the current `tick`
/// then the current `play`, and then the owner the new member count;
/// an authorized `tick`/`play` is forwarded verbatim to every member.
/// Everything else delivers nothing.
pub open spec fn step_peers_spec(
    st: Map<Seq<char>, SessionView>,
    reg: Map<PeerId, Seq<CmdView>>,
    c: CmdView,
    sender: PeerId,
    now: u64,
) -> Map<PeerId, Seq<CmdView>> {
    match c {
        CmdView::Create { .. } => reg,
        CmdView::Join { session } => if st.dom().contains(session) {
            let v = st[session];
            let joined = join_spec(v, sender);
            let reg1 = send_spec(reg, sender, CmdView::Tick { session, tick: v.tick });
            let reg2 = send_spec(reg1, sender, CmdView::Play { session, play: v.playing });
            send_spec(
                reg2,
                joined.owner,
                CmdView::Clients { session, count: joined.members.len() as usize },
            )
        } else {
            reg
        },
        CmdView::Tick { session, .. } | CmdView::Play { session, .. } => if st.dom().contains(
            session,
        ) && st[session].owner == sender {
            broadcast_spec(reg, st[session].members, c)
        } else {
            reg
        },
        CmdView::Clients { .. } => reg,
    }
}

/// The relay: the session store, the peer registry with the outbound
/// mailboxes, and the counter that disambiguates peer identities. One
/// instance serves every connection of one process.
pub struct Server {
    id_counter: u64,
    peers: PeerRegistry,
    sessions: SessionStore,
}

impl Server {
    /// The live sessions, keyed by name.
    pub closed spec fn sessions_view(self) -> Map<Seq<char>, SessionView> {
        store_contents(self.sessions)
    }

    /// The registered peers' queued outbound commands.
    pub closed spec fn peers_view(self) -> Map<PeerId, Seq<CmdView>> {
        registry_contents(self.peers)
    }

    /// The next peer disambiguator to be handed out.
    pub closed spec fn counter(self) -> u64 {
        self.id_counter
    }

    /// Every stored session is well-formed and keyed by its own name.
    pub open spec fn inv(self) -> bool {
        forall|k: Seq<char>|
            #[trigger] self.sessions_view().dom().contains(k) ==> self.sessions_view()[k].wf()
                && self.sessions_view()[k].name == k
    }

    /// A fresh relay: no sessions, no peers.
    pub fn new() -> (server: Server)
        ensures
            server.sessions_view() == Map::<Seq<char>, SessionView>::empty(),
            server.peers_view() == Map::<PeerId, Seq<CmdView>>::empty(),
            server.counter() == 0,
            server.inv(),
    {
        Server { id_counter: 0, peers: PeerRegistry::new(), sessions: SessionStore::new() }
    }

    /// Hands out the next peer disambiguator. The counter wraps at its
    /// limit, as the sequence numbers of a single process never get
    /// near it.
    pub fn next_peer_id(&mut self) -> (id: u64)
        ensures
            id == old(self).counter(),
            final(self).counter() == (if old(self).counter() == u64::MAX {
                0u64
            } else {
                (old(self).counter() + 1) as u64
            }),
            final(self).sessions_view() == old(self).sessions_view(),
            final(self).peers_view() == old(self).peers_view(),
            old(self).inv() ==> final(self).inv(),
    {
        let id = self.id_counter;
        if id == u64::MAX {
            self.id_counter = 0;
        } else {
            self.id_counter = id + 1;
        }
        id
    }

    /// Admits a connection whose handshake resolved to `addr`: assigns
    /// it a fresh identity and registers an empty mailbox for it.
    pub fn register_peer(&mut self, addr: u128) -> (id: PeerId)
        ensures
            id == (PeerId { addr: addr, seq_no: old(self).counter() }),
            final(self).peers_view() == old(self).peers_view().insert(id, Seq::empty()),
            final(self).sessions_view() == old(self).sessions_view(),
            final(self).counter() == (if old(self).counter() == u64::MAX {
                0u64
            } else {
                (old(self).counter() + 1) as u64
            }),
            old(self).inv() ==> final(self).inv(),
    {
        let seq_no = self.next_peer_id();
        let id = PeerId { addr, seq_no };
        self.peers.register(id, Mailbox::new());
        id
    }

    /// Queues `command` for `peer`, best-effort: an unknown peer or a
    /// full mailbox drops it, and in no case is an error surfaced.
    pub fn send_command(&mut self, peer: PeerId, command: &SyncCommand)
        ensures
            final(self).peers_view() == send_spec(old(self).peers_view(), peer, command@),
            final(self).sessions_view() == old(self).sessions_view(),
            final(self).counter() == old(self).counter(),
            old(self).inv() ==> final(self).inv(),
    {
        match self.peers.get_cloned(peer) {
            Some(mut mailbox) => {
                mailbox.push(command.clone());
                self.peers.register(peer, mailbox);
            },
            None => {},
        }
    }

    /// Queues `command` for every member of `session`, each
    /// best-effort: one slow or gone member never affects delivery to
    /// the others.
    #[verifier::loop_isolation(false)]
    pub fn send_to_clients(&mut self, session: &Session, command: &SyncCommand)
        ensures
            final(self).peers_view() == broadcast_spec(
                old(self).peers_view(),
                session@.members,
                command@,
            ),
            final(self).sessions_view() == old(self).sessions_view(),
            final(self).counter() == old(self).counter(),
            old(self).inv() ==> final(self).inv(),
    {
        let members = session.clients();
        let n = members.len();
        for i in 0..n
            invariant
                n == session@.members.len(),
                self.peers_view() == broadcast_spec(
                    old(self).peers_view(),
                    session@.members.take(i as int),
                    command@,
                ),
                self.sessions_view() == old(self).sessions_view(),
                self.counter() == old(self).counter(),
        {
            self.send_command(members[i], command);
            proof {
                assert(session@.members.take(i + 1).drop_last() =~= session@.members.take(i as int));
                assert(session@.members.take(i + 1).last() == session@.members[i as int]);
            }
        }
        proof {
            assert(session@.members.take(n as int) =~= session@.members);
        }
    }

    /// Removes every session whose owner has been absent for more than
    /// the timeout at time `now`. Sessions whose owner never
    /// disconnected are kept indefinitely.
    #[verifier::loop_isolation(false)]
    pub fn gc_sessions(&mut self, now: u64)
        ensures
            final(self).sessions_view() == gc_spec(old(self).sessions_view(), now),
            final(self).peers_view() == old(self).peers_view(),
            final(self).counter() == old(self).counter(),
            old(self).inv() ==> final(self).inv(),
    {
        let ghost st0 = old(self).sessions_view();
        let names = self.sessions.key_list();
        let n = names.len();
        for i in 0..n
            invariant
                n == names@.len(),
                self.peers_view() == old(self).peers_view(),
                self.counter() == old(self).counter(),
                forall|k: Seq<char>|
                    #[trigger] self.sessions_view().dom().contains(k) ==> st0.dom().contains(k)
                        && self.sessions_view()[k] == st0[k],
                forall|k: Seq<char>|
                    #[trigger] st0.dom().contains(k) ==> (self.sessions_view().dom().contains(k)
                        <==> !(st0[k].expired(now) && name_views(names@).take(i as int).contains(
                        k,
                    ))),
        {
            let name = &names[i];
            proof {
                assert(name_views(names@)[i as int] == name@);
                assert(name_views(names@).take(i + 1).drop_last() =~= name_views(names@).take(
                    i as int,
                ));
                assert(name_views(names@).take(i + 1).last() == name@);
            }
            match self.sessions.get_cloned(name) {
                Some(s) => {
                    let expired = match s.inactive_time(now) {
                        Some(inactive) => inactive > SESSION_TIMEOUT_SECS,
                        None => false,
                    };
                    if expired {
                        self.sessions.remove(name);
                    }
                },
                None => {},
            }
            proof {
                assert forall|k: Seq<char>| #[trigger] st0.dom().contains(k) implies (
                self.sessions_view().dom().contains(k) <==> !(st0[k].expired(now) && name_views(
                    names@,
                ).take(i + 1).contains(k))) by {
                    if k != name@ && name_views(names@).take(i + 1).contains(k) {
                        let j = choose|j: int|
                            0 <= j < i + 1 && #[trigger] name_views(names@).take(i + 1)[j] == k;
                        assert(name_views(names@).take(i as int)[j] == k);
                    }
                }
            }
        }
        proof {
            assert(name_views(names@).take(n as int) =~= name_views(names@));
            assert(self.sessions_view() =~= gc_spec(st0, now));
        }
    }

    /// Routes one decoded command from `sender`, with `now` the
    /// current time in seconds: validates it against the ownership
    /// rules, mutates the addressed session, and fans the results out
    /// to the affected peers' mailboxes. Invalid commands — an unknown
    /// session name, an unauthorized mutation, a mismatched token — are
    /// dropped without any state change or any reply to the sender.
    pub fn handle_command(&mut self, command: SyncCommand, sender: PeerId, now: u64)
        requires
            old(self).inv(),
        ensures
            final(self).sessions_view() == step_sessions_spec(
                old(self).sessions_view(),
                command@,
                sender,
                now,
            ),
            final(self).peers_view() == step_peers_spec(
                old(self).sessions_view(),
                old(self).peers_view(),
                command@,
                sender,
                now,
            ),
            final(self).counter() == old(self).counter(),
            final(self).inv(),
    {
        match command {
            SyncCommand::Create { session, token } => {
                match self.sessions.get_cloned(&session) {
                    Some(mut s) => {
                        let _claimed = s.set_owner(sender, &token);
                        self.sessions.insert(session, s);
                    },
                    None => {
                        let s = Session::new(sender, session.clone(), token);
                        self.sessions.insert(session, s);
                    },
                }
                self.gc_sessions(now);
            },
            SyncCommand::Join { session } => {
                match self.sessions.get_cloned(&session) {
                    Some(mut s) => {
                        let initial = s.initial_state();
                        self.send_command(sender, &initial[0]);
                        self.send_command(sender, &initial[1]);
                        s.join(sender);
                        let owner = s.owner();
                        let count = s.clients().len();
                        let notice = SyncCommand::Clients { session: session.clone(), count };
                        self.sessions.insert(session, s);
                        self.send_command(owner, &notice);
                    },
                    None => {},
                }
            },
            SyncCommand::Tick { .. } | SyncCommand::Play { .. } => {
                let name = command.session_name();
                match self.sessions.get_cloned(name) {
                    Some(mut s) => {
                        if s.owner() == sender {
                            s.handle_command(&command);
                            self.send_to_clients(&s, &command);
                            self.sessions.insert(name.clone(), s);
                        }
                    },
                    None => {},
                }
            },
            SyncCommand::Clients { .. } => {},
        }
    }

    /// Ends a peer's registration: its mailbox is destroyed, it leaves
    /// every session's member set, and sessions it owned record the
    /// absence time `now` — they are kept for a possible reclaim, not
    /// deleted. The owner of such a session is offered the new member
    /// count, a delivery that goes nowhere since that owner is the peer
    /// that just left.
    #[verifier::loop_isolation(false)]
    pub fn handle_disconnect(&mut self, peer: PeerId, now: u64)
        ensures
            final(self).sessions_view() == disconnect_sessions_spec(
                old(self).sessions_view(),
                peer,
                now,
            ),
            final(self).peers_view() == old(self).peers_view().remove(peer),
            final(self).counter() == old(self).counter(),
            old(self).inv() ==> final(self).inv(),
    {
        let ghost st0 = old(self).sessions_view();
        self.peers.unregister(peer);
        let names = self.sessions.key_list();
        let n = names.len();
        for i in 0..n
            invariant
                n == names@.len(),
                self.peers_view() == old(self).peers_view().remove(peer),
                self.counter() == old(self).counter(),
                forall|k: Seq<char>|
                    #[trigger] self.sessions_view().dom().contains(k) <==> st0.dom().contains(k),
                forall|k: Seq<char>|
                    #[trigger] st0.dom().contains(k) ==> self.sessions_view()[k] == (
                    if name_views(names@).take(i as int).contains(k) {
                        leave_spec(st0[k], peer, now)
                    } else {
                        st0[k]
                    }),
                old(self).inv() ==> self.inv(),
        {
            let name = &names[i];
            proof {
                assert(name_views(names@)[i as int] == name@);
                assert(name_views(names@).take(i + 1).drop_last() =~= name_views(names@).take(
                    i as int,
                ));
                assert(name_views(names@).take(i + 1).last() == name@);
                if name_views(names@).take(i as int).contains(name@) {
                    let j = choose|j: int|
                        0 <= j < i && #[trigger] name_views(names@).take(i as int)[j] == name@;
                    assert(name_views(names@)[j] == name_views(names@)[i as int]);
                }
            }
            match self.sessions.get_cloned(name) {
                Some(mut s) => {
                    s.remove_client(peer);
                    if s.owner() == peer {
                        s.mark_owner_absent(now);
                        let count = s.clients().len();
                        let notice = SyncCommand::Clients { session: name.clone(), count };
                        self.sessions.insert(name.clone(), s);
                        self.send_command(peer, &notice);
                    } else {
                        self.sessions.insert(name.clone(), s);
                    }
                },
                None => {},
            }
            proof {
                assert forall|k: Seq<char>| #[trigger] st0.dom().contains(k) implies self
                    .sessions_view()[k] == (
                if name_views(names@).take(i + 1).contains(k) {
                    leave_spec(st0[k], peer, now)
                } else {
                    st0[k]
                }) by {
                    if k != name@ && name_views(names@).take(i + 1).contains(k) {
                        let j = choose|j: int|
                            0 <= j < i + 1 && #[trigger] name_views(names@).take(i + 1)[j] == k;
                        assert(name_views(names@).take(i as int)[j] == k);
                    }
                }
            }
        }
        proof {
            assert(name_views(names@).take(n as int) =~= name_views(names@));
            assert(self.sessions_view() =~= disconnect_sessions_spec(st0, peer, now));
        }
    }

    /// Takes the oldest queued outbound command for `peer`, if any: the
    /// connection handler's write pump drains the mailbox through this,
    /// in enqueue order.
    pub fn next_outbound(&mut self, peer: PeerId) -> (front: Option<SyncCommand>)
        ensures
            final(self).sessions_view() == old(self).sessions_view(),
            final(self).counter() == old(self).counter(),
            old(self).inv() ==> final(self).inv(),
            ({
                let reg = old(self).peers_view();
                match front {
                    Some(c) => reg.dom().contains(peer) && reg[peer].len() > 0 && c@ == reg[peer][0]
                        && final(self).peers_view() == reg.insert(peer, reg[peer].drop_first()),
                    None => (!reg.dom().contains(peer) || reg[peer].len() == 0)
                        && final(self).peers_view() == reg,
                }
            }),
    {
        match self.peers.get_cloned(peer) {
            Some(mut mailbox) => {
                let front = mailbox.pop_front();
                match front {
                    Some(c) => {
                        self.peers.register(peer, mailbox);
                        Some(c)
                    },
                    None => None,
                }
            },
            None => None,
        }
    }

    /// Whether a session of that name is live.
    pub fn has_session(&self, name: &String) -> (present: bool)
        ensures
            present == self.sessions_view().dom().contains(name@),
    {
        self.sessions.get_cloned(name).is_some()
    }

    /// The named session's current playback position, if the session
    /// is live.
    pub fn session_tick(&self, name: &String) -> (tick: Option<u64>)
        ensures
            match tick {
                Some(t) => self.sessions_view().dom().contains(name@) && t == self.sessions_view()[
                    name@
                ].tick,
                None => !self.sessions_view().dom().contains(name@),
            },
    {
        match self.sessions.get_cloned(name) {
            Some(s) => Some(s.tick()),
            None => None,
        }
    }

    /// The named session's current play state, if the session is live.
    pub fn session_playing(&self, name: &String) -> (playing: Option<bool>)
        ensures
            match playing {
                Some(p) => self.sessions_view().dom().contains(name@) && p == self.sessions_view()[
                    name@
                ].playing,
                None => !self.sessions_view().dom().contains(name@),
            },
    {
        match self.sessions.get_cloned(name) {
            Some(s) => Some(s.playing()),
            None => None,
        }
    }

    /// The named session's current owner, if the session is live.
    pub fn session_owner(&self, name: &String) -> (owner: Option<PeerId>)
        ensures
            match owner {
                Some(o) => self.sessions_view().dom().contains(name@) && o == self.sessions_view()[
                    name@
                ].owner,
                None => !self.sessions_view().dom().contains(name@),
            },
    {
        match self.sessions.get_cloned(name) {
            Some(s) => Some(s.owner()),
            None => None,
        }
    }

    /// How many members the named session has, if it is live.
    pub fn session_member_count(&self, name: &String) -> (count: Option<usize>)
        ensures
            match count {
                Some(n) => self.sessions_view().dom().contains(name@) && n == self.sessions_view()[
                    name@
                ].members.len(),
                None => !self.sessions_view().dom().contains(name@),
            },
    {
        match self.sessions.get_cloned(name) {
            Some(s) => Some(s.clients().len()),
            None => None,
        }
    }
}

/// Ownership is stable: a routed command leaves every session's owner
/// unchanged unless it is a `create` for that very session carrying
/// the session's own token, in which case the sender becomes owner.
pub proof fn lemma_owner_changes_only_with_token(
    st: Map<Seq<char>, SessionView>,
    c: CmdView,
    sender: PeerId,
    now: u64,
    k: Seq<char>,
)
    requires
        st.dom().contains(k),
        step_sessions_spec(st, c, sender, now).dom().contains(k),
    ensures
        step_sessions_spec(st, c, sender, now)[k].owner == st[k].owner || (c == (CmdView::Create {
            session: k,
            token: st[k].owner_token,
        }) && step_sessions_spec(st, c, sender, now)[k].owner == sender),
{
}

/// A peer's disconnect removes no session and changes no session's
/// owner, token or playback state.
pub proof fn lemma_disconnect_preserves_owner(
    st: Map<Seq<char>, SessionView>,
    peer: PeerId,
    now: u64,
    k: Seq<char>,
)
    requires
        st.dom().contains(k),
    ensures
        disconnect_sessions_spec(st, peer, now).dom() == st.dom(),
        disconnect_sessions_spec(st, peer, now)[k].owner == st[k].owner,
        disconnect_sessions_spec(st, peer, now)[k].owner_token == st[k].owner_token,
        disconnect_sessions_spec(st, peer, now)[k].tick == st[k].tick,
        disconnect_sessions_spec(st, peer, now)[k].playing == st[k].playing,
{
    assert(disconnect_sessions_spec(st, peer, now).dom() =~= st.dom());
}

/// A peer that joins an existing session is delivered, before anything
/// else, the session's current playback position and then its current
/// play state — also when both still have their default values.
pub proof fn lemma_join_delivers_current_state(
    st: Map<Seq<char>, SessionView>,
    reg: Map<PeerId, Seq<CmdView>>,
    sender: PeerId,
    now: u64,
    k: Seq<char>,
)
    requires
        st.dom().contains(k),
        reg.dom().contains(sender),
        reg[sender].len() == 0,
    ensures
        ({
            let reg2 = step_peers_spec(st, reg, CmdView::Join { session: k }, sender, now);
            let delivered = reg2[sender];
            &&& delivered.len() >= 2
            &&& delivered[0] == (CmdView::Tick { session: k, tick: st[k].tick })
            &&& delivered[1] == (CmdView::Play { session: k, play: st[k].playing })
        }),
{
}

/// A `tick` or `play` sent by anyone but the addressed session's owner
/// — or addressed to no session at all — changes nothing and is
/// forwarded to nobody.
pub proof fn lemma_unauthorized_mutation_is_ignored(
    st: Map<Seq<char>, SessionView>,
    reg: Map<PeerId, Seq<CmdView>>,
    c: CmdView,
    sender: PeerId,
    now: u64,
)
    requires
        c matches CmdView::Tick { .. } || c matches CmdView::Play { .. },
        !(st.dom().contains(cmd_session(c)) && st[cmd_session(c)].owner == sender),
    ensures
        step_sessions_spec(st, c, sender, now) == st,
        step_peers_spec(st, reg, c, sender, now) == reg,
{
}

/// The sweep at time `now` removes exactly the sessions whose owner
/// has been absent for more than the timeout, and hands every retained
/// session back untouched.
pub proof fn lemma_gc_expiry(st: Map<Seq<char>, SessionView>, now: u64, k: Seq<char>)
    ensures
        st.dom().contains(k) && st[k].expired(now) ==> !gc_spec(st, now).dom().contains(k),
        st.dom().contains(k) && !st[k].expired(now) ==> gc_spec(st, now).dom().contains(k)
            && gc_spec(st, now)[k] == st[k],
        gc_spec(st, now).dom().contains(k) ==> st.dom().contains(k),
{
}

/// A `create` carrying the matching token reclaims the session: the
/// sender becomes owner, the absence marker is cleared — so the sweep
/// that follows keeps the session — and `tick`, `playing` and the
/// member set come through unchanged.
pub proof fn lemma_reclaim_keeps_state(
    st: Map<Seq<char>, SessionView>,
    sender: PeerId,
    now: u64,
    k: Seq<char>,
    token: Seq<char>,
)
    requires
        st.dom().contains(k),
        token == st[k].owner_token,
    ensures
        ({
            let st2 = step_sessions_spec(st, CmdView::Create { session: k, token }, sender, now);
            &&& st2.dom().contains(k)
            &&& st2[k].owner == sender
            &&& st2[k].owner_left is None
            &&& st2[k].tick == st[k].tick
            &&& st2[k].playing == st[k].playing
            &&& st2[k].members == st[k].members
        }),
{
}

} // verus!
