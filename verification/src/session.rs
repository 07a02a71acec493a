use vstd::prelude::*;

use crate::command::CmdView;
use crate::command::SyncCommand;
use crate::peer::PeerId;

verus! {

/// A session whose recorded owner has been absent for longer than this
/// many seconds is removed by the garbage-collection sweep.
pub const SESSION_TIMEOUT_SECS: u64 = 900;

/// The abstract value of a [`Session`].
#[verifier::ext_equal]
pub struct SessionView {
    /// The unique name the session is keyed by in the store.
    pub name: Seq<char>,
    /// The one peer currently authorized to mutate `tick` and `playing`.
    pub owner: PeerId,
    /// The shared secret fixed at first creation; presenting it on a
    /// later `create` reclaims ownership.
    pub owner_token: Seq<char>,
    /// The peers that joined to receive broadcasts. A set: no peer
    /// appears twice.
    pub members: Seq<PeerId>,
    /// The playback position, opaque to the server.
    pub tick: u64,
    /// The play/pause state.
    pub playing: bool,
    /// The time at which the peer recorded as owner disconnected, if it
    /// has not reclaimed ownership since.
    pub owner_left: Option<u64>,
}

impl SessionView {
    /// Well-formedness: the member list represents a set.
    pub open spec fn wf(self) -> bool {
        self.members.no_duplicates()
    }

    /// The seconds the owner has been absent at time `now`, if absent.
    pub open spec fn inactive_spec(self, now: u64) -> Option<u64> {
        match self.owner_left {
            None => None,
            Some(t) => Some(
                if now >= t {
                    (now - t) as u64
                } else {
                    0u64
                },
            ),
        }
    }

    /// Whether the garbage-collection sweep removes the session at time
    /// `now`: the owner has been absent for more than the timeout.
    pub open spec fn expired(self, now: u64) -> bool {
        match self.inactive_spec(now) {
            Some(inactive) => inactive > SESSION_TIMEOUT_SECS,
            None => false,
        }
    }
}

/// What a fresh session looks like: owned by its creator, empty member
/// set, default playback state, owner present.
pub open spec fn new_session_spec(owner: PeerId, name: Seq<char>, token: Seq<char>) -> SessionView {
    SessionView {
        name: name,
        owner: owner,
        owner_token: token,
        members: Seq::empty(),
        tick: 0,
        playing: false,
        owner_left: None,
    }
}

/// What joining does: adds the client to the member set; a client
/// already present is left as is.
pub open spec fn join_spec(v: SessionView, client: PeerId) -> SessionView {
    if v.members.contains(client) {
        v
    } else {
        SessionView { members: v.members.push(client), ..v }
    }
}

/// What an ownership claim does: with the matching token the caller
/// becomes owner and the absence marker is cleared, all playback state
/// untouched; with a mismatched token nothing changes.
pub open spec fn set_owner_spec(v: SessionView, owner: PeerId, token: Seq<char>) -> SessionView {
    if token == v.owner_token {
        SessionView { owner: owner, owner_left: None, ..v }
    } else {
        v
    }
}

/// What an authorized `tick`/`play` command does to the session's
/// fields; other commands leave them as they are.
pub open spec fn update_spec(v: SessionView, c: CmdView) -> SessionView {
    match c {
        CmdView::Tick { session: _, tick } => SessionView { tick: tick, ..v },
        CmdView::Play { session: _, play } => SessionView { playing: play, ..v },
        _ => v,
    }
}

/// Keeping every member other than `peer`.
pub open spec fn not_peer(peer: PeerId) -> spec_fn(PeerId) -> bool {
    |p: PeerId| p != peer
}

/// What a peer's disconnect does to one session: the peer leaves the
/// member set, and a session whose owner is the leaving peer records
/// the absence time.
pub open spec fn leave_spec(v: SessionView, peer: PeerId, now: u64) -> SessionView {
    SessionView {
        members: v.members.filter(not_peer(peer)),
        owner_left: if v.owner == peer {
            Some(now)
        } else {
            v.owner_left
        },
        ..v
    }
}

/// Every element of a filtered sequence comes from the original.
proof fn lemma_filter_is_subset<A>(s: Seq<A>, pred: spec_fn(A) -> bool, x: A)
    requires
        s.filter(pred).contains(x),
    ensures
        s.contains(x),
    decreases s.len(),
{
    reveal(Seq::filter);
    if s.len() > 0 {
        let sub = s.drop_last();
        if pred(s.last()) && x == s.last() {
            assert(s[s.len() - 1] == x);
        } else {
            assert(sub.filter(pred).contains(x)) by {
                let f = s.filter(pred);
                let i = choose|i: int| 0 <= i < f.len() && f[i] == x;
                if pred(s.last()) {
                    assert(sub.filter(pred)[i] == x);
                }
            }
            lemma_filter_is_subset(sub, pred, x);
            let j = choose|j: int| 0 <= j < sub.len() && sub[j] == x;
            assert(s[j] == x);
        }
    }
}

/// Filtering keeps a duplicate-free sequence duplicate-free.
proof fn lemma_filter_no_duplicates<A>(s: Seq<A>, pred: spec_fn(A) -> bool)
    requires
        s.no_duplicates(),
    ensures
        s.filter(pred).no_duplicates(),
    decreases s.len(),
{
    reveal(Seq::filter);
    if s.len() > 0 {
        let sub = s.drop_last();
        assert(sub.no_duplicates());
        lemma_filter_no_duplicates(sub, pred);
        if pred(s.last()) {
            if sub.filter(pred).contains(s.last()) {
                lemma_filter_is_subset(sub, pred, s.last());
                let j = choose|j: int| 0 <= j < sub.len() && sub[j] == s.last();
                assert(s[j] == s[s.len() - 1]);
            }
            let f0 = sub.filter(pred);
            let f = f0.push(s.last());
            assert forall|i: int, j: int|
                0 <= i < f.len() && 0 <= j < f.len() && i != j implies f[i] != f[j] by {
                if i < f0.len() && j < f0.len() {
                } else if j == f0.len() {
                    if f[i] == s.last() {
                        assert(f0.contains(f0[i]));
                    }
                } else {
                    if f[j] == s.last() {
                        assert(f0.contains(f0[j]));
                    }
                }
            }
        }
    }
}

/// Whether `p` occurs in `v`.
fn contains_peer(v: &Vec<PeerId>, p: PeerId) -> (present: bool)
    ensures
        present == v@.contains(p),
{
    let n = v.len();
    for i in 0..n
        invariant
            n == v@.len(),
            forall|k: int| 0 <= k < i ==> v@[k] != p,
    {
        if v[i] == p {
            return true;
        }
    }
    false
}

/// One named, shared playback state: exactly one owner may mutate it,
/// any number of members receive its broadcasts.
pub struct Session {
    name: String,
    owner: PeerId,
    owner_token: String,
    members: Vec<PeerId>,
    tick: u64,
    playing: bool,
    owner_left: Option<u64>,
}

impl View for Session {
    type V = SessionView;

    closed spec fn view(&self) -> SessionView {
        SessionView {
            name: self.name@,
            owner: self.owner,
            owner_token: self.owner_token@,
            members: self.members@,
            tick: self.tick,
            playing: self.playing,
            owner_left: self.owner_left,
        }
    }
}

impl Clone for Session {
    /// The clone is indistinguishable from the original.
    fn clone(&self) -> (r: Self)
        ensures
            r@ == self@,
    {
        let r = Session {
            name: self.name.clone(),
            owner: self.owner,
            owner_token: self.owner_token.clone(),
            members: self.members.clone(),
            tick: self.tick,
            playing: self.playing,
            owner_left: self.owner_left,
        };
        proof {
            assert(r.members@ =~= self.members@);
            assert(r@ =~= self@);
        }
        r
    }
}

impl Session {
    /// Creates the session on the first `create` for an unused name.
    pub fn new(owner: PeerId, name: String, owner_token: String) -> (s: Session)
        ensures
            s@ == new_session_spec(owner, name@, owner_token@),
            s@.wf(),
    {
        let s = Session {
            name,
            owner,
            owner_token,
            members: Vec::new(),
            tick: 0,
            playing: false,
            owner_left: None,
        };
        proof {
            assert(s@ =~= new_session_spec(s.owner, s.name@, s.owner_token@));
        }
        s
    }

    /// Adds `client` to the member set.
    pub fn join(&mut self, client: PeerId)
        ensures
            final(self)@ == join_spec(old(self)@, client),
            old(self)@.wf() ==> final(self)@.wf(),
    {
        let present = contains_peer(&self.members, client);
        if !present {
            self.members.push(client);
        }
        proof {
            assert(self@ =~= join_spec(old(self)@, client));
            if old(self)@.wf() && !old(self)@.members.contains(client) {
                let m = old(self)@.members;
                let m2 = m.push(client);
                assert forall|i: int, j: int|
                    0 <= i < m2.len() && 0 <= j < m2.len() && i != j implies m2[i] != m2[j] by {
                    if i < m.len() && j < m.len() {
                    } else if j == m.len() && m2[i] == client {
                        assert(m[i] == client);
                        assert(m.contains(client));
                    } else if i == m.len() && m2[j] == client {
                        assert(m[j] == client);
                        assert(m.contains(client));
                    }
                }
            }
        }
    }

    /// An ownership claim: succeeds exactly when `token` matches the
    /// secret fixed at creation, and then only re-owns — the playback
    /// state and the member set are untouched.
    pub fn set_owner(&mut self, owner: PeerId, token: &String) -> (claimed: bool)
        ensures
            claimed == (token@ == old(self)@.owner_token),
            final(self)@ == set_owner_spec(old(self)@, owner, token@),
            old(self)@.wf() ==> final(self)@.wf(),
    {
        if *token == self.owner_token {
            self.owner = owner;
            self.owner_left = None;
            proof {
                assert(self@ =~= set_owner_spec(old(self)@, owner, token@));
            }
            true
        } else {
            false
        }
    }

    /// The seconds the owner has been absent at time `now`, or `None`
    /// while the owner is present.
    pub fn inactive_time(&self, now: u64) -> (inactive: Option<u64>)
        ensures
            inactive == self@.inactive_spec(now),
    {
        match self.owner_left {
            None => None,
            Some(t) => Some(
                if now >= t {
                    now - t
                } else {
                    0
                },
            ),
        }
    }

    /// The two commands a joining peer is sent first: the current
    /// playback position, then the current play state.
    pub fn initial_state(&self) -> (cmds: Vec<SyncCommand>)
        ensures
            cmds@.len() == 2,
            cmds@[0]@ == (CmdView::Tick { session: self@.name, tick: self@.tick }),
            cmds@[1]@ == (CmdView::Play { session: self@.name, play: self@.playing }),
    {
        let tick_cmd = SyncCommand::Tick { session: self.name.clone(), tick: self.tick };
        let play_cmd = SyncCommand::Play { session: self.name.clone(), play: self.playing };
        let mut cmds: Vec<SyncCommand> = Vec::new();
        cmds.push(tick_cmd);
        cmds.push(play_cmd);
        cmds
    }

    /// The current members, in joining order.
    pub fn clients(&self) -> (members: &Vec<PeerId>)
        ensures
            members@ == self@.members,
    {
        &self.members
    }

    /// The current playback position.
    pub fn tick(&self) -> (t: u64)
        ensures
            t == self@.tick,
    {
        self.tick
    }

    /// The current play/pause state.
    pub fn playing(&self) -> (p: bool)
        ensures
            p == self@.playing,
    {
        self.playing
    }

    /// The peer currently authorized to mutate the session.
    pub fn owner(&self) -> (o: PeerId)
        ensures
            o == self@.owner,
    {
        self.owner
    }

    /// Removes `peer` from the member set.
    #[verifier::loop_isolation(false)]
    pub fn remove_client(&mut self, peer: PeerId)
        ensures
            final(self)@ == (SessionView { members: old(self)@.members.filter(not_peer(peer)), ..old(self)@ }),
            old(self)@.wf() ==> final(self)@.wf(),
    {
        let ghost pred = not_peer(peer);
        let mut kept: Vec<PeerId> = Vec::new();
        let n = self.members.len();
        proof {
            reveal(Seq::filter);
            assert(self.members@.take(0).filter(pred) =~= Seq::<PeerId>::empty());
        }
        for i in 0..n
            invariant
                n == self.members@.len(),
                kept@ == self.members@.take(i as int).filter(pred),
        {
            let p = self.members[i];
            if !(p == peer) {
                kept.push(p);
            }
            proof {
                reveal(Seq::filter);
                let m = self.members@;
                assert(m.take(i + 1).drop_last() =~= m.take(i as int));
                assert(m.take(i + 1).last() == m[i as int]);
                assert(kept@ == m.take(i + 1).filter(pred));
            }
        }
        proof {
            assert(self.members@.take(n as int) =~= self.members@);
        }
        self.members = kept;
        proof {
            assert(self@ =~= (SessionView {
                members: old(self)@.members.filter(not_peer(peer)),
                ..old(self)@
            }));
            if old(self)@.wf() {
                lemma_filter_no_duplicates(old(self)@.members, pred);
            }
        }
    }

    /// Records that the peer currently recorded as owner disconnected
    /// at time `now` without having reclaimed ownership yet.
    pub fn mark_owner_absent(&mut self, now: u64)
        ensures
            final(self)@ == (SessionView { owner_left: Some(now), ..old(self)@ }),
            old(self)@.wf() ==> final(self)@.wf(),
    {
        self.owner_left = Some(now);
    }

    /// Applies an authorized `tick` or `play` command to the session's
    /// playback state; any other command is ignored.
    pub fn handle_command(&mut self, command: &SyncCommand)
        ensures
            final(self)@ == update_spec(old(self)@, command@),
            old(self)@.wf() ==> final(self)@.wf(),
    {
        match command {
            SyncCommand::Tick { session: _, tick } => {
                self.tick = *tick;
            },
            SyncCommand::Play { session: _, play } => {
                self.playing = *play;
            },
            _ => {},
        }
        proof {
            assert(self@ =~= update_spec(old(self)@, command@));
        }
    }
}

} // verus!

