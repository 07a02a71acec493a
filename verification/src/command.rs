use vstd::prelude::*;

verus! {

/// The abstract value of a protocol command: strings are read as
/// character sequences. Contracts throughout the crate speak of this
/// form rather than of the executable [`SyncCommand`].
#[verifier::ext_equal]
pub enum CmdView {
    Create { session: Seq<char>, token: Seq<char> },
    Join { session: Seq<char> },
    Tick { session: Seq<char>, tick: u64 },
    Play { session: Seq<char>, play: bool },
    Clients { session: Seq<char>, count: usize },
}

/// One command of the wire protocol.
///
/// `Create`, `Join`, `Tick` and `Play` are sent by clients; `Tick` and
/// `Play` are also forwarded by the server to a session's members.
/// `Clients` is only ever sent by the server, to a session's owner;
/// a `Clients` command received from a client is ignored.
#[derive(Debug, PartialEq, Eq)]
pub enum SyncCommand {
    Create { session: String, token: String },
    Join { session: String },
    Tick { session: String, tick: u64 },
    Play { session: String, play: bool },
    Clients { session: String, count: usize },
}

/// The session name a command addresses.
pub open spec fn cmd_session(c: CmdView) -> Seq<char> {
    match c {
        CmdView::Create { session, .. } => session,
        CmdView::Join { session } => session,
        CmdView::Tick { session, .. } => session,
        CmdView::Play { session, .. } => session,
        CmdView::Clients { session, .. } => session,
    }
}

impl View for SyncCommand {
    type V = CmdView;

    open spec fn view(&self) -> CmdView {
        match self {
            SyncCommand::Create { session, token } => CmdView::Create {
                session: session@,
                token: token@,
            },
            SyncCommand::Join { session } => CmdView::Join { session: session@ },
            SyncCommand::Tick { session, tick } => CmdView::Tick {
                session: session@,
                tick: *tick,
            },
            SyncCommand::Play { session, play } => CmdView::Play {
                session: session@,
                play: *play,
            },
            SyncCommand::Clients { session, count } => CmdView::Clients {
                session: session@,
                count: *count,
            },
        }
    }
}

impl SyncCommand {
    /// The session name the command addresses.
    pub fn session_name(&self) -> (name: &String)
        ensures
            name@ == cmd_session(self@),
    {
        match self {
            SyncCommand::Create { session, .. } => session,
            SyncCommand::Join { session } => session,
            SyncCommand::Tick { session, .. } => session,
            SyncCommand::Play { session, .. } => session,
            SyncCommand::Clients { session, .. } => session,
        }
    }
}

impl Clone for SyncCommand {
    /// The clone is indistinguishable from the original.
    fn clone(&self) -> (r: Self)
        ensures
            r == *self,
    {
        match self {
            SyncCommand::Create { session, token } => SyncCommand::Create {
                session: session.clone(),
                token: token.clone(),
            },
            SyncCommand::Join { session } => SyncCommand::Join { session: session.clone() },
            SyncCommand::Tick { session, tick } => SyncCommand::Tick {
                session: session.clone(),
                tick: *tick,
            },
            SyncCommand::Play { session, play } => SyncCommand::Play {
                session: session.clone(),
                play: *play,
            },
            SyncCommand::Clients { session, count } => SyncCommand::Clients {
                session: session.clone(),
                count: *count,
            },
        }
    }
}

} // verus!
