use vstd::prelude::*;

use crate::command::CmdView;
use crate::command::SyncCommand;

verus! {

/// How many outbound commands a peer's mailbox can hold before further
/// sends to that peer are dropped.
pub const MAILBOX_CAPACITY: usize = 16;

/// Appends `c` to a mailbox with room for it; a full mailbox is left as
/// it is (the send is dropped, never blocked on).
pub open spec fn push_bounded(mb: Seq<CmdView>, c: CmdView) -> Seq<CmdView> {
    if mb.len() < MAILBOX_CAPACITY {
        mb.push(c)
    } else {
        mb
    }
}

/// A bounded queue of outbound commands for one registered peer,
/// written by the command router and drained in order by the peer's
/// connection handler. A send to a full mailbox is dropped, so a slow
/// consumer never stalls delivery to other peers.
pub struct Mailbox {
    queue: Vec<SyncCommand>,
}

impl Clone for Mailbox {
    /// The clone is indistinguishable from the original.
    fn clone(&self) -> (r: Self)
        ensures
            r@ == self@,
    {
        let r = Mailbox { queue: self.queue.clone() };
        proof {
            assert(r.queue@ =~= self.queue@);
            assert(r@ =~= self@);
        }
        r
    }
}

impl View for Mailbox {
    type V = Seq<CmdView>;

    closed spec fn view(&self) -> Seq<CmdView> {
        self.queue@.map_values(|c: SyncCommand| c@)
    }
}

impl Mailbox {
    /// An empty mailbox, made at registration time.
    pub fn new() -> (mb: Mailbox)
        ensures
            mb@ == Seq::<CmdView>::empty(),
    {
        let mb = Mailbox { queue: Vec::new() };
        proof {
            assert(mb@ =~= Seq::<CmdView>::empty());
        }
        mb
    }

    /// Enqueues `command` unless the mailbox is full, in which case the
    /// command is dropped. Returns whether the command was kept.
    pub fn push(&mut self, command: SyncCommand) -> (kept: bool)
        ensures
            final(self)@ == push_bounded(old(self)@, command@),
            kept == (old(self)@.len() < MAILBOX_CAPACITY),
    {
        proof {
            assert(self.queue@.len() == self@.len());
        }
        if self.queue.len() < MAILBOX_CAPACITY {
            self.queue.push(command);
            proof {
                assert(self@ =~= old(self)@.push(command@));
            }
            true
        } else {
            false
        }
    }

    /// Dequeues the oldest command, if any.
    pub fn pop_front(&mut self) -> (front: Option<SyncCommand>)
        ensures
            match front {
                Some(c) => old(self)@.len() > 0 && c@ == old(self)@[0] && final(self)@ == old(
                    self,
                )@.drop_first(),
                None => old(self)@.len() == 0 && final(self)@ == old(self)@,
            },
    {
        proof {
            assert(self.queue@.len() == self@.len());
        }
        if self.queue.len() == 0 {
            None
        } else {
            let c = self.queue.remove(0);
            proof {
                assert(self@ =~= old(self)@.drop_first());
            }
            Some(c)
        }
    }

    /// The number of queued commands.
    pub fn len(&self) -> (n: usize)
        ensures
            n == self@.len(),
    {
        proof {
            assert(self.queue@.len() == self@.len());
        }
        self.queue.len()
    }
}

} // verus!
