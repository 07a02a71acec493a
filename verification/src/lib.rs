//! A real-time playback-state synchronization relay.
//!
//! Clients join named sessions; one authenticated owner per session
//! broadcasts playback position (`tick`) and play/pause state to every
//! other member. This crate holds the verified core: the session store,
//! the peer registry with per-peer mailboxes, the command router with
//! its ownership rules, and the garbage collection of abandoned
//! sessions. Transport, handshaking and JSON framing live outside.

mod command;
mod mailbox;
mod peer;
mod registry;
mod server;
mod session;
mod store;

pub use command::CmdView;
pub use command::cmd_session;
pub use command::SyncCommand;
pub use mailbox::Mailbox;
pub use mailbox::MAILBOX_CAPACITY;
pub use mailbox::push_bounded;
pub use peer::PeerId;
pub use session::Session;
pub use session::SessionView;
pub use session::SESSION_TIMEOUT_SECS;
pub use session::join_spec;
pub use session::leave_spec;
pub use session::new_session_spec;
pub use session::set_owner_spec;
pub use session::update_spec;
pub use session::not_peer;
pub use registry::PeerRegistry;
pub use registry::registry_contents;
pub use store::SessionStore;
pub use store::name_views;
pub use store::store_contents;
pub use server::Server;
pub use server::broadcast_spec;
pub use server::create_spec;
pub use server::disconnect_sessions_spec;
pub use server::gc_spec;
pub use server::send_spec;
pub use server::step_peers_spec;
pub use server::step_sessions_spec;
pub use server::lemma_disconnect_preserves_owner;
pub use server::lemma_gc_expiry;
pub use server::lemma_join_delivers_current_state;
pub use server::lemma_owner_changes_only_with_token;
pub use server::lemma_reclaim_keeps_state;
pub use server::lemma_unauthorized_mutation_is_ignored;
