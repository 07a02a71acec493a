use sync_relay::Server;
use sync_relay::SyncCommand;
use sync_relay::MAILBOX_CAPACITY;

fn create(server: &mut Server, peer: sync_relay::PeerId, name: &str, token: &str, now: u64) {
    server.handle_command(
        SyncCommand::Create { session: name.to_string(), token: token.to_string() },
        peer,
        now,
    );
}

#[test]
fn create_starts_with_defaults() {
    let mut server = Server::new();
    let owner = server.register_peer(7);
    create(&mut server, owner, "movie", "secret", 0);
    assert_eq!(server.session_tick(&"movie".to_string()), Some(0));
    assert_eq!(server.session_playing(&"movie".to_string()), Some(false));
    assert_eq!(server.session_owner(&"movie".to_string()), Some(owner));
    assert_eq!(server.session_member_count(&"movie".to_string()), Some(0));
}

#[test]
fn join_unknown_session_is_silent() {
    let mut server = Server::new();
    let client = server.register_peer(1);
    server.handle_command(SyncCommand::Join { session: "nope".to_string() }, client, 0);
    assert_eq!(server.next_outbound(client), None);
    assert!(!server.has_session(&"nope".to_string()));
}

#[test]
fn join_notifies_owner_of_member_count() {
    let mut server = Server::new();
    let owner = server.register_peer(1);
    let client = server.register_peer(2);
    create(&mut server, owner, "movie", "secret", 0);
    server.handle_command(SyncCommand::Join { session: "movie".to_string() }, client, 0);
    assert_eq!(
        server.next_outbound(owner),
        Some(SyncCommand::Clients { session: "movie".to_string(), count: 1 })
    );
    assert_eq!(server.next_outbound(owner), None);
}

#[test]
fn duplicate_join_keeps_one_membership() {
    let mut server = Server::new();
    let owner = server.register_peer(1);
    let client = server.register_peer(2);
    create(&mut server, owner, "movie", "secret", 0);
    server.handle_command(SyncCommand::Join { session: "movie".to_string() }, client, 0);
    server.handle_command(SyncCommand::Join { session: "movie".to_string() }, client, 0);
    assert_eq!(server.session_member_count(&"movie".to_string()), Some(1));

    // drain the two initial-state replays
    for _ in 0..4 {
        server.next_outbound(client);
    }
    // one broadcast arrives exactly once
    server.handle_command(SyncCommand::Tick { session: "movie".to_string(), tick: 3 }, owner, 0);
    assert_eq!(
        server.next_outbound(client),
        Some(SyncCommand::Tick { session: "movie".to_string(), tick: 3 })
    );
    assert_eq!(server.next_outbound(client), None);
}

#[test]
fn non_owner_mutation_is_dropped() {
    let mut server = Server::new();
    let owner = server.register_peer(1);
    let client = server.register_peer(2);
    let watcher = server.register_peer(3);
    create(&mut server, owner, "movie", "secret", 0);
    server.handle_command(SyncCommand::Join { session: "movie".to_string() }, watcher, 0);
    for _ in 0..2 {
        server.next_outbound(watcher);
    }

    server.handle_command(SyncCommand::Tick { session: "movie".to_string(), tick: 42 }, client, 0);
    server.handle_command(
        SyncCommand::Play { session: "movie".to_string(), play: true },
        client,
        0,
    );

    assert_eq!(server.session_tick(&"movie".to_string()), Some(0));
    assert_eq!(server.session_playing(&"movie".to_string()), Some(false));
    assert_eq!(server.next_outbound(watcher), None);
}

#[test]
fn clients_command_from_client_is_ignored() {
    let mut server = Server::new();
    let owner = server.register_peer(1);
    create(&mut server, owner, "movie", "secret", 0);
    server.handle_command(
        SyncCommand::Clients { session: "movie".to_string(), count: 9 },
        owner,
        0,
    );
    assert_eq!(server.session_member_count(&"movie".to_string()), Some(0));
    assert_eq!(server.next_outbound(owner), None);
}

#[test]
fn token_mismatch_keeps_owner_silently() {
    let mut server = Server::new();
    let owner = server.register_peer(1);
    let intruder = server.register_peer(2);
    create(&mut server, owner, "movie", "secret", 0);
    create(&mut server, intruder, "movie", "wrong", 0);

    assert_eq!(server.session_owner(&"movie".to_string()), Some(owner));
    assert_eq!(server.next_outbound(intruder), None);

    server.handle_command(SyncCommand::Tick { session: "movie".to_string(), tick: 8 }, intruder, 0);
    assert_eq!(server.session_tick(&"movie".to_string()), Some(0));
    server.handle_command(SyncCommand::Tick { session: "movie".to_string(), tick: 8 }, owner, 0);
    assert_eq!(server.session_tick(&"movie".to_string()), Some(8));
}

#[test]
fn disconnected_member_stops_receiving() {
    let mut server = Server::new();
    let owner = server.register_peer(1);
    let first = server.register_peer(2);
    let second = server.register_peer(3);
    create(&mut server, owner, "movie", "secret", 0);
    server.handle_command(SyncCommand::Join { session: "movie".to_string() }, first, 0);
    server.handle_command(SyncCommand::Join { session: "movie".to_string() }, second, 0);
    assert_eq!(server.session_member_count(&"movie".to_string()), Some(2));

    server.handle_disconnect(first, 0);
    assert_eq!(server.session_member_count(&"movie".to_string()), Some(1));
    assert_eq!(server.session_owner(&"movie".to_string()), Some(owner));

    for _ in 0..2 {
        server.next_outbound(second);
    }
    server.handle_command(SyncCommand::Play { session: "movie".to_string(), play: true }, owner, 0);
    assert_eq!(
        server.next_outbound(second),
        Some(SyncCommand::Play { session: "movie".to_string(), play: true })
    );
    assert_eq!(server.next_outbound(first), None);
}

#[test]
fn gc_collects_session_after_timeout() {
    let mut server = Server::new();
    let owner = server.register_peer(1);
    create(&mut server, owner, "movie", "secret", 0);
    server.handle_disconnect(owner, 10);

    // at exactly the timeout the session is still kept
    let bystander = server.register_peer(2);
    create(&mut server, bystander, "other", "t", 910);
    assert!(server.has_session(&"movie".to_string()));

    // one second past the timeout it is collected
    create(&mut server, bystander, "other", "t", 911);
    assert!(!server.has_session(&"movie".to_string()));
    assert!(server.has_session(&"other".to_string()));
}

#[test]
fn reclaim_within_window_keeps_state() {
    let mut server = Server::new();
    let owner = server.register_peer(1);
    let client = server.register_peer(2);
    create(&mut server, owner, "movie", "secret", 0);
    server.handle_command(SyncCommand::Tick { session: "movie".to_string(), tick: 77 }, owner, 0);
    server.handle_command(SyncCommand::Join { session: "movie".to_string() }, client, 0);
    server.handle_disconnect(owner, 10);

    let owner2 = server.register_peer(1);
    create(&mut server, owner2, "movie", "secret", 900);
    assert_eq!(server.session_owner(&"movie".to_string()), Some(owner2));
    assert_eq!(server.session_tick(&"movie".to_string()), Some(77));
    assert_eq!(server.session_member_count(&"movie".to_string()), Some(1));

    // the absence marker is gone: a much later sweep keeps the session
    create(&mut server, owner2, "unrelated", "t", 1_000_000);
    assert!(server.has_session(&"movie".to_string()));
}

#[test]
fn owner_never_absent_is_kept_forever() {
    let mut server = Server::new();
    let owner = server.register_peer(1);
    create(&mut server, owner, "movie", "secret", 0);
    create(&mut server, owner, "other", "t", 100_000_000);
    assert!(server.has_session(&"movie".to_string()));
}

#[test]
fn full_mailbox_drops_further_sends() {
    let mut server = Server::new();
    let owner = server.register_peer(1);
    let client = server.register_peer(2);
    create(&mut server, owner, "movie", "secret", 0);
    server.handle_command(SyncCommand::Join { session: "movie".to_string() }, client, 0);
    // the two initial-state commands are already queued
    for i in 0..(MAILBOX_CAPACITY as u64) {
        server.handle_command(
            SyncCommand::Tick { session: "movie".to_string(), tick: 100 + i },
            owner,
            0,
        );
    }
    assert_eq!(
        server.next_outbound(client),
        Some(SyncCommand::Tick { session: "movie".to_string(), tick: 0 })
    );
    assert_eq!(
        server.next_outbound(client),
        Some(SyncCommand::Play { session: "movie".to_string(), play: false })
    );
    // fourteen broadcasts fitted; the last two were dropped
    for i in 0..(MAILBOX_CAPACITY as u64 - 2) {
        assert_eq!(
            server.next_outbound(client),
            Some(SyncCommand::Tick { session: "movie".to_string(), tick: 100 + i })
        );
    }
    assert_eq!(server.next_outbound(client), None);
    // the session itself saw every authorized tick
    assert_eq!(
        server.session_tick(&"movie".to_string()),
        Some(100 + MAILBOX_CAPACITY as u64 - 1)
    );
}

#[test]
fn owner_as_member_hears_own_broadcasts() {
    let mut server = Server::new();
    let owner = server.register_peer(1);
    create(&mut server, owner, "movie", "secret", 0);
    server.handle_command(SyncCommand::Join { session: "movie".to_string() }, owner, 0);
    // initial state, then the member-count notice sent to the owner
    assert_eq!(
        server.next_outbound(owner),
        Some(SyncCommand::Tick { session: "movie".to_string(), tick: 0 })
    );
    assert_eq!(
        server.next_outbound(owner),
        Some(SyncCommand::Play { session: "movie".to_string(), play: false })
    );
    assert_eq!(
        server.next_outbound(owner),
        Some(SyncCommand::Clients { session: "movie".to_string(), count: 1 })
    );
    server.handle_command(SyncCommand::Play { session: "movie".to_string(), play: true }, owner, 0);
    assert_eq!(
        server.next_outbound(owner),
        Some(SyncCommand::Play { session: "movie".to_string(), play: true })
    );
}

#[test]
fn peer_identities_are_distinct_per_connection() {
    let mut server = Server::new();
    let first = server.register_peer(5);
    let second = server.register_peer(5);
    assert_ne!(first, second);
    assert_eq!(first.addr, second.addr);
}

#[test]
fn disconnect_touches_every_session() {
    let mut server = Server::new();
    let owner = server.register_peer(1);
    let member = server.register_peer(2);
    create(&mut server, owner, "one", "a", 0);
    create(&mut server, owner, "two", "b", 0);
    server.handle_command(SyncCommand::Join { session: "one".to_string() }, member, 0);
    server.handle_command(SyncCommand::Join { session: "two".to_string() }, member, 0);

    server.handle_disconnect(member, 5);
    assert_eq!(server.session_member_count(&"one".to_string()), Some(0));
    assert_eq!(server.session_member_count(&"two".to_string()), Some(0));
    assert_eq!(server.session_owner(&"one".to_string()), Some(owner));
    assert!(server.has_session(&"one".to_string()));
    assert!(server.has_session(&"two".to_string()));

    // the owner's disconnect marks both sessions; past the timeout a
    // sweep collects them together
    server.handle_disconnect(owner, 10);
    let other = server.register_peer(3);
    create(&mut server, other, "fresh", "t", 911);
    assert!(!server.has_session(&"one".to_string()));
    assert!(!server.has_session(&"two".to_string()));
    assert!(server.has_session(&"fresh".to_string()));
}
