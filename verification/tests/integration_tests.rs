use sync_relay::PeerId;
use sync_relay::Server;
use sync_relay::SyncCommand;

fn send(server: &mut Server, peer: PeerId, command: SyncCommand) {
    server.handle_command(command, peer, 0);
}

fn assert_receive(server: &mut Server, peer: PeerId, expected: SyncCommand) {
    let got = server.next_outbound(peer).expect("expected a delivered command");
    assert_eq!(expected, got);
}

#[test]
fn integration_tests() {
    let mut server = Server::new();
    let owner = server.register_peer(1);
    let client = server.register_peer(2);

    send(
        &mut server,
        owner,
        SyncCommand::Create { session: "foo".to_string(), token: "bar".to_string() },
    );
    send(&mut server, owner, SyncCommand::Tick { session: "foo".to_string(), tick: 99 });

    send(&mut server, client, SyncCommand::Join { session: "foo".to_string() });

    assert_receive(&mut server, client, SyncCommand::Tick { session: "foo".to_string(), tick: 99 });
    assert_receive(
        &mut server,
        client,
        SyncCommand::Play { session: "foo".to_string(), play: false },
    );

    send(&mut server, owner, SyncCommand::Play { session: "foo".to_string(), play: true });
    assert_receive(
        &mut server,
        client,
        SyncCommand::Play { session: "foo".to_string(), play: true },
    );

    // should be ignored
    send(&mut server, client, SyncCommand::Tick { session: "foo".to_string(), tick: 5 });

    let client2 = server.register_peer(3);

    send(&mut server, client2, SyncCommand::Join { session: "foo".to_string() });

    assert_receive(
        &mut server,
        client2,
        SyncCommand::Tick { session: "foo".to_string(), tick: 99 },
    );
    assert_receive(
        &mut server,
        client2,
        SyncCommand::Play { session: "foo".to_string(), play: true },
    );

    // owner reconnecting
    server.handle_disconnect(owner, 0);

    let owner2 = server.register_peer(1);

    send(
        &mut server,
        owner2,
        SyncCommand::Create { session: "foo".to_string(), token: "bar".to_string() },
    );

    send(&mut server, owner2, SyncCommand::Play { session: "foo".to_string(), play: false });

    assert_receive(
        &mut server,
        client,
        SyncCommand::Play { session: "foo".to_string(), play: false },
    );
    assert_receive(
        &mut server,
        client2,
        SyncCommand::Play { session: "foo".to_string(), play: false },
    );
}
