use speakv::packet::{AdminActionType, HistoryEntry, NetworkPacket};
use speakv::server::ServerState;

fn online_pair() -> ServerState {
    let mut state = ServerState::new("Lobby".to_string());
    state.store.create_channel("Lobby".to_string());
    state.handle_register(1, "alice".to_string(), "pw1".to_string());
    state.handle_register(2, "bob".to_string(), "pw2".to_string());
    state.handle_handshake(10, "alice".to_string(), 0);
    state.handle_login(10, "alice".to_string(), "pw1".to_string(), 0);
    state.handle_handshake(11, "bob".to_string(), 0);
    state.handle_login(11, "bob".to_string(), "pw2".to_string(), 0);
    state
}

#[test]
fn chat_is_relayed_to_channel_peers_and_persisted() {
    let mut state = online_pair();
    let out = state.handle_chat(10, 7, "alice".to_string(), b"hi".to_vec(), 100, 5);
    assert_eq!(out.len(), 1);
    assert_eq!(out[0].addr, 11);
    match &out[0].packet {
        NetworkPacket::ChatMessage { id, username, message, timestamp } => {
            assert_eq!(*id, 7);
            assert_eq!(username, "alice");
            assert_eq!(message, b"hi");
            assert_eq!(*timestamp, 100);
        },
        other => panic!("unexpected relay {:?}", other),
    }
    assert_eq!(state.store.chat_messages.len(), 1);
    assert_eq!(state.store.chat_messages[0].channel, "Lobby");
}

#[test]
fn muted_sender_is_relayed_to_nobody_but_stays_in_membership() {
    let mut state = online_pair();
    assert!(state.handle_admin(10, &"bob".to_string(), AdminActionType::Mute));
    let out = state.handle_chat(11, 8, "bob".to_string(), b"psst".to_vec(), 101, 6);
    assert!(out.is_empty());
    assert!(state.store.chat_messages.is_empty());
    let audio = NetworkPacket::Audio { username: "bob".to_string(), data: vec![1, 2, 3] };
    let out = state.handle_realtime(11, audio, 7);
    assert!(out.is_empty());
    // Bob stays visible in the membership snapshot, flagged muted.
    let snap = state.registry.snapshot(&state.store.channels);
    let lobby = snap.iter().find(|c| c.channel == "Lobby").unwrap();
    let bob = lobby.members.iter().find(|m| m.username == "bob").unwrap();
    assert!(bob.is_muted);
    // Unmuting restores relay.
    assert!(state.handle_admin(10, &"bob".to_string(), AdminActionType::Unmute));
    let out = state.handle_chat(11, 9, "bob".to_string(), b"hi".to_vec(), 102, 8);
    assert_eq!(out.len(), 1);
}

#[test]
fn membership_snapshot_lists_exactly_authenticated_sessions() {
    let mut state = online_pair();
    // A handshaken but never authenticated address must not appear.
    state.handle_handshake(12, "ghost".to_string(), 0);
    let snap = state.registry.snapshot(&state.store.channels);
    let lobby = snap.iter().find(|c| c.channel == "Lobby").unwrap();
    let mut names: Vec<String> = lobby.members.iter().map(|m| m.username.clone()).collect();
    names.sort();
    assert_eq!(names, vec!["alice".to_string(), "bob".to_string()]);
}

#[test]
fn unauthenticated_sender_is_not_relayed() {
    let mut state = online_pair();
    state.handle_handshake(12, "ghost".to_string(), 0);
    let out = state.handle_chat(12, 9, "ghost".to_string(), b"hello".to_vec(), 100, 5);
    assert!(out.is_empty());
    assert!(state.store.chat_messages.is_empty());
}

#[test]
fn end_to_end_chat_reaction_and_history() {
    let mut state = online_pair();
    // Alice is the first-ever account and an admin; Bob a plain user.
    assert_eq!(state.store.accounts[0].role, speakv::packet::Role::Admin);
    assert_eq!(state.store.accounts[1].role, speakv::packet::Role::User);
    // Alice sends chat m1 with body "hi"; Bob's session receives the relay.
    let out = state.handle_chat(10, 1, "alice".to_string(), b"hi".to_vec(), 100, 5);
    assert_eq!(out.len(), 1);
    assert_eq!(out[0].addr, 11);
    // Bob reacts to m1; the reaction reaches every connected session.
    let out = state.handle_reaction(11, 1, "bob".to_string(), "+1".to_string());
    assert_eq!(out.len(), 2);
    // Alice's later history request returns m1 with the reaction attached.
    let out = state.handle_request_chat_history(10, &"Lobby".to_string());
    assert_eq!(out.len(), 1);
    assert_eq!(out[0].addr, 10);
    match &out[0].packet {
        NetworkPacket::ChatHistory(entries) => {
            assert_eq!(entries.len(), 2);
            match &entries[0] {
                HistoryEntry::Chat { id, username, message, timestamp } => {
                    assert_eq!(*id, 1);
                    assert_eq!(username, "alice");
                    assert_eq!(message, b"hi");
                    assert_eq!(*timestamp, 100);
                },
                other => panic!("unexpected entry {:?}", other),
            }
            match &entries[1] {
                HistoryEntry::Reaction { msg_id, from, emoji } => {
                    assert_eq!(*msg_id, 1);
                    assert_eq!(from, "bob");
                    assert_eq!(emoji, "+1");
                },
                other => panic!("unexpected entry {:?}", other),
            }
        },
        other => panic!("unexpected reply {:?}", other),
    }
}

#[test]
fn idle_session_is_purged_with_one_fresh_broadcast() {
    let mut state = online_pair();
    // Bob pings late; Alice has been silent past the liveness window.
    let out = state.handle_packet(11, NetworkPacket::Ping, 40_000);
    assert_eq!(state.registry.sessions.len(), 1);
    assert_eq!(state.registry.sessions[0].username, "bob");
    // Exactly one membership snapshot went to the one surviving session,
    // and it omits the purged user.
    assert_eq!(out.len(), 1);
    assert_eq!(out[0].addr, 11);
    match &out[0].packet {
        NetworkPacket::UsersUpdate(snap) => {
            let lobby = snap.iter().find(|c| c.channel == "Lobby").unwrap();
            assert_eq!(lobby.members.len(), 1);
            assert_eq!(lobby.members[0].username, "bob");
        },
        other => panic!("unexpected broadcast {:?}", other),
    }
}

#[test]
fn file_transfer_completes_and_is_persisted_under_sender_channel() {
    let mut state = online_pair();
    let out = state.handle_file_start(
        10,
        42,
        "alice".to_string(),
        None,
        "pic.png".to_string(),
        3,
        true,
        200,
    );
    // The announcement is relayed to the channel at once.
    assert_eq!(out.len(), 1);
    assert_eq!(out[0].addr, 11);
    // Chunks arrive out of order and are relayed before reassembly.
    let out = state.handle_file_chunk(10, 42, 2, vec![9]);
    assert_eq!(out.len(), 1);
    state.handle_file_chunk(10, 42, 0, vec![1, 2]);
    // A duplicate index changes nothing durable.
    state.handle_file_chunk(10, 42, 0, vec![7, 7]);
    assert!(state.store.file_messages.is_empty());
    state.handle_file_chunk(10, 42, 1, vec![5]);
    assert_eq!(state.pending.len(), 0);
    assert_eq!(state.store.file_messages.len(), 1);
    let rec = &state.store.file_messages[0];
    assert_eq!(rec.id, 42);
    assert_eq!(rec.sender, "alice");
    assert_eq!(rec.channel, "Lobby");
    assert_eq!(rec.data, vec![1, 2, 5, 9]);
    assert!(rec.is_image);
}

#[test]
fn presentation_update_is_stored_and_broadcast() {
    let mut state = online_pair();
    let out = state.handle_packet(
        10,
        NetworkPacket::UpdateProfile {
            status: "away".to_string(),
            nick_color: "#00FF00".to_string(),
        },
        5,
    );
    // The membership broadcast goes to both connected sessions and shows
    // the fresh status and color.
    assert_eq!(out.len(), 2);
    match &out[0].packet {
        NetworkPacket::UsersUpdate(snap) => {
            let lobby = snap.iter().find(|c| c.channel == "Lobby").unwrap();
            let alice = lobby.members.iter().find(|m| m.username == "alice").unwrap();
            assert_eq!(alice.status, "away");
            assert_eq!(alice.nick_color, "#00FF00");
        },
        other => panic!("unexpected broadcast {:?}", other),
    }
    // The attributes are stored durably on the account too.
    assert_eq!(state.store.accounts[0].status, "away");
    assert_eq!(state.store.accounts[0].nick_color, "#00FF00");
    // From an unauthenticated address nothing changes and nothing is sent.
    state.handle_handshake(12, "ghost".to_string(), 5);
    let out = state.handle_packet(
        12,
        NetworkPacket::UpdateProfile {
            status: "x".to_string(),
            nick_color: "#123456".to_string(),
        },
        6,
    );
    assert!(out.is_empty());
}

#[test]
fn direct_file_chunks_reach_only_the_named_recipient() {
    let mut state = online_pair();
    state.handle_register(3, "carol".to_string(), "pw3".to_string());
    state.handle_handshake(12, "carol".to_string(), 0);
    state.handle_login(12, "carol".to_string(), "pw3".to_string(), 0);
    // Alice announces a direct transfer to Bob; Carol must see nothing.
    let out = state.handle_file_start(
        10,
        77,
        "alice".to_string(),
        Some("bob".to_string()),
        "dm.bin".to_string(),
        2,
        false,
        50,
    );
    assert_eq!(out.len(), 1);
    assert_eq!(out[0].addr, 11);
    let out = state.handle_file_chunk(10, 77, 0, vec![1]);
    assert_eq!(out.len(), 1);
    assert_eq!(out[0].addr, 11);
    let out = state.handle_file_chunk(10, 77, 1, vec![2]);
    assert_eq!(out.len(), 1);
    assert_eq!(out[0].addr, 11);
    // The completed direct file is persisted with its recipient.
    assert_eq!(state.store.file_messages.len(), 1);
    assert_eq!(state.store.file_messages[0].recipient, Some("bob".to_string()));
    assert_eq!(state.store.file_messages[0].data, vec![1, 2]);
}

#[test]
fn unannounced_chunks_are_dropped() {
    let mut state = online_pair();
    let out = state.handle_file_chunk(10, 99, 0, vec![1, 2, 3]);
    assert!(out.is_empty());
    assert!(state.pending.is_empty());
    assert!(state.store.file_messages.is_empty());
}

#[test]
fn state_changing_dispatch_broadcasts_once_per_session() {
    let mut state = online_pair();
    // A join through the dispatcher changes membership: both sessions get
    // exactly one snapshot, and nothing else is sent.
    state.store.create_channel("AFK".to_string());
    let out = state.handle_packet(10, NetworkPacket::JoinChannel("AFK".to_string()), 5);
    assert_eq!(out.len(), 2);
    let mut addrs: Vec<u64> = out.iter().map(|o| o.addr).collect();
    addrs.sort();
    assert_eq!(addrs, vec![10, 11]);
    for o in &out {
        assert!(matches!(o.packet, NetworkPacket::UsersUpdate(_)));
    }
    // A ping with nobody stale sends nothing.
    let out = state.handle_packet(11, NetworkPacket::Ping, 6);
    assert!(out.is_empty());
}

#[test]
fn private_message_reaches_only_the_recipient() {
    let mut state = online_pair();
    state.handle_register(3, "carol".to_string(), "pw3".to_string());
    state.handle_handshake(12, "carol".to_string(), 0);
    state.handle_login(12, "carol".to_string(), "pw3".to_string(), 0);
    let out = state.handle_private_message(
        10,
        5,
        "alice".to_string(),
        "bob".to_string(),
        b"secret".to_vec(),
        300,
    );
    assert_eq!(out.len(), 1);
    assert_eq!(out[0].addr, 11);
    assert_eq!(state.store.private_messages.len(), 1);
    // A message to an offline user is persisted but relayed to nobody.
    let out = state.handle_private_message(
        10,
        6,
        "alice".to_string(),
        "dave".to_string(),
        b"hello".to_vec(),
        301,
    );
    assert!(out.is_empty());
    assert_eq!(state.store.private_messages.len(), 2);
}
