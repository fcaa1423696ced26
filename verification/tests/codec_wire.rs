use speakv::codec::{decode_packet, encode_packet};
use speakv::packet::{
    AdminActionType, ChannelMembers, HistoryEntry, NetworkPacket, Role, UserInfo,
};

fn round_trip(p: NetworkPacket) {
    let bytes = encode_packet(&p);
    let back = decode_packet(&bytes);
    assert_eq!(back, Some(p));
}

#[test]
fn ping_has_a_one_byte_wire_form() {
    assert_eq!(encode_packet(&NetworkPacket::Ping), vec![22u8]);
}

#[test]
fn handshake_wire_form_is_tag_length_and_utf8() {
    let p = NetworkPacket::Handshake { username: "ab".to_string() };
    assert_eq!(
        encode_packet(&p),
        vec![0u8, 2, 0, 0, 0, 0, 0, 0, 0, 97, 98],
    );
}

#[test]
fn simple_packets_round_trip() {
    round_trip(NetworkPacket::Ping);
    round_trip(NetworkPacket::Handshake { username: "alice".to_string() });
    round_trip(NetworkPacket::Register {
        username: "alice".to_string(),
        password: "pw1".to_string(),
    });
    round_trip(NetworkPacket::Login {
        username: "bob".to_string(),
        password: String::new(),
    });
    round_trip(NetworkPacket::JoinChannel("Lobby".to_string()));
    round_trip(NetworkPacket::CreateChannel(String::new()));
    round_trip(NetworkPacket::TypingStatus { username: "x".to_string(), is_typing: true });
    round_trip(NetworkPacket::RequestChatHistory { channel: "Lobby".to_string() });
    round_trip(NetworkPacket::RequestDirectHistory { target: "bob".to_string() });
    round_trip(NetworkPacket::RequestProfile("carol".to_string()));
    round_trip(NetworkPacket::AdminAction {
        target: "bob".to_string(),
        action: AdminActionType::Mute,
    });
}

#[test]
fn payload_packets_round_trip() {
    round_trip(NetworkPacket::Audio {
        username: "alice".to_string(),
        data: vec![0, 1, u32::MAX, 48_000],
    });
    round_trip(NetworkPacket::ChatMessage {
        id: u128::MAX,
        username: "alice".to_string(),
        message: vec![0, 255, 128],
        timestamp: u64::MAX,
    });
    round_trip(NetworkPacket::PrivateMessage {
        id: 7,
        from: "a".to_string(),
        to: "b".to_string(),
        message: vec![],
        timestamp: 0,
    });
    round_trip(NetworkPacket::FileStart {
        id: 42,
        from: "alice".to_string(),
        to: Some("bob".to_string()),
        filename: "pic.png".to_string(),
        total_chunks: 3,
        is_image: true,
        timestamp: 9,
    });
    round_trip(NetworkPacket::FileChunk { id: 42, chunk_index: 2, data: vec![1, 2, 3] });
    round_trip(NetworkPacket::FileMessage {
        id: 42,
        from: "alice".to_string(),
        to: None,
        filename: "pic.png".to_string(),
        data: vec![1, 2, 3, 4],
        is_image: false,
        timestamp: 10,
    });
    round_trip(NetworkPacket::Reaction {
        msg_id: 1,
        from: "bob".to_string(),
        emoji: "+1".to_string(),
    });
    round_trip(NetworkPacket::AuthResponse {
        success: true,
        message: "Login successful!".to_string(),
        role: Some(Role::Admin),
        status: Some("away".to_string()),
        nick_color: Some("#FFFFFF".to_string()),
    });
    round_trip(NetworkPacket::AuthResponse {
        success: false,
        message: "Invalid password".to_string(),
        role: None,
        status: None,
        nick_color: None,
    });
    round_trip(NetworkPacket::ProfileUpdate {
        username: "alice".to_string(),
        avatar_url: "https://example.test/a.png".to_string(),
        bio: "hello".to_string(),
    });
    round_trip(NetworkPacket::UpdateProfile {
        status: "away".to_string(),
        nick_color: "#00FF00".to_string(),
    });
}

#[test]
fn nested_packets_round_trip() {
    round_trip(NetworkPacket::UsersUpdate(vec![
        ChannelMembers {
            channel: "Lobby".to_string(),
            members: vec![
                UserInfo {
                    username: "alice".to_string(),
                    role: Role::Admin,
                    is_muted: false,
                    status: String::new(),
                    nick_color: "#FFFFFF".to_string(),
                },
                UserInfo {
                    username: "bob".to_string(),
                    role: Role::User,
                    is_muted: true,
                    status: "afk".to_string(),
                    nick_color: "#00FF00".to_string(),
                },
            ],
        },
        ChannelMembers { channel: "AFK".to_string(), members: vec![] },
    ]));
    round_trip(NetworkPacket::ChatHistory(vec![
        HistoryEntry::Chat {
            id: 1,
            username: "alice".to_string(),
            message: b"hi".to_vec(),
            timestamp: 100,
        },
        HistoryEntry::File {
            id: 2,
            from: "bob".to_string(),
            to: Some("alice".to_string()),
            filename: "f.bin".to_string(),
            data: vec![9, 9],
            is_image: false,
            timestamp: 101,
        },
        HistoryEntry::Private {
            id: 3,
            from: "a".to_string(),
            to: "b".to_string(),
            message: vec![1],
            timestamp: 102,
        },
        HistoryEntry::Reaction { msg_id: 1, from: "bob".to_string(), emoji: "+1".to_string() },
    ]));
    round_trip(NetworkPacket::DirectHistory(vec![]));
}

#[test]
fn unicode_strings_round_trip() {
    round_trip(NetworkPacket::Handshake { username: "ålice✓".to_string() });
}

#[test]
fn malformed_input_decodes_to_nothing() {
    assert_eq!(decode_packet(&vec![]), None);
    // An unknown tag.
    assert_eq!(decode_packet(&vec![99u8]), None);
    // A truncated length prefix.
    assert_eq!(decode_packet(&vec![0u8, 5, 0, 0]), None);
    // A length prefix pointing past the end.
    assert_eq!(decode_packet(&vec![0u8, 200, 0, 0, 0, 0, 0, 0, 0, 97]), None);
    // Trailing garbage after a complete packet.
    assert_eq!(decode_packet(&vec![22u8, 0]), None);
    // A string that is not valid UTF-8.
    assert_eq!(decode_packet(&vec![0u8, 1, 0, 0, 0, 0, 0, 0, 0, 0xFF]), None);
}
