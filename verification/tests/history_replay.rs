use speakv::history::{history_for_channel, history_for_direct, ts_of};
use speakv::packet::HistoryEntry;
use speakv::store::{ChatRecord, FileRecord, PrivateRecord, ReactionRecord, Store};

fn chat(st: &mut Store, id: u128, channel: &str, ts: u64) {
    st.chat_messages.push(ChatRecord {
        id,
        username: "alice".to_string(),
        channel: channel.to_string(),
        message: vec![id as u8],
        timestamp: ts,
    });
}

#[test]
fn replay_is_sorted_by_timestamp_ascending() {
    let mut st = Store::new();
    chat(&mut st, 1, "Lobby", 300);
    chat(&mut st, 2, "Lobby", 100);
    chat(&mut st, 3, "Lobby", 200);
    chat(&mut st, 4, "Other", 50);
    let out = history_for_channel(&st, &"Lobby".to_string());
    assert_eq!(out.len(), 3);
    let ts: Vec<u64> = out.iter().map(ts_of).collect();
    assert_eq!(ts, vec![100, 200, 300]);
}

#[test]
fn replay_never_exceeds_the_window_per_kind() {
    let mut st = Store::new();
    for i in 0..60u64 {
        chat(&mut st, i as u128, "Lobby", i);
    }
    let out = history_for_channel(&st, &"Lobby".to_string());
    assert_eq!(out.len(), 50);
    // The most recent records are kept: the oldest ten fall out.
    match &out[0] {
        HistoryEntry::Chat { timestamp, .. } => assert_eq!(*timestamp, 10),
        other => panic!("unexpected entry {:?}", other),
    }
}

#[test]
fn reactions_attach_only_to_replayed_messages() {
    let mut st = Store::new();
    chat(&mut st, 1, "Lobby", 100);
    chat(&mut st, 2, "Other", 100);
    st.reactions.push(ReactionRecord {
        msg_id: 1,
        username: "bob".to_string(),
        emoji: "+1".to_string(),
    });
    st.reactions.push(ReactionRecord {
        msg_id: 2,
        username: "bob".to_string(),
        emoji: "-1".to_string(),
    });
    let out = history_for_channel(&st, &"Lobby".to_string());
    assert_eq!(out.len(), 2);
    match &out[1] {
        HistoryEntry::Reaction { msg_id, emoji, .. } => {
            assert_eq!(*msg_id, 1);
            assert_eq!(emoji, "+1");
        },
        other => panic!("unexpected entry {:?}", other),
    }
}

#[test]
fn direct_history_merges_both_directions_and_files() {
    let mut st = Store::new();
    st.private_messages.push(PrivateRecord {
        id: 1,
        sender: "alice".to_string(),
        recipient: "bob".to_string(),
        message: b"one".to_vec(),
        timestamp: 200,
    });
    st.private_messages.push(PrivateRecord {
        id: 2,
        sender: "bob".to_string(),
        recipient: "alice".to_string(),
        message: b"two".to_vec(),
        timestamp: 100,
    });
    st.private_messages.push(PrivateRecord {
        id: 3,
        sender: "alice".to_string(),
        recipient: "carol".to_string(),
        message: b"other pair".to_vec(),
        timestamp: 50,
    });
    st.file_messages.push(FileRecord {
        id: 4,
        sender: "bob".to_string(),
        channel: String::new(),
        recipient: Some("alice".to_string()),
        filename: "f.bin".to_string(),
        data: vec![7],
        is_image: false,
        timestamp: 150,
    });
    let out = history_for_direct(&st, &"alice".to_string(), &"bob".to_string());
    assert_eq!(out.len(), 3);
    let ts: Vec<u64> = out.iter().map(ts_of).collect();
    assert_eq!(ts, vec![100, 150, 200]);
}

#[test]
fn channel_replay_skips_direct_files() {
    let mut st = Store::new();
    st.file_messages.push(FileRecord {
        id: 1,
        sender: "alice".to_string(),
        channel: "Lobby".to_string(),
        recipient: Some("bob".to_string()),
        filename: "dm.bin".to_string(),
        data: vec![1],
        is_image: false,
        timestamp: 10,
    });
    st.file_messages.push(FileRecord {
        id: 2,
        sender: "alice".to_string(),
        channel: "Lobby".to_string(),
        recipient: None,
        filename: "open.bin".to_string(),
        data: vec![2],
        is_image: false,
        timestamp: 20,
    });
    let out = history_for_channel(&st, &"Lobby".to_string());
    assert_eq!(out.len(), 1);
    match &out[0] {
        HistoryEntry::File { id, .. } => assert_eq!(*id, 2),
        other => panic!("unexpected entry {:?}", other),
    }
}
