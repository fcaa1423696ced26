use speakv::audio::{AudioPipeline, SampleQueue, SILENCE};
use speakv::packet::NetworkPacket;
use speakv::session::{dispatch_inbound, outgoing_burst, InboundRoute};
use speakv::FRAME_SAMPLES;

#[test]
fn queue_drops_newest_on_overflow_and_yields_silence_on_underrun() {
    let mut q = SampleQueue::new(2);
    assert!(q.push(1));
    assert!(q.push(2));
    // The queue is full: the newest sample is dropped, never the backlog.
    assert!(!q.push(3));
    assert_eq!(q.pop(), Some(1));
    assert_eq!(q.pop(), Some(2));
    assert_eq!(q.pop(), None);
    assert_eq!(q.pop_or_silence(), SILENCE);
}

#[test]
fn capture_block_respects_mute_and_self_listen() {
    let mut p = AudioPipeline::new(8);
    p.set_input_muted(true);
    p.capture_block(&vec![1, 2, 3]);
    assert_eq!(p.capture.len(), 0);
    p.set_input_muted(false);
    p.capture_block(&vec![1, 2, 3]);
    assert_eq!(p.capture.len(), 3);
    assert_eq!(p.monitor.len(), 0);
    p.set_self_listen(true);
    p.capture_block(&vec![4, 5]);
    assert_eq!(p.capture.len(), 5);
    assert_eq!(p.monitor.len(), 2);
}

#[test]
fn playback_is_silent_under_output_mute_and_pads_underrun() {
    let mut p = AudioPipeline::new(8);
    p.remote.push(7);
    p.set_output_muted(true);
    let out = p.playback_block(2);
    assert_eq!(out, vec![(SILENCE, SILENCE), (SILENCE, SILENCE)]);
    // Muted playback leaves the queues alone.
    assert_eq!(p.remote.len(), 1);
    p.set_output_muted(false);
    p.monitor.push(3);
    let out = p.playback_block(2);
    assert_eq!(out, vec![(3, 7), (SILENCE, SILENCE)]);
    assert_eq!(p.remote.len(), 0);
}

#[test]
fn control_packets_go_before_audio_and_gating_discards_the_frame() {
    let mut pending = vec![NetworkPacket::Ping, NetworkPacket::JoinChannel("Lobby".to_string())];
    let mut capture = SampleQueue::new(FRAME_SAMPLES * 2);
    for i in 0..FRAME_SAMPLES {
        capture.push(i as u32);
    }
    let out = outgoing_burst(&mut pending, &mut capture, true, &"alice".to_string());
    assert!(pending.is_empty());
    assert_eq!(out.len(), 3);
    assert_eq!(out[0], NetworkPacket::Ping);
    assert_eq!(out[1], NetworkPacket::JoinChannel("Lobby".to_string()));
    match &out[2] {
        NetworkPacket::Audio { username, data } => {
            assert_eq!(username, "alice");
            assert_eq!(data.len(), FRAME_SAMPLES);
            assert_eq!(data[0], 0);
            assert_eq!(data[FRAME_SAMPLES - 1], (FRAME_SAMPLES - 1) as u32);
        },
        other => panic!("unexpected packet {:?}", other),
    }
    assert_eq!(capture.len(), 0);
    // With transmission gated, a ready frame is discarded, not sent and not
    // left to accumulate.
    for i in 0..FRAME_SAMPLES {
        capture.push(i as u32);
    }
    let mut pending: Vec<NetworkPacket> = Vec::new();
    let out = outgoing_burst(&mut pending, &mut capture, false, &"alice".to_string());
    assert!(out.is_empty());
    assert_eq!(capture.len(), 0);
    // With less than a full frame, nothing audio-related happens.
    capture.push(1);
    let mut pending: Vec<NetworkPacket> = Vec::new();
    let out = outgoing_burst(&mut pending, &mut capture, true, &"alice".to_string());
    assert!(out.is_empty());
    assert_eq!(capture.len(), 1);
}

#[test]
fn inbound_audio_goes_to_playback_and_the_rest_to_the_inbox() {
    let audio = NetworkPacket::Audio { username: "bob".to_string(), data: vec![1, 2] };
    match dispatch_inbound(audio) {
        InboundRoute::ToAudio { username, samples } => {
            assert_eq!(username, "bob");
            assert_eq!(samples, vec![1, 2]);
        },
        other => panic!("unexpected route {:?}", other),
    }
    let chat = NetworkPacket::ChatMessage {
        id: 1,
        username: "bob".to_string(),
        message: b"hi".to_vec(),
        timestamp: 9,
    };
    match dispatch_inbound(chat.clone()) {
        InboundRoute::ToInbox(p) => assert_eq!(p, chat),
        other => panic!("unexpected route {:?}", other),
    }
}
