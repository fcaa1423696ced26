//! The client session's per-tick decisions: what one loop iteration sends,
//! and where one inbound packet goes. The socket, the timer and the audio
//! device live outside; they hand values in and carry values out.
use vstd::prelude::*;

use crate::audio::SampleQueue;
use crate::packet::{NetworkPacket, PacketV};
use crate::FRAME_SAMPLES;

verus! {

/// Where one inbound packet belongs on the client.
#[derive(PartialEq, Debug)]
pub enum InboundRoute {
    /// An audio frame: scale by the sender's gain and queue for playback,
    /// surfacing the sender as currently speaking.
    ToAudio { username: String, samples: Vec<u32> },
    /// Anything else is handed to the application inbox unchanged.
    ToInbox(NetworkPacket),
}

/// What one cadence tick of the session loop sends, in order: every queued
/// application packet first, so a saturated audio path cannot starve
/// control traffic, then at most one audio frame. A full frame leaves the
/// capture queue exactly when one is available: sent when transmission is
/// permitted, discarded (with the rest of the backlog) when it is not, so
/// gated audio neither leaks nor accumulates.
pub fn outgoing_burst(
    pending: &mut Vec<NetworkPacket>,
    capture: &mut SampleQueue,
    can_transmit: bool,
    username: &String,
) -> (out: Vec<NetworkPacket>)
    requires
        old(capture).wf(),
    ensures
        final(capture).wf(),
        final(capture).spec_capacity() == old(capture).spec_capacity(),
        final(pending)@.len() == 0,
        out@.len() >= old(pending)@.len(),
        out@.take(old(pending)@.len() as int) == old(pending)@,
        ({
            let frame_ready = old(capture)@.len() >= FRAME_SAMPLES;
            &&& (frame_ready && can_transmit) ==> {
                &&& out@.len() == old(pending)@.len() + 1
                &&& out@.last() is Audio
                &&& out@.last().deep_view() == PacketV::Audio {
                    username: username@,
                    data: old(capture)@.take(FRAME_SAMPLES as int),
                }
                &&& final(capture)@ == old(capture)@.skip(FRAME_SAMPLES as int)
            }
            &&& (frame_ready && !can_transmit) ==> out@.len() == old(pending)@.len() && final(capture)@.len() == 0
            &&& !frame_ready ==> out@.len() == old(pending)@.len() && final(capture)@ == old(capture)@
        }),
{
    let mut out = pending.split_off(0);
    proof {
        assert(out@ =~= old(pending)@);
        assert(out@.take(old(pending)@.len() as int) =~= old(pending)@);
    }
    if capture.len() >= FRAME_SAMPLES {
        if can_transmit {
            match capture.pop_frame(FRAME_SAMPLES) {
                Option::Some(frame) => {
                    let pkt = NetworkPacket::Audio { username: username.clone(), data: frame };
                    proof {
                        assert(pkt.deep_view() == PacketV::Audio {
                            username: username@,
                            data: old(capture)@.take(FRAME_SAMPLES as int),
                        });
                        assert(out@.push(pkt).take(old(pending)@.len() as int) =~= out@);
                    }
                    out.push(pkt);
                },
                Option::None => {},
            }
        } else {
            capture.clear();
        }
    }
    out
}

/// Demultiplexes one decoded inbound packet: audio goes to the playback
/// path tagged with its sender, everything else to the application inbox
/// unchanged.
pub fn dispatch_inbound(packet: NetworkPacket) -> (r: InboundRoute)
    ensures
        match packet.deep_view() {
            PacketV::Audio { username, data } => r matches InboundRoute::ToAudio {
                username: u,
                samples: s,
            } && u@ == username && s@ == data,
            _ => r matches InboundRoute::ToInbox(p) && p.deep_view() == packet.deep_view(),
        },
{
    match packet {
        NetworkPacket::Audio { username, data } => InboundRoute::ToAudio {
            username,
            samples: data,
        },
        other => InboundRoute::ToInbox(other),
    }
}

} // verus!
