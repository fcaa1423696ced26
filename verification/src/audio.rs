//! The audio pipeline's bounded sample queues and their gating rules.
//!
//! Samples travel as 32-bit wire words; the device layer turns them into
//! amplitudes. Every queue is bounded and non-blocking: the capture
//! direction drops the newest sample on overflow to bound latency, and the
//! playback direction substitutes silence on underrun rather than wait.
use vstd::prelude::*;

verus! {

/// The wire word of a silent sample.
pub const SILENCE: u32 = 0;

/// A bounded FIFO of sample words shared between a producer and a consumer
/// that may never block.
pub struct SampleQueue {
    buf: Vec<u32>,
    cap: usize,
}

impl SampleQueue {
    /// The samples queued, oldest first.
    pub closed spec fn view(&self) -> Seq<u32> {
        self.buf@
    }

    pub closed spec fn spec_capacity(&self) -> usize {
        self.cap
    }

    pub open spec fn wf(&self) -> bool {
        self@.len() <= self.spec_capacity()
    }

    pub fn new(capacity: usize) -> (r: SampleQueue)
        ensures
            r.wf(),
            r@.len() == 0,
            r.spec_capacity() == capacity,
    {
        SampleQueue { buf: Vec::new(), cap: capacity }
    }

    pub fn len(&self) -> (r: usize)
        ensures
            r == self@.len(),
    {
        self.buf.len()
    }

    pub fn capacity(&self) -> (r: usize)
        ensures
            r == self.spec_capacity(),
    {
        self.cap
    }

    /// Enqueues one sample unless the queue is full: on overflow the newest
    /// sample is dropped, bounding latency at the cost of a glitch.
    pub fn push(&mut self, sample: u32) -> (accepted: bool)
        requires
            old(self).wf(),
        ensures
            final(self).wf(),
            final(self).spec_capacity() == old(self).spec_capacity(),
            accepted == (old(self)@.len() < old(self).spec_capacity()),
            accepted ==> final(self)@ == old(self)@.push(sample),
            !accepted ==> final(self)@ == old(self)@,
    {
        if self.buf.len() < self.cap {
            self.buf.push(sample);
            true
        } else {
            false
        }
    }

    /// Dequeues the oldest sample; `None` on underrun, never blocking.
    pub fn pop(&mut self) -> (r: Option<u32>)
        requires
            old(self).wf(),
        ensures
            final(self).wf(),
            final(self).spec_capacity() == old(self).spec_capacity(),
            old(self)@.len() == 0 ==> r is None && final(self)@ == old(self)@,
            old(self)@.len() > 0 ==> r == Some(old(self)@[0]) && final(self)@ == old(self)@.skip(1),
    {
        if self.buf.len() == 0 {
            None
        } else {
            let s = self.buf.remove(0);
            proof {
                assert(self.buf@ =~= old(self).buf@.skip(1));
            }
            Some(s)
        }
    }

    /// Dequeues the oldest sample, substituting silence on underrun.
    pub fn pop_or_silence(&mut self) -> (r: u32)
        requires
            old(self).wf(),
        ensures
            final(self).wf(),
            final(self).spec_capacity() == old(self).spec_capacity(),
            old(self)@.len() == 0 ==> r == SILENCE && final(self)@ == old(self)@,
            old(self)@.len() > 0 ==> r == old(self)@[0] && final(self)@ == old(self)@.skip(1),
    {
        match self.pop() {
            Some(s) => s,
            None => SILENCE,
        }
    }

    /// Discards everything queued.
    pub fn clear(&mut self)
        requires
            old(self).wf(),
        ensures
            final(self).wf(),
            final(self).spec_capacity() == old(self).spec_capacity(),
            final(self)@.len() == 0,
    {
        self.buf.clear();
    }

    /// Dequeues exactly `n` samples — one network frame — or nothing at all
    /// when fewer are queued.
    pub fn pop_frame(&mut self, n: usize) -> (r: Option<Vec<u32>>)
        requires
            old(self).wf(),
        ensures
            final(self).wf(),
            final(self).spec_capacity() == old(self).spec_capacity(),
            old(self)@.len() < n ==> r is None && final(self)@ == old(self)@,
            old(self)@.len() >= n ==> r is Some && r.unwrap()@ == old(self)@.take(n as int)
                && final(self)@ == old(self)@.skip(n as int),
    {
        if self.buf.len() < n {
            return None;
        }
        let mut frame: Vec<u32> = Vec::new();
        let mut i: usize = 0;
        while i < n
            invariant
                i <= n,
                n <= old(self)@.len(),
                self.wf(),
                self.spec_capacity() == old(self).spec_capacity(),
                frame@ == old(self)@.take(i as int),
                self@ == old(self)@.skip(i as int),
            decreases n - i,
        {
            let s = self.pop_or_silence();
            proof {
                assert(old(self)@.skip(i as int)[0] == old(self)@[i as int]);
                assert(old(self)@.skip(i as int).skip(1) =~= old(self)@.skip(i + 1));
                assert(old(self)@.take(i as int).push(old(self)@[i as int]) =~= old(self)@.take(
                    i + 1,
                ));
            }
            frame.push(s);
            i += 1;
        }
        Some(frame)
    }
}

/// The three directional queues of the audio path and the local gating
/// flags, as one state object between the device loop and the session.
pub struct AudioPipeline {
    pub capture: SampleQueue,
    pub monitor: SampleQueue,
    pub remote: SampleQueue,
    pub input_muted: bool,
    pub output_muted: bool,
    pub self_listen: bool,
}

/// How many of a block's samples a bounded queue accepts.
pub open spec fn accepted_count(have: nat, cap: nat, offered: nat) -> nat {
    if have >= cap {
        0
    } else if offered <= cap - have {
        offered
    } else {
        (cap - have) as nat
    }
}

impl AudioPipeline {
    pub open spec fn wf(&self) -> bool {
        &&& self.capture.wf()
        &&& self.monitor.wf()
        &&& self.remote.wf()
    }

    pub fn new(capacity: usize) -> (r: AudioPipeline)
        ensures
            r.wf(),
            r.capture@.len() == 0,
            r.monitor@.len() == 0,
            r.remote@.len() == 0,
            !r.input_muted,
            !r.output_muted,
            !r.self_listen,
            r.capture.spec_capacity() == capacity,
            r.monitor.spec_capacity() == capacity,
            r.remote.spec_capacity() == capacity,
    {
        AudioPipeline {
            capture: SampleQueue::new(capacity),
            monitor: SampleQueue::new(capacity),
            remote: SampleQueue::new(capacity),
            input_muted: false,
            output_muted: false,
            self_listen: false,
        }
    }

    pub fn set_input_muted(&mut self, muted: bool)
        ensures
            *final(self) == (AudioPipeline { input_muted: muted, ..*old(self) }),
    {
        self.input_muted = muted;
    }

    pub fn set_output_muted(&mut self, muted: bool)
        ensures
            *final(self) == (AudioPipeline { output_muted: muted, ..*old(self) }),
    {
        self.output_muted = muted;
    }

    pub fn set_self_listen(&mut self, listen: bool)
        ensures
            *final(self) == (AudioPipeline { self_listen: listen, ..*old(self) }),
    {
        self.self_listen = listen;
    }

    /// One hardware capture block: while locally muted nothing is queued.
    /// Otherwise every sample is offered to the network capture queue
    /// (transmit gating is the session's decision, not this one), and
    /// mirrored into the self-monitor queue only under self-listen. Each
    /// queue keeps as much of the block as its bound allows and drops the
    /// rest, newest first.
    pub fn capture_block(&mut self, samples: &Vec<u32>)
        requires
            old(self).wf(),
        ensures
            final(self).wf(),
            final(self).input_muted == old(self).input_muted,
            final(self).output_muted == old(self).output_muted,
            final(self).self_listen == old(self).self_listen,
            final(self).remote == old(self).remote,
            final(self).capture.spec_capacity() == old(self).capture.spec_capacity(),
            final(self).monitor.spec_capacity() == old(self).monitor.spec_capacity(),
            old(self).input_muted ==> final(self).capture == old(self).capture && final(self).monitor == old(self).monitor,
            !old(self).input_muted ==> final(self).capture@ == old(self).capture@ + samples@.take(
                accepted_count(
                    old(self).capture@.len(),
                    old(self).capture.spec_capacity() as nat,
                    samples@.len(),
                ) as int,
            ),
            !old(self).input_muted && old(self).self_listen ==> final(self).monitor@ == old(self).monitor@ + samples@.take(
                accepted_count(
                    old(self).monitor@.len(),
                    old(self).monitor.spec_capacity() as nat,
                    samples@.len(),
                ) as int,
            ),
            !old(self).input_muted && !old(self).self_listen ==> final(self).monitor == old(self).monitor,
    {
        if self.input_muted {
            return ;
        }
        let mut i: usize = 0;
        while i < samples.len()
            invariant
                i <= samples@.len(),
                self.wf(),
                self.capture.spec_capacity() == old(self).capture.spec_capacity(),
                self.monitor.spec_capacity() == old(self).monitor.spec_capacity(),
                self.remote == old(self).remote,
                self.input_muted == old(self).input_muted,
                self.output_muted == old(self).output_muted,
                self.self_listen == old(self).self_listen,
                self.capture@ == old(self).capture@ + samples@.take(
                    accepted_count(
                        old(self).capture@.len(),
                        old(self).capture.spec_capacity() as nat,
                        i as nat,
                    ) as int,
                ),
                old(self).self_listen ==> self.monitor@ == old(self).monitor@ + samples@.take(
                    accepted_count(
                        old(self).monitor@.len(),
                        old(self).monitor.spec_capacity() as nat,
                        i as nat,
                    ) as int,
                ),
                !old(self).self_listen ==> self.monitor == old(self).monitor,
            decreases samples@.len() - i,
        {
            let s = samples[i];
            let ghost pre = self.capture@;
            let accepted = self.capture.push(s);
            proof {
                let cap = old(self).capture.spec_capacity() as nat;
                let have = old(self).capture@.len();
                let c_i = accepted_count(have, cap, i as nat);
                let c_i1 = accepted_count(have, cap, (i + 1) as nat);
                if accepted {
                    assert(c_i1 == c_i + 1);
                    assert(samples@.take(c_i1 as int) =~= samples@.take(c_i as int).push(
                        samples@[i as int],
                    ));
                    assert(self.capture@ =~= old(self).capture@ + samples@.take(c_i1 as int));
                } else {
                    assert(c_i1 == c_i);
                }
            }
            if self.self_listen {
                let ghost pre_m = self.monitor@;
                let accepted_m = self.monitor.push(s);
                proof {
                    let cap = old(self).monitor.spec_capacity() as nat;
                    let have = old(self).monitor@.len();
                    let c_i = accepted_count(have, cap, i as nat);
                    let c_i1 = accepted_count(have, cap, (i + 1) as nat);
                    if accepted_m {
                        assert(c_i1 == c_i + 1);
                        assert(samples@.take(c_i1 as int) =~= samples@.take(c_i as int).push(
                            samples@[i as int],
                        ));
                        assert(self.monitor@ =~= old(self).monitor@ + samples@.take(
                            c_i1 as int,
                        ));
                    } else {
                        assert(c_i1 == c_i);
                    }
                }
            }
            i += 1;
        }
    }

    /// One hardware playback block of `count` sample pairs: under output
    /// mute every pair is silence and the queues are left alone; otherwise
    /// each pair takes the oldest self-monitor and remote sample, silence
    /// substituted the moment a queue runs dry. The device layer sums the
    /// pair into one output amplitude.
    pub fn playback_block(&mut self, count: usize) -> (r: Vec<(u32, u32)>)
        requires
            old(self).wf(),
        ensures
            final(self).wf(),
            final(self).capture == old(self).capture,
            final(self).input_muted == old(self).input_muted,
            final(self).output_muted == old(self).output_muted,
            final(self).self_listen == old(self).self_listen,
            final(self).monitor.spec_capacity() == old(self).monitor.spec_capacity(),
            final(self).remote.spec_capacity() == old(self).remote.spec_capacity(),
            r@.len() == count,
            old(self).output_muted ==> final(self).monitor == old(self).monitor && final(self).remote == old(self).remote && forall|k: int|
                0 <= k < count ==> r@[k] == (SILENCE, SILENCE),
            !old(self).output_muted ==> {
                &&& final(self).monitor@ == (if old(self).monitor@.len() <= count {
                    Seq::<u32>::empty()
                } else {
                    old(self).monitor@.skip(count as int)
                })
                &&& final(self).remote@ == (if old(self).remote@.len() <= count {
                    Seq::<u32>::empty()
                } else {
                    old(self).remote@.skip(count as int)
                })
                &&& forall|k: int|
                    0 <= k < count ==> (#[trigger] r@[k]).0 == (if k < old(self).monitor@.len() {
                        old(self).monitor@[k]
                    } else {
                        SILENCE
                    }) && r@[k].1 == (if k < old(self).remote@.len() {
                        old(self).remote@[k]
                    } else {
                        SILENCE
                    })
            },
    {
        let mut out: Vec<(u32, u32)> = Vec::new();
        if self.output_muted {
            let mut k: usize = 0;
            while k < count
                invariant
                    k <= count,
                    out@.len() == k,
                    forall|m: int| 0 <= m < k ==> out@[m] == (SILENCE, SILENCE),
                decreases count - k,
            {
                out.push((SILENCE, SILENCE));
                k += 1;
            }
            return out;
        }
        let mut k: usize = 0;
        while k < count
            invariant
                k <= count,
                out@.len() == k,
                self.wf(),
                self.capture == old(self).capture,
                self.input_muted == old(self).input_muted,
                self.output_muted == old(self).output_muted,
                self.self_listen == old(self).self_listen,
                self.monitor.spec_capacity() == old(self).monitor.spec_capacity(),
                self.remote.spec_capacity() == old(self).remote.spec_capacity(),
                self.monitor@ == (if old(self).monitor@.len() <= k {
                    Seq::<u32>::empty()
                } else {
                    old(self).monitor@.skip(k as int)
                }),
                self.remote@ == (if old(self).remote@.len() <= k {
                    Seq::<u32>::empty()
                } else {
                    old(self).remote@.skip(k as int)
                }),
                forall|m: int|
                    0 <= m < k ==> (#[trigger] out@[m]).0 == (if m < old(self).monitor@.len() {
                        old(self).monitor@[m]
                    } else {
                        SILENCE
                    }) && out@[m].1 == (if m < old(self).remote@.len() {
                        old(self).remote@[m]
                    } else {
                        SILENCE
                    }),
            decreases count - k,
        {
            let local = self.monitor.pop_or_silence();
            let remote = self.remote.pop_or_silence();
            proof {
                if old(self).monitor@.len() > k {
                    assert(old(self).monitor@.skip(k as int)[0] == old(self).monitor@[k as int]);
                    assert(old(self).monitor@.skip(k as int).skip(1) =~= old(self).monitor@.skip(
                        k + 1,
                    ));
                    if old(self).monitor@.len() <= k + 1 {
                        assert(old(self).monitor@.skip(k + 1) =~= Seq::<u32>::empty());
                    }
                }
                if old(self).remote@.len() > k {
                    assert(old(self).remote@.skip(k as int)[0] == old(self).remote@[k as int]);
                    assert(old(self).remote@.skip(k as int).skip(1) =~= old(self).remote@.skip(
                        k + 1,
                    ));
                    if old(self).remote@.len() <= k + 1 {
                        assert(old(self).remote@.skip(k + 1) =~= Seq::<u32>::empty());
                    }
                }
            }
            out.push((local, remote));
            k += 1;
        }
        out
    }
}

} // verus!
