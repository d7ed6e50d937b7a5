//! Adaptive playout buffer for voice frames arriving from Brew. The playout depth grows with
//! the measured arrival jitter and after underruns, and shrinks again after a long stable run.
use vstd::prelude::*;
use std::collections::VecDeque;
use std::time::Instant;

verus! {

/// Minimum playout depth in frames.
pub const BREW_JITTER_MIN_FRAMES: usize = 2;
/// Default playout depth in frames.
pub const BREW_JITTER_BASE_FRAMES: usize = 4;
/// Maximum adaptive playout depth in frames.
pub const BREW_JITTER_TARGET_MAX_FRAMES: usize = 12;
/// Frames kept per call before the oldest are dropped.
pub const BREW_JITTER_MAX_FRAMES: usize = 24;
/// Playout depth from which the buffer counts as unhealthy.
pub const BREW_JITTER_WARN_TARGET_FRAMES: usize = 8;
/// Largest underrun boost of the playout depth.
pub const BREW_JITTER_MAX_BOOST: usize = 4;
/// Consecutive well-fed pops after which one underrun boost is given back.
pub const BREW_JITTER_STABLE_POPS: u32 = 80;

/// A received voice frame.
#[derive(Debug)]
pub struct JitterFrame {
    pub rx_seq: u64,
    pub rx_at: Instant,
    pub acelp_data: Vec<u8>,
}

/// The playout depth for a configured initial latency, a jitter allowance and an underrun
/// boost, kept within `[2, 12]` frames.
pub open spec fn target_for(initial: int, jitter: int, boost: int) -> int {
    let t = BREW_JITTER_BASE_FRAMES + initial + jitter + boost;
    if t < BREW_JITTER_MIN_FRAMES {
        BREW_JITTER_MIN_FRAMES as int
    } else if t > BREW_JITTER_TARGET_MAX_FRAMES {
        BREW_JITTER_TARGET_MAX_FRAMES as int
    } else {
        t
    }
}

/// Law: the playout depth never shrinks as the underrun boost grows, and one more boost makes
/// it exactly one frame deeper until the 12-frame cap is reached.
pub proof fn lemma_target_grows_with_boost(initial: int, jitter: int, boost: int)
    requires
        initial >= 0,
        jitter >= 0,
        boost >= 0,
    ensures
        target_for(initial, jitter, boost) <= target_for(initial, jitter, boost + 1),
        target_for(initial, jitter, boost) < BREW_JITTER_TARGET_MAX_FRAMES ==> target_for(initial, jitter, boost + 1)
            == target_for(initial, jitter, boost) + 1,
        BREW_JITTER_MIN_FRAMES <= target_for(initial, jitter, boost) <= BREW_JITTER_TARGET_MAX_FRAMES,
{
}

#[derive(Debug)]
pub struct VoiceJitterBuffer {
    frames: VecDeque<JitterFrame>,
    next_rx_seq: u64,
    started: bool,
    target_frames: usize,
    underrun_boost: usize,
    stable_pops: u32,
    dropped_overflow: u64,
    underruns: u64,
    initial_latency_frames: usize,
    /// Jitter allowance in frames: twice the smoothed arrival jitter over the frame interval.
    jitter_frames: usize,
}

impl VoiceJitterBuffer {
    /// Frames waiting for playout, oldest first.
    pub closed spec fn queued(&self) -> Seq<JitterFrame> {
        self.frames@
    }

    pub closed spec fn spec_started(&self) -> bool {
        self.started
    }

    pub closed spec fn spec_target(&self) -> usize {
        self.target_frames
    }

    pub closed spec fn spec_boost(&self) -> usize {
        self.underrun_boost
    }

    pub closed spec fn spec_stable_pops(&self) -> u32 {
        self.stable_pops
    }

    pub closed spec fn spec_dropped(&self) -> u64 {
        self.dropped_overflow
    }

    pub closed spec fn spec_underruns(&self) -> u64 {
        self.underruns
    }

    pub closed spec fn spec_initial(&self) -> usize {
        self.initial_latency_frames
    }

    pub closed spec fn spec_jitter(&self) -> usize {
        self.jitter_frames
    }

    pub closed spec fn spec_next_seq(&self) -> u64 {
        self.next_rx_seq
    }

    /// The queue holds at most 24 frames, the initial latency at most 10 frames, the boost at
    /// most 4, and the depth lies between 2 and 14 frames (the default depth plus the initial
    /// latency, before the first adaptation).
    pub closed spec fn wf(&self) -> bool {
        &&& self.frames@.len() <= BREW_JITTER_MAX_FRAMES
        &&& self.initial_latency_frames <= BREW_JITTER_TARGET_MAX_FRAMES - BREW_JITTER_MIN_FRAMES
        &&& self.underrun_boost <= BREW_JITTER_MAX_BOOST
        &&& BREW_JITTER_MIN_FRAMES <= self.target_frames <= BREW_JITTER_BASE_FRAMES + BREW_JITTER_TARGET_MAX_FRAMES
            - BREW_JITTER_MIN_FRAMES
    }

    /// An empty buffer whose playout starts `initial_latency_frames` (at most 10) frames
    /// deeper than the default.
    pub fn with_initial_latency(initial_latency_frames: usize) -> (b: Self)
        ensures
            b.wf(),
            b.spec_initial() == if initial_latency_frames < 10 { initial_latency_frames } else { 10 },
            b.spec_target() == BREW_JITTER_BASE_FRAMES + b.spec_initial(),
            b.queued().len() == 0,
            !b.spec_started(),
            b.spec_boost() == 0,
            b.spec_stable_pops() == 0,
            b.spec_dropped() == 0,
            b.spec_underruns() == 0,
            b.spec_jitter() == 0,
            b.spec_next_seq() == 0,
    {
        let initial = if initial_latency_frames < BREW_JITTER_TARGET_MAX_FRAMES - BREW_JITTER_MIN_FRAMES {
            initial_latency_frames
        } else {
            BREW_JITTER_TARGET_MAX_FRAMES - BREW_JITTER_MIN_FRAMES
        };
        VoiceJitterBuffer {
            frames: VecDeque::new(),
            next_rx_seq: 0,
            started: false,
            target_frames: BREW_JITTER_BASE_FRAMES + initial,
            underrun_boost: 0,
            stable_pops: 0,
            dropped_overflow: 0,
            underruns: 0,
            initial_latency_frames: initial,
            jitter_frames: 0,
        }
    }

    fn recompute_target(&mut self)
        requires
            old(self).initial_latency_frames <= 10,
            old(self).underrun_boost <= BREW_JITTER_MAX_BOOST,
        ensures
            final(self).target_frames == target_for(
                old(self).initial_latency_frames as int,
                old(self).jitter_frames as int,
                old(self).underrun_boost as int,
            ),
            final(self).frames@ == old(self).frames@,
            final(self).next_rx_seq == old(self).next_rx_seq,
            final(self).started == old(self).started,
            final(self).underrun_boost == old(self).underrun_boost,
            final(self).stable_pops == old(self).stable_pops,
            final(self).dropped_overflow == old(self).dropped_overflow,
            final(self).underruns == old(self).underruns,
            final(self).initial_latency_frames == old(self).initial_latency_frames,
            final(self).jitter_frames == old(self).jitter_frames,
    {
        let jitter = if self.jitter_frames < BREW_JITTER_TARGET_MAX_FRAMES {
            self.jitter_frames
        } else {
            BREW_JITTER_TARGET_MAX_FRAMES
        };
        let target = BREW_JITTER_BASE_FRAMES + self.initial_latency_frames + jitter + self.underrun_boost;
        self.target_frames = if target < BREW_JITTER_MIN_FRAMES {
            BREW_JITTER_MIN_FRAMES
        } else if target > BREW_JITTER_TARGET_MAX_FRAMES {
            BREW_JITTER_TARGET_MAX_FRAMES
        } else {
            target
        };
    }

    /// Queue a frame received at `rx_at`, with the current jitter allowance in frames. Beyond
    /// 24 queued frames the oldest is dropped. The playout depth follows the new allowance.
    pub fn push(&mut self, acelp_data: Vec<u8>, rx_at: Instant, jitter_frames: usize)
        requires
            old(self).wf(),
        ensures
            final(self).wf(),
            ({
                let f = JitterFrame { rx_seq: old(self).spec_next_seq(), rx_at, acelp_data };
                let q = old(self).queued().push(f);
                &&& q.len() > BREW_JITTER_MAX_FRAMES ==> final(self).queued() == q.drop_first() && final(self).spec_dropped()
                    == (if old(self).spec_dropped() < u64::MAX { old(self).spec_dropped() + 1 } else { u64::MAX as int })
                &&& q.len() <= BREW_JITTER_MAX_FRAMES ==> final(self).queued() == q && final(self).spec_dropped() == old(
                    self,
                ).spec_dropped()
            }),
            final(self).spec_next_seq() == (if old(self).spec_next_seq() < u64::MAX { old(self).spec_next_seq() + 1 } else { 0 }),
            final(self).spec_jitter() == jitter_frames,
            final(self).spec_target() == target_for(
                old(self).spec_initial() as int,
                jitter_frames as int,
                old(self).spec_boost() as int,
            ),
            final(self).spec_started() == old(self).spec_started(),
            final(self).spec_boost() == old(self).spec_boost(),
            final(self).spec_stable_pops() == old(self).spec_stable_pops(),
            final(self).spec_underruns() == old(self).spec_underruns(),
            final(self).spec_initial() == old(self).spec_initial(),
    {
        self.jitter_frames = jitter_frames;
        let frame = JitterFrame { rx_seq: self.next_rx_seq, rx_at, acelp_data };
        self.next_rx_seq = self.next_rx_seq.wrapping_add(1);
        self.frames.push_back(frame);
        if self.frames.len() > BREW_JITTER_MAX_FRAMES {
            self.frames.pop_front();
            self.dropped_overflow = self.dropped_overflow.saturating_add(1);
        }
        self.recompute_target();
    }

    /// The next frame to play, once the buffer has filled to its playout depth. An empty
    /// buffer counts an underrun, raises the depth (up to 4 extra frames) and starts filling
    /// again; 80 consecutive pops that leave the buffer at depth give one extra frame back.
    pub fn pop_ready(&mut self) -> (r: Option<JitterFrame>)
        requires
            old(self).wf(),
        ensures
            final(self).wf(),
            final(self).spec_initial() == old(self).spec_initial(),
            final(self).spec_jitter() == old(self).spec_jitter(),
            final(self).spec_next_seq() == old(self).spec_next_seq(),
            final(self).spec_dropped() == old(self).spec_dropped(),
            ({
                let q = old(self).queued();
                let t = old(self).spec_target();
                if !old(self).spec_started() && q.len() < t {
                    r is None && final(self).queued() == q && !final(self).spec_started() && final(self).spec_target() == t
                        && final(self).spec_boost() == old(self).spec_boost() && final(self).spec_stable_pops() == old(
                        self,
                    ).spec_stable_pops() && final(self).spec_underruns() == old(self).spec_underruns()
                } else if q.len() == 0 {
                    let boost = if old(self).spec_boost() + 1 < BREW_JITTER_MAX_BOOST {
                        old(self).spec_boost() + 1
                    } else {
                        BREW_JITTER_MAX_BOOST as int
                    };
                    &&& r is None
                    &&& final(self).queued() == q
                    &&& !final(self).spec_started()
                    &&& final(self).spec_underruns() == (if old(self).spec_underruns() < u64::MAX {
                        old(self).spec_underruns() + 1
                    } else {
                        u64::MAX as int
                    })
                    &&& final(self).spec_boost() == boost
                    &&& final(self).spec_stable_pops() == 0
                    &&& final(self).spec_target() == target_for(
                        old(self).spec_initial() as int,
                        old(self).spec_jitter() as int,
                        boost,
                    )
                    &&& old(self).spec_boost() < BREW_JITTER_MAX_BOOST && old(self).spec_target()
                        < BREW_JITTER_TARGET_MAX_FRAMES && old(self).spec_target() == BREW_JITTER_BASE_FRAMES
                        + old(self).spec_initial() + old(self).spec_jitter() + old(self).spec_boost()
                        ==> final(self).spec_target() == old(self).spec_target() + 1
                } else {
                    let stable = if old(self).spec_stable_pops() < u32::MAX {
                        old(self).spec_stable_pops() + 1
                    } else {
                        u32::MAX as int
                    };
                    &&& r == Some(q[0])
                    &&& final(self).queued() == q.drop_first()
                    &&& final(self).spec_started()
                    &&& final(self).spec_underruns() == old(self).spec_underruns()
                    &&& q.len() - 1 < t ==> final(self).spec_stable_pops() == 0 && final(self).spec_boost() == old(
                        self,
                    ).spec_boost() && final(self).spec_target() == t
                    &&& q.len() - 1 >= t && stable < BREW_JITTER_STABLE_POPS ==> final(self).spec_stable_pops() == stable
                        && final(self).spec_boost() == old(self).spec_boost() && final(self).spec_target() == t
                    &&& q.len() - 1 >= t && stable >= BREW_JITTER_STABLE_POPS && old(self).spec_boost() == 0
                        ==> final(self).spec_stable_pops() == 0 && final(self).spec_boost() == 0 && final(self).spec_target()
                        == t
                    &&& q.len() - 1 >= t && stable >= BREW_JITTER_STABLE_POPS && old(self).spec_boost() > 0
                        ==> final(self).spec_stable_pops() == 0 && final(self).spec_boost() == old(self).spec_boost() - 1
                        && final(self).spec_target() == target_for(
                        old(self).spec_initial() as int,
                        old(self).spec_jitter() as int,
                        old(self).spec_boost() - 1,
                    )
                }
            }),
    {
        if !self.started {
            if self.frames.len() < self.target_frames {
                return None;
            }
            self.started = true;
        }
        match self.frames.pop_front() {
            Some(frame) => {
                if self.frames.len() >= self.target_frames {
                    self.stable_pops = self.stable_pops.saturating_add(1);
                    if self.stable_pops >= BREW_JITTER_STABLE_POPS {
                        self.stable_pops = 0;
                        if self.underrun_boost > 0 {
                            self.underrun_boost = self.underrun_boost - 1;
                            self.recompute_target();
                        }
                    }
                } else {
                    self.stable_pops = 0;
                }
                Some(frame)
            },
            None => {
                self.started = false;
                self.underruns = self.underruns.saturating_add(1);
                self.underrun_boost = if self.underrun_boost + 1 < BREW_JITTER_MAX_BOOST {
                    self.underrun_boost + 1
                } else {
                    BREW_JITTER_MAX_BOOST
                };
                self.stable_pops = 0;
                self.recompute_target();
                None
            },
        }
    }

    /// The playout depth in frames (at least 2).
    pub fn target_frames(&self) -> (t: usize)
        requires
            self.wf(),
        ensures
            t == self.spec_target(),
    {
        if self.target_frames < BREW_JITTER_MIN_FRAMES {
            BREW_JITTER_MIN_FRAMES
        } else {
            self.target_frames
        }
    }

    /// Whether the buffer is worth a warning: a deep playout target or underruns seen.
    pub fn is_unhealthy(&self) -> (r: bool)
        requires
            self.wf(),
        ensures
            r == (self.spec_target() >= BREW_JITTER_WARN_TARGET_FRAMES || self.spec_underruns() > 0),
    {
        self.target_frames() >= BREW_JITTER_WARN_TARGET_FRAMES || self.underruns > 0
    }

    /// Frames waiting for playout.
    pub fn len(&self) -> (n: usize)
        ensures
            n == self.queued().len(),
    {
        self.frames.len()
    }

    /// Underruns seen so far.
    pub fn underruns(&self) -> (n: u64)
        ensures
            n == self.spec_underruns(),
    {
        self.underruns
    }

    /// Frames dropped because the queue was full.
    pub fn dropped_overflow(&self) -> (n: u64)
        ensures
            n == self.spec_dropped(),
    {
        self.dropped_overflow
    }

    /// Drop every queued frame (speaker change or teardown) and start afresh at the default
    /// depth. Returns how many frames were dropped.
    pub fn flush(&mut self) -> (n: usize)
        requires
            old(self).wf(),
        ensures
            final(self).wf(),
            n == old(self).queued().len(),
            final(self).queued().len() == 0,
            !final(self).spec_started(),
            final(self).spec_boost() == 0,
            final(self).spec_stable_pops() == 0,
            final(self).spec_target() == BREW_JITTER_BASE_FRAMES + old(self).spec_initial(),
            final(self).spec_initial() == old(self).spec_initial(),
            final(self).spec_jitter() == old(self).spec_jitter(),
            final(self).spec_next_seq() == old(self).spec_next_seq(),
            final(self).spec_dropped() == old(self).spec_dropped(),
            final(self).spec_underruns() == old(self).spec_underruns(),
    {
        let count = self.frames.len();
        self.frames.clear();
        self.started = false;
        self.underrun_boost = 0;
        self.stable_pops = 0;
        self.target_frames = BREW_JITTER_BASE_FRAMES + self.initial_latency_frames;
        count
    }
}

} // verus!
