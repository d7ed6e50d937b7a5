//! Local echo service: a full-duplex call to the echo ISSI is answered by looping the uplink
//! audio back as downlink after a fixed delay.
use vstd::prelude::*;
use std::collections::VecDeque;

verus! {

/// Frames of delay before echo playback.
pub const DELAY_FRAMES: usize = 10;

/// The echo service ISSI.
pub const ECHO_ISSI: u32 = 999;

/// One uplink frame `data` through a delay line holding `pending`: the frames left waiting
/// and the frame played back, if the line was full.
pub open spec fn echo_step(pending: Seq<Vec<u8>>, data: Vec<u8>) -> (Seq<Vec<u8>>, Option<Vec<u8>>) {
    if pending.len() < DELAY_FRAMES {
        (pending.push(data), None)
    } else {
        (pending.push(data).drop_first(), Some(pending[0]))
    }
}

/// What a fresh delay line holds after `frames` were fed, in order.
pub open spec fn echo_state(frames: Seq<Vec<u8>>) -> Seq<Vec<u8>>
    decreases frames.len(),
{
    if frames.len() == 0 {
        Seq::empty()
    } else {
        echo_step(echo_state(frames.drop_last()), frames.last()).0
    }
}

/// What a fresh delay line plays back when fed `frames[i]`, after `frames[..i]`.
pub open spec fn echo_output(frames: Seq<Vec<u8>>, i: int) -> Option<Vec<u8>> {
    echo_step(echo_state(frames.take(i)), frames[i]).1
}

/// A fresh delay line fed `frames` holds the last `DELAY_FRAMES` of them (all, if fewer).
proof fn lemma_echo_state(frames: Seq<Vec<u8>>)
    ensures
        echo_state(frames) == frames.subrange(
            if frames.len() > DELAY_FRAMES { frames.len() - DELAY_FRAMES } else { 0 },
            frames.len() as int,
        ),
    decreases frames.len(),
{
    if frames.len() > 0 {
        let init = frames.drop_last();
        lemma_echo_state(init);
        let n = frames.len() as int;
        if init.len() < DELAY_FRAMES {
            assert(init.subrange(0, n - 1).push(frames.last()) =~= frames.subrange(0, n));
        } else {
            let lo = if n - 1 > DELAY_FRAMES { n - 1 - DELAY_FRAMES } else { 0 };
            assert(init.subrange(lo, n - 1).push(frames.last()).drop_first() =~= frames.subrange(n - DELAY_FRAMES, n));
        }
    }
}

/// The echo delay line plays every frame back exactly `DELAY_FRAMES` frames later, in the
/// order fed: a session fed `frames` from fresh returns nothing for the first `DELAY_FRAMES`
/// frames, and then, for frame `i`, frame `i - DELAY_FRAMES`.
pub proof fn lemma_echo_delay(frames: Seq<Vec<u8>>, i: int)
    requires
        0 <= i < frames.len(),
    ensures
        echo_output(frames, i) == if i < DELAY_FRAMES { None } else { Some(frames[i - DELAY_FRAMES]) },
{
    let pre = frames.take(i);
    lemma_echo_state(pre);
    if i >= DELAY_FRAMES {
        assert(echo_state(pre)[0] == frames[i - DELAY_FRAMES]);
    }
}

/// Timeslot owned by an active echo call.
#[derive(Debug)]
pub struct EchoSession {
    pub ts: u8,
    pub call_id: u16,
    /// Frames received on the uplink, replayed as downlink after `DELAY_FRAMES`.
    buffer: VecDeque<Vec<u8>>,
}

impl EchoSession {
    pub closed spec fn spec_ts(&self) -> u8 {
        self.ts
    }

    pub closed spec fn spec_call_id(&self) -> u16 {
        self.call_id
    }

    /// The frames waiting for playback, oldest first.
    pub closed spec fn pending(&self) -> Seq<Vec<u8>> {
        self.buffer@
    }

    /// At most `DELAY_FRAMES` frames wait.
    pub closed spec fn wf(&self) -> bool {
        self.buffer@.len() <= DELAY_FRAMES
    }

    pub fn new(ts: u8, call_id: u16) -> (s: Self)
        ensures
            s.spec_ts() == ts,
            s.spec_call_id() == call_id,
            s.pending() == Seq::<Vec<u8>>::empty(),
            s.wf(),
    {
        Self { ts, call_id, buffer: VecDeque::with_capacity(DELAY_FRAMES + 4) }
    }

    /// Feed an uplink frame; returns the frame fed `DELAY_FRAMES` calls earlier, once the
    /// delay line is full.
    pub fn push_ul_frame(&mut self, data: Vec<u8>) -> (r: Option<Vec<u8>>)
        requires
            old(self).wf(),
        ensures
            final(self).wf(),
            final(self).spec_ts() == old(self).spec_ts(),
            final(self).spec_call_id() == old(self).spec_call_id(),
            (final(self).pending(), r) == echo_step(old(self).pending(), data),
            old(self).pending().len() < DELAY_FRAMES ==> r is None && final(self).pending()
                == old(self).pending().push(data),
            old(self).pending().len() == DELAY_FRAMES ==> r == Some(old(self).pending()[0])
                && final(self).pending() == old(self).pending().push(data).drop_first(),
    {
        self.buffer.push_back(data);
        if self.buffer.len() > DELAY_FRAMES {
            self.buffer.pop_front()
        } else {
            None
        }
    }
}

} // verus!
