//! Frame timing of animated backgrounds against wall-clock time.
use vstd::prelude::*;

verus! {

/// Sum of the first `n` delays.
pub open spec fn prefix_sum(delays: Seq<u32>, n: int) -> int
    decreases n,
{
    if n <= 0 || n > delays.len() {
        0
    } else {
        prefix_sum(delays, n - 1) + delays[n - 1]
    }
}

/// End time of frame `j` within one loop.
pub open spec fn frame_end(delays: Seq<u32>, j: int) -> int {
    prefix_sum(delays, j + 1)
}

/// `i` is the first frame whose end time lies after `t`: the frame shown
/// `t` milliseconds into a loop of the animation.
pub open spec fn is_frame_at(delays: Seq<u32>, t: int, i: int) -> bool {
    &&& 0 <= i < delays.len()
    &&& frame_end(delays, i) > t
    &&& forall|j: int| 0 <= j < i ==> #[trigger] frame_end(delays, j) <= t
}

proof fn lemma_prefix_sum_bounds(delays: Seq<u32>, n: int)
    requires
        0 <= n <= delays.len(),
    ensures
        0 <= prefix_sum(delays, n) <= n * 0xffff_ffff,
    decreases n,
{
    if n > 0 {
        lemma_prefix_sum_bounds(delays, n - 1);
    }
}

/// Timing state of one animated asset. Times are milliseconds.
#[derive(Debug)]
pub struct AnimationCounter {
    delays: Vec<u32>,
    ends: Vec<u64>,
    start: u64,
    wakeup: u64,
    index: usize,
    duration: u64,
    new_frame: bool,
}

impl AnimationCounter {
    pub closed spec fn spec_delays(&self) -> Seq<u32> {
        self.delays@
    }

    pub closed spec fn spec_index(&self) -> int {
        self.index as int
    }

    pub closed spec fn spec_new_frame(&self) -> bool {
        self.new_frame
    }

    pub closed spec fn spec_wakeup(&self) -> int {
        self.wakeup as int
    }

    pub closed spec fn spec_start(&self) -> int {
        self.start as int
    }

    /// Total length of one loop of the animation.
    pub open spec fn spec_duration(&self) -> int {
        prefix_sum(self.spec_delays(), self.spec_delays().len() as int)
    }

    pub closed spec fn wf(&self) -> bool {
        &&& self.delays@.len() > 0
        &&& self.delays@.len() <= 0xffff_ffff
        &&& self.ends@.len() == self.delays@.len()
        &&& forall|i: int| 0 <= i < self.ends@.len() ==> #[trigger] self.ends@[i] == prefix_sum(self.delays@, i + 1)
        &&& self.duration == prefix_sum(self.delays@, self.delays@.len() as int)
        &&& self.index < self.delays@.len()
    }

    /// A counter for frames with the given delays, started at `now`: it
    /// shows frame 0 and wakes at the first tick after the start.
    pub fn new(delays: Vec<u32>, now: u64) -> (r: AnimationCounter)
        requires
            delays@.len() > 0,
            delays@.len() <= 0xffff_ffff,
        ensures
            r.wf(),
            r.spec_delays() == delays@,
            r.spec_index() == 0,
            !r.spec_new_frame(),
            r.spec_wakeup() == 0,
            r.spec_start() == now,
    {
        let mut ends: Vec<u64> = Vec::new();
        let mut total: u64 = 0;
        let mut i: usize = 0;
        while i < delays.len()
            invariant
                i <= delays@.len(),
                delays@.len() <= 0xffff_ffff,
                ends@.len() == i,
                total == prefix_sum(delays@, i as int),
                forall|j: int| 0 <= j < i ==> #[trigger] ends@[j] == prefix_sum(delays@, j + 1),
            decreases delays@.len() - i,
        {
            proof {
                lemma_prefix_sum_bounds(delays@, i as int + 1);
                assert((i as int + 1) * 0xffff_ffff <= 0x1_0000_0000 * 0xffff_ffff) by (nonlinear_arith)
                    requires i < 0xffff_ffff;
            }
            total = total + delays[i] as u64;
            ends.push(total);
            i = i + 1;
        }
        AnimationCounter {
            delays,
            ends,
            start: now,
            wakeup: 0,
            index: 0,
            duration: total,
            new_frame: false,
        }
    }

    /// Index of the frame currently shown.
    pub fn get_frame(&self) -> (r: usize)
        requires
            self.wf(),
        ensures
            r == self.spec_index(),
            r < self.spec_delays().len(),
    {
        self.index
    }

    /// Whether the shown frame changed since the flag was last cleared.
    pub fn has_new_frame(&self) -> (r: bool)
        ensures
            r == self.spec_new_frame(),
    {
        self.new_frame
    }

    /// Moves the counter to time `now`. Past the wake-up time, with
    /// `t = elapsed mod duration`, the shown frame becomes the first whose
    /// end time exceeds `t`, the new-frame flag is raised and the next
    /// wake-up is that frame's delay later. Before it, nothing changes.
    pub fn advance_counter(&mut self, now: u64)
        requires
            old(self).wf(),
        ensures
            final(self).wf(),
            final(self).spec_delays() == old(self).spec_delays(),
            final(self).spec_start() == old(self).spec_start(),
            ({
                let elapsed = if now >= old(self).spec_start() {
                    now - old(self).spec_start()
                } else {
                    0
                };
                if elapsed > old(self).spec_wakeup() && old(self).spec_duration() > 0 {
                    &&& is_frame_at(
                        old(self).spec_delays(),
                        elapsed % old(self).spec_duration(),
                        final(self).spec_index(),
                    )
                    &&& final(self).spec_new_frame()
                    &&& final(self).spec_wakeup() == vstd::math::min(
                        elapsed + old(self).spec_delays()[final(self).spec_index()],
                        u64::MAX as int,
                    )
                } else {
                    &&& final(self).spec_index() == old(self).spec_index()
                    &&& final(self).spec_new_frame() == old(self).spec_new_frame()
                    &&& final(self).spec_wakeup() == old(self).spec_wakeup()
                }
            }),
    {
        let elapsed: u64 = if now >= self.start {
            now - self.start
        } else {
            0
        };
        if elapsed > self.wakeup && self.duration > 0 {
            let t: u64 = elapsed % self.duration;
            let mut i: usize = 0;
            while i < self.ends.len()
                invariant
                    self.wf(),
                    self.delays@ == old(self).delays@,
                    self.ends@ == old(self).ends@,
                    self.start == old(self).start,
                    self.wakeup == old(self).wakeup,
                    self.duration == old(self).duration,
                    self.index == old(self).index,
                    self.new_frame == old(self).new_frame,
                    self.duration > 0,
                    t < self.duration,
                    t == elapsed % self.duration,
                    elapsed == (if now >= self.start { now - self.start } else { 0 }),
                    elapsed > self.wakeup,
                    i <= self.ends@.len(),
                    forall|j: int| 0 <= j < i ==> #[trigger] frame_end(self.delays@, j) <= t,
                decreases self.ends@.len() - i,
            {
                if t < self.ends[i] {
                    self.index = i;
                    self.new_frame = true;
                    self.wakeup = elapsed.saturating_add(self.delays[i] as u64);
                    return;
                }
                i = i + 1;
            }
            proof {
                let n = self.delays@.len() as int;
                assert(frame_end(self.delays@, n - 1) <= t);
                assert(false);
            }
        }
    }

    /// One tick of the scheduler: the flag raised for the last frame is
    /// cleared, then the counter moves to `now`.
    pub fn step(&mut self, now: u64)
        requires
            old(self).wf(),
        ensures
            final(self).wf(),
            stepped(*old(self), *final(self), now),
    {
        self.new_frame = false;
        self.advance_counter(now);
    }
}

/// `b` is `a` after one tick at time `now`: past the wake-up time the shown
/// frame is the one `elapsed mod duration` falls in and the flag is raised;
/// before it only the flag is cleared.
pub open spec fn stepped(a: AnimationCounter, b: AnimationCounter, now: u64) -> bool {
    let elapsed = if now >= a.spec_start() {
        now - a.spec_start()
    } else {
        0
    };
    &&& b.spec_delays() == a.spec_delays()
    &&& b.spec_start() == a.spec_start()
    &&& if elapsed > a.spec_wakeup() && a.spec_duration() > 0 {
        &&& is_frame_at(a.spec_delays(), elapsed % a.spec_duration(), b.spec_index())
        &&& b.spec_new_frame()
        &&& b.spec_wakeup() == vstd::math::min(elapsed + a.spec_delays()[b.spec_index()], u64::MAX as int)
    } else {
        &&& b.spec_index() == a.spec_index()
        &&& !b.spec_new_frame()
        &&& b.spec_wakeup() == a.spec_wakeup()
    }
}

} // verus!
