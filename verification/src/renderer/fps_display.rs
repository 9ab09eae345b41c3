//! The frame-rate figure shown on screen: a running mean of the rates of the
//! last frames.
use vstd::prelude::*;

verus! {

/// Number of samples above which the oldest one is dropped at the end of a
/// measuring window.
pub const WINDOW_SAMPLES: usize = 10;

/// Sum of the samples.
pub open spec fn total(samples: Seq<u32>) -> int
    decreases samples.len(),
{
    if samples.len() == 0 {
        0
    } else {
        total(samples.drop_last()) + samples.last()
    }
}

/// Mean of the samples, rounded down; zero when there is none.
pub open spec fn mean(samples: Seq<u32>) -> int {
    if samples.len() == 0 {
        0
    } else {
        total(samples) / (samples.len() as int)
    }
}

/// The samples kept after the rate `fps` of one more frame has been measured:
/// the new sample is added at the end, and where a measuring window has ended
/// with more than ten samples held, the oldest is dropped.
pub open spec fn recorded(samples: Seq<u32>, fps: u32, window_elapsed: bool) -> Seq<u32> {
    if window_elapsed && samples.len() + 1 > 10 {
        samples.push(fps).drop_first()
    } else {
        samples.push(fps)
    }
}

/// The sum of samples is at most as large as if each were the largest `u32`.
pub proof fn lemma_total_bounds(samples: Seq<u32>)
    ensures
        0 <= total(samples) <= samples.len() * 0xffff_ffff,
    decreases samples.len(),
{
    if samples.len() > 0 {
        lemma_total_bounds(samples.drop_last());
    }
}

/// The mean of samples is itself a `u32`.
pub proof fn lemma_mean_bounds(samples: Seq<u32>)
    ensures
        0 <= mean(samples) <= 0xffff_ffff,
{
    lemma_total_bounds(samples);
    if samples.len() > 0 {
        let t = total(samples);
        let n = samples.len() as int;
        assert(0 <= t / n <= 0xffff_ffff) by (nonlinear_arith)
            requires
                0 <= t <= n * 0xffff_ffff,
                n > 0,
        ;
    }
}

/// The frame-rate display: the samples of the last frames and their mean.
pub struct FpsDisplay {
    fps_values: Vec<u32>,
    current_fps: u32,
}

impl FpsDisplay {
    /// The samples held, oldest first.
    pub closed spec fn samples(&self) -> Seq<u32> {
        self.fps_values@
    }

    /// The figure on display.
    pub closed spec fn shown(&self) -> int {
        self.current_fps as int
    }

    /// A display without samples, showing zero.
    pub fn new() -> (display: Self)
        ensures
            display.samples() == Seq::<u32>::empty(),
            display.shown() == 0,
    {
        Self { fps_values: Vec::with_capacity(10), current_fps: 0 }
    }

    /// Records the rate `fps` of the frame that just ended and shows the mean
    /// of the samples then held. `window_elapsed` says that the current
    /// measuring window has run out, which lets the oldest sample go once
    /// more than ten are held.
    pub fn update(&mut self, fps: u32, window_elapsed: bool)
        ensures
            final(self).samples() == recorded(old(self).samples(), fps, window_elapsed),
            final(self).shown() == mean(final(self).samples()),
    {
        self.fps_values.push(fps);
        if window_elapsed && self.fps_values.len() > WINDOW_SAMPLES {
            self.fps_values.remove(0);
            assert(self.fps_values@ =~= old(self).fps_values@.push(fps).drop_first());
        }
        let n = self.fps_values.len();
        let mut sum: u128 = 0;
        let mut i: usize = 0;
        while i < n
            invariant
                n == self.fps_values@.len(),
                0 <= i <= n,
                sum == total(self.fps_values@.take(i as int)),
            decreases n - i,
        {
            proof {
                let next = self.fps_values@.take(i + 1);
                assert(next.drop_last() =~= self.fps_values@.take(i as int));
                lemma_total_bounds(next);
                assert(next.len() * 0xffff_ffff <= 0xffff_ffff_ffff_ffff * 0xffff_ffff)
                    by (nonlinear_arith)
                    requires
                        next.len() <= 0xffff_ffff_ffff_ffff,
                ;
            }
            sum = sum + (self.fps_values[i] as u128);
            i = i + 1;
        }
        proof {
            assert(self.fps_values@.take(n as int) =~= self.fps_values@);
            lemma_mean_bounds(self.fps_values@);
        }
        self.current_fps = if n > 0 {
            (sum / (n as u128)) as u32
        } else {
            0
        };
    }

    /// The figure on display: the mean of the samples held.
    pub fn fps(&self) -> (fps: u32)
        ensures
            fps == self.shown(),
    {
        self.current_fps
    }
}

} // verus!
