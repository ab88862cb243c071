//! Sampling parameters and the progressive accumulation counter.
use vstd::prelude::*;

verus! {

/// How many samples a pixel gathers in all, per frame, and how many bounces a
/// ray may make.
#[derive(Clone, Copy, Debug, PartialEq, Eq, Structural)]
pub struct SamplingParams {
    pub max_samples_per_pixel: u32,
    pub num_samples_per_pixel: u32,
    pub num_bounces: u32,
}

impl Default for SamplingParams {
    fn default() -> (r: Self)
        ensures
            r.max_samples_per_pixel == 256,
            r.num_samples_per_pixel == 1,
            r.num_bounces == 8,
    {
        SamplingParams { max_samples_per_pixel: 256, num_samples_per_pixel: 1, num_bounces: 8 }
    }
}

impl SamplingParams {
    /// The total budget is a whole number of per-frame steps.
    pub open spec fn divisible(self) -> bool {
        self.num_samples_per_pixel > 0 && self.max_samples_per_pixel % self.num_samples_per_pixel == 0
    }
}

/// What one frame of the progressive renderer does, as handed to the GPU.
#[derive(Clone, Copy, Debug, PartialEq, Eq, Structural)]
pub struct GpuSamplingParams {
    pub num_samples_per_pixel: u32,
    pub num_bounces: u32,
    pub accumulated_samples_per_pixel: u32,
    /// 1 when the accumulation buffer must be zeroed before this frame adds to it.
    pub clear_accumulated_samples: u32,
}

/// The frame that follows a counter value, and the counter after it.
pub open spec fn frame_after(counter: u32, s: SamplingParams) -> (GpuSamplingParams, u32) {
    let next = counter + s.num_samples_per_pixel;
    if counter == 0 {
        (
            GpuSamplingParams {
                num_samples_per_pixel: s.num_samples_per_pixel,
                num_bounces: s.num_bounces,
                accumulated_samples_per_pixel: s.num_samples_per_pixel,
                clear_accumulated_samples: 1,
            },
            s.num_samples_per_pixel,
        )
    } else if next <= s.max_samples_per_pixel {
        (
            GpuSamplingParams {
                num_samples_per_pixel: s.num_samples_per_pixel,
                num_bounces: s.num_bounces,
                accumulated_samples_per_pixel: next as u32,
                clear_accumulated_samples: 0,
            },
            next as u32,
        )
    } else {
        (
            GpuSamplingParams {
                num_samples_per_pixel: 0,
                num_bounces: s.num_bounces,
                accumulated_samples_per_pixel: counter,
                clear_accumulated_samples: 0,
            },
            counter,
        )
    }
}

/// The number of samples per pixel accumulated since the last reset.
#[derive(Debug)]
pub struct RenderProgress {
    pub accumulated_samples_per_pixel: u32,
}

impl RenderProgress {
    pub fn new() -> (r: Self)
        ensures
            r.accumulated_samples_per_pixel == 0,
    {
        RenderProgress { accumulated_samples_per_pixel: 0 }
    }

    /// Advances the counter by one frame: the first frame after a reset clears
    /// the buffer, later frames add a step while the budget allows, and once it
    /// is spent frames add nothing.
    pub fn next_frame(&mut self, sampling_params: &SamplingParams) -> (r: GpuSamplingParams)
        ensures
            (r, final(self).accumulated_samples_per_pixel) == frame_after(
                old(self).accumulated_samples_per_pixel,
                *sampling_params,
            ),
    {
        let current = self.accumulated_samples_per_pixel;
        let step = sampling_params.num_samples_per_pixel;
        let next: u64 = current as u64 + step as u64;
        if current == 0 {
            self.accumulated_samples_per_pixel = step;
            GpuSamplingParams {
                num_samples_per_pixel: step,
                num_bounces: sampling_params.num_bounces,
                accumulated_samples_per_pixel: step,
                clear_accumulated_samples: 1,
            }
        } else if next <= sampling_params.max_samples_per_pixel as u64 {
            self.accumulated_samples_per_pixel = next as u32;
            GpuSamplingParams {
                num_samples_per_pixel: step,
                num_bounces: sampling_params.num_bounces,
                accumulated_samples_per_pixel: next as u32,
                clear_accumulated_samples: 0,
            }
        } else {
            GpuSamplingParams {
                num_samples_per_pixel: 0,
                num_bounces: sampling_params.num_bounces,
                accumulated_samples_per_pixel: current,
                clear_accumulated_samples: 0,
            }
        }
    }

    pub fn reset(&mut self)
        ensures
            final(self).accumulated_samples_per_pixel == 0,
    {
        self.accumulated_samples_per_pixel = 0;
    }

    pub fn accumulated_samples(&self) -> (r: u32)
        ensures
            r == self.accumulated_samples_per_pixel,
    {
        self.accumulated_samples_per_pixel
    }
}

/// Within a budget, the counter never passes the budget once it has started,
/// grows by one step per frame until it reaches it, and the buffer is cleared
/// only on the frame that follows a reset.
pub proof fn law_progress_bounded(counter: u32, s: SamplingParams)
    requires
        s.divisible(),
        s.num_samples_per_pixel <= s.max_samples_per_pixel,
        counter <= s.max_samples_per_pixel,
        counter % s.num_samples_per_pixel == 0,
    ensures
        ({
            let (g, next) = frame_after(counter, s);
            &&& next <= s.max_samples_per_pixel
            &&& next % s.num_samples_per_pixel == 0
            &&& (g.clear_accumulated_samples == 1) == (counter == 0)
            &&& counter < s.max_samples_per_pixel ==> next == counter + s.num_samples_per_pixel
            &&& counter == s.max_samples_per_pixel && counter != 0 ==> next == counter
                && g.num_samples_per_pixel == 0
        }),
{
    let m = s.max_samples_per_pixel as int;
    let n = s.num_samples_per_pixel as int;
    let c = counter as int;
    if 0 < c && c < m {
        assert(c + n <= m) by (nonlinear_arith)
            requires
                c % n == 0,
                m % n == 0,
                c < m,
                n > 0,
                c >= 0,
        {
            let q = c / n;
            let p = m / n;
            assert(c == q * n);
            assert(m == p * n);
            assert(q < p);
            assert(q + 1 <= p);
            assert((q + 1) * n <= p * n);
        }
        assert((c + n) % n == 0) by (nonlinear_arith)
            requires
                c % n == 0,
                n > 0,
        ;
    }
}

} // verus!
