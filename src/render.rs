//! Render parameters, their validation, and the per-frame decisions of the
//! progressive renderer.
//!
//! Real-valued parameters are held as IEEE-754 single precision bit patterns
//! (`f32::to_bits`); the checks below compare those patterns, which for the
//! bounds used here orders them exactly as the numbers they encode.
use vstd::prelude::*;
use crate::sampling::{GpuSamplingParams, RenderProgress, SamplingParams, frame_after};

verus! {

/// Bit pattern of `1.0_f32`.
pub const F32_ONE: u32 = 0x3F80_0000;
/// Bit pattern of `90.0_f32`.
pub const F32_NINETY: u32 = 0x42B4_0000;
/// Bit pattern of `-0.0_f32`.
pub const F32_NEG_ZERO: u32 = 0x8000_0000;
/// Bit pattern of positive infinity.
pub const F32_INFINITY: u32 = 0x7F80_0000;

/// The number with bit pattern `bits` lies in `0 ..= hi`, where `hi` is the
/// pattern of a finite non-negative number.
pub open spec fn f32_within(bits: u32, hi: u32) -> bool {
    bits == F32_NEG_ZERO || bits <= hi
}

/// The number with bit pattern `bits` is greater than zero.
pub open spec fn f32_positive(bits: u32) -> bool {
    0 < bits && bits <= F32_INFINITY
}

/// A vector of three `f32` bit patterns.
#[derive(Clone, Copy, Debug, PartialEq, Eq, Structural)]
pub struct Vec3Bits {
    pub x: u32,
    pub y: u32,
    pub z: u32,
}

/// A thin-lens camera; every field holds `f32` bit patterns.
#[derive(Clone, Copy, Debug, PartialEq, Eq, Structural)]
pub struct Camera {
    pub eye_pos: Vec3Bits,
    pub eye_dir: Vec3Bits,
    pub up: Vec3Bits,
    /// Vertical field of view in degrees; must lie in `0 ..= 90`.
    pub vfov_degrees: u32,
    /// Must lie in `0 ..= 1`.
    pub aperture: u32,
    /// Must be greater than zero.
    pub focus_distance: u32,
}

/// Sun position and atmosphere of the sky model; `f32` bit patterns.
#[derive(Clone, Copy, Debug, PartialEq, Eq, Structural)]
pub struct SkyParams {
    pub azimuth_degrees: u32,
    pub zenith_degrees: u32,
    pub turbidity: u32,
    pub albedo: Vec3Bits,
}

#[derive(Clone, Copy, Debug, PartialEq, Eq, Structural)]
pub struct RectSize {
    pub width: u32,
    pub height: u32,
}

#[derive(Clone, Copy, Debug, PartialEq, Eq, Structural)]
pub struct RenderParams {
    pub camera: Camera,
    pub viewport_size: RectSize,
    pub sky: SkyParams,
    pub sampling: SamplingParams,
}

/// Why a set of render parameters was refused; `f32` values as bit patterns.
#[derive(Clone, Copy, Debug, PartialEq, Eq, Structural)]
pub enum RenderParamsValidationError {
    MaxSampleCountNotMultiple(u32, u32),
    ViewportSize(u32, u32),
    VfovOutOfRange(u32),
    ApertureOutOfRange(u32),
    FocusDistanceOutOfRange(u32),
}

impl RenderParamsValidationError {
    /// A sentence that describes the error.
    pub fn message(&self) -> (r: String)
        ensures
            r@.len() > 0,
    {
        let r = match self {
            RenderParamsValidationError::MaxSampleCountNotMultiple(_, _) => String::from_str(
                "max_samples_per_pixel is not a multiple of num_samples_per_pixel",
            ),
            RenderParamsValidationError::ViewportSize(_, _) => String::from_str(
                "viewport_size elements cannot be zero",
            ),
            RenderParamsValidationError::VfovOutOfRange(_) => String::from_str(
                "vfov must be between 0..=90 degrees",
            ),
            RenderParamsValidationError::ApertureOutOfRange(_) => String::from_str(
                "aperture must be between 0..=1",
            ),
            RenderParamsValidationError::FocusDistanceOutOfRange(_) => String::from_str(
                "focus_distance must be greater than zero",
            ),
        };
        proof {
            reveal_strlit("max_samples_per_pixel is not a multiple of num_samples_per_pixel");
            reveal_strlit("viewport_size elements cannot be zero");
            reveal_strlit("vfov must be between 0..=90 degrees");
            reveal_strlit("aperture must be between 0..=1");
            reveal_strlit("focus_distance must be greater than zero");
        }
        r
    }
}

/// The outcome of validation: the first failing check, in the order
/// sampling, field of view, aperture, focus distance, viewport.
pub open spec fn validation(p: RenderParams) -> Result<(), RenderParamsValidationError> {
    if !p.sampling.divisible() {
        Err(
            RenderParamsValidationError::MaxSampleCountNotMultiple(
                p.sampling.max_samples_per_pixel,
                p.sampling.num_samples_per_pixel,
            ),
        )
    } else if !f32_within(p.camera.vfov_degrees, F32_NINETY) {
        Err(RenderParamsValidationError::VfovOutOfRange(p.camera.vfov_degrees))
    } else if !f32_within(p.camera.aperture, F32_ONE) {
        Err(RenderParamsValidationError::ApertureOutOfRange(p.camera.aperture))
    } else if !f32_positive(p.camera.focus_distance) {
        Err(RenderParamsValidationError::FocusDistanceOutOfRange(p.camera.focus_distance))
    } else if p.viewport_size.width == 0 || p.viewport_size.height == 0 {
        Err(RenderParamsValidationError::ViewportSize(p.viewport_size.width, p.viewport_size.height))
    } else {
        Ok(())
    }
}

pub open spec fn valid_params(p: RenderParams) -> bool {
    validation(p) is Ok
}

impl RenderParams {
    pub fn validate(&self) -> (r: Result<(), RenderParamsValidationError>)
        ensures
            r == validation(*self),
    {
        let s = &self.sampling;
        if s.num_samples_per_pixel == 0 || s.max_samples_per_pixel % s.num_samples_per_pixel != 0 {
            return Err(
                RenderParamsValidationError::MaxSampleCountNotMultiple(
                    s.max_samples_per_pixel,
                    s.num_samples_per_pixel,
                ),
            );
        }
        let c = &self.camera;
        if !(c.vfov_degrees == F32_NEG_ZERO || c.vfov_degrees <= F32_NINETY) {
            return Err(RenderParamsValidationError::VfovOutOfRange(c.vfov_degrees));
        }
        if !(c.aperture == F32_NEG_ZERO || c.aperture <= F32_ONE) {
            return Err(RenderParamsValidationError::ApertureOutOfRange(c.aperture));
        }
        if !(0 < c.focus_distance && c.focus_distance <= F32_INFINITY) {
            return Err(RenderParamsValidationError::FocusDistanceOutOfRange(c.focus_distance));
        }
        if self.viewport_size.width == 0 || self.viewport_size.height == 0 {
            return Err(
                RenderParamsValidationError::ViewportSize(
                    self.viewport_size.width,
                    self.viewport_size.height,
                ),
            );
        }
        Ok(())
    }
}

/// What the GPU side does for one frame.
#[derive(Clone, Copy, Debug, PartialEq, Eq, Structural)]
pub struct FramePlan {
    /// The camera and sky buffers must be written anew.
    pub params_changed: bool,
    pub sampling: GpuSamplingParams,
    pub width: u32,
    pub height: u32,
    pub frame_number: u32,
    pub workgroups_x: u32,
    pub workgroups_y: u32,
}

/// Frame numbers count up and wrap around.
pub open spec fn next_frame_number(n: u32) -> u32 {
    if n == u32::MAX {
        0
    } else {
        (n + 1) as u32
    }
}

/// Compute workgroups are eight pixels wide and high.
pub const WORKGROUP_SIZE: u32 = 8;

/// The number of workgroups that cover `n` pixels.
pub open spec fn workgroups_for(n: u32) -> int {
    (n as int + WORKGROUP_SIZE - 1) / (WORKGROUP_SIZE as int)
}

fn workgroups(n: u32) -> (r: u32)
    ensures
        r == workgroups_for(n),
{
    n / WORKGROUP_SIZE + if n % WORKGROUP_SIZE == 0 { 0 } else { 1 }
}

/// The outcome of planning a frame of `old` with parameters `p`, giving
/// `new` and `r`.
pub open spec fn frame_prepared(
    old: Renderer,
    new: Renderer,
    p: RenderParams,
    scene_changed: bool,
    r: Result<FramePlan, RenderParamsValidationError>,
) -> bool {
    &&& validation(p) is Err ==> r == Err::<FramePlan, _>(validation(p)->Err_0) && new == old
    &&& validation(p) is Ok ==> {
        let changed = scene_changed || p != old.latest_render_params;
        let counter = if changed {
            0u32
        } else {
            old.render_progress.accumulated_samples_per_pixel
        };
        let (gpu, next) = frame_after(counter, p.sampling);
        &&& r is Ok
        &&& r->Ok_0 == FramePlan {
            params_changed: changed,
            sampling: gpu,
            width: p.viewport_size.width,
            height: p.viewport_size.height,
            frame_number: old.frame_number,
            workgroups_x: workgroups_for(p.viewport_size.width) as u32,
            workgroups_y: workgroups_for(p.viewport_size.height) as u32,
        }
        &&& new.latest_render_params == p
        &&& new.render_progress.accumulated_samples_per_pixel == next
        &&& new.frame_number == next_frame_number(old.frame_number)
    }
}

/// The renderer's own state: the last accepted parameters and the sample
/// counter that they feed.
#[derive(Debug)]
pub struct Renderer {
    pub latest_render_params: RenderParams,
    pub render_progress: RenderProgress,
    pub frame_number: u32,
}

impl Renderer {
    pub open spec fn wf(&self) -> bool {
        valid_params(self.latest_render_params)
    }

    /// A renderer for valid parameters, with nothing accumulated.
    pub fn new(render_params: &RenderParams) -> (r: Result<Self, RenderParamsValidationError>)
        ensures
            validation(*render_params) is Err ==> r == Err::<Self, _>(
                validation(*render_params)->Err_0,
            ),
            validation(*render_params) is Ok ==> r is Ok && r->Ok_0.wf()
                && r->Ok_0.latest_render_params == *render_params
                && r->Ok_0.render_progress.accumulated_samples_per_pixel == 0
                && r->Ok_0.frame_number == 1,
    {
        match render_params.validate() {
            Err(e) => Err(e),
            Ok(()) => Ok(
                Renderer {
                    latest_render_params: *render_params,
                    render_progress: RenderProgress::new(),
                    frame_number: 1,
                },
            ),
        }
    }

    /// Accepts new parameters. Invalid ones are refused and change nothing.
    /// Valid ones that differ from the last accepted ones, or any valid ones
    /// when `render_force` is set, are taken and restart accumulation; the
    /// result then says `true`.
    pub fn set_render_params(&mut self, render_force: bool, render_params: &RenderParams) -> (r: Result<
        bool,
        RenderParamsValidationError,
    >)
        requires
            old(self).wf(),
        ensures
            final(self).wf(),
            final(self).frame_number == old(self).frame_number,
            validation(*render_params) is Err ==> r == Err::<bool, _>(
                validation(*render_params)->Err_0,
            ) && *final(self) == *old(self),
            validation(*render_params) is Ok ==> {
                let changed = render_force || *render_params != old(self).latest_render_params;
                &&& r == Ok::<bool, RenderParamsValidationError>(changed)
                &&& final(self).latest_render_params == *render_params
                &&& changed ==> final(self).render_progress.accumulated_samples_per_pixel == 0
                &&& !changed ==> final(self).render_progress == old(self).render_progress
            },
    {
        match render_params.validate() {
            Err(e) => Err(e),
            Ok(()) => {
                if !render_force && *render_params == self.latest_render_params {
                    Ok(false)
                } else {
                    self.latest_render_params = *render_params;
                    self.render_progress.reset();
                    Ok(true)
                }
            },
        }
    }

    /// Plans one frame: applies the parameters (forcing a restart when the
    /// scene was rebuilt), advances the sample counter and the frame number.
    pub fn prepare_frame(&mut self, render_params: &RenderParams, scene_changed: bool) -> (r: Result<
        FramePlan,
        RenderParamsValidationError,
    >)
        requires
            old(self).wf(),
        ensures
            final(self).wf(),
            frame_prepared(*old(self), *final(self), *render_params, scene_changed, r),
    {
        let changed = match self.set_render_params(scene_changed, render_params) {
            Err(e) => {
                return Err(e);
            },
            Ok(c) => c,
        };
        let sampling = self.render_progress.next_frame(&self.latest_render_params.sampling);
        let frame_number = self.frame_number;
        self.frame_number = self.frame_number.wrapping_add(1);
        Ok(
            FramePlan {
                params_changed: changed,
                sampling,
                width: render_params.viewport_size.width,
                height: render_params.viewport_size.height,
                frame_number,
                workgroups_x: workgroups(render_params.viewport_size.width),
                workgroups_y: workgroups(render_params.viewport_size.height),
            },
        )
    }

    /// Samples per pixel accumulated so far.
    pub fn accumulated_samples(&self) -> (r: u32)
        ensures
            r == self.render_progress.accumulated_samples_per_pixel,
    {
        self.render_progress.accumulated_samples()
    }

    /// The sample budget of the accepted parameters.
    pub fn max_samples(&self) -> (r: u32)
        ensures
            r == self.latest_render_params.sampling.max_samples_per_pixel,
    {
        self.latest_render_params.sampling.max_samples_per_pixel
    }
}

/// When the parameters change between frames, the next frame starts the
/// accumulation afresh: it clears the buffer and holds one step of samples.
pub proof fn law_param_change_restarts(
    old: Renderer,
    new: Renderer,
    p: RenderParams,
    scene_changed: bool,
    r: Result<FramePlan, RenderParamsValidationError>,
)
    requires
        old.wf(),
        valid_params(p),
        p != old.latest_render_params,
        frame_prepared(old, new, p, scene_changed, r),
    ensures
        r is Ok,
        r->Ok_0.params_changed,
        r->Ok_0.sampling.clear_accumulated_samples == 1,
        new.render_progress.accumulated_samples_per_pixel == p.sampling.num_samples_per_pixel,
{
}

} // verus!
