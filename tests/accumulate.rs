use reactor::render::{
    Camera, FramePlan, RectSize, RenderParams, RenderParamsValidationError, Renderer, SkyParams, Vec3Bits,
};
use reactor::sampling::{GpuSamplingParams, RenderProgress, SamplingParams};

fn bits(x: f32) -> u32 {
    x.to_bits()
}

fn v3(x: f32, y: f32, z: f32) -> Vec3Bits {
    Vec3Bits { x: bits(x), y: bits(y), z: bits(z) }
}

fn params(max: u32, step: u32) -> RenderParams {
    RenderParams {
        camera: Camera {
            eye_pos: v3(0.0, 0.0, 0.0),
            eye_dir: v3(0.0, 0.0, 1.0),
            up: v3(0.0, 1.0, 0.0),
            vfov_degrees: bits(30.0),
            aperture: bits(0.5),
            focus_distance: bits(10.0),
        },
        viewport_size: RectSize { width: 640, height: 480 },
        sky: SkyParams { azimuth_degrees: bits(0.0), zenith_degrees: bits(85.0), turbidity: bits(4.0), albedo: v3(1.0, 1.0, 1.0) },
        sampling: SamplingParams { max_samples_per_pixel: max, num_samples_per_pixel: step, num_bounces: 8 },
    }
}

#[test]
fn sample_budget_must_be_whole_steps() {
    assert_eq!(
        params(100, 7).validate(),
        Err(RenderParamsValidationError::MaxSampleCountNotMultiple(100, 7))
    );
    assert_eq!(params(100, 10).validate(), Ok(()));
    assert_eq!(
        params(100, 0).validate(),
        Err(RenderParamsValidationError::MaxSampleCountNotMultiple(100, 0))
    );
}

#[test]
fn each_validation_error_has_its_input() {
    let mut p = params(100, 10);
    p.camera.vfov_degrees = bits(91.0);
    assert_eq!(p.validate(), Err(RenderParamsValidationError::VfovOutOfRange(bits(91.0))));
    p.camera.vfov_degrees = bits(90.0);
    assert_eq!(p.validate(), Ok(()));
    p.camera.vfov_degrees = bits(-1.0);
    assert!(matches!(p.validate(), Err(RenderParamsValidationError::VfovOutOfRange(_))));
    p.camera.vfov_degrees = bits(-0.0);
    assert_eq!(p.validate(), Ok(()));

    let mut p = params(100, 10);
    p.camera.aperture = bits(1.5);
    assert_eq!(p.validate(), Err(RenderParamsValidationError::ApertureOutOfRange(bits(1.5))));
    p.camera.aperture = bits(f32::NAN);
    assert!(matches!(p.validate(), Err(RenderParamsValidationError::ApertureOutOfRange(_))));

    let mut p = params(100, 10);
    p.camera.focus_distance = bits(0.0);
    assert_eq!(p.validate(), Err(RenderParamsValidationError::FocusDistanceOutOfRange(bits(0.0))));
    p.camera.focus_distance = bits(-2.0);
    assert!(matches!(p.validate(), Err(RenderParamsValidationError::FocusDistanceOutOfRange(_))));

    let mut p = params(100, 10);
    p.viewport_size.height = 0;
    assert_eq!(p.validate(), Err(RenderParamsValidationError::ViewportSize(640, 0)));
    assert!(!RenderParamsValidationError::ViewportSize(640, 0).message().is_empty());
}

#[test]
fn progress_sequence_within_budget() {
    let s = SamplingParams { max_samples_per_pixel: 30, num_samples_per_pixel: 10, num_bounces: 4 };
    let mut p = RenderProgress::new();
    let f1 = p.next_frame(&s);
    assert_eq!(
        f1,
        GpuSamplingParams {
            num_samples_per_pixel: 10,
            num_bounces: 4,
            accumulated_samples_per_pixel: 10,
            clear_accumulated_samples: 1
        }
    );
    let f2 = p.next_frame(&s);
    assert_eq!((f2.num_samples_per_pixel, f2.accumulated_samples_per_pixel, f2.clear_accumulated_samples), (10, 20, 0));
    let f3 = p.next_frame(&s);
    assert_eq!((f3.num_samples_per_pixel, f3.accumulated_samples_per_pixel, f3.clear_accumulated_samples), (10, 30, 0));
    let f4 = p.next_frame(&s);
    assert_eq!((f4.num_samples_per_pixel, f4.accumulated_samples_per_pixel, f4.clear_accumulated_samples), (0, 30, 0));
    assert_eq!(f4.num_bounces, 4);
    assert_eq!(p.accumulated_samples(), 30);
    p.reset();
    assert_eq!(p.next_frame(&s).clear_accumulated_samples, 1);
}

#[test]
fn progress_never_overflows() {
    let s = SamplingParams { max_samples_per_pixel: u32::MAX, num_samples_per_pixel: 10, num_bounces: 1 };
    let mut p = RenderProgress { accumulated_samples_per_pixel: u32::MAX - 5 };
    let f = p.next_frame(&s);
    assert_eq!(f.num_samples_per_pixel, 0);
    assert_eq!(p.accumulated_samples(), u32::MAX - 5);
}

#[test]
fn default_sampling() {
    let s = SamplingParams::default();
    assert_eq!((s.max_samples_per_pixel, s.num_samples_per_pixel, s.num_bounces), (256, 1, 8));
}

#[test]
fn parameter_change_restarts_accumulation() {
    let p = params(30, 10);
    let mut r = Renderer::new(&p).unwrap();
    let f1 = r.prepare_frame(&p, false).unwrap();
    assert_eq!(f1.sampling.clear_accumulated_samples, 1);
    assert_eq!(f1.frame_number, 1);
    let f2 = r.prepare_frame(&p, false).unwrap();
    assert_eq!((f2.sampling.clear_accumulated_samples, f2.sampling.accumulated_samples_per_pixel), (0, 20));
    assert!(!f2.params_changed);

    let mut moved = p;
    moved.camera.aperture = bits(0.25);
    let f3 = r.prepare_frame(&moved, false).unwrap();
    assert!(f3.params_changed);
    assert_eq!((f3.sampling.clear_accumulated_samples, f3.sampling.accumulated_samples_per_pixel), (1, 10));
    assert_eq!(f3.frame_number, 3);
    assert_eq!(r.accumulated_samples(), 10);
    assert_eq!(r.max_samples(), 30);
}

#[test]
fn rebuilt_scene_restarts_accumulation() {
    let p = params(30, 10);
    let mut r = Renderer::new(&p).unwrap();
    r.prepare_frame(&p, false).unwrap();
    r.prepare_frame(&p, false).unwrap();
    let f = r.prepare_frame(&p, true).unwrap();
    assert_eq!(f.sampling.clear_accumulated_samples, 1);
    assert!(f.params_changed);
}

#[test]
fn invalid_parameters_change_nothing() {
    let p = params(30, 10);
    let mut r = Renderer::new(&p).unwrap();
    r.prepare_frame(&p, false).unwrap();
    assert_eq!(
        r.prepare_frame(&params(30, 7), false),
        Err(RenderParamsValidationError::MaxSampleCountNotMultiple(30, 7))
    );
    assert_eq!(r.accumulated_samples(), 10);
    assert_eq!(r.set_render_params(false, &params(100, 7)), Err(RenderParamsValidationError::MaxSampleCountNotMultiple(100, 7)));
    assert_eq!(r.set_render_params(false, &p), Ok(false));
    assert_eq!(r.set_render_params(true, &p), Ok(true));
    assert_eq!(r.accumulated_samples(), 0);
    assert!(Renderer::new(&params(100, 7)).is_err());
}

#[test]
fn frame_covers_viewport_with_workgroups() {
    let p = params(30, 10);
    let mut r = Renderer::new(&p).unwrap();
    let f: FramePlan = r.prepare_frame(&p, false).unwrap();
    assert_eq!((f.width, f.height), (640, 480));
    assert_eq!((f.workgroups_x, f.workgroups_y), (80, 60));
    let mut odd = p;
    odd.viewport_size = RectSize { width: 641, height: 1 };
    let f = r.prepare_frame(&odd, false).unwrap();
    assert_eq!((f.workgroups_x, f.workgroups_y), (81, 1));
}
