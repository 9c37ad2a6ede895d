use drawing_engine::actuator::{
    action_timeout_ms, clamp_to_axis, plan_command, timed_out, wait_before, DeviceCommand,
    ScreenBounds,
};
use drawing_engine::engine::{parse_method, Engine};
use drawing_engine::error::{ActuatorError, EngineError, InputError, StateError};
use drawing_engine::geometry::{CanvasRegion, NormPoint};
use drawing_engine::schedule::{ActionKind, ScheduledAction};
use drawing_engine::scheduler::{ControlState, Step};
use drawing_engine::raster::{decode_frame, RasterImage};
use drawing_engine::vectorizer::{vectorize, Method};

const W: u8 = 255;
const B: u8 = 0;

fn raster(width: u32, height: u32, pixels: Vec<u8>) -> RasterImage {
    RasterImage { width, height, pixels }
}

fn segments(image: &RasterImage, method: Method) -> Vec<Vec<NormPoint>> {
    vectorize(image, method).unwrap().strokes.iter().map(|s| s.points.clone()).collect()
}

fn seg(x0: u32, x1: u32, y: u32) -> Vec<NormPoint> {
    vec![NormPoint { x: x0, y }, NormPoint { x: x1, y }]
}

#[test]
fn blank_image_is_empty() {
    let image = raster(4, 3, vec![W; 12]);
    assert_eq!(vectorize(&image, Method::Raster).unwrap_err(), InputError::EmptyImage);
    assert_eq!(vectorize(&image, Method::Outline).unwrap_err(), InputError::EmptyImage);
    let grey = raster(2, 2, vec![128; 4]);
    assert_eq!(vectorize(&grey, Method::Raster).unwrap_err(), InputError::EmptyImage);
}

#[test]
fn malformed_image_is_unsupported() {
    assert_eq!(
        vectorize(&raster(4, 3, vec![B; 11]), Method::Raster).unwrap_err(),
        InputError::UnsupportedFormat
    );
    assert_eq!(
        vectorize(&raster(0, 3, vec![]), Method::Raster).unwrap_err(),
        InputError::UnsupportedFormat
    );
    assert_eq!(
        vectorize(&raster(3, 0, vec![]), Method::Outline).unwrap_err(),
        InputError::UnsupportedFormat
    );
    assert!(!raster(2, 2, vec![B; 5]).is_valid());
    assert!(raster(2, 2, vec![B; 4]).is_valid());
}

#[test]
fn raster_method_draws_each_run_of_ink() {
    let image = raster(4, 2, vec![
        B, B, W, B,
        W, 127, 127, W,
    ]);
    assert_eq!(
        segments(&image, Method::Raster),
        vec![seg(0, 500_000, 250_000), seg(750_000, 1_000_000, 250_000), seg(250_000, 750_000, 750_000)]
    );
}

#[test]
fn outline_method_skips_the_inside() {
    let image = raster(5, 5, vec![
        W, W, W, W, W,
        W, B, B, B, W,
        W, B, B, B, W,
        W, B, B, B, W,
        W, W, W, W, W,
    ]);
    assert_eq!(
        segments(&image, Method::Outline),
        vec![
            seg(200_000, 800_000, 300_000),
            seg(200_000, 400_000, 500_000),
            seg(600_000, 800_000, 500_000),
            seg(200_000, 800_000, 700_000),
        ]
    );
    assert_eq!(
        segments(&image, Method::Raster),
        vec![
            seg(200_000, 800_000, 300_000),
            seg(200_000, 800_000, 500_000),
            seg(200_000, 800_000, 700_000),
        ]
    );
}

#[test]
fn ink_and_marks() {
    let image = raster(3, 3, vec![
        B, B, B,
        B, B, B,
        B, B, B,
    ]);
    assert!(image.is_ink(1, 1));
    assert!(!image.is_ink(3, 1));
    assert!(!image.is_ink(1, 3));
    assert!(image.is_marked(Method::Raster, 1, 1));
    assert!(!image.is_marked(Method::Outline, 1, 1));
    assert!(image.is_marked(Method::Outline, 0, 1));
    assert!(image.is_marked(Method::Outline, 2, 2));
}

#[test]
fn large_image_is_sampled_down() {
    let mut pixels = vec![W; 2000 * 1000];
    for y in 0..1000usize {
        for x in 0..1000usize {
            if y % 4 == 0 {
                pixels[y * 2000 + x] = B;
            }
        }
    }
    let image = raster(2000, 1000, pixels);
    assert_eq!(image.sample_factor(), 2);
    let small = image.downsample(2);
    assert_eq!((small.width, small.height), (1000, 500));
    assert_eq!(small.pixels.len(), 500_000);
    assert_eq!(small.pixels[0], B);
    assert_eq!(small.pixels[499], B);
    assert_eq!(small.pixels[500], W);
    assert_eq!(small.pixels[1000], W);
    assert_eq!(small.pixels[2000], B);
    let strokes = segments(&image, Method::Raster);
    assert_eq!(strokes.len(), 250);
    assert_eq!(strokes[0], seg(0, 500_000, 1_000));
    assert_eq!(strokes[1], seg(0, 500_000, 5_000));
}

#[test]
fn small_image_is_not_sampled() {
    let image = raster(1000, 1000, vec![W; 1_000_000]);
    assert_eq!(image.sample_factor(), 1);
    let image = raster(1001, 1000, vec![W; 1_001_000]);
    assert_eq!(image.sample_factor(), 2);
    let image = raster(3, 2, vec![1, 2, 3, 4, 5, 6]);
    assert_eq!(image.downsample(1).pixels, vec![1, 2, 3, 4, 5, 6]);
    assert_eq!(image.downsample(2).pixels, vec![1, 3]);
}

#[test]
fn method_names() {
    assert_eq!(parse_method(b"outline"), Some(Method::Outline));
    assert_eq!(parse_method(b"raster"), Some(Method::Raster));
    assert_eq!(parse_method(b"Outline"), None);
    assert_eq!(parse_method(b"rasters"), None);
    assert_eq!(parse_method(b""), None);
}

#[test]
fn start_needs_a_processed_image() {
    let canvas = CanvasRegion::new(100, 100, 800, 600).unwrap();
    let mut e = Engine::new();
    assert_eq!(
        e.start_drawing(b"raster", 1, canvas),
        Err(EngineError::Input(InputError::EmptyImage))
    );
    assert_eq!(
        e.process_image(&raster(2, 2, vec![W; 4])),
        Err(EngineError::Input(InputError::EmptyImage))
    );
    assert!(!e.has_image());
    assert_eq!(
        e.start_drawing(b"raster", 1, canvas),
        Err(EngineError::Input(InputError::EmptyImage))
    );
    assert_eq!(e.state(), ControlState::Idle);
    assert_eq!(
        e.process_image(&raster(2, 2, vec![B; 3])),
        Err(EngineError::Input(InputError::UnsupportedFormat))
    );
}

#[test]
fn engine_draws_a_processed_image() {
    let canvas = CanvasRegion::new(100, 100, 800, 600).unwrap();
    let mut e = Engine::new();
    assert_eq!(e.process_image(&raster(2, 1, vec![B, W])), Ok(()));
    assert_eq!(e.start_drawing(b"sketch", 1, canvas), Err(EngineError::Input(InputError::InvalidParams)));
    assert_eq!(e.start_drawing(b"raster", 0, canvas), Err(EngineError::Input(InputError::InvalidParams)));
    assert_eq!(e.start_drawing(b"raster", 65, canvas), Err(EngineError::Input(InputError::InvalidParams)));
    let flat = CanvasRegion { x: 0, y: 0, width: 0, height: 5 };
    assert_eq!(e.start_drawing(b"raster", 1, flat), Err(EngineError::Input(InputError::InvalidParams)));
    assert_eq!(e.state(), ControlState::Idle);

    assert_eq!(e.start_drawing(b"raster", 2, canvas), Ok(()));
    assert_eq!(e.state(), ControlState::Running);
    assert_eq!(
        e.start_drawing(b"raster", 2, canvas),
        Err(EngineError::State(StateError::SessionAlreadyActive))
    );
    assert_eq!(
        e.start_drawing(b"sketch", 0, canvas),
        Err(EngineError::State(StateError::SessionAlreadyActive))
    );
    let mut played = Vec::new();
    loop {
        match e.advance() {
            Step::Execute(a) => played.push(a),
            Step::Finished => break,
            other => panic!("unexpected {:?}", other),
        }
    }
    assert_eq!(
        played,
        vec![
            ScheduledAction { kind: ActionKind::MoveTo { x: 100, y: 400 }, at_ms: 0 },
            ScheduledAction { kind: ActionKind::PenDown, at_ms: 0 },
            ScheduledAction { kind: ActionKind::MoveTo { x: 500, y: 400 }, at_ms: 8 },
            ScheduledAction { kind: ActionKind::PenUp, at_ms: 8 },
        ]
    );
    assert_eq!(e.state(), ControlState::Idle);
    assert_eq!(e.start_drawing(b"outline", 1, canvas), Ok(()));
    assert_eq!(e.pause_drawing(), Ok(()));
    assert_eq!(e.advance(), Step::Hold);
    assert_eq!(e.resume_drawing(), Ok(()));
    e.advance();
    e.advance();
    assert_eq!(e.stop_drawing(), Some(ActionKind::PenUp));
    assert_eq!(e.state(), ControlState::Idle);
    assert_eq!(e.pause_drawing(), Err(EngineError::State(StateError::NoActiveSession)));
    assert_eq!(e.start_drawing(b"raster", 1, canvas), Ok(()));
    let (err, release) = e.actuator_failed(ActuatorError::Timeout);
    assert_eq!(err, EngineError::ActuatorFailure { reason: ActuatorError::Timeout });
    assert_eq!(release, None);
}

#[test]
fn moves_are_clamped_to_the_screen() {
    let screen = ScreenBounds { width: 1920, height: 1080 };
    assert_eq!(
        plan_command(ActionKind::MoveTo { x: 10, y: 20 }, screen),
        Ok(DeviceCommand::MoveCursor { x: 10, y: 20 })
    );
    assert_eq!(
        plan_command(ActionKind::MoveTo { x: -5, y: 5000 }, screen),
        Ok(DeviceCommand::MoveCursor { x: 0, y: 1079 })
    );
    assert_eq!(
        plan_command(ActionKind::MoveTo { x: i64::MAX, y: i64::MIN }, screen),
        Ok(DeviceCommand::MoveCursor { x: 1919, y: 0 })
    );
    assert_eq!(plan_command(ActionKind::PenDown, screen), Ok(DeviceCommand::Press));
    assert_eq!(plan_command(ActionKind::PenUp, screen), Ok(DeviceCommand::Release));
    assert_eq!(clamp_to_axis(7, 8), 7);
    assert_eq!(clamp_to_axis(8, 8), 7);
    assert_eq!(clamp_to_axis(-1, 8), 0);
}

#[test]
fn empty_screen_cannot_take_a_move() {
    let none = ScreenBounds { width: 0, height: 1080 };
    assert_eq!(plan_command(ActionKind::MoveTo { x: 0, y: 0 }, none), Err(ActuatorError::OutOfBounds));
    let none = ScreenBounds { width: 10, height: 0 };
    assert_eq!(plan_command(ActionKind::MoveTo { x: 0, y: 0 }, none), Err(ActuatorError::OutOfBounds));
    assert_eq!(plan_command(ActionKind::PenUp, none), Ok(DeviceCommand::Release));
}

#[test]
fn action_timeout_follows_the_delay() {
    assert_eq!(action_timeout_ms(1), 64);
    assert_eq!(action_timeout_ms(4), 16);
    assert_eq!(action_timeout_ms(64), 8);
    assert_eq!(timed_out(64, 1), None);
    assert_eq!(timed_out(65, 1), Some(ActuatorError::Timeout));
    assert_eq!(timed_out(9, 64), Some(ActuatorError::Timeout));
}

#[test]
fn frame_is_header_then_pixels() {
    let bytes = vec![3, 0, 0, 0, 2, 0, 0, 0, 10, 20, 30, 40, 50, 60];
    let image = drawing_engine::raster::decode_frame(&bytes).unwrap();
    assert_eq!((image.width, image.height), (3, 2));
    assert_eq!(image.pixels, vec![10, 20, 30, 40, 50, 60]);
    let mut wide = vec![0, 1, 0, 0, 1, 0, 0, 0];
    wide.extend(vec![7u8; 256]);
    let image = drawing_engine::raster::decode_frame(&wide).unwrap();
    assert_eq!((image.width, image.height), (256, 1));
}

#[test]
fn broken_frame_is_unsupported() {
    let decode = drawing_engine::raster::decode_frame;
    assert_eq!(decode(&[]).unwrap_err(), InputError::UnsupportedFormat);
    assert_eq!(decode(&[1, 0, 0, 0, 1, 0, 0]).unwrap_err(), InputError::UnsupportedFormat);
    assert_eq!(decode(&[1, 0, 0, 0, 1, 0, 0, 0]).unwrap_err(), InputError::UnsupportedFormat);
    assert_eq!(decode(&[0, 0, 0, 0, 1, 0, 0, 0]).unwrap_err(), InputError::UnsupportedFormat);
    assert_eq!(decode(&[1, 0, 0, 0, 0, 0, 0, 0]).unwrap_err(), InputError::UnsupportedFormat);
    assert_eq!(decode(&[2, 0, 0, 0, 1, 0, 0, 0, 9]).unwrap_err(), InputError::UnsupportedFormat);
    assert_eq!(decode(&[1, 0, 0, 0, 1, 0, 0, 0, 9, 9]).unwrap_err(), InputError::UnsupportedFormat);
    assert!(decode(&[1, 0, 0, 0, 1, 0, 0, 0, 9]).is_ok());
}

#[test]
fn engine_keeps_its_session_when_an_image_is_refused() {
    let canvas = CanvasRegion::new(0, 0, 10, 10).unwrap();
    let mut e = Engine::new();
    assert_eq!(e.process_image(&raster(2, 1, vec![B, W])), Ok(()));
    assert!(e.has_image());
    assert_eq!(e.start_drawing(b"raster", 1, canvas), Ok(()));
    e.advance();
    assert_eq!(e.cursor(), 1);
    assert_eq!(
        e.process_image(&raster(2, 1, vec![W, W])),
        Err(EngineError::Input(InputError::EmptyImage))
    );
    assert!(e.has_image());
    assert_eq!(e.cursor(), 1);
    assert_eq!(e.state(), ControlState::Running);
}

#[test]
fn wait_is_the_time_between_two_actions() {
    assert_eq!(wait_before(16, 0), 16);
    assert_eq!(wait_before(32, 32), 0);
    assert_eq!(wait_before(8, 24), 0);
    assert_eq!(wait_before(u64::MAX, 1), u64::MAX - 1);
}
