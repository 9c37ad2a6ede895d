use drawing_engine::error::{ActuatorError, EngineError, StateError};
use drawing_engine::geometry::{CanvasRegion, NormPoint, UNIT};
use drawing_engine::schedule::{build_schedule, ActionKind, ScheduledAction, Stroke, VectorImage};
use drawing_engine::scheduler::{ControlState, DrawingParams, Scheduler, Step};
use drawing_engine::vectorizer::Method;

fn sample_image() -> VectorImage {
    let a = Stroke::new(vec![
        NormPoint { x: 0, y: 0 },
        NormPoint { x: UNIT / 2, y: UNIT / 2 },
        NormPoint { x: UNIT, y: UNIT },
    ])
    .unwrap();
    let b = Stroke::new(vec![NormPoint { x: UNIT, y: 0 }, NormPoint { x: 0, y: UNIT }]).unwrap();
    VectorImage::new(vec![a, b]).unwrap()
}

fn sample_params() -> DrawingParams {
    DrawingParams {
        method: Method::Outline,
        speed: 1,
        canvas: CanvasRegion::new(100, 100, 800, 600).unwrap(),
    }
}

fn started() -> Scheduler {
    let mut s = Scheduler::new();
    assert_eq!(s.start_drawing(sample_params(), sample_image()), Ok(()));
    s
}

fn drain(s: &mut Scheduler) -> Vec<ScheduledAction> {
    let mut out = Vec::new();
    loop {
        match s.advance() {
            Step::Execute(a) => out.push(a),
            Step::Finished | Step::Inactive => return out,
            Step::Hold => panic!("paused"),
        }
    }
}

#[test]
fn new_scheduler_is_idle() {
    let s = Scheduler::new();
    assert_eq!(s.state(), ControlState::Idle);
    assert_eq!(s.cursor(), 0);
    assert_eq!(s.action_count(), 0);
    assert!(!s.pen_is_down());
}

#[test]
fn start_makes_a_running_session() {
    let s = started();
    assert_eq!(s.state(), ControlState::Running);
    assert_eq!(s.cursor(), 0);
    assert_eq!(s.action_count(), 9);
    assert!(!s.pen_is_down());
}

#[test]
fn start_while_active_is_refused_and_keeps_the_cursor() {
    let mut s = started();
    s.advance();
    s.advance();
    s.advance();
    assert_eq!(s.cursor(), 3);
    assert_eq!(
        s.start_drawing(sample_params(), sample_image()),
        Err(EngineError::State(StateError::SessionAlreadyActive))
    );
    assert_eq!(s.cursor(), 3);
    assert_eq!(s.state(), ControlState::Running);
    assert!(s.pen_is_down());
    assert_eq!(s.pause_drawing(), Ok(()));
    assert_eq!(
        s.start_drawing(sample_params(), sample_image()),
        Err(EngineError::State(StateError::SessionAlreadyActive))
    );
    assert_eq!(s.cursor(), 3);
    assert_eq!(s.state(), ControlState::Paused);
}

#[test]
fn pause_and_resume_without_a_session_are_errors() {
    let mut s = Scheduler::new();
    assert_eq!(s.pause_drawing(), Err(EngineError::State(StateError::NoActiveSession)));
    assert_eq!(s.resume_drawing(), Err(EngineError::State(StateError::NoActiveSession)));
    assert_eq!(s.state(), ControlState::Idle);
    assert_eq!(s.stop_drawing(), None);
    assert_eq!(s.state(), ControlState::Idle);
    assert_eq!(s.advance(), Step::Inactive);
}

#[test]
fn pause_and_resume_are_idempotent() {
    let mut s = started();
    assert_eq!(s.resume_drawing(), Ok(()));
    assert_eq!(s.state(), ControlState::Running);
    assert_eq!(s.pause_drawing(), Ok(()));
    assert_eq!(s.state(), ControlState::Paused);
    assert_eq!(s.pause_drawing(), Ok(()));
    assert_eq!(s.state(), ControlState::Paused);
    assert_eq!(s.resume_drawing(), Ok(()));
    assert_eq!(s.state(), ControlState::Running);
}

#[test]
fn running_session_hands_out_the_schedule_in_order() {
    let mut s = started();
    let expected = build_schedule(&sample_image(), &sample_params().canvas, 1);
    let played = drain(&mut s);
    assert_eq!(played, expected);
    assert_eq!(s.state(), ControlState::Idle);
    assert!(!s.pen_is_down());
    assert_eq!(s.advance(), Step::Inactive);
}

#[test]
fn pause_is_transparent() {
    let mut plain = started();
    let expected = drain(&mut plain);

    let mut s = started();
    let mut played = Vec::new();
    for _ in 0..4 {
        match s.advance() {
            Step::Execute(a) => played.push(a),
            other => panic!("unexpected {:?}", other),
        }
    }
    assert_eq!(s.pause_drawing(), Ok(()));
    for _ in 0..5 {
        assert_eq!(s.advance(), Step::Hold);
    }
    assert_eq!(s.cursor(), 4);
    assert_eq!(s.resume_drawing(), Ok(()));
    played.extend(drain(&mut s));
    assert_eq!(played, expected);
    assert_eq!(s.state(), ControlState::Idle);
}

#[test]
fn stop_after_a_press_releases_the_pen() {
    let mut s = started();
    s.advance();
    assert_eq!(s.advance(), Step::Execute(ScheduledAction { kind: ActionKind::PenDown, at_ms: 0 }));
    assert!(s.pen_is_down());
    assert_eq!(s.stop_drawing(), Some(ActionKind::PenUp));
    assert_eq!(s.state(), ControlState::Idle);
    assert_eq!(s.cursor(), 0);
    assert!(!s.pen_is_down());
}

#[test]
fn stop_with_the_pen_up_releases_nothing() {
    let mut s = started();
    s.advance();
    assert_eq!(s.stop_drawing(), None);
    assert_eq!(s.state(), ControlState::Idle);

    let mut s = started();
    for _ in 0..5 {
        s.advance();
    }
    assert!(!s.pen_is_down());
    assert_eq!(s.stop_drawing(), None);
}

#[test]
fn stop_from_paused_goes_idle() {
    let mut s = started();
    for _ in 0..3 {
        s.advance();
    }
    assert_eq!(s.pause_drawing(), Ok(()));
    assert_eq!(s.stop_drawing(), Some(ActionKind::PenUp));
    assert_eq!(s.state(), ControlState::Idle);
    assert_eq!(s.start_drawing(sample_params(), sample_image()), Ok(()));
    assert_eq!(s.state(), ControlState::Running);
}

#[test]
fn actuator_failure_tears_the_session_down() {
    let mut s = started();
    for _ in 0..3 {
        s.advance();
    }
    let (err, release) = s.actuator_failed(ActuatorError::PermissionDenied);
    assert_eq!(err, EngineError::ActuatorFailure { reason: ActuatorError::PermissionDenied });
    assert_eq!(release, Some(ActionKind::PenUp));
    assert_eq!(s.state(), ControlState::Idle);

    let mut s = started();
    let (err, release) = s.actuator_failed(ActuatorError::DeviceUnavailable);
    assert_eq!(err, EngineError::ActuatorFailure { reason: ActuatorError::DeviceUnavailable });
    assert_eq!(release, None);
    assert_eq!(s.state(), ControlState::Idle);
}

#[test]
fn params_validity() {
    assert!(sample_params().is_valid());
    let mut p = sample_params();
    p.speed = 0;
    assert!(!p.is_valid());
    p.speed = 65;
    assert!(!p.is_valid());
    p.speed = 64;
    assert!(p.is_valid());
    p.canvas.width = 0;
    assert!(!p.is_valid());
}

#[test]
fn session_holds_what_it_was_started_with() {
    let s = Scheduler::new();
    assert_eq!(s.params(), None);
    assert_eq!(s.stroke_count(), 0);
    let mut s = started();
    assert_eq!(s.params(), Some(sample_params()));
    assert_eq!(s.stroke_count(), 2);
    s.stop_drawing();
    assert_eq!(s.params(), None);
    assert_eq!(s.stroke_count(), 0);
}
