use drawing_engine::geometry::{map_coord, map_point, CanvasRegion, NormPoint, UNIT};
use drawing_engine::schedule::{
    build_schedule, step_delay_ms, ActionKind, ScheduledAction, Stroke, VectorImage, BASE_DELAY_MS,
    MAX_STROKE_POINTS, MIN_DELAY_MS,
};

fn norm(v: f64) -> u32 {
    (v * (UNIT as f64)).round() as u32
}

fn point(x: f64, y: f64) -> NormPoint {
    NormPoint::new(norm(x), norm(y)).unwrap()
}

fn stroke(points: Vec<(f64, f64)>) -> Stroke {
    Stroke::new(points.into_iter().map(|(x, y)| point(x, y)).collect()).unwrap()
}

fn kinds(actions: &[ScheduledAction]) -> Vec<ActionKind> {
    actions.iter().map(|a| a.kind).collect()
}

#[test]
fn single_stroke_scenario() {
    let image = VectorImage::new(vec![stroke(vec![(0.0, 0.0), (0.5, 0.5), (1.0, 1.0)])]).unwrap();
    let region = CanvasRegion::new(100, 100, 800, 600).unwrap();
    let actions = build_schedule(&image, &region, 1);
    assert_eq!(
        kinds(&actions),
        vec![
            ActionKind::MoveTo { x: 100, y: 100 },
            ActionKind::PenDown,
            ActionKind::MoveTo { x: 500, y: 400 },
            ActionKind::MoveTo { x: 900, y: 700 },
            ActionKind::PenUp,
        ]
    );
}

#[test]
fn single_stroke_timestamps() {
    let image = VectorImage::new(vec![stroke(vec![(0.0, 0.0), (0.5, 0.5), (1.0, 1.0)])]).unwrap();
    let region = CanvasRegion::new(100, 100, 800, 600).unwrap();
    let at: Vec<u64> = build_schedule(&image, &region, 1).iter().map(|a| a.at_ms).collect();
    assert_eq!(at, vec![0, 0, 16, 32, 32]);
    let at: Vec<u64> = build_schedule(&image, &region, 4).iter().map(|a| a.at_ms).collect();
    assert_eq!(at, vec![0, 0, 4, 8, 8]);
}

#[test]
fn two_strokes_share_one_clock() {
    let image = VectorImage::new(vec![
        stroke(vec![(0.0, 0.0), (1.0, 0.0)]),
        stroke(vec![(0.0, 1.0), (1.0, 1.0)]),
    ])
    .unwrap();
    let region = CanvasRegion::new(-50, -20, 100, 40).unwrap();
    let actions = build_schedule(&image, &region, 2);
    let expected = vec![
        ScheduledAction { kind: ActionKind::MoveTo { x: -50, y: -20 }, at_ms: 0 },
        ScheduledAction { kind: ActionKind::PenDown, at_ms: 0 },
        ScheduledAction { kind: ActionKind::MoveTo { x: 50, y: -20 }, at_ms: 8 },
        ScheduledAction { kind: ActionKind::PenUp, at_ms: 8 },
        ScheduledAction { kind: ActionKind::MoveTo { x: -50, y: 20 }, at_ms: 16 },
        ScheduledAction { kind: ActionKind::PenDown, at_ms: 16 },
        ScheduledAction { kind: ActionKind::MoveTo { x: 50, y: 20 }, at_ms: 24 },
        ScheduledAction { kind: ActionKind::PenUp, at_ms: 24 },
    ];
    assert_eq!(actions, expected);
}

#[test]
fn pen_presses_and_releases_alternate() {
    let image = VectorImage::new(vec![
        stroke(vec![(0.1, 0.1), (0.2, 0.2), (0.3, 0.1)]),
        stroke(vec![(0.5, 0.5), (0.6, 0.6)]),
        stroke(vec![(0.9, 0.9), (0.8, 0.8), (0.7, 0.7), (0.6, 0.6)]),
    ])
    .unwrap();
    let region = CanvasRegion::new(0, 0, 1920, 1080).unwrap();
    let actions = build_schedule(&image, &region, 3);
    assert_eq!(actions.len(), 9 + 2 * 3);
    let mut down = false;
    let mut presses = 0;
    let mut releases = 0;
    for a in actions.iter() {
        match a.kind {
            ActionKind::PenDown => {
                assert!(!down);
                down = true;
                presses += 1;
            }
            ActionKind::PenUp => {
                assert!(down);
                down = false;
                releases += 1;
            }
            ActionKind::MoveTo { .. } => {}
        }
    }
    assert!(!down);
    assert_eq!(presses, 3);
    assert_eq!(releases, 3);
}

#[test]
fn mapped_points_stay_inside_the_region() {
    let region = CanvasRegion::new(-300, 40, 777, 333).unwrap();
    let mut n: u32 = 0;
    while n <= UNIT {
        let p = NormPoint::new(n, UNIT - n).unwrap();
        let (x, y) = map_point(&region, p);
        assert!(-300 <= x && x <= -300 + 777);
        assert!(40 <= y && y <= 40 + 333);
        n += 12_500;
    }
    assert_eq!(map_point(&region, NormPoint::new(0, 0).unwrap()), (-300, 40));
    assert_eq!(map_point(&region, NormPoint::new(UNIT, UNIT).unwrap()), (477, 373));
}

#[test]
fn map_coord_rounds_to_nearest() {
    assert_eq!(map_coord(100, 800, 500_000), 500);
    assert_eq!(map_coord(0, 3, 500_000), 2);
    assert_eq!(map_coord(0, 3, 499_999), 1);
    assert_eq!(map_coord(0, 10, 49_999), 0);
    assert_eq!(map_coord(0, 10, 50_000), 1);
    assert_eq!(map_coord(-10, 10, 1_000_000), 0);
    assert_eq!(map_coord(i32::MIN, u32::MAX, 1_000_000), (i32::MIN as i64) + (u32::MAX as i64));
}

#[test]
fn step_delay_is_inverse_to_speed_with_a_floor() {
    assert_eq!(step_delay_ms(1), 16);
    assert_eq!(step_delay_ms(2), 8);
    assert_eq!(step_delay_ms(3), 5);
    assert_eq!(step_delay_ms(8), 2);
    assert_eq!(step_delay_ms(9), 2);
    assert_eq!(step_delay_ms(64), 2);
    assert_eq!(step_delay_ms(1), BASE_DELAY_MS);
    assert_eq!(step_delay_ms(64), MIN_DELAY_MS);
}

#[test]
fn constructors_refuse_what_breaks_the_invariants() {
    assert!(CanvasRegion::new(0, 0, 0, 10).is_none());
    assert!(CanvasRegion::new(0, 0, 10, 0).is_none());
    assert!(CanvasRegion::new(-5, -5, 1, 1).is_some());
    assert!(NormPoint::new(UNIT + 1, 0).is_none());
    assert!(NormPoint::new(0, UNIT + 1).is_none());
    assert!(NormPoint::new(UNIT, UNIT).is_some());
    assert!(Stroke::new(vec![]).is_none());
    assert!(Stroke::new(vec![NormPoint { x: 0, y: 0 }]).is_none());
    assert!(Stroke::new(vec![NormPoint { x: 0, y: 0 }, NormPoint { x: UNIT + 1, y: 0 }]).is_none());
    assert!(Stroke::new(vec![NormPoint { x: 0, y: 0 }; MAX_STROKE_POINTS + 1]).is_none());
    assert!(VectorImage::new(vec![]).is_none());
    let bad = Stroke { points: vec![NormPoint { x: 0, y: 0 }] };
    assert!(!bad.is_valid());
    assert!(VectorImage::new(vec![bad]).is_none());
}

#[test]
fn duplicate_copies_every_point() {
    let image = VectorImage::new(vec![
        stroke(vec![(0.0, 0.0), (1.0, 0.0)]),
        stroke(vec![(0.0, 1.0), (0.5, 0.25), (1.0, 1.0)]),
    ])
    .unwrap();
    let copy = image.duplicate();
    assert_eq!(copy.strokes.len(), 2);
    assert_eq!(copy.strokes[0].points, image.strokes[0].points);
    assert_eq!(copy.strokes[1].points, image.strokes[1].points);
    assert!(copy.is_valid());
}
