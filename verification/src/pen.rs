use crate::geometry::{lemma_map_axis_fits, lemma_map_axis_in_range, CanvasRegion, NormPoint};
use crate::schedule::{
    schedule, stroke_actions, total_points, ActionKind, ScheduledAction,
};
use vstd::prelude::*;

verus! {

/// Whether the pen is pressed once the first `n` actions have been carried
/// out, starting with the pen released.
pub open spec fn pen_after(actions: Seq<ScheduledAction>, n: int) -> bool
    decreases n,
{
    if n <= 0 {
        false
    } else {
        match actions[n - 1].kind {
            ActionKind::PenDown => true,
            ActionKind::PenUp => false,
            ActionKind::MoveTo { .. } => pen_after(actions, n - 1),
        }
    }
}

/// Presses and releases take turns: a press comes only while the pen is
/// released, a release only while it is pressed.
pub open spec fn pen_alternates(actions: Seq<ScheduledAction>) -> bool {
    forall|i: int|
        0 <= i < actions.len() ==> match (#[trigger] actions[i]).kind {
            ActionKind::PenDown => !pen_after(actions, i),
            ActionKind::PenUp => pen_after(actions, i),
            ActionKind::MoveTo { .. } => true,
        }
}

/// Presses and releases take turns, the first is a press and the last a
/// release: every press is answered by exactly one release, and the sequence
/// leaves the pen released.
pub open spec fn pen_balanced(actions: Seq<ScheduledAction>) -> bool {
    pen_alternates(actions) && !pen_after(actions, actions.len() as int)
}

/// Every move of the sequence ends inside the region.
pub open spec fn moves_within(actions: Seq<ScheduledAction>, region: CanvasRegion) -> bool {
    forall|i: int|
        0 <= i < actions.len() ==> match (#[trigger] actions[i]).kind {
            ActionKind::MoveTo { x, y } => region.contains(x as int, y as int),
            _ => true,
        }
}

/// The pen state after a prefix depends on that prefix alone.
pub proof fn lemma_pen_after_prefix(a: Seq<ScheduledAction>, b: Seq<ScheduledAction>, n: int)
    requires
        0 <= n <= a.len(),
    ensures
        pen_after(a + b, n) == pen_after(a, n),
    decreases n,
{
    if n > 0 {
        assert((a + b)[n - 1] == a[n - 1]);
        lemma_pen_after_prefix(a, b, n - 1);
    }
}

/// After a sequence that leaves the pen released, the pen state follows the
/// actions appended to it.
pub proof fn lemma_pen_after_suffix(a: Seq<ScheduledAction>, b: Seq<ScheduledAction>, k: int)
    requires
        !pen_after(a, a.len() as int),
        0 <= k <= b.len(),
    ensures
        pen_after(a + b, a.len() + k) == pen_after(b, k),
    decreases k,
{
    if k == 0 {
        lemma_pen_after_prefix(a, b, a.len() as int);
    } else {
        assert((a + b)[a.len() + k - 1] == b[k - 1]);
        lemma_pen_after_suffix(a, b, k - 1);
    }
}

/// Two balanced sequences, one after the other, are balanced.
pub proof fn lemma_balanced_concat(a: Seq<ScheduledAction>, b: Seq<ScheduledAction>)
    requires
        pen_balanced(a),
        pen_balanced(b),
    ensures
        pen_balanced(a + b),
{
    let c = a + b;
    assert forall|i: int| 0 <= i < c.len() implies match (#[trigger] c[i]).kind {
        ActionKind::PenDown => !pen_after(c, i),
        ActionKind::PenUp => pen_after(c, i),
        ActionKind::MoveTo { .. } => true,
    } by {
        if i < a.len() {
            assert(c[i] == a[i]);
            lemma_pen_after_prefix(a, b, i);
        } else {
            assert(c[i] == b[i - a.len()]);
            lemma_pen_after_suffix(a, b, i - a.len());
        }
    }
    lemma_pen_after_suffix(a, b, b.len() as int);
}

/// Inside one stroke the pen is released before the press and pressed from
/// the press up to the release.
pub proof fn lemma_stroke_pen_state(
    region: CanvasRegion,
    pts: Seq<NormPoint>,
    delay: int,
    first_move: int,
    n: int,
)
    requires
        pts.len() > 0,
        0 <= n <= pts.len() + 2,
    ensures
        pen_after(stroke_actions(region, pts, delay, first_move), n) == (2 <= n <= pts.len() + 1),
    decreases n,
{
    if n > 0 {
        lemma_stroke_pen_state(region, pts, delay, first_move, n - 1);
    }
}

/// The actions of one stroke are balanced.
pub proof fn lemma_stroke_balanced(
    region: CanvasRegion,
    pts: Seq<NormPoint>,
    delay: int,
    first_move: int,
)
    ensures
        pen_balanced(stroke_actions(region, pts, delay, first_move)),
{
    let s = stroke_actions(region, pts, delay, first_move);
    if pts.len() > 0 {
        assert forall|i: int| 0 <= i < s.len() implies match (#[trigger] s[i]).kind {
            ActionKind::PenDown => !pen_after(s, i),
            ActionKind::PenUp => pen_after(s, i),
            ActionKind::MoveTo { .. } => true,
        } by {
            lemma_stroke_pen_state(region, pts, delay, first_move, i);
        }
        lemma_stroke_pen_state(region, pts, delay, first_move, s.len() as int);
    }
}

/// In the action sequence of any image, presses and releases take turns,
/// starting with a press and ending with a release: no two presses and no two
/// releases follow each other, and each press has its one release.
pub proof fn lemma_schedule_balanced(
    region: CanvasRegion,
    strokes: Seq<Seq<NormPoint>>,
    delay: int,
)
    ensures
        pen_balanced(schedule(region, strokes, delay)),
    decreases strokes.len(),
{
    if strokes.len() > 0 {
        lemma_schedule_balanced(region, strokes.drop_last(), delay);
        lemma_stroke_balanced(
            region,
            strokes.last(),
            delay,
            total_points(strokes.drop_last()),
        );
        lemma_balanced_concat(
            schedule(region, strokes.drop_last(), delay),
            stroke_actions(region, strokes.last(), delay, total_points(strokes.drop_last())),
        );
    }
}

/// Every move of a stroke whose points lie in the unit square ends inside
/// the region.
pub proof fn lemma_stroke_within(
    region: CanvasRegion,
    pts: Seq<NormPoint>,
    delay: int,
    first_move: int,
)
    requires
        forall|k: int| 0 <= k < pts.len() ==> (#[trigger] pts[k]).wf(),
    ensures
        moves_within(stroke_actions(region, pts, delay, first_move), region),
{
    let s = stroke_actions(region, pts, delay, first_move);
    assert forall|i: int| 0 <= i < s.len() implies match (#[trigger] s[i]).kind {
        ActionKind::MoveTo { x, y } => region.contains(x as int, y as int),
        _ => true,
    } by {
        let p = if i == 0 {
            pts[0]
        } else {
            pts[i - 1]
        };
        if i == 0 || (2 <= i <= pts.len()) {
            assert(p.wf());
            lemma_map_axis_fits(region.x as int, region.width as int, p.x as int);
            lemma_map_axis_fits(region.y as int, region.height as int, p.y as int);
            lemma_map_axis_in_range(region.x as int, region.width as int, p.x as int);
            lemma_map_axis_in_range(region.y as int, region.height as int, p.y as int);
        }
    }
}

/// Every move in the action sequence of an image whose points lie in the
/// unit square ends inside the region, borders included.
pub proof fn lemma_schedule_within(
    region: CanvasRegion,
    strokes: Seq<Seq<NormPoint>>,
    delay: int,
)
    requires
        forall|i: int, k: int|
            0 <= i < strokes.len() && 0 <= k < strokes[i].len() ==> (#[trigger] strokes[i][k]).wf(),
    ensures
        moves_within(schedule(region, strokes, delay), region),
    decreases strokes.len(),
{
    if strokes.len() > 0 {
        let head = strokes.drop_last();
        assert forall|i: int, k: int| 0 <= i < head.len() && 0 <= k < head[i].len() implies (
        #[trigger] head[i][k]).wf() by {
            assert(head[i] == strokes[i]);
        }
        lemma_schedule_within(region, head, delay);
        let last = strokes.last();
        assert forall|k: int| 0 <= k < last.len() implies (#[trigger] last[k]).wf() by {
            assert(last == strokes[strokes.len() - 1]);
            assert(strokes[strokes.len() - 1][k].wf());
        }
        lemma_stroke_within(region, last, delay, total_points(head));
        let a = schedule(region, head, delay);
        let b = stroke_actions(region, last, delay, total_points(head));
        assert forall|i: int| 0 <= i < (a + b).len() implies match (#[trigger] (a + b)[i]).kind {
            ActionKind::MoveTo { x, y } => region.contains(x as int, y as int),
            _ => true,
        } by {
            if i < a.len() {
                assert((a + b)[i] == a[i]);
            } else {
                assert((a + b)[i] == b[i - a.len()]);
            }
        }
    }
}

/// Number of actions in the sequence of an image: two for each stroke that
/// has a point, and one for each point.
pub proof fn lemma_schedule_len(region: CanvasRegion, strokes: Seq<Seq<NormPoint>>, delay: int)
    requires
        forall|i: int| 0 <= i < strokes.len() ==> (#[trigger] strokes[i]).len() > 0,
    ensures
        schedule(region, strokes, delay).len() == total_points(strokes) + 2 * strokes.len(),
    decreases strokes.len(),
{
    if strokes.len() > 0 {
        let head = strokes.drop_last();
        assert forall|i: int| 0 <= i < head.len() implies (#[trigger] head[i]).len() > 0 by {
            assert(head[i] == strokes[i]);
        }
        lemma_schedule_len(region, head, delay);
    }
}

} // verus!
