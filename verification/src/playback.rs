use crate::pen::pen_after;
use crate::schedule::{ActionKind, ScheduledAction};
use crate::scheduler::{SchedulerView, Step};
use vstd::prelude::*;

verus! {

/// Asking the scheduler keeps it well formed, and a running session stays
/// running or ends.
pub proof fn lemma_advanced_wf(v: SchedulerView)
    requires
        v.wf(),
    ensures
        v.advanced().wf(),
        v.state is Running ==> !(v.advanced().state is Paused),
        v.advanced().state is Idle || v.advanced().actions == v.actions,
{
}

/// Asking any number of times keeps the scheduler well formed, and never
/// pauses a session that was not paused.
pub proof fn lemma_after_wf(v: SchedulerView, rounds: nat)
    requires
        v.wf(),
    ensures
        v.after(rounds).wf(),
        !(v.state is Paused) ==> !(v.after(rounds).state is Paused),
    decreases rounds,
{
    if rounds > 0 {
        lemma_advanced_wf(v);
        lemma_after_wf(v.advanced(), (rounds - 1) as nat);
    }
}

/// Asking `a` times and then `b` times hands out what asking `a + b` times
/// does, and ends in the same state.
pub proof fn lemma_played_split(v: SchedulerView, a: nat, b: nat)
    ensures
        v.played(a) + v.after(a).played(b) == v.played(a + b),
        v.after(a).after(b) == v.after(a + b),
    decreases a,
{
    if a == 0 {
        assert(v.played(0) + v.played(b) =~= v.played(b));
    } else {
        let w = v.advanced();
        lemma_played_split(w, (a - 1) as nat, b);
        assert(((a - 1) as nat) + b == (a + b - 1) as nat);
        match v.step() {
            Step::Execute(x) => {
                assert((seq![x] + w.played((a - 1) as nat)) + w.after((a - 1) as nat).played(b)
                    =~= seq![x] + (w.played((a - 1) as nat) + w.after((a - 1) as nat).played(b)));
            },
            _ => {},
        }
    }
}

/// A paused session hands out nothing and does not move, however often it is
/// asked.
pub proof fn lemma_paused_holds(v: SchedulerView, rounds: nat)
    requires
        v.state is Paused,
    ensures
        v.played(rounds) == Seq::<ScheduledAction>::empty(),
        v.after(rounds) == v,
    decreases rounds,
{
    if rounds > 0 {
        lemma_paused_holds(v, (rounds - 1) as nat);
    }
}

/// Without a session nothing is handed out.
pub proof fn lemma_idle_holds(v: SchedulerView, rounds: nat)
    requires
        v.state is Idle,
        v.wf(),
    ensures
        v.played(rounds) == Seq::<ScheduledAction>::empty(),
        v.after(rounds) == v,
    decreases rounds,
{
    if rounds > 0 {
        lemma_idle_holds(v, (rounds - 1) as nat);
    }
}

/// A running session that is asked often enough, with no command in
/// between, hands out exactly the actions that were left, in schedule order,
/// and then ends.
pub proof fn lemma_played_to_end(v: SchedulerView, rounds: nat)
    requires
        v.wf(),
        v.state is Running,
        rounds > v.actions.len() - v.cursor,
    ensures
        v.played(rounds) == v.remaining(),
        v.after(rounds) == SchedulerView::idle(),
    decreases rounds,
{
    let w = v.advanced();
    lemma_advanced_wf(v);
    if v.cursor < v.actions.len() {
        lemma_played_to_end(w, (rounds - 1) as nat);
        assert(seq![v.actions[v.cursor]] + w.remaining() =~= v.remaining());
    } else {
        lemma_idle_holds(w, (rounds - 1) as nat);
        assert(v.remaining() =~= Seq::<ScheduledAction>::empty());
    }
}

/// Pausing and resuming at once changes nothing in a scheduler that was not
/// paused.
pub proof fn lemma_pause_resume_identity(v: SchedulerView)
    requires
        !(v.state is Paused),
    ensures
        v.paused().resumed() == v,
{
}

/// A pause is transparent. Take a running session that is asked `before`
/// times, paused, asked `held` times while paused, resumed, and asked `rest`
/// times more. All in all it hands out what the session would have handed
/// out in `before + rest` rounds without the pause, and ends in the same
/// state; with enough rounds that is every action that was left, and the
/// scheduler is idle.
pub proof fn lemma_pause_transparent(v: SchedulerView, before: nat, held: nat, rest: nat)
    requires
        v.wf(),
        v.state is Running,
    ensures
        ({
            let at_pause = v.after(before).paused();
            let at_resume = at_pause.after(held).resumed();
            &&& v.played(before) + at_pause.played(held) + at_resume.played(rest) == v.played(
                before + rest,
            )
            &&& at_resume.after(rest) == v.after(before + rest)
            &&& before + rest > v.actions.len() - v.cursor ==> {
                &&& v.played(before + rest) == v.remaining()
                &&& at_resume.after(rest) == SchedulerView::idle()
            }
        }),
{
    let w = v.after(before);
    lemma_after_wf(v, before);
    let at_pause = w.paused();
    if w.state is Running {
        lemma_paused_holds(at_pause, held);
    } else {
        lemma_idle_holds(at_pause, held);
    }
    assert(at_pause.after(held).resumed() == w);
    lemma_played_split(v, before, rest);
    assert(v.played(before) + at_pause.played(held) =~= v.played(before));
    if before + rest > v.actions.len() - v.cursor {
        lemma_played_to_end(v, before + rest);
    }
}

/// Stopping owes the device a pen-up exactly when the actions handed out so
/// far leave the pen pressed; in particular when the last of them was a
/// press.
pub proof fn lemma_stop_releases(v: SchedulerView)
    requires
        v.wf(),
        !(v.state is Idle),
    ensures
        v.release() == if pen_after(v.actions, v.cursor) {
            Some(ActionKind::PenUp)
        } else {
            None::<ActionKind>
        },
        v.cursor > 0 && v.actions[v.cursor - 1].kind is PenDown ==> v.release() == Some(
            ActionKind::PenUp,
        ),
        v.cursor > 0 && v.actions[v.cursor - 1].kind is PenUp ==> v.release() is None,
        v.cursor == 0 || v.cursor == v.actions.len() ==> v.release() is None,
{
}

/// The states of the scheduler and the commands between them: start is
/// refused outside idle, pause and resume move between running and paused
/// and change nothing else.
pub proof fn lemma_transitions(v: SchedulerView)
    requires
        v.wf(),
    ensures
        v.paused().wf(),
        v.resumed().wf(),
        v.state is Running ==> v.paused().state is Paused,
        v.state is Paused ==> v.resumed().state is Running,
        v.paused().paused() == v.paused(),
        v.resumed().resumed() == v.resumed(),
        v.paused().cursor == v.cursor && v.resumed().cursor == v.cursor,
        v.paused().actions == v.actions && v.resumed().actions == v.actions,
        v.state is Idle ==> v.paused() == v && v.resumed() == v,
{
}

} // verus!
