use crate::error::{ActuatorError, EngineError, StateError};
use crate::geometry::{CanvasRegion, NormPoint};
use crate::pen::{lemma_schedule_balanced, pen_after, pen_balanced};
use crate::schedule::{
    build_schedule, schedule, step_delay, valid_speed, ActionKind, ScheduledAction, VectorImage,
};
use crate::vectorizer::Method;
use vstd::prelude::*;

verus! {

/// What the user chose for one drawing.
#[derive(Clone, Copy, Debug, PartialEq, Eq, Structural)]
pub struct DrawingParams {
    pub method: Method,
    pub speed: u32,
    pub canvas: CanvasRegion,
}

impl DrawingParams {
    /// The speed is in range and the canvas has area.
    pub open spec fn wf(&self) -> bool {
        valid_speed(self.speed) && self.canvas.wf()
    }

    /// Tests the invariant.
    pub fn is_valid(&self) -> (b: bool)
        ensures
            b == self.wf(),
    {
        1 <= self.speed && self.speed <= crate::schedule::MAX_SPEED && self.canvas.is_valid()
    }
}

/// Where the scheduler stands.
#[derive(Clone, Copy, Debug, PartialEq, Eq, Structural)]
pub enum ControlState {
    Idle,
    Running,
    Paused,
}

/// What the playback loop has to do next.
#[derive(Clone, Copy, Debug, PartialEq, Eq, Structural)]
pub enum Step {
    /// Carry out this action, then ask again.
    Execute(ScheduledAction),
    /// The session is paused: wait, then ask again.
    Hold,
    /// The last action has been handed out and the session is over.
    Finished,
    /// Nothing is being drawn.
    Inactive,
}

/// The scheduler as contracts see it.
pub struct SchedulerView {
    pub state: ControlState,
    /// The action sequence of the session.
    pub actions: Seq<ScheduledAction>,
    /// Number of actions handed out so far.
    pub cursor: int,
    /// Whether the actions handed out so far leave the pen pressed.
    pub pen_down: bool,
    /// What the session was started with; nothing without a session.
    pub params: Option<DrawingParams>,
    /// The strokes that the session draws.
    pub image: Seq<Seq<NormPoint>>,
}

/// The pen state after one more action.
pub open spec fn pen_next(pen_down: bool, kind: ActionKind) -> bool {
    match kind {
        ActionKind::PenDown => true,
        ActionKind::PenUp => false,
        ActionKind::MoveTo { .. } => pen_down,
    }
}

impl SchedulerView {
    /// The scheduler without a session.
    pub open spec fn idle() -> SchedulerView {
        SchedulerView {
            state: ControlState::Idle,
            actions: Seq::empty(),
            cursor: 0,
            pen_down: false,
            params: None,
            image: Seq::empty(),
        }
    }

    /// Without a session nothing is held. With one, the actions are the
    /// schedule of the session's image in its canvas at its speed, the
    /// sequence is balanced, the cursor lies inside it and the pen flag is
    /// the pen state that the actions handed out so far leave behind.
    pub open spec fn wf(self) -> bool {
        if self.state is Idle {
            self == Self::idle()
        } else {
            &&& self.params is Some
            &&& self.actions == schedule(
                self.params->0.canvas,
                self.image,
                step_delay(self.params->0.speed as int),
            )
            &&& pen_balanced(self.actions)
            &&& 0 <= self.cursor <= self.actions.len()
            &&& self.pen_down == pen_after(self.actions, self.cursor)
        }
    }

    /// A fresh session that draws `image` as `params` say.
    pub open spec fn started(params: DrawingParams, image: Seq<Seq<NormPoint>>) -> SchedulerView {
        SchedulerView {
            state: ControlState::Running,
            actions: schedule(params.canvas, image, step_delay(params.speed as int)),
            cursor: 0,
            pen_down: false,
            params: Some(params),
            image,
        }
    }

    /// The state after a pause command.
    pub open spec fn paused(self) -> SchedulerView {
        if self.state is Running {
            SchedulerView {
                state: ControlState::Paused,
                actions: self.actions,
                cursor: self.cursor,
                pen_down: self.pen_down,
                params: self.params,
                image: self.image,
            }
        } else {
            self
        }
    }

    /// The state after a resume command.
    pub open spec fn resumed(self) -> SchedulerView {
        if self.state is Paused {
            SchedulerView {
                state: ControlState::Running,
                actions: self.actions,
                cursor: self.cursor,
                pen_down: self.pen_down,
                params: self.params,
                image: self.image,
            }
        } else {
            self
        }
    }

    /// The release that tearing the session down owes the device: a pen-up
    /// if the actions handed out so far leave the pen pressed.
    pub open spec fn release(self) -> Option<ActionKind> {
        if !(self.state is Idle) && self.pen_down {
            Some(ActionKind::PenUp)
        } else {
            None
        }
    }

    /// What the playback loop is told when it asks.
    pub open spec fn step(self) -> Step {
        match self.state {
            ControlState::Idle => Step::Inactive,
            ControlState::Paused => Step::Hold,
            ControlState::Running => if self.cursor < self.actions.len() {
                Step::Execute(self.actions[self.cursor])
            } else {
                Step::Finished
            },
        }
    }

    /// The state after the playback loop has asked.
    pub open spec fn advanced(self) -> SchedulerView {
        match self.step() {
            Step::Execute(a) => SchedulerView {
                state: ControlState::Running,
                actions: self.actions,
                cursor: self.cursor + 1,
                pen_down: pen_next(self.pen_down, a.kind),
                params: self.params,
                image: self.image,
            },
            Step::Finished => Self::idle(),
            _ => self,
        }
    }

    /// The actions that are still to be handed out.
    pub open spec fn remaining(self) -> Seq<ScheduledAction> {
        if self.state is Idle {
            Seq::empty()
        } else {
            self.actions.subrange(self.cursor, self.actions.len() as int)
        }
    }

    /// The actions that the playback loop is handed when it asks `rounds`
    /// times in a row, with no command in between.
    pub open spec fn played(self, rounds: nat) -> Seq<ScheduledAction>
        decreases rounds,
    {
        if rounds == 0 {
            Seq::empty()
        } else {
            match self.step() {
                Step::Execute(a) => seq![a] + self.advanced().played((rounds - 1) as nat),
                _ => self.advanced().played((rounds - 1) as nat),
            }
        }
    }

    /// The state after the playback loop has asked `rounds` times in a row.
    pub open spec fn after(self, rounds: nat) -> SchedulerView
        decreases rounds,
    {
        if rounds == 0 {
            self
        } else {
            self.advanced().after((rounds - 1) as nat)
        }
    }
}

/// One live drawing run.
struct Session {
    image: VectorImage,
    params: DrawingParams,
    actions: Vec<ScheduledAction>,
    cursor: usize,
    pen_down: bool,
    paused: bool,
}

/// The playback scheduler: it holds at most one session and is the only
/// place where the session's state changes.
pub struct Scheduler {
    session: Option<Session>,
}

impl View for Scheduler {
    type V = SchedulerView;

    closed spec fn view(&self) -> SchedulerView {
        match self.session {
            None => SchedulerView::idle(),
            Some(s) => SchedulerView {
                state: if s.paused {
                    ControlState::Paused
                } else {
                    ControlState::Running
                },
                actions: s.actions@,
                cursor: s.cursor as int,
                pen_down: s.pen_down,
                params: Some(s.params),
                image: s.image@,
            },
        }
    }
}

impl Scheduler {
    pub open spec fn wf(&self) -> bool {
        self@.wf()
    }

    /// A scheduler without a session.
    pub fn new() -> (s: Scheduler)
        ensures
            s@ == SchedulerView::idle(),
            s.wf(),
    {
        Scheduler { session: None }
    }

    /// The control state.
    pub fn state(&self) -> (st: ControlState)
        ensures
            st == self@.state,
    {
        match &self.session {
            None => ControlState::Idle,
            Some(s) => if s.paused {
                ControlState::Paused
            } else {
                ControlState::Running
            },
        }
    }

    /// Number of actions handed out so far; 0 without a session.
    pub fn cursor(&self) -> (c: usize)
        ensures
            c == self@.cursor,
    {
        match &self.session {
            None => 0,
            Some(s) => s.cursor,
        }
    }

    /// Number of actions in the session's sequence; 0 without a session.
    pub fn action_count(&self) -> (n: usize)
        ensures
            n == self@.actions.len(),
    {
        match &self.session {
            None => 0,
            Some(s) => s.actions.len(),
        }
    }

    /// What the session was started with.
    pub fn params(&self) -> (p: Option<DrawingParams>)
        ensures
            p == self@.params,
    {
        match &self.session {
            None => None,
            Some(s) => Some(s.params),
        }
    }

    /// Number of strokes that the session draws; 0 without a session.
    pub fn stroke_count(&self) -> (n: usize)
        ensures
            n == self@.image.len(),
    {
        match &self.session {
            None => 0,
            Some(s) => s.image.strokes.len(),
        }
    }

    /// Whether the actions handed out so far leave the pen pressed.
    pub fn pen_is_down(&self) -> (b: bool)
        ensures
            b == self@.pen_down,
    {
        match &self.session {
            None => false,
            Some(s) => s.pen_down,
        }
    }

    /// Starts a session on `image`. While a session is active the command is
    /// refused and nothing changes. Otherwise the scheduler runs a fresh
    /// session on the action sequence of the image in the chosen canvas at
    /// the chosen speed.
    pub fn start_drawing(&mut self, params: DrawingParams, image: VectorImage) -> (r: Result<
        (),
        EngineError,
    >)
        requires
            old(self).wf(),
            params.wf(),
            image.wf(),
        ensures
            final(self).wf(),
            !(old(self)@.state is Idle) ==> r == Err::<(), EngineError>(
                EngineError::State(StateError::SessionAlreadyActive),
            ) && final(self)@ == old(self)@,
            old(self)@.state is Idle ==> r == Ok::<(), EngineError>(()) && final(self)@
                == SchedulerView::started(params, image@),
    {
        if self.session.is_some() {
            return Err(EngineError::State(StateError::SessionAlreadyActive));
        }
        let actions = build_schedule(&image, &params.canvas, params.speed);
        proof {
            lemma_schedule_balanced(params.canvas, image@, step_delay(params.speed as int));
        }
        self.session = Some(
            Session { image, params, actions, cursor: 0, pen_down: false, paused: false },
        );
        Ok(())
    }

    /// Pauses a running session; a paused one stays paused. Without a
    /// session the command is an error.
    pub fn pause_drawing(&mut self) -> (r: Result<(), EngineError>)
        requires
            old(self).wf(),
        ensures
            final(self).wf(),
            final(self)@ == old(self)@.paused(),
            r == if old(self)@.state is Idle {
                Err::<(), EngineError>(EngineError::State(StateError::NoActiveSession))
            } else {
                Ok::<(), EngineError>(())
            },
    {
        match self.session.take() {
            None => Err(EngineError::State(StateError::NoActiveSession)),
            Some(mut s) => {
                s.paused = true;
                self.session = Some(s);
                Ok(())
            },
        }
    }

    /// Resumes a paused session; a running one keeps running. Without a
    /// session the command is an error.
    pub fn resume_drawing(&mut self) -> (r: Result<(), EngineError>)
        requires
            old(self).wf(),
        ensures
            final(self).wf(),
            final(self)@ == old(self)@.resumed(),
            r == if old(self)@.state is Idle {
                Err::<(), EngineError>(EngineError::State(StateError::NoActiveSession))
            } else {
                Ok::<(), EngineError>(())
            },
    {
        match self.session.take() {
            None => Err(EngineError::State(StateError::NoActiveSession)),
            Some(mut s) => {
                s.paused = false;
                self.session = Some(s);
                Ok(())
            },
        }
    }

    /// Tears the session down, whatever its state, and hands back the
    /// release that the device is owed: a pen-up if the pen was left
    /// pressed. Without a session nothing happens.
    pub fn stop_drawing(&mut self) -> (release: Option<ActionKind>)
        requires
            old(self).wf(),
        ensures
            final(self).wf(),
            final(self)@ == SchedulerView::idle(),
            release == old(self)@.release(),
    {
        match self.session.take() {
            None => None,
            Some(s) => if s.pen_down {
                Some(ActionKind::PenUp)
            } else {
                None
            },
        }
    }

    /// The playback loop asks what to do next. A running session hands out
    /// the action under the cursor and moves on; once the sequence is
    /// exhausted the session ends. A paused session hands out nothing.
    pub fn advance(&mut self) -> (step: Step)
        requires
            old(self).wf(),
        ensures
            final(self).wf(),
            step == old(self)@.step(),
            final(self)@ == old(self)@.advanced(),
    {
        match self.session.take() {
            None => Step::Inactive,
            Some(mut s) => {
                if s.paused {
                    self.session = Some(s);
                    Step::Hold
                } else if s.cursor < s.actions.len() {
                    let a = s.actions[s.cursor];
                    s.cursor = s.cursor + 1;
                    match a.kind {
                        ActionKind::PenDown => {
                            s.pen_down = true;
                        },
                        ActionKind::PenUp => {
                            s.pen_down = false;
                        },
                        ActionKind::MoveTo { .. } => {},
                    }
                    self.session = Some(s);
                    Step::Execute(a)
                } else {
                    Step::Finished
                }
            },
        }
    }

    /// The device failed on an action: the session is torn down as by a
    /// stop, with the same release, and the failure is passed on.
    pub fn actuator_failed(&mut self, reason: ActuatorError) -> (r: (EngineError, Option<ActionKind>))
        requires
            old(self).wf(),
        ensures
            final(self).wf(),
            final(self)@ == SchedulerView::idle(),
            r.0 == (EngineError::ActuatorFailure { reason }),
            r.1 == old(self)@.release(),
    {
        let release = self.stop_drawing();
        (EngineError::ActuatorFailure { reason }, release)
    }
}

} // verus!
