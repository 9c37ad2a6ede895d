use crate::error::{ActuatorError, EngineError, InputError, StateError};
use crate::geometry::CanvasRegion;
use crate::schedule::{valid_speed, ActionKind, VectorImage, MAX_SPEED};
use crate::scheduler::{DrawingParams, Scheduler, SchedulerView, Step};
use crate::raster::RasterImage;
use crate::vectorizer::{vectorize, Method};
use vstd::prelude::*;

verus! {

/// The name of the outline method: the ASCII letters of `outline`.
pub open spec fn outline_name() -> Seq<u8> {
    seq![111u8, 117u8, 116u8, 108u8, 105u8, 110u8, 101u8]
}

/// The name of the raster method: the ASCII letters of `raster`.
pub open spec fn raster_name() -> Seq<u8> {
    seq![114u8, 97u8, 115u8, 116u8, 101u8, 114u8]
}

/// The method that a name stands for.
pub open spec fn method_of(name: Seq<u8>) -> Option<Method> {
    if name == outline_name() {
        Some(Method::Outline)
    } else if name == raster_name() {
        Some(Method::Raster)
    } else {
        None
    }
}

/// Reads the name of a method.
pub fn parse_method(name: &[u8]) -> (r: Option<Method>)
    ensures
        r == method_of(name@),
{
    if name.len() == 7 && name[0] == 111 && name[1] == 117 && name[2] == 116 && name[3] == 108
        && name[4] == 105 && name[5] == 110 && name[6] == 101 {
        assert(name@ =~= outline_name());
        Some(Method::Outline)
    } else if name.len() == 6 && name[0] == 114 && name[1] == 97 && name[2] == 115 && name[3]
        == 116 && name[4] == 101 && name[5] == 114 {
        assert(name@ =~= raster_name());
        assert(raster_name().len() != outline_name().len());
        Some(Method::Raster)
    } else {
        assert(name@ != outline_name()) by {
            if name@ == outline_name() {
                assert(outline_name().len() == 7);
                assert(outline_name()[0] == 111 && outline_name()[1] == 117 && outline_name()[2]
                    == 116 && outline_name()[3] == 108 && outline_name()[4] == 105
                    && outline_name()[5] == 110 && outline_name()[6] == 101);
            }
        }
        assert(name@ != raster_name()) by {
            if name@ == raster_name() {
                assert(raster_name().len() == 6);
                assert(raster_name()[0] == 114 && raster_name()[1] == 97 && raster_name()[2]
                    == 115 && raster_name()[3] == 116 && raster_name()[4] == 101
                    && raster_name()[5] == 114);
            }
        }
        None
    }
}

/// The strokes of one processed image, for each method.
pub struct ProcessedImage {
    pub outline: VectorImage,
    pub raster: VectorImage,
}

impl ProcessedImage {
    pub open spec fn wf(&self) -> bool {
        self.outline.wf() && self.raster.wf()
    }

    /// The strokes that a method draws.
    pub open spec fn strokes(&self, method: Method) -> VectorImage {
        match method {
            Method::Outline => self.outline,
            Method::Raster => self.raster,
        }
    }
}

/// The control surface of the engine: the strokes of the image that was
/// processed last, and the scheduler that draws them.
pub struct Engine {
    image: Option<ProcessedImage>,
    scheduler: Scheduler,
}

impl Engine {
    /// The strokes of the image that was processed last.
    pub closed spec fn processed(&self) -> Option<ProcessedImage> {
        self.image
    }

    /// The scheduler as contracts see it.
    pub closed spec fn session(&self) -> SchedulerView {
        self.scheduler@
    }

    /// The scheduler is well formed, and so are the strokes that are held.
    pub closed spec fn wf(&self) -> bool {
        &&& self.scheduler.wf()
        &&& self.processed() is Some ==> self.processed()->0.wf()
    }

    /// A well-formed engine holds a well-formed session and well-formed
    /// strokes.
    pub proof fn lemma_wf(&self)
        requires
            self.wf(),
        ensures
            self.session().wf(),
            self.processed() is Some ==> self.processed()->0.wf(),
    {
    }

    /// The outcome of a start command: refused while a session is active,
    /// then for parameters out of range, then for want of a processed image.
    pub open spec fn start_outcome(&self, name: Seq<u8>, speed: u32, canvas: CanvasRegion) -> Result<
        (),
        EngineError,
    > {
        if !(self.session().state is Idle) {
            Err(EngineError::State(StateError::SessionAlreadyActive))
        } else if method_of(name) is None || !valid_speed(speed) || !canvas.wf() {
            Err(EngineError::Input(InputError::InvalidParams))
        } else if self.processed() is None {
            Err(EngineError::Input(InputError::EmptyImage))
        } else {
            Ok(())
        }
    }

    /// An engine without an image and without a session.
    pub fn new() -> (e: Engine)
        ensures
            e.wf(),
            e.processed() is None,
            e.session() == SchedulerView::idle(),
    {
        Engine { image: None, scheduler: Scheduler::new() }
    }

    /// The control state of the scheduler.
    pub fn state(&self) -> (st: crate::scheduler::ControlState)
        ensures
            st == self.session().state,
    {
        self.scheduler.state()
    }

    /// Number of actions handed out so far in the session.
    pub fn cursor(&self) -> (c: usize)
        ensures
            c == self.session().cursor,
    {
        self.scheduler.cursor()
    }

    /// Whether an image has been processed.
    pub fn has_image(&self) -> (b: bool)
        ensures
            b == (self.processed() is Some),
    {
        self.image.is_some()
    }

    /// Takes in a decoded image: on success its strokes replace those of
    /// the image before it. An image that cannot be read or that holds
    /// nothing to draw is refused, and the engine keeps what it had. The
    /// session, if there is one, goes on untouched.
    pub fn process_image(&mut self, image: &RasterImage) -> (r: Result<(), EngineError>)
        requires
            old(self).wf(),
        ensures
            final(self).wf(),
            final(self).session() == old(self).session(),
            r == if !image.wf() {
                Err::<(), EngineError>(EngineError::Input(InputError::UnsupportedFormat))
            } else if !image@.traced().has_ink() {
                Err::<(), EngineError>(EngineError::Input(InputError::EmptyImage))
            } else {
                Ok::<(), EngineError>(())
            },
            r is Err ==> final(self).processed() == old(self).processed(),
            r is Ok ==> final(self).processed() is Some && final(self).processed()->0.outline@
                == image@.strokes(Method::Outline) && final(self).processed()->0.raster@
                == image@.strokes(Method::Raster),
    {
        let outline = match vectorize(image, Method::Outline) {
            Ok(v) => v,
            Err(e) => {
                return Err(EngineError::Input(e));
            },
        };
        let raster = match vectorize(image, Method::Raster) {
            Ok(v) => v,
            Err(e) => {
                return Err(EngineError::Input(e));
            },
        };
        self.image = Some(ProcessedImage { outline, raster });
        Ok(())
    }

    /// Starts drawing the processed image with the named method. A refused
    /// command changes nothing; an accepted one starts a running session on
    /// the action sequence of the image's strokes, and keeps the image for
    /// another run.
    pub fn start_drawing(&mut self, method: &[u8], speed: u32, canvas: CanvasRegion) -> (r: Result<
        (),
        EngineError,
    >)
        requires
            old(self).wf(),
        ensures
            final(self).wf(),
            r == old(self).start_outcome(method@, speed, canvas),
            r is Err ==> final(self).session() == old(self).session() && final(self).processed()
                == old(self).processed(),
            r is Ok ==> final(self).processed() is Some && final(self).processed()->0.outline@ == old(
                self,
            ).processed()->0.outline@ && final(self).processed()->0.raster@ == old(self).processed()->0.raster@
                && final(self).session() == SchedulerView::started(
                (DrawingParams { method: method_of(method@)->0, speed, canvas }),
                old(self).processed()->0.strokes(method_of(method@)->0)@,
            ),
    {
        match self.scheduler.state() {
            crate::scheduler::ControlState::Idle => {},
            _ => {
                return Err(EngineError::State(StateError::SessionAlreadyActive));
            },
        }
        let chosen = match parse_method(method) {
            Some(m) => m,
            None => {
                return Err(EngineError::Input(InputError::InvalidParams));
            },
        };
        if speed < 1 || speed > MAX_SPEED || !canvas.is_valid() {
            return Err(EngineError::Input(InputError::InvalidParams));
        }
        let strokes = match &self.image {
            None => {
                return Err(EngineError::Input(InputError::EmptyImage));
            },
            Some(img) => match chosen {
                Method::Outline => img.outline.duplicate(),
                Method::Raster => img.raster.duplicate(),
            },
        };
        let params = DrawingParams { method: chosen, speed, canvas };
        self.scheduler.start_drawing(params, strokes)
    }

    /// Pauses the session; see `Scheduler::pause_drawing`.
    pub fn pause_drawing(&mut self) -> (r: Result<(), EngineError>)
        requires
            old(self).wf(),
        ensures
            final(self).wf(),
            final(self).processed() == old(self).processed(),
            final(self).session() == old(self).session().paused(),
            r == if old(self).session().state is Idle {
                Err::<(), EngineError>(EngineError::State(StateError::NoActiveSession))
            } else {
                Ok::<(), EngineError>(())
            },
    {
        self.scheduler.pause_drawing()
    }

    /// Resumes the session; see `Scheduler::resume_drawing`.
    pub fn resume_drawing(&mut self) -> (r: Result<(), EngineError>)
        requires
            old(self).wf(),
        ensures
            final(self).wf(),
            final(self).processed() == old(self).processed(),
            final(self).session() == old(self).session().resumed(),
            r == if old(self).session().state is Idle {
                Err::<(), EngineError>(EngineError::State(StateError::NoActiveSession))
            } else {
                Ok::<(), EngineError>(())
            },
    {
        self.scheduler.resume_drawing()
    }

    /// Stops the session and hands back the release that the device is
    /// owed; see `Scheduler::stop_drawing`.
    pub fn stop_drawing(&mut self) -> (release: Option<ActionKind>)
        requires
            old(self).wf(),
        ensures
            final(self).wf(),
            final(self).processed() == old(self).processed(),
            final(self).session() == SchedulerView::idle(),
            release == old(self).session().release(),
    {
        self.scheduler.stop_drawing()
    }

    /// The playback loop asks what to do next; see `Scheduler::advance`.
    pub fn advance(&mut self) -> (step: Step)
        requires
            old(self).wf(),
        ensures
            final(self).wf(),
            final(self).processed() == old(self).processed(),
            step == old(self).session().step(),
            final(self).session() == old(self).session().advanced(),
    {
        self.scheduler.advance()
    }

    /// The device failed; see `Scheduler::actuator_failed`.
    pub fn actuator_failed(&mut self, reason: ActuatorError) -> (r: (
        EngineError,
        Option<ActionKind>,
    ))
        requires
            old(self).wf(),
        ensures
            final(self).wf(),
            final(self).processed() == old(self).processed(),
            final(self).session() == SchedulerView::idle(),
            r.0 == (EngineError::ActuatorFailure { reason }),
            r.1 == old(self).session().release(),
    {
        self.scheduler.actuator_failed(reason)
    }
}

} // verus!
