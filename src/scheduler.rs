//! The frame scheduler: reacts to the device's flip-completed and error
//! signals, with at most one frame in flight.
use vstd::prelude::*;
use crate::render::{PassView, RenderPass};
use crate::scene::Scene;

verus! {

#[derive(Clone, Copy, Debug, PartialEq, Eq, Structural)]
pub enum FrameState {
    Idle,
    FrameInFlight,
    /// The device reported an error; there is no way out of this state.
    Faulted,
}

/// Abstract state of the scheduler, with the number of frames begun and
/// finished so far.
pub struct SchedulerView {
    pub state: FrameState,
    pub begun: nat,
    pub finished: nat,
}

/// Idle after every begun frame was finished; exactly one frame is
/// unfinished while one is in flight.
pub open spec fn scheduler_wf(v: SchedulerView) -> bool {
    &&& v.state == FrameState::Idle ==> v.begun == v.finished
    &&& v.state == FrameState::FrameInFlight ==> v.begun == v.finished + 1
}

/// Handles the device's signals for the bound output.
pub struct DrmHandlerImpl {
    state: FrameState,
    begun: Ghost<nat>,
    finished: Ghost<nat>,
}

impl View for DrmHandlerImpl {
    type V = SchedulerView;

    closed spec fn view(&self) -> SchedulerView {
        SchedulerView { state: self.state, begun: self.begun@, finished: self.finished@ }
    }
}

impl DrmHandlerImpl {
    pub open spec fn wf(&self) -> bool {
        scheduler_wf(self@)
    }

    pub fn new() -> (r: DrmHandlerImpl)
        ensures
            r.wf(),
            r@ == (SchedulerView { state: FrameState::Idle, begun: 0, finished: 0 }),
    {
        DrmHandlerImpl { state: FrameState::Idle, begun: Ghost(0), finished: Ghost(0) }
    }

    pub fn state(&self) -> (r: FrameState)
        ensures
            r == self@.state,
    {
        self.state
    }

    /// A flip completed. When idle, a frame begins: the returned pass walks
    /// `scene` and must be handed to `finish_frame` once it has finished.
    /// Otherwise no frame begins and the scene is handed back untouched.
    pub fn ready(&mut self, scene: Scene) -> (r: Result<RenderPass, Scene>)
        requires
            old(self).wf(),
            scene.wf(),
        ensures
            final(self).wf(),
            old(self)@.state == FrameState::Idle ==> {
                &&& final(self)@ == (SchedulerView {
                    state: FrameState::FrameInFlight,
                    begun: old(self)@.begun + 1,
                    finished: old(self)@.finished,
                })
                &&& r matches Ok(pass) && pass.wf() && pass@ == (PassView {
                    surfaces: scene.surfaces@,
                    next: 0,
                    awaiting: false,
                    drawn: Seq::empty(),
                    finished: false,
                    frame: old(self)@.begun + 1,
                })
            },
            old(self)@.state != FrameState::Idle ==> {
                &&& final(self)@ == old(self)@
                &&& r matches Err(s) && s.surfaces@ == scene.surfaces@
            },
    {
        match self.state {
            FrameState::Idle => {
                self.state = FrameState::FrameInFlight;
                self.begun = Ghost(self.begun@ + 1);
                Ok(RenderPass::begin(scene, Ghost(self.begun@)))
            },
            _ => Err(scene),
        }
    }

    /// Submits the frame in flight: its pass, the one `ready` began last,
    /// has finished; the scene is handed back.
    pub fn finish_frame(&mut self, pass: RenderPass) -> (r: Scene)
        requires
            old(self).wf(),
            old(self)@.state == FrameState::FrameInFlight,
            pass.wf(),
            pass@.finished,
            pass@.frame == old(self)@.begun,
        ensures
            final(self).wf(),
            final(self)@ == (SchedulerView {
                state: FrameState::Idle,
                begun: old(self)@.begun,
                finished: old(self)@.finished + 1,
            }),
            r.wf(),
            r.surfaces@ == pass@.surfaces,
    {
        self.state = FrameState::Idle;
        self.finished = Ghost(self.finished@ + 1);
        pass.end()
    }

    /// The device reported an error: fatal, with no recovery.
    pub fn error(&mut self)
        requires
            old(self).wf(),
        ensures
            final(self).wf(),
            final(self)@ == (SchedulerView { state: FrameState::Faulted, ..old(self)@ }),
    {
        self.state = FrameState::Faulted;
    }
}

/// Frames are paired: an idle scheduler has finished every frame it began,
/// and one with a frame in flight has exactly that one unfinished. A flip
/// signal begins a frame only when idle, and finishing a frame returns to idle,
/// so each begun frame is finished exactly once before the next begins.
pub proof fn law_begin_finish_paired(v: SchedulerView)
    requires
        scheduler_wf(v),
    ensures
        v.state == FrameState::Idle ==> v.begun == v.finished,
        v.state == FrameState::FrameInFlight ==> v.begun == v.finished + 1,
        v.state == FrameState::FrameInFlight ==> scheduler_wf(
            SchedulerView { state: FrameState::Idle, finished: v.finished + 1, ..v },
        ),
        v.state == FrameState::Idle ==> scheduler_wf(
            SchedulerView { state: FrameState::FrameInFlight, begun: v.begun + 1, ..v },
        ),
{
}

} // verus!
