use vstd::prelude::*;

verus! {

/// Where one frame cycle stands.
#[derive(Clone, Copy, Debug, PartialEq, Eq, Structural)]
pub enum FrameState {
    Idle,
    /// The surface is being recreated before an image is acquired.
    Recreating,
    Acquiring,
    /// Target image `index` was acquired; the frame is being recorded.
    Recording { index: u32 },
    /// The recording for target image `index` is being submitted.
    Submitted { index: u32 },
    /// Target image `index` is being presented.
    Presenting { index: u32 },
}

/// What the host reports back to the cycle.
#[derive(Clone, Copy, Debug, PartialEq, Eq, Structural)]
pub enum FrameEvent {
    /// A frame is wanted; the window currently measures `width` by `height`.
    Redraw { width: u32, height: u32 },
    /// The surface was recreated.
    Recreated,
    /// The surface could not be recreated at the extent asked for.
    RecreateFailed,
    /// Target image `index` was acquired; `suboptimal` when the surface no
    /// longer matches the window exactly.
    Acquired { index: u32, suboptimal: bool },
    /// Acquisition or presentation found the surface out of date.
    OutOfDate,
    /// The frame's commands were recorded.
    Recorded,
    /// The recording was handed to the queue.
    Submitted,
    /// The image was queued for presentation.
    Presented { suboptimal: bool },
}

/// What the host is asked to do next.
#[derive(Clone, Copy, Debug, PartialEq, Eq, Structural)]
pub enum FrameAction {
    /// The cycle is over: the frame was presented or dropped.
    Done,
    /// Recreate the surface at `width` by `height`.
    RecreateSurface { width: u32, height: u32 },
    /// Acquire the next target image.
    AcquireImage,
    /// Wait until the previous use of the recording buffer completed, then
    /// record the frame into target image `index`.
    Record { index: u32 },
    /// Submit the recording, waiting on acquisition and signalling completion.
    Submit,
    /// Present target image `index` once rendering completed.
    Present { index: u32 },
    /// The event does not belong to the current state; nothing changed.
    Ignore,
}

/// The next state, recreation flag and action of a cycle in `state`, with a
/// surface recreation pending when `recreate` holds, on `event`.
pub open spec fn transition(state: FrameState, recreate: bool, event: FrameEvent) -> (
    FrameState,
    bool,
    FrameAction,
) {
    let ignore = (state, recreate, FrameAction::Ignore);
    match state {
        FrameState::Idle => match event {
            FrameEvent::Redraw { width, height } => if !recreate {
                (FrameState::Acquiring, false, FrameAction::AcquireImage)
            } else if width == 0 || height == 0 {
                (FrameState::Idle, true, FrameAction::Done)
            } else {
                (FrameState::Recreating, true, FrameAction::RecreateSurface { width, height })
            },
            _ => ignore,
        },
        FrameState::Recreating => match event {
            FrameEvent::Recreated => (FrameState::Acquiring, false, FrameAction::AcquireImage),
            FrameEvent::RecreateFailed => (FrameState::Idle, true, FrameAction::Done),
            _ => ignore,
        },
        FrameState::Acquiring => match event {
            FrameEvent::Acquired { index, suboptimal } => (
                FrameState::Recording { index },
                recreate || suboptimal,
                FrameAction::Record { index },
            ),
            FrameEvent::OutOfDate => (FrameState::Idle, true, FrameAction::Done),
            _ => ignore,
        },
        FrameState::Recording { index } => match event {
            FrameEvent::Recorded => (FrameState::Submitted { index }, recreate, FrameAction::Submit),
            _ => ignore,
        },
        FrameState::Submitted { index } => match event {
            FrameEvent::Submitted => (
                FrameState::Presenting { index },
                recreate,
                FrameAction::Present { index },
            ),
            _ => ignore,
        },
        FrameState::Presenting { .. } => match event {
            FrameEvent::Presented { suboptimal } => (
                FrameState::Idle,
                recreate || suboptimal,
                FrameAction::Done,
            ),
            FrameEvent::OutOfDate => (FrameState::Idle, true, FrameAction::Done),
            _ => ignore,
        },
    }
}

/// The acquire, record, submit and present cycle of one surface, with the
/// pending surface recreation it carries from frame to frame.
pub struct FrameCycle {
    state: FrameState,
    recreate: bool,
}

impl FrameCycle {
    pub closed spec fn spec_state(&self) -> FrameState {
        self.state
    }

    pub closed spec fn spec_recreate(&self) -> bool {
        self.recreate
    }

    pub fn new() -> (r: Self)
        ensures
            r.spec_state() == FrameState::Idle,
            !r.spec_recreate(),
    {
        FrameCycle { state: FrameState::Idle, recreate: false }
    }

    pub fn state(&self) -> (r: FrameState)
        ensures
            r == self.spec_state(),
    {
        self.state
    }

    /// True when the surface must be recreated before the next image is acquired.
    pub fn needs_recreate(&self) -> (r: bool)
        ensures
            r == self.spec_recreate(),
    {
        self.recreate
    }

    /// Asks for the surface to be recreated before the next image is acquired.
    pub fn recreate_swapchain(&mut self)
        ensures
            final(self).spec_state() == old(self).spec_state(),
            final(self).spec_recreate(),
    {
        self.recreate = true;
    }

    /// Moves the cycle on by `event` and says what the host must do next.
    /// An image is only ever acquired with no surface recreation pending.
    pub fn step(&mut self, event: FrameEvent) -> (action: FrameAction)
        ensures
            (final(self).spec_state(), final(self).spec_recreate(), action) == transition(
                old(self).spec_state(),
                old(self).spec_recreate(),
                event,
            ),
            action == FrameAction::AcquireImage ==> !final(self).spec_recreate(),
    {
        let (state, recreate, action) = match self.state {
            FrameState::Idle => match event {
                FrameEvent::Redraw { width, height } => {
                    if !self.recreate {
                        (FrameState::Acquiring, false, FrameAction::AcquireImage)
                    } else if width == 0 || height == 0 {
                        (FrameState::Idle, true, FrameAction::Done)
                    } else {
                        (FrameState::Recreating, true, FrameAction::RecreateSurface { width, height })
                    }
                },
                _ => (self.state, self.recreate, FrameAction::Ignore),
            },
            FrameState::Recreating => match event {
                FrameEvent::Recreated => (FrameState::Acquiring, false, FrameAction::AcquireImage),
                FrameEvent::RecreateFailed => (FrameState::Idle, true, FrameAction::Done),
                _ => (self.state, self.recreate, FrameAction::Ignore),
            },
            FrameState::Acquiring => match event {
                FrameEvent::Acquired { index, suboptimal } => (
                    FrameState::Recording { index },
                    self.recreate || suboptimal,
                    FrameAction::Record { index },
                ),
                FrameEvent::OutOfDate => (FrameState::Idle, true, FrameAction::Done),
                _ => (self.state, self.recreate, FrameAction::Ignore),
            },
            FrameState::Recording { index } => match event {
                FrameEvent::Recorded => (FrameState::Submitted { index }, self.recreate, FrameAction::Submit),
                _ => (self.state, self.recreate, FrameAction::Ignore),
            },
            FrameState::Submitted { index } => match event {
                FrameEvent::Submitted => (
                    FrameState::Presenting { index },
                    self.recreate,
                    FrameAction::Present { index },
                ),
                _ => (self.state, self.recreate, FrameAction::Ignore),
            },
            FrameState::Presenting { .. } => match event {
                FrameEvent::Presented { suboptimal } => (
                    FrameState::Idle,
                    self.recreate || suboptimal,
                    FrameAction::Done,
                ),
                FrameEvent::OutOfDate => (FrameState::Idle, true, FrameAction::Done),
                _ => (self.state, self.recreate, FrameAction::Ignore),
            },
        };
        self.state = state;
        self.recreate = recreate;
        action
    }
}

} // verus!
