//! The driver side of the pipeline: it sets up the display, shows the frames
//! that arrive from the render side and hands the canvases back, and sets the
//! display up anew when a configuration is asked for.
//!
//! A display that is set up anew brings a canvas of its own. The canvas of
//! the display that it replaces is still on its way round at that time. When
//! it comes back it is retired: it is neither shown nor sent round again.
//!
//! The side is a state machine. The caller runs the loop: it does what a
//! command says and reports what came of it as the next event.

use crate::config::{HardwareConfig, RxEvent, TxEvent};
use crate::driver::{frame_timeout_millis, DriverError, PipelineError};
use vstd::prelude::*;

verus! {

/// What happened on the driver side since it was last asked what to do.
pub enum DriverEvent<C> {
    /// The side has started.
    Started,
    /// A display was set up from the configuration and gave this canvas.
    Constructed(C),
    /// No display could be set up from the configuration.
    ConstructionFailed(DriverError),
    /// The canvas was handed to the render side.
    CanvasSent,
    /// The canvas could not be handed over: the render side is gone.
    CanvasSendClosed,
    /// The observer was told.
    Notified,
    /// The observer is gone.
    NotifyClosed,
    /// A request was waiting.
    Requested(RxEvent),
    /// No request was waiting.
    NothingRequested,
    /// No request will come any more: the source is gone.
    RequestsClosed,
    /// A frame arrived from the render side.
    Frame(C),
    /// No frame arrived in time.
    FrameTimeout,
    /// No frame will arrive any more: the render side is gone.
    FramesClosed,
    /// The frame is shown, and the display gave back this canvas.
    Presented(C),
    /// The canvas of a replaced display is gone.
    Retired,
}

/// What the driver side does next.
pub enum DriverCommand<C> {
    /// Set up a display from this configuration and take its first canvas.
    Construct(HardwareConfig),
    /// Hand this canvas to the render side.
    SendCanvas(C),
    /// Tell the observer.
    Notify(TxEvent),
    /// Look, without waiting, whether a request has come.
    PollRequests,
    /// Wait for a frame from the render side, at most this long.
    AwaitFrame { timeout_millis: u64 },
    /// Show this frame.
    Present(C),
    /// Let go of this canvas for good: it belongs to a display that was
    /// replaced.
    Retire(C),
    /// End, with this result.
    Stop(Result<(), PipelineError>),
}

/// What the driver side is waiting for.
#[derive(Clone, Copy, Debug, PartialEq, Eq, Structural)]
pub enum DriverPhase {
    /// To be started.
    Idle,
    /// For a display to be set up.
    Constructing,
    /// For the first canvas of a display to reach the render side.
    Seeding,
    /// For the observer to be told of the configuration in use.
    Notifying,
    /// For a look at the requests.
    Polling,
    /// For a frame.
    Waiting,
    /// For a frame to be shown.
    Presenting,
    /// For a canvas to reach the render side again.
    Returning,
    /// For the canvas of a replaced display to be let go.
    Retiring,
    /// For nothing: the side has ended.
    Stopped,
}

/// The state of the driver side.
#[derive(Clone, Copy, Debug)]
pub struct DriverSide {
    pub phase: DriverPhase,
    /// The configuration in use, or the one that is being put to use.
    pub config: HardwareConfig,
    /// Whether an observer is told of each configuration that is put to use.
    pub observed: bool,
    /// Whether there is a source of requests to look at.
    pub polled: bool,
    /// Whether the side has entered its loop: the first display is set up.
    pub looping: bool,
    /// How many canvases of replaced displays are still on their way round.
    /// They come back before the canvas of the display in use.
    pub stale: u64,
}

impl DriverSide {
    /// The state after the side has ended, and the command that ends it.
    pub open spec fn stop<C>(self, result: Result<(), PipelineError>) -> (DriverSide, DriverCommand<C>) {
        (DriverSide { phase: DriverPhase::Stopped, ..self }, DriverCommand::Stop(result))
    }

    /// What the side does at the head of its loop: it ends where the pipeline
    /// is no longer alive, looks at the requests where there is a source of
    /// them, and waits for a frame where there is none.
    pub open spec fn resume<C>(self, alive: bool) -> (DriverSide, DriverCommand<C>) {
        if !alive {
            self.stop(Ok(()))
        } else if self.polled {
            (DriverSide { phase: DriverPhase::Polling, ..self }, DriverCommand::PollRequests)
        } else {
            self.await_frame()
        }
    }

    /// What the side does once a display is set up and made known: it enters
    /// its loop after the first display, and waits for a frame after a later
    /// one, which was set up inside the loop.
    pub open spec fn go_on<C>(self, alive: bool) -> (DriverSide, DriverCommand<C>) {
        if self.looping {
            self.await_frame()
        } else {
            DriverSide { looping: true, ..self }.resume(alive)
        }
    }

    /// The side waits for a frame, for the time of one refresh.
    pub open spec fn await_frame<C>(self) -> (DriverSide, DriverCommand<C>) {
        (
            DriverSide { phase: DriverPhase::Waiting, ..self },
            DriverCommand::AwaitFrame {
                timeout_millis: frame_timeout_millis(self.config.refresh_rate),
            },
        )
    }

    /// The side sets up a display from `config`.
    pub open spec fn construct<C>(self, config: HardwareConfig) -> (DriverSide, DriverCommand<C>) {
        (
            DriverSide { phase: DriverPhase::Constructing, config, ..self },
            DriverCommand::Construct(config),
        )
    }

    /// Whether the side is waiting for `event`.
    pub open spec fn expects<C>(self, event: DriverEvent<C>) -> bool {
        match (self.phase, event) {
            (DriverPhase::Idle, DriverEvent::Started) => true,
            (DriverPhase::Constructing, DriverEvent::Constructed(_)) => true,
            (DriverPhase::Constructing, DriverEvent::ConstructionFailed(_)) => true,
            (DriverPhase::Seeding, DriverEvent::CanvasSent) => true,
            (DriverPhase::Seeding, DriverEvent::CanvasSendClosed) => true,
            (DriverPhase::Notifying, DriverEvent::Notified) => true,
            (DriverPhase::Notifying, DriverEvent::NotifyClosed) => true,
            (DriverPhase::Polling, DriverEvent::Requested(_)) => true,
            (DriverPhase::Polling, DriverEvent::NothingRequested) => true,
            (DriverPhase::Polling, DriverEvent::RequestsClosed) => true,
            (DriverPhase::Waiting, DriverEvent::Frame(_)) => true,
            (DriverPhase::Waiting, DriverEvent::FrameTimeout) => true,
            (DriverPhase::Waiting, DriverEvent::FramesClosed) => true,
            (DriverPhase::Presenting, DriverEvent::Presented(_)) => true,
            (DriverPhase::Returning, DriverEvent::CanvasSent) => true,
            (DriverPhase::Returning, DriverEvent::CanvasSendClosed) => true,
            (DriverPhase::Retiring, DriverEvent::Retired) => true,
            _ => false,
        }
    }

    /// The state after `event`, and what the side does next, where `alive`
    /// says whether the pipeline is meant to go on.
    ///
    /// A display is set up from the first configuration, and anew from each
    /// one that is asked for. The first canvas of a display goes to the render
    /// side, and then the observer, if there is one, is told of the
    /// configuration. After the first display the side enters its loop. At the
    /// head of the loop it looks for a request, and then, or once the display
    /// that was asked for is set up, it waits for a frame. A display that is
    /// set up inside the loop replaces one whose canvas is still on its way
    /// round; that canvas is retired when it arrives, and the loop goes on. Any
    /// other frame that arrives is shown, and the canvas that the
    /// display gives back goes to the render side. When no frame arrives in
    /// time, nothing is shown and the loop goes on. The side ends without an
    /// error when the pipeline is no longer alive at the head of the loop, or
    /// no frame will arrive any more. It ends with an error when no display
    /// can be set up, a canvas cannot be handed over, the observer or the
    /// source of requests is gone, more canvases of replaced displays are on
    /// their way than can be counted, or the event is not the one it waits for.
    pub open spec fn next<C>(self, alive: bool, event: DriverEvent<C>) -> (
        DriverSide,
        DriverCommand<C>,
    ) {
        match (self.phase, event) {
            (DriverPhase::Idle, DriverEvent::Started) => self.construct(self.config),
            (DriverPhase::Constructing, DriverEvent::Constructed(canvas)) => if !self.looping {
                (DriverSide { phase: DriverPhase::Seeding, ..self }, DriverCommand::SendCanvas(canvas))
            } else if self.stale < u64::MAX {
                (
                    DriverSide {
                        phase: DriverPhase::Seeding,
                        stale: (self.stale + 1) as u64,
                        ..self
                    },
                    DriverCommand::SendCanvas(canvas),
                )
            } else {
                self.stop(Err(PipelineError::TooManyCanvases))
            },
            (DriverPhase::Constructing, DriverEvent::ConstructionFailed(error)) => self.stop(
                Err(PipelineError::Driver(error)),
            ),
            (DriverPhase::Seeding, DriverEvent::CanvasSent) => if self.observed {
                (
                    DriverSide { phase: DriverPhase::Notifying, ..self },
                    DriverCommand::Notify(TxEvent::UpdateMatrixConfig(self.config)),
                )
            } else {
                self.go_on(alive)
            },
            (DriverPhase::Seeding, DriverEvent::CanvasSendClosed) => self.stop(
                Err(PipelineError::CanvasChannelClosed),
            ),
            (DriverPhase::Notifying, DriverEvent::Notified) => self.go_on(alive),
            (DriverPhase::Notifying, DriverEvent::NotifyClosed) => self.stop(
                Err(PipelineError::EventBusClosed),
            ),
            (
                DriverPhase::Polling,
                DriverEvent::Requested(RxEvent::UpdateMatrixConfig(config)),
            ) => self.construct(config),
            (DriverPhase::Polling, DriverEvent::NothingRequested) => self.await_frame(),
            (DriverPhase::Polling, DriverEvent::RequestsClosed) => self.stop(
                Err(PipelineError::EventBusClosed),
            ),
            (DriverPhase::Waiting, DriverEvent::Frame(canvas)) => if self.stale > 0 {
                (
                    DriverSide {
                        phase: DriverPhase::Retiring,
                        stale: (self.stale - 1) as u64,
                        ..self
                    },
                    DriverCommand::Retire(canvas),
                )
            } else {
                (DriverSide { phase: DriverPhase::Presenting, ..self }, DriverCommand::Present(canvas))
            },
            (DriverPhase::Waiting, DriverEvent::FrameTimeout) => self.resume(alive),
            (DriverPhase::Waiting, DriverEvent::FramesClosed) => self.stop(Ok(())),
            (DriverPhase::Presenting, DriverEvent::Presented(canvas)) => (
                DriverSide { phase: DriverPhase::Returning, ..self },
                DriverCommand::SendCanvas(canvas),
            ),
            (DriverPhase::Returning, DriverEvent::CanvasSent) => self.resume(alive),
            (DriverPhase::Returning, DriverEvent::CanvasSendClosed) => self.stop(
                Err(PipelineError::CanvasChannelClosed),
            ),
            (DriverPhase::Retiring, DriverEvent::Retired) => self.resume(alive),
            _ => self.stop(Err(PipelineError::OutOfTurn)),
        }
    }

    /// The side before it is started, for the configuration `config`.
    /// `observed` says whether an observer is told of each configuration that
    /// is put to use, `polled` whether there is a source of requests.
    pub fn new(config: HardwareConfig, observed: bool, polled: bool) -> (side: DriverSide)
        ensures
            side == (DriverSide {
                phase: DriverPhase::Idle,
                config,
                observed,
                polled,
                looping: false,
                stale: 0,
            }),
    {
        DriverSide { phase: DriverPhase::Idle, config, observed, polled, looping: false, stale: 0 }
    }

    fn do_stop<C>(&mut self, result: Result<(), PipelineError>) -> (command: DriverCommand<C>)
        ensures
            (*final(self), command) == old(self).stop::<C>(result),
    {
        self.phase = DriverPhase::Stopped;
        DriverCommand::Stop(result)
    }

    fn do_await_frame<C>(&mut self) -> (command: DriverCommand<C>)
        ensures
            (*final(self), command) == old(self).await_frame::<C>(),
    {
        self.phase = DriverPhase::Waiting;
        DriverCommand::AwaitFrame { timeout_millis: frame_timeout_millis(self.config.refresh_rate) }
    }

    fn do_resume<C>(&mut self, alive: bool) -> (command: DriverCommand<C>)
        ensures
            (*final(self), command) == old(self).resume::<C>(alive),
    {
        if !alive {
            self.do_stop(Ok(()))
        } else if self.polled {
            self.phase = DriverPhase::Polling;
            DriverCommand::PollRequests
        } else {
            self.do_await_frame()
        }
    }

    fn do_go_on<C>(&mut self, alive: bool) -> (command: DriverCommand<C>)
        ensures
            (*final(self), command) == old(self).go_on::<C>(alive),
    {
        if self.looping {
            self.do_await_frame()
        } else {
            self.looping = true;
            self.do_resume(alive)
        }
    }

    fn do_construct<C>(&mut self, config: HardwareConfig) -> (command: DriverCommand<C>)
        ensures
            (*final(self), command) == old(self).construct::<C>(config),
    {
        self.phase = DriverPhase::Constructing;
        self.config = config;
        DriverCommand::Construct(config)
    }

    /// Takes `event` and says what the side does next.
    pub fn step<C>(&mut self, alive: bool, event: DriverEvent<C>) -> (command: DriverCommand<C>)
        ensures
            (*final(self), command) == old(self).next(alive, event),
    {
        match (self.phase, event) {
            (DriverPhase::Idle, DriverEvent::Started) => {
                let config = self.config;
                self.do_construct(config)
            },
            (DriverPhase::Constructing, DriverEvent::Constructed(canvas)) => {
                if !self.looping {
                    self.phase = DriverPhase::Seeding;
                    DriverCommand::SendCanvas(canvas)
                } else if self.stale < u64::MAX {
                    self.phase = DriverPhase::Seeding;
                    self.stale = self.stale + 1;
                    DriverCommand::SendCanvas(canvas)
                } else {
                    self.do_stop(Err(PipelineError::TooManyCanvases))
                }
            },
            (DriverPhase::Constructing, DriverEvent::ConstructionFailed(error)) => self.do_stop(
                Err(PipelineError::Driver(error)),
            ),
            (DriverPhase::Seeding, DriverEvent::CanvasSent) => if self.observed {
                self.phase = DriverPhase::Notifying;
                DriverCommand::Notify(TxEvent::UpdateMatrixConfig(self.config))
            } else {
                self.do_go_on(alive)
            },
            (DriverPhase::Seeding, DriverEvent::CanvasSendClosed) => self.do_stop(
                Err(PipelineError::CanvasChannelClosed),
            ),
            (DriverPhase::Notifying, DriverEvent::Notified) => self.do_go_on(alive),
            (DriverPhase::Notifying, DriverEvent::NotifyClosed) => self.do_stop(
                Err(PipelineError::EventBusClosed),
            ),
            (
                DriverPhase::Polling,
                DriverEvent::Requested(RxEvent::UpdateMatrixConfig(config)),
            ) => self.do_construct(config),
            (DriverPhase::Polling, DriverEvent::NothingRequested) => self.do_await_frame(),
            (DriverPhase::Polling, DriverEvent::RequestsClosed) => self.do_stop(
                Err(PipelineError::EventBusClosed),
            ),
            (DriverPhase::Waiting, DriverEvent::Frame(canvas)) => {
                if self.stale > 0 {
                    self.phase = DriverPhase::Retiring;
                    self.stale = self.stale - 1;
                    DriverCommand::Retire(canvas)
                } else {
                    self.phase = DriverPhase::Presenting;
                    DriverCommand::Present(canvas)
                }
            },
            (DriverPhase::Waiting, DriverEvent::FrameTimeout) => self.do_resume(alive),
            (DriverPhase::Waiting, DriverEvent::FramesClosed) => self.do_stop(Ok(())),
            (DriverPhase::Presenting, DriverEvent::Presented(canvas)) => {
                self.phase = DriverPhase::Returning;
                DriverCommand::SendCanvas(canvas)
            },
            (DriverPhase::Returning, DriverEvent::CanvasSent) => self.do_resume(alive),
            (DriverPhase::Returning, DriverEvent::CanvasSendClosed) => self.do_stop(
                Err(PipelineError::CanvasChannelClosed),
            ),
            (DriverPhase::Retiring, DriverEvent::Retired) => self.do_resume(alive),
            _ => self.do_stop(Err(PipelineError::OutOfTurn)),
        }
    }
}

/// What one step of a run is given: whether the pipeline is meant to go on,
/// and what happened.
pub type Input<C> = (bool, DriverEvent<C>);

/// The state after the side took the inputs one after the other, and the
/// commands it gave, in order.
pub open spec fn run<C>(start: DriverSide, inputs: Seq<Input<C>>) -> (DriverSide, Seq<DriverCommand<C>>)
    decreases inputs.len(),
{
    if inputs.len() == 0 {
        (start, Seq::empty())
    } else {
        let (state, commands) = run(start, inputs.drop_last());
        let (next, command) = state.next(inputs.last().0, inputs.last().1);
        (next, commands.push(command))
    }
}

/// Whether each event of the run is the one that the side waits for when it
/// comes.
pub open spec fn in_turn<C>(start: DriverSide, inputs: Seq<Input<C>>) -> bool
    decreases inputs.len(),
{
    inputs.len() == 0 || (in_turn(start, inputs.drop_last()) && run(
        start,
        inputs.drop_last(),
    ).0.expects(inputs.last().1))
}

/// The frames that arrived, in order.
pub open spec fn frames<C>(inputs: Seq<Input<C>>) -> Seq<C>
    decreases inputs.len(),
{
    if inputs.len() == 0 {
        Seq::empty()
    } else {
        match inputs.last().1 {
            DriverEvent::Frame(canvas) => frames(inputs.drop_last()).push(canvas),
            _ => frames(inputs.drop_last()),
        }
    }
}

/// Whether the last of the inputs is a frame that arrives while `stale`
/// canvases of replaced displays are still on their way round.
pub open spec fn arrives_with<C>(start: DriverSide, inputs: Seq<Input<C>>, stale: bool) -> bool {
    &&& inputs.len() > 0
    &&& inputs.last().1 is Frame
    &&& (run(start, inputs.drop_last()).0.stale > 0) == stale
}

/// The frames that arrived on the canvas of the display in use, in order:
/// those that arrived when no canvas of a replaced display was on its way.
pub open spec fn fresh_frames<C>(start: DriverSide, inputs: Seq<Input<C>>) -> Seq<C>
    decreases inputs.len(),
{
    if inputs.len() == 0 {
        Seq::empty()
    } else if arrives_with(start, inputs, false) {
        fresh_frames(start, inputs.drop_last()).push(inputs.last().1->Frame_0)
    } else {
        fresh_frames(start, inputs.drop_last())
    }
}

/// The frames that arrived on the canvas of a replaced display, in order.
pub open spec fn stale_frames<C>(start: DriverSide, inputs: Seq<Input<C>>) -> Seq<C>
    decreases inputs.len(),
{
    if inputs.len() == 0 {
        Seq::empty()
    } else if arrives_with(start, inputs, true) {
        stale_frames(start, inputs.drop_last()).push(inputs.last().1->Frame_0)
    } else {
        stale_frames(start, inputs.drop_last())
    }
}

/// How many displays were replaced: how often a display was set up inside the
/// loop and its canvas sent round.
pub open spec fn replaced<C>(start: DriverSide, inputs: Seq<Input<C>>) -> nat
    decreases inputs.len(),
{
    if inputs.len() == 0 {
        0
    } else {
        let before = run(start, inputs.drop_last()).0;
        let now = inputs.last().1 is Constructed && before.phase == DriverPhase::Constructing
            && before.looping && before.stale < u64::MAX;
        replaced(start, inputs.drop_last()) + if now {
            1nat
        } else {
            0nat
        }
    }
}

/// The frames that the side had shown, in order.
pub open spec fn presented<C>(commands: Seq<DriverCommand<C>>) -> Seq<C>
    decreases commands.len(),
{
    if commands.len() == 0 {
        Seq::empty()
    } else {
        match commands.last() {
            DriverCommand::Present(canvas) => presented(commands.drop_last()).push(canvas),
            _ => presented(commands.drop_last()),
        }
    }
}

/// The canvases that the side had retired, in order.
pub open spec fn retired<C>(commands: Seq<DriverCommand<C>>) -> Seq<C>
    decreases commands.len(),
{
    if commands.len() == 0 {
        Seq::empty()
    } else {
        match commands.last() {
            DriverCommand::Retire(canvas) => retired(commands.drop_last()).push(canvas),
            _ => retired(commands.drop_last()),
        }
    }
}

/// The configurations that were asked for, in order.
pub open spec fn requested<C>(inputs: Seq<Input<C>>) -> Seq<HardwareConfig>
    decreases inputs.len(),
{
    if inputs.len() == 0 {
        Seq::empty()
    } else {
        match inputs.last().1 {
            DriverEvent::Requested(RxEvent::UpdateMatrixConfig(config)) => requested(
                inputs.drop_last(),
            ).push(config),
            _ => requested(inputs.drop_last()),
        }
    }
}

/// The configurations of which the side had the observer told, in order.
pub open spec fn notified<C>(commands: Seq<DriverCommand<C>>) -> Seq<HardwareConfig>
    decreases commands.len(),
{
    if commands.len() == 0 {
        Seq::empty()
    } else {
        match commands.last() {
            DriverCommand::Notify(TxEvent::UpdateMatrixConfig(config)) => notified(
                commands.drop_last(),
            ).push(config),
            _ => notified(commands.drop_last()),
        }
    }
}

/// The frames that are shown are the frames that arrive on the canvas of the
/// display in use, in their order and each once. The frames that arrive on the
/// canvas of a replaced display are retired and not shown, and a wait that ends
/// without a frame shows nothing. Every frame that arrives is one or the other.
pub proof fn lemma_frames_are_presented_in_order<C>(start: DriverSide, inputs: Seq<Input<C>>)
    requires
        in_turn(start, inputs),
    ensures
        presented(run(start, inputs).1) == fresh_frames(start, inputs),
        retired(run(start, inputs).1) == stale_frames(start, inputs),
        fresh_frames(start, inputs).len() + stale_frames(start, inputs).len() == frames(
            inputs,
        ).len(),
    decreases inputs.len(),
{
    if inputs.len() > 0 {
        let earlier = inputs.drop_last();
        lemma_frames_are_presented_in_order(start, earlier);
        let (state, commands) = run(start, earlier);
        let (next, command) = state.next(inputs.last().0, inputs.last().1);
        assert(run(start, inputs).1 == commands.push(command));
        assert(commands.push(command).drop_last() =~= commands);
        assert(commands.push(command).last() == command);
        assert(state.expects(inputs.last().1));
    }
}

/// Of every display that was replaced, the canvas was retired or is still on
/// its way round: none of them is lost from the count, and none is shown.
pub proof fn lemma_replaced_canvases_are_retired<C>(start: DriverSide, inputs: Seq<Input<C>>)
    requires
        start.phase == DriverPhase::Idle,
        start.stale == 0,
        in_turn(start, inputs),
    ensures
        retired(run(start, inputs).1).len() + run(start, inputs).0.stale == replaced(
            start,
            inputs,
        ),
    decreases inputs.len(),
{
    if inputs.len() > 0 {
        let earlier = inputs.drop_last();
        lemma_replaced_canvases_are_retired(start, earlier);
        let (state, commands) = run(start, earlier);
        let (next, command) = state.next(inputs.last().0, inputs.last().1);
        assert(run(start, inputs) == (next, commands.push(command)));
        assert(commands.push(command).drop_last() =~= commands);
        assert(commands.push(command).last() == command);
        assert(state.expects(inputs.last().1));
    }
}

/// Once the side looks for requests, waits for a frame or handles one, it has
/// entered its loop.
pub proof fn lemma_loop_is_entered<C>(start: DriverSide, inputs: Seq<Input<C>>)
    requires
        start.phase == DriverPhase::Idle,
        in_turn(start, inputs),
    ensures
        ({
            let state = run(start, inputs).0;
            state.phase == DriverPhase::Polling || state.phase == DriverPhase::Waiting
                || state.phase == DriverPhase::Presenting || state.phase == DriverPhase::Returning
                || state.phase == DriverPhase::Retiring ==> state.looping
        }),
    decreases inputs.len(),
{
    if inputs.len() > 0 {
        lemma_loop_is_entered(start, inputs.drop_last());
        assert(run(start, inputs.drop_last()).0.expects(inputs.last().1));
    }
}

/// The configurations of which an observer was told are the first
/// configuration and then those that were asked for, in their order: all of
/// them when the side waits for a frame or a request or handles a frame, and all
/// but the last while the display for the last is being set up.
pub proof fn lemma_notifications_echo_requests<C>(start: DriverSide, inputs: Seq<Input<C>>)
    requires
        start.phase == DriverPhase::Idle,
        start.observed,
        in_turn(start, inputs),
    ensures
        ({
            let (state, commands) = run(start, inputs);
            let asked = seq![start.config] + requested(inputs);
            &&& state.observed
            &&& match state.phase {
                DriverPhase::Idle => inputs.len() == 0 && state.config == start.config,
                DriverPhase::Constructing | DriverPhase::Seeding => notified(commands).push(
                    state.config,
                ) == asked,
                DriverPhase::Stopped => notified(commands) == asked || notified(commands).push(
                    state.config,
                ) == asked,
                _ => notified(commands) == asked && state.config == asked.last(),
            }
        }),
    decreases inputs.len(),
{
    if inputs.len() > 0 {
        let earlier = inputs.drop_last();
        lemma_notifications_echo_requests(start, earlier);
        let (state, commands) = run(start, earlier);
        let (alive, event) = inputs.last();
        let (next, command) = state.next(alive, event);
        assert(run(start, inputs) == (next, commands.push(command)));
        assert(commands.push(command).drop_last() =~= commands);
        assert(commands.push(command).last() == command);
        assert(state.expects(event));
        let asked_before = seq![start.config] + requested(earlier);
        let asked = seq![start.config] + requested(inputs);
        let told_before = notified(commands);
        let told = notified(commands.push(command));
        assert(asked_before.len() >= 1);
        match event {
            DriverEvent::Requested(RxEvent::UpdateMatrixConfig(config)) => {
                assert(asked =~= asked_before.push(config));
                assert(command == DriverCommand::<C>::Construct(config));
                assert(told == told_before);
            },
            DriverEvent::CanvasSent => {
                assert(asked =~= asked_before);
                if state.phase == DriverPhase::Seeding {
                    assert(command == DriverCommand::<C>::Notify(
                        TxEvent::UpdateMatrixConfig(state.config),
                    ));
                    assert(told == told_before.push(state.config));
                } else {
                    assert(told == told_before);
                }
            },
            _ => {
                assert(asked =~= asked_before);
                assert(told == told_before);
            },
        }
    } else {
        assert(requested(inputs) =~= Seq::<HardwareConfig>::empty());
    }
}

/// A configuration that is asked for is put to use at once: the display is
/// set up from it, its first canvas goes to the render side, and the observer
/// is told of that very configuration, before the side waits for a frame
/// again. The frame that arrives then is on the canvas of the replaced display.
/// It is retired, and only the frame after it, which is on the canvas of the
/// new display, is shown.
pub proof fn lemma_request_is_applied_before_frames<C>(
    state: DriverSide,
    config: HardwareConfig,
    fresh: C,
    replaced: C,
    drawn: C,
)
    requires
        state.phase == DriverPhase::Polling,
        state.observed,
        state.polled,
        state.looping,
        state.stale == 0,
    ensures
        ({
            let (constructing, first) = state.next::<C>(
                true,
                DriverEvent::Requested(RxEvent::UpdateMatrixConfig(config)),
            );
            let (seeding, second) = constructing.next(true, DriverEvent::Constructed(fresh));
            let (notifying, third) = seeding.next::<C>(true, DriverEvent::CanvasSent);
            let (waiting, fourth) = notifying.next::<C>(true, DriverEvent::Notified);
            let (retiring, fifth) = waiting.next(true, DriverEvent::Frame(replaced));
            let (polling, sixth) = retiring.next::<C>(true, DriverEvent::Retired);
            let (waiting_again, seventh) = polling.next::<C>(true, DriverEvent::NothingRequested);
            let (presenting, eighth) = waiting_again.next(true, DriverEvent::Frame(drawn));
            &&& first == DriverCommand::<C>::Construct(config)
            &&& second == DriverCommand::SendCanvas(fresh)
            &&& third == DriverCommand::<C>::Notify(TxEvent::UpdateMatrixConfig(config))
            &&& notifying.config == config
            &&& fourth == DriverCommand::<C>::AwaitFrame {
                timeout_millis: frame_timeout_millis(config.refresh_rate),
            }
            &&& fifth == DriverCommand::Retire(replaced)
            &&& sixth == DriverCommand::<C>::PollRequests
            &&& seventh == fourth
            &&& eighth == DriverCommand::Present(drawn)
            &&& presenting.stale == 0
        }),
{
}

} // verus!
