//! The whole pipeline as one system: the driver side, the render side, and
//! the channels between them and to the outside, each a queue that gives out
//! what it was given in the same order.
//!
//! The system is a model while every channel has both its ends. It says what
//! the caller's loops do with the commands of the driver side, and what
//! follows from that for the frames that are shown and the configurations
//! that the observer is told of.

use crate::config::{HardwareConfig, RxEvent, TxEvent};
use crate::driver::driver_side::{
    frames, fresh_frames, in_turn, lemma_frames_are_presented_in_order,
    lemma_notifications_echo_requests, lemma_replaced_canvases_are_retired, notified, presented,
    replaced, requested, run, DriverCommand, DriverEvent, DriverPhase, DriverSide, Input,
};
use vstd::prelude::*;

verus! {

/// The pipeline at one moment.
pub struct Pipeline<C> {
    /// The driver side before it was started.
    pub start: DriverSide,
    /// Everything that the driver side has taken so far, in order. The state
    /// of the side and the command that it has given last follow from this.
    pub inputs: Seq<Input<C>>,
    /// The canvases on their way to the render side.
    pub to_render: Seq<C>,
    /// The frames on their way to the driver side.
    pub to_driver: Seq<C>,
    /// Every frame that the render side has handed over, in order.
    pub drawn: Seq<C>,
    /// The configurations that were asked for and are not yet taken.
    pub waiting: Seq<HardwareConfig>,
    /// Every configuration that was asked for, in order.
    pub asked: Seq<HardwareConfig>,
    /// The configurations that the observer was told of, in order.
    pub told: Seq<HardwareConfig>,
    /// The frames that the display has shown, in order.
    pub shown: Seq<C>,
}

impl<C> Pipeline<C> {
    /// The state of the driver side.
    pub open spec fn side(self) -> DriverSide {
        run(self.start, self.inputs).0
    }

    /// The commands that the driver side has given, in order. All but the
    /// last are carried out.
    pub open spec fn commands(self) -> Seq<DriverCommand<C>> {
        run(self.start, self.inputs).1
    }

    /// The pipeline when the driver side, for `config`, with an observer and a
    /// source of requests, has just been started and nothing else has happened.
    pub open spec fn started(config: HardwareConfig, alive: bool) -> Pipeline<C> {
        Pipeline {
            start: DriverSide {
                phase: DriverPhase::Idle,
                config,
                observed: true,
                polled: true,
                looping: false,
                stale: 0,
            },
            inputs: seq![(alive, DriverEvent::Started)],
            to_render: Seq::empty(),
            to_driver: Seq::empty(),
            drawn: Seq::empty(),
            waiting: Seq::empty(),
            asked: Seq::empty(),
            told: Seq::empty(),
            shown: Seq::empty(),
        }
    }

    /// Whether `after` is `self` once a configuration was asked for from
    /// outside.
    pub open spec fn is_asked(self, after: Pipeline<C>, config: HardwareConfig) -> bool {
        after == (Pipeline {
            waiting: self.waiting.push(config),
            asked: self.asked.push(config),
            ..self
        })
    }

    /// Whether `after` is `self` once the render side has taken the next
    /// canvas, drawn on it and handed it over as `frame`.
    pub open spec fn is_drawn(self, after: Pipeline<C>, frame: C) -> bool {
        &&& self.to_render.len() > 0
        &&& after == (Pipeline {
            to_render: self.to_render.drop_first(),
            to_driver: self.to_driver.push(frame),
            drawn: self.drawn.push(frame),
            ..self
        })
    }

    /// Whether `after` is `self` once the last command of the driver side was
    /// carried out, `event` came of it, and the driver side has taken it.
    pub open spec fn is_driven(self, after: Pipeline<C>, alive: bool, event: DriverEvent<C>) -> bool {
        let taken = Pipeline { inputs: self.inputs.push((alive, event)), ..self };
        match self.commands().last() {
            DriverCommand::Construct(_) => (event is Constructed || event is ConstructionFailed)
                && after == taken,
            DriverCommand::SendCanvas(canvas) => event is CanvasSent && after == (Pipeline {
                to_render: self.to_render.push(canvas),
                ..taken
            }),
            DriverCommand::Notify(TxEvent::UpdateMatrixConfig(config)) => event is Notified
                && after == (Pipeline { told: self.told.push(config), ..taken }),
            DriverCommand::PollRequests => if self.waiting.len() > 0 {
                event == DriverEvent::<C>::Requested(RxEvent::UpdateMatrixConfig(self.waiting[0]))
                    && after == (Pipeline { waiting: self.waiting.drop_first(), ..taken })
            } else {
                event is NothingRequested && after == taken
            },
            DriverCommand::AwaitFrame { .. } => {
                ||| event is FrameTimeout && after == taken
                ||| {
                    &&& self.to_driver.len() > 0
                    &&& event == DriverEvent::Frame(self.to_driver[0])
                    &&& after == (Pipeline { to_driver: self.to_driver.drop_first(), ..taken })
                }
            },
            DriverCommand::Present(canvas) => event is Presented && after == (Pipeline {
                shown: self.shown.push(canvas),
                ..taken
            }),
            DriverCommand::Retire(_) => event is Retired && after == taken,
            DriverCommand::Stop(_) => false,
        }
    }

    /// Whether `after` is `self` one move later: a configuration was asked
    /// for, the render side has drawn a frame, or the driver side has carried
    /// out a command.
    pub open spec fn moves_to(self, after: Pipeline<C>) -> bool {
        ||| exists|config: HardwareConfig| self.is_asked(after, config)
        ||| exists|frame: C| self.is_drawn(after, frame)
        ||| exists|alive: bool, event: DriverEvent<C>| self.is_driven(after, alive, event)
    }

    /// What holds of the pipeline at every moment.
    pub open spec fn holds(self) -> bool {
        &&& self.start.phase == DriverPhase::Idle
        &&& self.start.observed
        &&& self.start.stale == 0
        &&& self.inputs.len() > 0
        &&& in_turn(self.start, self.inputs)
        &&& agrees(self.side(), self.commands().last())
        &&& frames(self.inputs) + self.to_driver == self.drawn
        &&& requested(self.inputs) + self.waiting == self.asked
        &&& self.shown == presented(self.commands().drop_last())
        &&& self.told == notified(self.commands().drop_last())
    }
}

/// Whether `command` is what a driver side in `state` has given last: the
/// side waits for what comes of that command.
pub open spec fn agrees<C>(state: DriverSide, command: DriverCommand<C>) -> bool {
    match command {
        DriverCommand::Construct(_) => state.phase == DriverPhase::Constructing,
        DriverCommand::SendCanvas(_) => state.phase == DriverPhase::Seeding || state.phase
            == DriverPhase::Returning,
        DriverCommand::Notify(_) => state.phase == DriverPhase::Notifying,
        DriverCommand::PollRequests => state.phase == DriverPhase::Polling,
        DriverCommand::AwaitFrame { .. } => state.phase == DriverPhase::Waiting,
        DriverCommand::Present(_) => state.phase == DriverPhase::Presenting,
        DriverCommand::Retire(_) => state.phase == DriverPhase::Retiring,
        DriverCommand::Stop(_) => state.phase == DriverPhase::Stopped,
    }
}

/// The driver side waits for what comes of the command it gives.
pub proof fn lemma_next_agrees<C>(state: DriverSide, alive: bool, event: DriverEvent<C>)
    ensures
        agrees(state.next(alive, event).0, state.next(alive, event).1),
{
}

/// One more input adds one command, and what the histories hold of it.
proof fn lemma_run_push<C>(start: DriverSide, inputs: Seq<Input<C>>, input: Input<C>)
    ensures
        ({
            let (state, commands) = run(start, inputs);
            let (next, command) = state.next(input.0, input.1);
            &&& run(start, inputs.push(input)) == (next, commands.push(command))
            &&& commands.push(command).drop_last() == commands
            &&& commands.push(command).last() == command
            &&& in_turn(start, inputs.push(input)) == (in_turn(start, inputs) && state.expects(
                input.1,
            ))
            &&& frames(inputs.push(input)) == match input.1 {
                DriverEvent::Frame(canvas) => frames(inputs).push(canvas),
                _ => frames(inputs),
            }
            &&& requested(inputs.push(input)) == match input.1 {
                DriverEvent::Requested(RxEvent::UpdateMatrixConfig(config)) => requested(
                    inputs,
                ).push(config),
                _ => requested(inputs),
            }
        }),
{
    let longer = inputs.push(input);
    assert(longer.drop_last() =~= inputs);
    assert(longer.last() == input);
    let (state, commands) = run(start, inputs);
    let (next, command) = state.next(input.0, input.1);
    assert(commands.push(command).drop_last() =~= commands);
}

/// What was shown and told after one more command are what was shown and told
/// before, and what that command showed or told.
proof fn lemma_carried_out<C>(commands: Seq<DriverCommand<C>>)
    requires
        commands.len() > 0,
    ensures
        presented(commands) == match commands.last() {
            DriverCommand::Present(canvas) => presented(commands.drop_last()).push(canvas),
            _ => presented(commands.drop_last()),
        },
        notified(commands) == match commands.last() {
            DriverCommand::Notify(TxEvent::UpdateMatrixConfig(config)) => notified(
                commands.drop_last(),
            ).push(config),
            _ => notified(commands.drop_last()),
        },
{
}

/// A pipeline that has just been started is as it should be.
pub proof fn lemma_started_holds<C>(config: HardwareConfig, alive: bool)
    ensures
        Pipeline::<C>::started(config, alive).holds(),
{
    let pipeline = Pipeline::<C>::started(config, alive);
    let none = Seq::<Input<C>>::empty();
    lemma_run_push(pipeline.start, none, (alive, DriverEvent::Started));
    assert(pipeline.inputs =~= none.push((alive, DriverEvent::Started)));
    assert(in_turn(pipeline.start, none));
    assert(frames(none) =~= Seq::<C>::empty());
    assert(requested(none) =~= Seq::<HardwareConfig>::empty());
    assert(run(pipeline.start, none).1 =~= Seq::<DriverCommand<C>>::empty());
    assert(pipeline.commands().drop_last() =~= Seq::<DriverCommand<C>>::empty());
    assert(frames(pipeline.inputs) + pipeline.to_driver =~= pipeline.drawn);
    assert(requested(pipeline.inputs) + pipeline.waiting =~= pipeline.asked);
}

/// Every move keeps the pipeline as it should be.
pub proof fn lemma_move_keeps<C>(before: Pipeline<C>, after: Pipeline<C>)
    requires
        before.holds(),
        before.moves_to(after),
    ensures
        after.holds(),
{
    if exists|config: HardwareConfig| before.is_asked(after, config) {
        let config = choose|config: HardwareConfig| before.is_asked(after, config);
        assert(requested(after.inputs) + after.waiting =~= after.asked);
    } else if exists|frame: C| before.is_drawn(after, frame) {
        let frame = choose|frame: C| before.is_drawn(after, frame);
        assert(frames(after.inputs) + after.to_driver =~= after.drawn);
    } else {
        let (alive, event) = choose|alive: bool, event: DriverEvent<C>|
            before.is_driven(after, alive, event);
        assert(before.is_driven(after, alive, event));
        lemma_run_push(before.start, before.inputs, (alive, event));
        lemma_next_agrees(before.side(), alive, event);
        lemma_carried_out(before.commands());
        assert(after.inputs == before.inputs.push((alive, event)));
        assert(before.side().expects(event));
        assert(frames(after.inputs) + after.to_driver =~= after.drawn);
        assert(requested(after.inputs) + after.waiting =~= after.asked);
    }
}

/// Whether `moments` is a run of the pipeline: it begins with the pipeline
/// just started, and each moment is one move after the one before.
pub open spec fn is_run<C>(moments: Seq<Pipeline<C>>) -> bool {
    &&& moments.len() > 0
    &&& exists|config: HardwareConfig, alive: bool| moments[0] == Pipeline::<C>::started(config, alive)
    &&& forall|k: int| 0 <= k < moments.len() - 1 ==> (#[trigger] moments[k]).moves_to(
        moments[k + 1],
    )
}

/// At every moment of a run the pipeline is as it should be.
pub proof fn lemma_run_holds<C>(moments: Seq<Pipeline<C>>, k: int)
    requires
        is_run(moments),
        0 <= k < moments.len(),
    ensures
        moments[k].holds(),
    decreases k,
{
    if k == 0 {
        let (config, alive) = choose|config: HardwareConfig, alive: bool|
            moments[0] == Pipeline::<C>::started(config, alive);
        lemma_started_holds::<C>(config, alive);
    } else {
        lemma_run_holds(moments, k - 1);
        assert(moments[k - 1].moves_to(moments[k - 1 + 1]));
        lemma_move_keeps(moments[k - 1], moments[k]);
    }
}

/// While no display is replaced, every frame that arrives is on the canvas of
/// the display in use.
pub proof fn lemma_all_frames_are_fresh<C>(start: DriverSide, inputs: Seq<Input<C>>)
    requires
        start.phase == DriverPhase::Idle,
        start.stale == 0,
        in_turn(start, inputs),
        replaced(start, inputs) == 0,
    ensures
        fresh_frames(start, inputs) == frames(inputs),
        run(start, inputs).0.stale == 0,
    decreases inputs.len(),
{
    lemma_replaced_canvases_are_retired(start, inputs);
    if inputs.len() > 0 {
        lemma_all_frames_are_fresh(start, inputs.drop_last());
    }
}

/// The frames that reach the driver side are the frames that the render side
/// has handed over, in the order in which it handed them over and each once;
/// what it has handed over beyond them is still on its way. The frames that
/// the display has shown are, of those that reached the driver side, the ones
/// on the canvas of the display in use, in their order and each once. While no
/// display is replaced they are the first of the frames that the render side
/// has handed over: none is left out, none comes twice, none out of order.
pub proof fn lemma_shown_frames_are_drawn_frames<C>(moments: Seq<Pipeline<C>>, k: int)
    requires
        is_run(moments),
        0 <= k < moments.len(),
    ensures
        ({
            let pipeline = moments[k];
            let arrived = pipeline.inputs.drop_last();
            &&& frames(pipeline.inputs) + pipeline.to_driver == pipeline.drawn
            &&& pipeline.shown == fresh_frames(pipeline.start, arrived)
            &&& pipeline.shown.len() <= frames(arrived).len() <= pipeline.drawn.len()
            &&& replaced(pipeline.start, pipeline.inputs) == 0 ==> pipeline.shown.is_prefix_of(
                pipeline.drawn,
            )
        }),
{
    lemma_run_holds(moments, k);
    let pipeline = moments[k];
    let arrived = pipeline.inputs.drop_last();
    assert(pipeline.inputs =~= arrived.push(pipeline.inputs.last()));
    lemma_run_push(pipeline.start, arrived, pipeline.inputs.last());
    assert(pipeline.commands().drop_last() == run(pipeline.start, arrived).1);
    lemma_frames_are_presented_in_order(pipeline.start, arrived);
    assert(frames(arrived).len() <= frames(pipeline.inputs).len());
    assert(pipeline.drawn.len() == frames(pipeline.inputs).len() + pipeline.to_driver.len());
    if replaced(pipeline.start, pipeline.inputs) == 0 {
        assert(replaced(pipeline.start, arrived) == 0);
        lemma_all_frames_are_fresh(pipeline.start, arrived);
        assert(pipeline.shown =~= pipeline.drawn.subrange(0, pipeline.shown.len() as int));
    }
}

/// The observer is told of the first configuration and then of the
/// configurations that were asked for, each once, unchanged and in the order
/// in which they were asked for: what it was told so far is the beginning of
/// that list. It was told of all of them when no request is waiting and the
/// driver side, inside its loop, looks for requests, waits for a frame or
/// handles one.
pub proof fn lemma_observer_is_told_what_was_asked<C>(moments: Seq<Pipeline<C>>, k: int)
    requires
        is_run(moments),
        0 <= k < moments.len(),
    ensures
        ({
            let pipeline = moments[k];
            let all = seq![pipeline.start.config] + pipeline.asked;
            let phase = pipeline.side().phase;
            &&& pipeline.told.is_prefix_of(all)
            &&& pipeline.waiting.len() == 0 && (phase == DriverPhase::Polling || phase
                == DriverPhase::Waiting || phase == DriverPhase::Presenting || phase
                == DriverPhase::Returning || phase == DriverPhase::Retiring) ==> pipeline.told
                == all
        }),
{
    lemma_run_holds(moments, k);
    let pipeline = moments[k];
    let start = pipeline.start;
    let arrived = pipeline.inputs.drop_last();
    let all = seq![start.config] + pipeline.asked;
    assert(pipeline.inputs =~= arrived.push(pipeline.inputs.last()));
    lemma_run_push(start, arrived, pipeline.inputs.last());
    assert(pipeline.commands().drop_last() == run(start, arrived).1);
    lemma_notifications_echo_requests(start, arrived);
    lemma_notifications_echo_requests(start, pipeline.inputs);
    lemma_carried_out(pipeline.commands());
    let told = pipeline.told;
    let taken = seq![start.config] + requested(arrived);
    assert(told == taken || told.push(run(start, arrived).0.config) == taken) by {
        if arrived.len() == 0 {
            assert(requested(arrived) =~= Seq::<HardwareConfig>::empty());
            assert(told =~= Seq::<HardwareConfig>::empty());
            assert(told.push(start.config) =~= taken);
        }
    }
    assert(told.len() <= taken.len());
    assert(told =~= taken.subrange(0, told.len() as int));
    assert(requested(arrived).len() <= requested(pipeline.inputs).len());
    assert(pipeline.asked.len() == requested(pipeline.inputs).len() + pipeline.waiting.len());
    assert(taken =~= all.subrange(0, taken.len() as int));
    assert(told =~= all.subrange(0, told.len() as int));
    if pipeline.waiting.len() == 0 {
        assert(pipeline.asked =~= requested(pipeline.inputs));
    }
}

} // verus!
