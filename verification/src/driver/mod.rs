//! The two sides of the frame pipeline and what they decide.
//!
//! The render side fills a canvas, the driver side shows it, and the canvas
//! goes back and forth between them. Each side is a loop around blocking
//! calls. The loops, their threads and their channels stay with the caller:
//! here is what a side does next, given what just happened (`render_side`,
//! `driver_side`), and what follows for the two sides and their channels
//! together (`pipeline`).

use crate::canvas::Canvas;
use crate::config::HardwareConfig;
use crate::render::RenderError;
use vstd::prelude::*;

pub mod cpp_driver;
pub mod driver_side;
pub mod pipeline;
pub mod render_side;

pub use cpp_driver::CombinedConfig;

verus! {

/// Why a display could not be set up.
#[derive(Debug)]
pub struct DriverError {
    pub message: String,
}

/// Why a side of the pipeline stopped.
#[derive(Debug)]
pub enum PipelineError {
    /// No display could be made from a configuration.
    Driver(DriverError),
    /// The render failed to draw a frame.
    Render(RenderError),
    /// The other side is gone: a canvas could not be handed over.
    CanvasChannelClosed,
    /// The source of configurations, or the observer of those in use, is gone.
    EventBusClosed,
    /// More canvases of replaced displays are on their way round than the
    /// driver side can count.
    TooManyCanvases,
    /// Something was reported that the side was not waiting for.
    OutOfTurn,
}

/// A physical or simulated display.
///
/// `converts`, `sets_up`, `hands_out` and `shows` exist for contracts: they
/// say what `convert`, `new`, `create_canvas` and `display_canvas` may answer.
/// They are never executed, so an implementation that is not verified may give
/// them any body.
pub trait HardwareDriver: Sized {
    /// The configuration in the form that the display takes.
    type Config;

    /// The surface that the display shows.
    type Canvas: Canvas;

    /// Whether one call of `convert` on `config` may end with `converted`.
    spec fn converts(config: HardwareConfig, converted: Result<Self::Config, DriverError>) -> bool;

    /// Whether one call of `new` on `config` may end with `driver`.
    spec fn sets_up(config: Self::Config, driver: Result<Self, DriverError>) -> bool;

    /// Whether one call of `create_canvas` on this display may leave the
    /// display as `after` and give `canvas`.
    spec fn hands_out(&self, after: Self, canvas: Self::Canvas) -> bool;

    /// Whether one call of `display_canvas` with `canvas` on this display may
    /// leave the display as `after` and give back `free`.
    spec fn shows(&self, canvas: Self::Canvas, after: Self, free: Self::Canvas) -> bool;

    /// Checks the configuration and puts it in the form that the display takes.
    fn convert(config: &HardwareConfig) -> (converted: Result<Self::Config, DriverError>)
        ensures
            Self::converts(*config, converted),
    ;

    /// Sets up the display.
    fn new(config: Self::Config) -> (driver: Result<Self, DriverError>)
        ensures
            Self::sets_up(config, driver),
    ;

    /// A canvas to draw the next frame on.
    fn create_canvas(&mut self) -> (canvas: Box<Self::Canvas>)
        ensures
            canvas.wf(),
            old(self).hands_out(*final(self), *canvas),
    ;

    /// Shows `canvas` and gives back the canvas that was shown before, to draw
    /// the next frame on.
    fn display_canvas(&mut self, canvas: Box<Self::Canvas>) -> (free: Box<Self::Canvas>)
        requires
            canvas.wf(),
        ensures
            free.wf(),
            old(self).shows(*canvas, *final(self), *free),
    ;
}

/// Whether `driver` with `canvas` is a display that was set up for `config`
/// and has handed out its first canvas: the configuration was converted, a
/// display was set up from what came of it, and that display gave the canvas.
pub open spec fn is_set_up_for<H: HardwareDriver>(
    config: HardwareConfig,
    driver: H,
    canvas: H::Canvas,
) -> bool {
    exists|hardware_config: H::Config, fresh: H|
        {
            &&& H::converts(config, Ok(hardware_config))
            &&& #[trigger] H::sets_up(hardware_config, Ok(fresh))
            &&& fresh.hands_out(driver, canvas)
        }
}

/// Whether no display could be set up for `config`, with `error`: the
/// configuration was refused with it, or it was converted and the display could
/// not be set up from what came of it.
pub open spec fn fails_for<H: HardwareDriver>(config: HardwareConfig, error: DriverError) -> bool {
    ||| H::converts(config, Err(error))
    ||| exists|hardware_config: H::Config|
        H::converts(config, Ok(hardware_config)) && #[trigger] H::sets_up(
            hardware_config,
            Err(error),
        )
}

/// Sets up a display for `config` and takes its first canvas: converts the
/// configuration, sets up the display from what comes of it, and asks the
/// display for a canvas. Fails with the error of the step that failed.
pub fn construct<H: HardwareDriver>(config: &HardwareConfig) -> (made: Result<
    (H, Box<H::Canvas>),
    DriverError,
>)
    ensures
        match made {
            Ok(pair) => pair.1.wf() && is_set_up_for::<H>(*config, pair.0, *pair.1),
            Err(error) => fails_for::<H>(*config, error),
        },
{
    let hardware_config = match H::convert(config) {
        Ok(hardware_config) => hardware_config,
        Err(error) => {
            return Err(error);
        },
    };
    let mut hardware_driver = match H::new(hardware_config) {
        Ok(hardware_driver) => hardware_driver,
        Err(error) => {
            return Err(error);
        },
    };
    let ghost fresh = hardware_driver;
    let canvas = hardware_driver.create_canvas();
    proof {
        assert(H::sets_up(hardware_config, Ok(fresh)));
    }
    Ok((hardware_driver, canvas))
}

/// How long, in milliseconds, the driver side waits for a frame: the time of
/// one refresh at `refresh_rate` refreshes per second, rounded down, and
/// without end where the rate is zero.
pub open spec fn spec_frame_timeout_millis(refresh_rate: usize) -> u64 {
    if refresh_rate == 0 {
        u64::MAX
    } else {
        (1000int / refresh_rate as int) as u64
    }
}

#[verifier::when_used_as_spec(spec_frame_timeout_millis)]
pub fn frame_timeout_millis(refresh_rate: usize) -> (millis: u64)
    ensures
        millis == spec_frame_timeout_millis(refresh_rate),
{
    if refresh_rate == 0 {
        u64::MAX
    } else {
        (1000 / refresh_rate) as u64
    }
}

/// How a thread of the pipeline ended.
#[derive(Clone, Copy, Debug, PartialEq, Eq, Structural)]
pub enum ThreadOutcome {
    /// The thread was never started, or was waited for before.
    Absent,
    /// The thread ran to its end without an error.
    Finished,
    /// The thread ended with an error.
    Failed,
    /// The thread panicked.
    Panicked,
}

/// The threads of the pipeline.
#[derive(Clone, Copy, Debug, PartialEq, Eq, Structural)]
pub enum Side {
    Render,
    Driver,
    Http,
}

/// What is wrong at the end of the pipeline.
#[derive(Clone, Copy, Debug, PartialEq, Eq, Structural)]
pub enum TeardownError {
    /// The thread panicked, so it could not be joined.
    JoinFailed(Side),
    /// The thread ended with an error.
    ThreadFailed(Side),
}

impl ThreadOutcome {
    /// What is wrong with this end of the thread `side`, if anything.
    pub open spec fn fault(self, side: Side) -> Option<TeardownError> {
        match self {
            ThreadOutcome::Panicked => Some(TeardownError::JoinFailed(side)),
            ThreadOutcome::Failed => Some(TeardownError::ThreadFailed(side)),
            _ => None,
        }
    }
}

/// What is wrong at the end of the pipeline, if anything: the fault of the
/// render thread, else that of the driver thread, else that of the HTTP thread.
pub open spec fn spec_teardown(
    render: ThreadOutcome,
    driver: ThreadOutcome,
    http: ThreadOutcome,
) -> Result<(), TeardownError> {
    if render.fault(Side::Render) is Some {
        Err(render.fault(Side::Render)->0)
    } else if driver.fault(Side::Driver) is Some {
        Err(driver.fault(Side::Driver)->0)
    } else if http.fault(Side::Http) is Some {
        Err(http.fault(Side::Http)->0)
    } else {
        Ok(())
    }
}

/// Judges the end of the pipeline from how its threads ended. The threads are
/// waited for in the order render, driver, HTTP, and the first fault is the one
/// that is reported.
#[verifier::when_used_as_spec(spec_teardown)]
pub fn teardown(render: ThreadOutcome, driver: ThreadOutcome, http: ThreadOutcome) -> (verdict:
    Result<(), TeardownError>)
    ensures
        verdict == spec_teardown(render, driver, http),
{
    match render {
        ThreadOutcome::Panicked => {
            return Err(TeardownError::JoinFailed(Side::Render));
        },
        ThreadOutcome::Failed => {
            return Err(TeardownError::ThreadFailed(Side::Render));
        },
        _ => {},
    }
    match driver {
        ThreadOutcome::Panicked => {
            return Err(TeardownError::JoinFailed(Side::Driver));
        },
        ThreadOutcome::Failed => {
            return Err(TeardownError::ThreadFailed(Side::Driver));
        },
        _ => {},
    }
    match http {
        ThreadOutcome::Panicked => Err(TeardownError::JoinFailed(Side::Http)),
        ThreadOutcome::Failed => Err(TeardownError::ThreadFailed(Side::Http)),
        _ => Ok(()),
    }
}

impl TeardownError {
    pub open spec fn spec_message(self) -> Seq<char> {
        match self {
            TeardownError::JoinFailed(Side::Render) => "Failed to join the render thread"@,
            TeardownError::ThreadFailed(Side::Render) => "Render thread encountered an error"@,
            TeardownError::JoinFailed(Side::Driver) => "Failed to join the driver thread"@,
            TeardownError::ThreadFailed(Side::Driver) => "Driver thread encountered an error"@,
            TeardownError::JoinFailed(Side::Http) => "Failed to join the http thread"@,
            TeardownError::ThreadFailed(Side::Http) => "HTTP thread encountered an error"@,
        }
    }

    /// The fault in words.
    pub fn message(&self) -> (message: &'static str)
        ensures
            message@ == self.spec_message(),
    {
        match self {
            TeardownError::JoinFailed(Side::Render) => "Failed to join the render thread",
            TeardownError::ThreadFailed(Side::Render) => "Render thread encountered an error",
            TeardownError::JoinFailed(Side::Driver) => "Failed to join the driver thread",
            TeardownError::ThreadFailed(Side::Driver) => "Driver thread encountered an error",
            TeardownError::JoinFailed(Side::Http) => "Failed to join the http thread",
            TeardownError::ThreadFailed(Side::Http) => "HTTP thread encountered an error",
        }
    }
}

} // verus!
