//! The render side of the pipeline: it waits for a canvas, clears it, lets the
//! render draw and hands the canvas to the driver side.

use crate::canvas::{fill_area, Canvas, Image};
use crate::driver::PipelineError;
use crate::geometry::{Rectangle, Rgb888};
use crate::render::{Render, RenderError};
use vstd::prelude::*;

verus! {

/// What happened on the render side since it was last asked what to do.
pub enum RenderEvent<C> {
    /// The side has started, or has handed a canvas to the driver side.
    Ready,
    /// A canvas has arrived from the driver side.
    Received(Box<C>),
    /// No canvas will arrive any more: the driver side is gone.
    ReceiveClosed,
    /// The canvas could not be handed over: the driver side is gone.
    SendClosed,
}

/// What the render side does next.
pub enum RenderCommand<C> {
    /// Wait for a canvas from the driver side.
    Receive,
    /// Hand this canvas to the driver side.
    Send(Box<C>),
    /// End, with this result.
    Stop(Result<(), PipelineError>),
}

/// What a canvas that shows `image` shows once it was cleared to the
/// background colour.
pub open spec fn cleared<C: Canvas>(canvas: C) -> Image {
    fill_area(canvas.image(), Rectangle::at_origin(canvas.extent()), Rgb888::black())
}

/// Draws one frame: clears `canvas` to the background colour and lets
/// `render` draw on it.
pub fn render_frame<C: Canvas, R: Render<C>>(render: &R, canvas: &mut C) -> (outcome: Result<
    (),
    RenderError,
>)
    requires
        old(canvas).wf(),
    ensures
        final(canvas).wf(),
        final(canvas).extent() == old(canvas).extent(),
        final(canvas).image().dom() == old(canvas).image().dom(),
        render.draws(cleared(*old(canvas)), old(canvas).extent(), final(canvas).image(), outcome),
{
    canvas.clear(Rgb888::black());
    assert(canvas.image().dom() =~= old(canvas).image().dom());
    render.render(canvas)
}

/// Whether `drawn` is `canvas` after it was cleared and `render` drew on it
/// without an error.
pub open spec fn is_frame_of<C: Canvas, R: Render<C>>(render: &R, canvas: C, drawn: C) -> bool {
    &&& drawn.wf()
    &&& drawn.extent() == canvas.extent()
    &&& drawn.image().dom() == canvas.image().dom()
    &&& render.draws(cleared(canvas), canvas.extent(), drawn.image(), Ok(()))
}

/// Whether `render` may fail with `error` on `canvas` once it was cleared.
pub open spec fn fails_on<C: Canvas, R: Render<C>>(render: &R, canvas: C, error: RenderError) -> bool {
    exists|after: Image| #[trigger]
        render.draws(cleared(canvas), canvas.extent(), after, Err(error))
}

/// What the render side does after `event`, where `alive` says whether the
/// pipeline is meant to go on. A canvas that arrives is drawn on here.
///
/// At the head of its loop the side waits for the next canvas while the
/// pipeline is alive, and ends if not. It ends without an error when no canvas
/// will arrive any more. A render that fails and a canvas that cannot be
/// handed over end it with an error.
pub fn render_side<C: Canvas, R: Render<C>>(render: &R, alive: bool, event: RenderEvent<C>) -> (command:
    RenderCommand<C>)
    requires
        event matches RenderEvent::Received(canvas) ==> canvas.wf(),
    ensures
        event is Ready && alive ==> command is Receive,
        event is Ready && !alive ==> command matches RenderCommand::Stop(Ok(_)),
        event matches RenderEvent::Received(canvas) ==> match command {
            RenderCommand::Send(drawn) => is_frame_of(render, *canvas, *drawn),
            RenderCommand::Stop(Err(PipelineError::Render(error))) => fails_on(
                render,
                *canvas,
                error,
            ),
            _ => false,
        },
        event is ReceiveClosed ==> command matches RenderCommand::Stop(Ok(_)),
        event is SendClosed ==> command matches RenderCommand::Stop(
            Err(PipelineError::CanvasChannelClosed),
        ),
{
    match event {
        RenderEvent::Ready => if alive {
            RenderCommand::Receive
        } else {
            RenderCommand::Stop(Ok(()))
        },
        RenderEvent::Received(canvas) => {
            let mut canvas = canvas;
            let ghost before = *canvas;
            match render_frame(render, &mut *canvas) {
                Ok(unit) => {
                    assert(unit == ());
                    RenderCommand::Send(canvas)
                },
                Err(error) => {
                    assert(render.draws(cleared(before), before.extent(), canvas.image(), Err(error)));
                    RenderCommand::Stop(Err(PipelineError::Render(error)))
                },
            }
        },
        RenderEvent::ReceiveClosed => RenderCommand::Stop(Ok(())),
        RenderEvent::SendClosed => RenderCommand::Stop(Err(PipelineError::CanvasChannelClosed)),
    }
}

} // verus!
