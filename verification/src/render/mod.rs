//! What draws on a surface, and what constructs such a drawer from a
//! configuration.

use crate::canvas::{Canvas, Image};
use crate::geometry::Size;
use vstd::prelude::*;

pub mod cached_canvas;
pub mod sub_canvas;

pub use cached_canvas::CachedCanvas;
pub use sub_canvas::{SubCanvas, SubRender};

verus! {

/// Why a render could not draw a frame.
#[derive(Debug)]
pub struct RenderError {
    pub message: String,
}

/// Why a factory could not construct a render from a configuration.
#[derive(Debug)]
pub struct LoadError {
    pub message: String,
}

/// The bytes of a configuration, as contracts speak of them.
pub type Bytes = Seq<u8>;

/// Draws one frame on a surface.
///
/// `draws` exists for contracts. It is never executed, so an implementation
/// that is not verified may give it any body.
pub trait Render<D: Canvas> {
    /// Whether one call of `render` may turn a surface of size `extent` that
    /// shows `before` into one that shows `after`, and end with `outcome`.
    spec fn draws(
        &self,
        before: Image,
        extent: Size,
        after: Image,
        outcome: Result<(), RenderError>,
    ) -> bool;

    /// Draws on `canvas`. The surface keeps its size and its positions.
    fn render(&self, canvas: &mut D) -> (outcome: Result<(), RenderError>)
        requires
            old(canvas).wf(),
        ensures
            final(canvas).wf(),
            final(canvas).extent() == old(canvas).extent(),
            final(canvas).image().dom() == old(canvas).image().dom(),
            self.draws(
                old(canvas).image(),
                old(canvas).extent(),
                final(canvas).image(),
                outcome,
            ),
    ;
}

/// Constructs renders from a serialized configuration, and says what it
/// constructs before anything is constructed.
///
/// `name`, `description` and `constructs` exist for contracts: `name` and
/// `description` are what `render_name` and `render_description` return, and
/// `constructs` says what `load_from_config` may answer. They are never
/// executed, so an implementation that is not verified may give them any body.
pub trait RenderFactory<D: Canvas> {
    /// What the factory constructs.
    type Output: Render<D>;

    /// The name that identifies the factory.
    spec fn name(&self) -> Seq<char>;

    /// A short text on what the constructed render shows.
    spec fn description(&self) -> Seq<char>;

    fn render_name(&self) -> (name: &'static str)
        ensures
            name@ == self.name(),
    ;

    fn render_description(&self) -> (description: &'static str)
        ensures
            description@ == self.description(),
    ;

    /// Whether one call of `load_from_config` on the bytes `config` may end
    /// with `loaded`.
    spec fn constructs(&self, config: Bytes, loaded: Result<Self::Output, LoadError>) -> bool;

    /// Tries to construct a render from the bytes of a configuration.
    fn load_from_config(&self, config: &[u8]) -> (loaded: Result<Self::Output, LoadError>)
        ensures
            self.constructs(config@, loaded),
    ;
}

} // verus!
