//! Factories of different types as one: a list built one `append` at a time,
//! and a choice between two.

use crate::canvas::{Canvas, Image};
use crate::geometry::Size;
use crate::render::{Bytes, LoadError, Render, RenderError, RenderFactory};
use vstd::prelude::*;

verus! {

/// A factory in front of the list `parent`.
pub struct Node<T, P> {
    pub value: T,
    pub parent: P,
}

impl<T, P> Node<T, P> {
    /// The list with `value` in front of `self`.
    pub fn append<V>(self, value: V) -> (node: Node<V, Self>)
        ensures
            node.value == value,
            node.parent == self,
    {
        Node { value, parent: self }
    }
}

/// Stands for the factory in front.
impl<T, P, D> RenderFactory<D> for Node<T, P> where D: Canvas, T: RenderFactory<D> {
    type Output = T::Output;

    open spec fn name(&self) -> Seq<char> {
        self.value.name()
    }

    open spec fn description(&self) -> Seq<char> {
        self.value.description()
    }

    fn render_name(&self) -> &'static str {
        self.value.render_name()
    }

    fn render_description(&self) -> &'static str {
        self.value.render_description()
    }

    /// The factory in front constructs.
    open spec fn constructs(&self, config: Bytes, loaded: Result<Self::Output, LoadError>) -> bool {
        self.value.constructs(config, loaded)
    }

    fn load_from_config(&self, config: &[u8]) -> Result<Self::Output, LoadError> {
        self.value.load_from_config(config)
    }
}

/// The list of one factory.
pub struct List<T> {
    pub value: T,
}

impl<T> List<T> {
    pub fn new(value: T) -> (list: List<T>)
        ensures
            list.value == value,
    {
        List { value }
    }

    /// The list with `value` in front of `self`.
    pub fn append<V>(self, value: V) -> (node: Node<V, Self>)
        ensures
            node.value == value,
            node.parent == self,
    {
        Node { value, parent: self }
    }
}

/// Stands for its one factory.
impl<T, D> RenderFactory<D> for List<T> where D: Canvas, T: RenderFactory<D> {
    type Output = T::Output;

    open spec fn name(&self) -> Seq<char> {
        self.value.name()
    }

    open spec fn description(&self) -> Seq<char> {
        self.value.description()
    }

    fn render_name(&self) -> &'static str {
        self.value.render_name()
    }

    fn render_description(&self) -> &'static str {
        self.value.render_description()
    }

    /// The one factory constructs.
    open spec fn constructs(&self, config: Bytes, loaded: Result<Self::Output, LoadError>) -> bool {
        self.value.constructs(config, loaded)
    }

    fn load_from_config(&self, config: &[u8]) -> Result<Self::Output, LoadError> {
        self.value.load_from_config(config)
    }
}

/// One of two things: a factory of one of two types, or what one of two
/// factories constructs. A choice of choices stands for any number of types.
pub enum Either<A, B> {
    Left(A),
    Right(B),
}

/// Draws as the render it holds.
impl<A, B, D> Render<D> for Either<A, B> where D: Canvas, A: Render<D>, B: Render<D> {
    open spec fn draws(
        &self,
        before: Image,
        extent: Size,
        after: Image,
        outcome: Result<(), RenderError>,
    ) -> bool {
        match self {
            Either::Left(render) => render.draws(before, extent, after, outcome),
            Either::Right(render) => render.draws(before, extent, after, outcome),
        }
    }

    fn render(&self, canvas: &mut D) -> (outcome: Result<(), RenderError>) {
        match self {
            Either::Left(render) => render.render(canvas),
            Either::Right(render) => render.render(canvas),
        }
    }
}

/// Stands for the factory it holds. What it constructs is on the side of the
/// factory that constructed it.
impl<A, B, D> RenderFactory<D> for Either<A, B> where
    D: Canvas,
    A: RenderFactory<D>,
    B: RenderFactory<D>,
 {
    type Output = Either<A::Output, B::Output>;

    open spec fn name(&self) -> Seq<char> {
        match self {
            Either::Left(factory) => factory.name(),
            Either::Right(factory) => factory.name(),
        }
    }

    open spec fn description(&self) -> Seq<char> {
        match self {
            Either::Left(factory) => factory.description(),
            Either::Right(factory) => factory.description(),
        }
    }

    fn render_name(&self) -> &'static str {
        match self {
            Either::Left(factory) => factory.render_name(),
            Either::Right(factory) => factory.render_name(),
        }
    }

    fn render_description(&self) -> &'static str {
        match self {
            Either::Left(factory) => factory.render_description(),
            Either::Right(factory) => factory.render_description(),
        }
    }

    /// The factory that is held constructs, and what it constructs is put on
    /// its side. An error of the factory is handed on as it is.
    open spec fn constructs(&self, config: Bytes, loaded: Result<Self::Output, LoadError>) -> bool {
        match (self, loaded) {
            (Either::Left(factory), Ok(Either::Left(render))) => factory.constructs(
                config,
                Ok(render),
            ),
            (Either::Left(factory), Err(error)) => factory.constructs(config, Err(error)),
            (Either::Right(factory), Ok(Either::Right(render))) => factory.constructs(
                config,
                Ok(render),
            ),
            (Either::Right(factory), Err(error)) => factory.constructs(config, Err(error)),
            _ => false,
        }
    }

    fn load_from_config(&self, config: &[u8]) -> (loaded: Result<Self::Output, LoadError>) {
        match self {
            Either::Left(factory) => match factory.load_from_config(config) {
                Ok(render) => Ok(Either::Left(render)),
                Err(error) => Err(error),
            },
            Either::Right(factory) => match factory.load_from_config(config) {
                Ok(render) => Ok(Either::Right(render)),
                Err(error) => Err(error),
            },
        }
    }
}

} // verus!
