//! The drawing surface and its mathematical model.
//!
//! A surface is modelled by its [`Image`]: a map from the grid positions that
//! the surface stores to the colour it stores there. Drawing on a position
//! that the surface does not store changes nothing.

use crate::geometry::{Pixel, Rectangle, Rgb888, Size};
use vstd::prelude::*;

verus! {

/// What a surface shows: a colour for each position that it stores.
pub type Image = Map<(int, int), Rgb888>;

/// Whether every position of `image` can be named by a `Point`.
pub open spec fn addressable(image: Image) -> bool {
    forall|at: (int, int)| #[trigger]
        image.dom().contains(at) ==> i32::MIN <= at.0 <= i32::MAX && i32::MIN <= at.1 <= i32::MAX
}

/// `image` after `pixel` was drawn: the position takes the pixel's colour if
/// the image stores it, and the pixel is dropped if not.
pub open spec fn draw_pixel(image: Image, pixel: Pixel) -> Image {
    let at = (pixel.point.x as int, pixel.point.y as int);
    if image.dom().contains(at) {
        image.insert(at, pixel.color)
    } else {
        image
    }
}

/// `image` after the pixels were drawn one after the other, so that of two
/// pixels on one position the later one stays.
pub open spec fn draw_pixels(image: Image, pixels: Seq<Pixel>) -> Image
    decreases pixels.len(),
{
    if pixels.len() == 0 {
        image
    } else {
        draw_pixel(draw_pixels(image, pixels.drop_last()), pixels.last())
    }
}

/// `image` with `color` on every stored position inside `area`.
pub open spec fn fill_area(image: Image, area: Rectangle, color: Rgb888) -> Image {
    Map::new(
        |at: (int, int)| image.dom().contains(at),
        |at: (int, int)|
            if area.contains(at.0, at.1) {
                color
            } else {
                image[at]
            },
    )
}

/// `base` with `top` laid over it: a position of `base` shows what `top`
/// stores there, and keeps its colour where `top` stores nothing.
pub open spec fn overlay(base: Image, top: Image) -> Image {
    Map::new(
        |at: (int, int)| base.dom().contains(at),
        |at: (int, int)|
            if top.dom().contains(at) {
                top[at]
            } else {
                base[at]
            },
    )
}

/// Drawing keeps the set of stored positions.
pub proof fn lemma_draw_pixels_keeps_positions(image: Image, pixels: Seq<Pixel>)
    ensures
        draw_pixels(image, pixels).dom() == image.dom(),
    decreases pixels.len(),
{
    if pixels.len() > 0 {
        lemma_draw_pixels_keeps_positions(image, pixels.drop_last());
        let before = draw_pixels(image, pixels.drop_last());
        assert(draw_pixel(before, pixels.last()).dom() =~= before.dom());
    }
}

/// Drawing one more pixel after `pixels` is drawing `pixels.push(pixel)`.
pub proof fn lemma_draw_pixels_push(image: Image, pixels: Seq<Pixel>, pixel: Pixel)
    ensures
        draw_pixels(image, pixels.push(pixel)) == draw_pixel(draw_pixels(image, pixels), pixel),
{
    assert(pixels.push(pixel).drop_last() =~= pixels);
}

/// A surface of pixels: it reports a size, takes coloured points and filled
/// rectangles, and silently drops what falls outside the positions it stores.
///
/// `wf`, `image`, `extent` and `lemma_addressable` exist for contracts. They
/// are never executed, so an implementation that is not verified may give them
/// any body.
pub trait Canvas {
    /// Whether the surface is in a consistent state. Constructors establish
    /// this and every operation keeps it.
    spec fn wf(&self) -> bool;

    /// What the surface shows.
    spec fn image(&self) -> Image;

    /// The size that the surface reports.
    spec fn extent(&self) -> Size;

    /// Every stored position can be named by a `Point`.
    proof fn lemma_addressable(&self)
        requires
            self.wf(),
        ensures
            addressable(self.image()),
    ;

    /// The size of the surface.
    fn size(&self) -> (size: Size)
        requires
            self.wf(),
        ensures
            size == self.extent(),
    ;

    /// Draws the pixels in order.
    fn draw_iter(&mut self, pixels: &[Pixel])
        requires
            old(self).wf(),
        ensures
            final(self).wf(),
            final(self).extent() == old(self).extent(),
            final(self).image() == draw_pixels(old(self).image(), pixels@),
            final(self).image().dom() == old(self).image().dom(),
    ;

    /// Gives every stored position inside `area` the colour `color`.
    fn fill_solid(&mut self, area: &Rectangle, color: Rgb888)
        requires
            old(self).wf(),
        ensures
            final(self).wf(),
            final(self).extent() == old(self).extent(),
            final(self).image() == fill_area(old(self).image(), *area, color),
    ;

    /// Gives every stored position inside the reported size the colour `color`.
    fn clear(&mut self, color: Rgb888)
        requires
            old(self).wf(),
        ensures
            final(self).wf(),
            final(self).extent() == old(self).extent(),
            final(self).image() == fill_area(
                old(self).image(),
                Rectangle::at_origin(old(self).extent()),
                color,
            ),
    ;
}

} // verus!
