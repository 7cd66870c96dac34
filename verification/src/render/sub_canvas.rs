//! A viewport on a part of another surface.

use crate::canvas::{
    addressable, draw_pixel, draw_pixels, fill_area, lemma_draw_pixels_keeps_positions,
    lemma_draw_pixels_push, Canvas, Image,
};
use crate::geometry::{Pixel, Point, Rectangle, Rgb888, Size};
use crate::render::RenderError;
use vstd::prelude::*;

verus! {

/// Whether a viewport at `offset` has a name for the position `at` of the
/// surface behind it.
pub open spec fn visible(offset: Point, at: (int, int)) -> bool {
    &&& i32::MIN <= at.0 - offset.x <= i32::MAX
    &&& i32::MIN <= at.1 - offset.y <= i32::MAX
}

/// What a viewport at `offset` shows of a surface that shows `image`: the
/// position `(x, y)` of the viewport is the position `(x, y)` moved by `offset`
/// of the surface.
pub open spec fn window(image: Image, offset: Point) -> Image {
    Map::new(
        |at: (int, int)|
            {
                &&& i32::MIN <= at.0 <= i32::MAX
                &&& i32::MIN <= at.1 <= i32::MAX
                &&& image.dom().contains((at.0 + offset.x, at.1 + offset.y))
            },
        |at: (int, int)| image[(at.0 + offset.x, at.1 + offset.y)],
    )
}

/// Whether `after` stores the positions of `before` and shows, where a
/// viewport at `offset` has no name for a position, what `before` shows.
pub open spec fn same_outside(before: Image, after: Image, offset: Point) -> bool {
    &&& after.dom() == before.dom()
    &&& forall|at: (int, int)|
        before.dom().contains(at) && !visible(offset, at) ==> #[trigger] after[at] == before[at]
}

/// The pixels that can be moved by `by`, moved, in their order. A pixel that
/// would leave the grid is left out.
pub open spec fn shift_pixels(pixels: Seq<Pixel>, by: Point) -> Seq<Pixel>
    decreases pixels.len(),
{
    if pixels.len() == 0 {
        Seq::empty()
    } else {
        let earlier = shift_pixels(pixels.drop_last(), by);
        let pixel = pixels.last();
        if pixel.point.can_shift(by) {
            earlier.push(
                Pixel {
                    point: Point {
                        x: (pixel.point.x + by.x) as i32,
                        y: (pixel.point.y + by.y) as i32,
                    },
                    color: pixel.color,
                },
            )
        } else {
            earlier
        }
    }
}

/// Drawing moved pixels on a surface is, seen through the viewport, drawing
/// the pixels as they were given; and it leaves alone what the viewport has no
/// name for.
pub proof fn lemma_draw_shifted(image: Image, pixels: Seq<Pixel>, offset: Point)
    requires
        addressable(image),
    ensures
        window(draw_pixels(image, shift_pixels(pixels, offset)), offset) == draw_pixels(
            window(image, offset),
            pixels,
        ),
        same_outside(image, draw_pixels(image, shift_pixels(pixels, offset)), offset),
    decreases pixels.len(),
{
    if pixels.len() > 0 {
        let pixel = pixels.last();
        let earlier = shift_pixels(pixels.drop_last(), offset);
        lemma_draw_shifted(image, pixels.drop_last(), offset);
        lemma_draw_pixels_keeps_positions(image, earlier);
        let drawn = draw_pixels(image, earlier);
        let seen = draw_pixels(window(image, offset), pixels.drop_last());
        assert(window(drawn, offset) == seen);
        let at = (pixel.point.x as int, pixel.point.y as int);
        if pixel.point.can_shift(offset) {
            let moved = Pixel {
                point: Point {
                    x: (pixel.point.x + offset.x) as i32,
                    y: (pixel.point.y + offset.y) as i32,
                },
                color: pixel.color,
            };
            lemma_draw_pixels_push(image, earlier, moved);
            assert(window(draw_pixel(drawn, moved), offset) =~= draw_pixel(seen, pixel));
            let next = draw_pixel(drawn, moved);
            assert(next.dom() =~= image.dom());
            assert forall|other: (int, int)|
                image.dom().contains(other) && !visible(offset, other) implies #[trigger] next[other]
                == image[other] by {
                assert(drawn[other] == image[other]);
            }
        } else {
            assert(!drawn.dom().contains((at.0 + offset.x, at.1 + offset.y)));
            assert(draw_pixel(seen, pixel) == seen);
        }
    } else {
        assert(same_outside(image, image, offset));
    }
}

/// Filling a moved rectangle on a surface is, seen through the viewport,
/// filling the rectangle as it was given; and it leaves alone what the viewport
/// has no name for.
pub proof fn lemma_fill_shifted(
    image: Image,
    area: Rectangle,
    moved: Rectangle,
    offset: Point,
    color: Rgb888,
)
    requires
        addressable(image),
        Rectangle::is_shift_of(moved, area, offset),
    ensures
        window(fill_area(image, moved, color), offset) == fill_area(
            window(image, offset),
            area,
            color,
        ),
        same_outside(image, fill_area(image, moved, color), offset),
{
    let filled = fill_area(image, moved, color);
    assert forall|at: (int, int)| #[trigger]
        window(image, offset).dom().contains(at) implies window(filled, offset)[at] == fill_area(
        window(image, offset),
        area,
        color,
    )[at] by {
        let behind = (at.0 + offset.x, at.1 + offset.y);
        assert(image.dom().contains(behind));
        assert(moved.contains(behind.0, behind.1) <==> area.contains(at.0, at.1));
    }
    assert(window(filled, offset) =~= fill_area(window(image, offset), area, color));
    assert(filled.dom() =~= image.dom());
    assert forall|at: (int, int)|
        image.dom().contains(at) && !visible(offset, at) implies #[trigger] filled[at]
        == image[at] by {
        assert(!moved.contains(at.0, at.1));
    }
}

/// A surface that draws on another one. Every coordinate it is given is moved
/// by its offset and handed on; the size it reports is its own.
pub struct SubCanvas<'a, D: Canvas> {
    pub offset: Point,
    pub size: Size,
    pub canvas: &'a mut D,
}

impl<'a, D: Canvas> SubCanvas<'a, D> {
    /// A viewport of `size` whose origin is the position `offset` of `canvas`.
    pub fn new(offset: Point, size: Size, canvas: &'a mut D) -> (sub: Self)
        ensures
            sub.offset == offset,
            sub.size == size,
            *sub.canvas == *old(canvas),
            *final(sub.canvas) == *final(canvas),
    {
        SubCanvas { offset, size, canvas }
    }

    /// Whether `self` is the viewport `earlier` at a later time: it has the
    /// place and size of `earlier` on a surface of the same size, and what it
    /// has no name for is as it was.
    pub open spec fn follows(&self, earlier: &Self) -> bool {
        &&& self.offset == earlier.offset
        &&& self.size == earlier.size
        &&& self.canvas.extent() == earlier.canvas.extent()
        &&& same_outside(earlier.canvas.image(), self.canvas.image(), self.offset)
    }
}

/// Draws one frame through a viewport, and stays inside what the viewport
/// has a name for.
///
/// `paints` exists for contracts. It is never executed, so an implementation
/// that is not verified may give it any body.
pub trait SubRender<D: Canvas> {
    /// Whether one call of `sub_render` may turn a viewport of size `extent`
    /// that shows `before` into one that shows `after`, and end with `outcome`.
    spec fn paints(
        &self,
        before: Image,
        extent: Size,
        after: Image,
        outcome: Result<(), RenderError>,
    ) -> bool;

    /// Draws on `canvas`. The viewport stays where it is, on the surface it
    /// was made for.
    fn sub_render<'a>(&self, canvas: &mut SubCanvas<'a, D>) -> (outcome: Result<(), RenderError>)
        requires
            old(canvas).wf(),
        ensures
            final(canvas).wf(),
            final(canvas).follows(old(canvas)),
            *final(final(canvas).canvas) == *final(old(canvas).canvas),
            self.paints(
                old(canvas).image(),
                old(canvas).extent(),
                final(canvas).image(),
                outcome,
            ),
    ;
}

/// The pixels of `pixels` that can be moved by `by`, moved.
fn shifted(pixels: &[Pixel], by: Point) -> (moved: Vec<Pixel>)
    ensures
        moved@ == shift_pixels(pixels@, by),
{
    let mut moved: Vec<Pixel> = Vec::new();
    let mut i: usize = 0;
    while i < pixels.len()
        invariant
            0 <= i <= pixels.len(),
            moved@ == shift_pixels(pixels@.take(i as int), by),
        decreases pixels.len() - i,
    {
        let pixel = pixels[i];
        proof {
            assert(pixels@.take(i + 1).drop_last() =~= pixels@.take(i as int));
        }
        if let Some(point) = pixel.point.shift(by) {
            moved.push(Pixel { point, color: pixel.color });
        }
        i += 1;
    }
    proof {
        assert(pixels@.take(pixels.len() as int) =~= pixels@);
    }
    moved
}

impl<'a, D: Canvas> Canvas for SubCanvas<'a, D> {
    open spec fn wf(&self) -> bool {
        self.canvas.wf()
    }

    open spec fn image(&self) -> Image {
        window(self.canvas.image(), self.offset)
    }

    open spec fn extent(&self) -> Size {
        self.size
    }

    proof fn lemma_addressable(&self) {
    }

    fn size(&self) -> Size {
        self.size
    }

    fn draw_iter(&mut self, pixels: &[Pixel])
        ensures
            final(self).follows(old(self)),
            *final(final(self).canvas) == *final(old(self).canvas),
    {
        let moved = shifted(pixels, self.offset);
        proof {
            self.canvas.lemma_addressable();
            lemma_draw_shifted(self.canvas.image(), pixels@, self.offset);
            lemma_draw_pixels_keeps_positions(self.image(), pixels@);
        }
        self.canvas.draw_iter(moved.as_slice());
    }

    fn fill_solid(&mut self, area: &Rectangle, color: Rgb888)
        ensures
            final(self).follows(old(self)),
            *final(final(self).canvas) == *final(old(self).canvas),
    {
        let moved = area.shift(self.offset);
        proof {
            self.canvas.lemma_addressable();
            lemma_fill_shifted(self.canvas.image(), *area, moved, self.offset, color);
        }
        self.canvas.fill_solid(&moved, color);
    }

    fn clear(&mut self, color: Rgb888)
        ensures
            final(self).follows(old(self)),
            *final(final(self).canvas) == *final(old(self).canvas),
    {
        let whole = Rectangle::at_origin(self.size);
        self.fill_solid(&whole, color);
    }
}

} // verus!
