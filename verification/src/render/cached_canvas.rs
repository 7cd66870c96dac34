//! A surface kept in memory that can itself be drawn on another surface.

use crate::canvas::{
    draw_pixel, draw_pixels, fill_area, lemma_draw_pixels_keeps_positions,
    lemma_draw_pixels_push, overlay, Canvas, Image,
};
use crate::geometry::{in_span, Pixel, Point, Rectangle, Rgb888, Size};
use crate::render::sub_canvas::{SubCanvas, SubRender};
use crate::render::{Render, RenderError};
use vstd::prelude::*;

verus! {

/// A rectangular buffer of pixels, one colour for each position of its size,
/// stored row after row.
#[derive(Debug)]
pub struct CachedCanvas {
    size: Size,
    pixels: Vec<Rgb888>,
}

/// The place of position `(x, y)` in a buffer of rows of `width` pixels.
pub open spec fn offset_of(width: int, x: int, y: int) -> int {
    y * width + x
}

/// Two positions in a buffer have the same place only if they are the same.
pub proof fn lemma_offset_of_is_injective(width: int, x: int, y: int, u: int, v: int)
    requires
        0 <= x < width,
        0 <= u < width,
        offset_of(width, x, y) == offset_of(width, u, v),
    ensures
        x == u,
        y == v,
{
    assert(y == v) by (nonlinear_arith)
        requires
            0 <= x < width,
            0 <= u < width,
            y * width + x == v * width + u,
    ;
}

/// The place of a position inside a buffer lies inside the buffer.
pub proof fn lemma_offset_of_in_buffer(width: int, height: int, x: int, y: int)
    requires
        0 <= x < width,
        0 <= y < height,
    ensures
        0 <= offset_of(width, x, y) < width * height,
{
    assert(0 <= y * width + x < width * height) by (nonlinear_arith)
        requires
            0 <= x < width,
            0 <= y < height,
    ;
}

/// Whether `v` lies in `low..high` exactly if it is one of the `length`
/// coordinates that start at `start`.
pub open spec fn spans_agree(low: usize, high: usize, start: i32, length: u32, v: int) -> bool {
    low <= v < high <==> in_span(start as int, length as int, v)
}

/// The part of the span `start`, `length` that lies in `0..limit`, as the
/// range `low..high`.
fn clip_span(start: i32, length: u32, limit: u32) -> (clipped: (usize, usize))
    requires
        limit <= i32::MAX,
    ensures
        clipped.0 <= clipped.1 <= limit,
        forall|v: int| 0 <= v < limit ==> #[trigger] spans_agree(clipped.0, clipped.1, start, length, v),
{
    let end: i64 = start as i64 + length as i64;
    let low: i64 = if start < 0 {
        0
    } else if start as i64 > limit as i64 {
        limit as i64
    } else {
        start as i64
    };
    let high: i64 = if end < low {
        low
    } else if end > limit as i64 {
        limit as i64
    } else {
        end
    };
    (low as usize, high as usize)
}

impl CachedCanvas {
    #[verifier::type_invariant]
    spec fn well_formed(&self) -> bool {
        &&& self.size.width <= i32::MAX
        &&& self.size.height <= i32::MAX
        &&& self.pixels@.len() == self.size.width * self.size.height
    }

    /// The colour stored for position `(x, y)`.
    pub closed spec fn stored(&self, x: int, y: int) -> Rgb888 {
        self.pixels@[offset_of(self.size.width as int, x, y)]
    }

    /// The stored pixels in the order of the buffer: row after row, each from
    /// left to right.
    pub closed spec fn contents(&self) -> Seq<Pixel> {
        Seq::new(
            self.pixels@.len(),
            |i: int|
                Pixel {
                    point: Point {
                        x: (i % (self.size.width as int)) as i32,
                        y: (i / (self.size.width as int)) as i32,
                    },
                    color: self.pixels@[i],
                },
        )
    }

    /// A buffer of `size` in which every pixel is black.
    pub fn new(size: Size) -> (canvas: CachedCanvas)
        requires
            size.width <= i32::MAX,
            size.height <= i32::MAX,
            size.width * size.height <= usize::MAX,
        ensures
            canvas.wf(),
            canvas.extent() == size,
            forall|at: (int, int)| #[trigger]
                canvas.image().dom().contains(at) <==> size.holds(at.0, at.1),
            forall|at: (int, int)|
                size.holds(at.0, at.1) ==> #[trigger] canvas.image()[at] == Rgb888::black(),
    {
        assert(size.width * size.height <= usize::MAX);
        let num_of_pixels: usize = size.width as usize * size.height as usize;
        let pixels = vec![Rgb888::black(); num_of_pixels];
        let canvas = CachedCanvas { size, pixels };
        assert forall|at: (int, int)| size.holds(at.0, at.1) implies #[trigger] canvas.image()[at]
            == Rgb888::black() by {
            lemma_offset_of_in_buffer(size.width as int, size.height as int, at.0, at.1);
        }
        canvas
    }

    /// The place in the buffer of the pixel at `point`, if the buffer holds it.
    fn convert_point_to_offset(&self, point: Point) -> (offset: Option<usize>)
        ensures
            offset is Some <==> self.extent().holds(point.x as int, point.y as int),
            offset matches Some(o) ==> o == offset_of(
                self.size.width as int,
                point.x as int,
                point.y as int,
            ) && o < self.pixels@.len(),
    {
        proof {
            use_type_invariant(self);
        }
        if point.x >= 0 && point.y >= 0 && (point.x as u32) < self.size.width && (point.y as u32)
            < self.size.height {
            proof {
                lemma_offset_of_in_buffer(
                    self.size.width as int,
                    self.size.height as int,
                    point.x as int,
                    point.y as int,
                );
                assert(point.y * self.size.width >= 0) by (nonlinear_arith)
                    requires
                        point.y >= 0,
                        self.size.width >= 0,
                ;
                assert(point.y * self.size.width + point.x < self.pixels.len() <= usize::MAX);
            }
            Some(point.y as usize * self.size.width as usize + point.x as usize)
        } else {
            None
        }
    }

    /// The position of the pixel whose place in the buffer is `offset`, if the
    /// buffer has such a place.
    fn convert_offset_to_point(&self, offset: usize) -> (point: Option<Point>)
        ensures
            point is Some <==> offset < self.pixels@.len(),
            point matches Some(p) ==> {
                &&& self.extent().holds(p.x as int, p.y as int)
                &&& offset == offset_of(self.size.width as int, p.x as int, p.y as int)
                &&& p.x == offset as int % (self.size.width as int)
                &&& p.y == offset as int / (self.size.width as int)
            },
    {
        proof {
            use_type_invariant(self);
        }
        if offset < self.pixels.len() {
            let width = self.size.width as usize;
            assert(width > 0) by (nonlinear_arith)
                requires
                    offset < width * self.size.height,
            ;
            let x = offset % width;
            let y = offset / width;
            proof {
                let (w, h, o) = (width as int, self.size.height as int, offset as int);
                assert(o == w * (o / w) + o % w && 0 <= o % w < w) by {
                    vstd::arithmetic::div_mod::lemma_fundamental_div_mod(o, w);
                    vstd::arithmetic::div_mod::lemma_mod_bound(o, w);
                }
                assert(0 <= o / w < h) by (nonlinear_arith)
                    requires
                        0 <= o < w * h,
                        o == w * (o / w) + o % w,
                        0 <= o % w < w,
                ;
                assert(w * (o / w) == (o / w) * w) by (nonlinear_arith);
            }
            Some(Point { x: x as i32, y: y as i32 })
        } else {
            None
        }
    }

    /// The stored pixels in the order of the buffer.
    pub fn pixels(&self) -> (pixels: Vec<Pixel>)
        ensures
            pixels@ == self.contents(),
            pixels@.len() == self.extent().width * self.extent().height,
            forall|i: int|
                0 <= i < pixels@.len() ==> {
                    let at = ((#[trigger] pixels@[i]).point.x as int, pixels@[i].point.y as int);
                    &&& self.image().dom().contains(at)
                    &&& i == offset_of(self.extent().width as int, at.0, at.1)
                    &&& pixels@[i].color == self.image()[at]
                },
    {
        proof {
            use_type_invariant(self);
        }
        let mut pixels: Vec<Pixel> = Vec::new();
        let mut offset: usize = 0;
        while offset < self.pixels.len()
            invariant
                offset <= self.pixels@.len(),
                self.size.width <= i32::MAX,
                self.size.height <= i32::MAX,
                self.pixels@.len() == self.size.width * self.size.height,
                pixels@ == self.contents().take(offset as int),
                forall|i: int|
                    0 <= i < pixels@.len() ==> {
                        let at = (
                            (#[trigger] pixels@[i]).point.x as int,
                            pixels@[i].point.y as int,
                        );
                        &&& self.image().dom().contains(at)
                        &&& i == offset_of(self.extent().width as int, at.0, at.1)
                        &&& pixels@[i].color == self.image()[at]
                    },
            decreases self.pixels@.len() - offset,
        {
            if let Some(point) = self.convert_offset_to_point(offset) {
                pixels.push(Pixel { point, color: self.pixels[offset] });
            }
            proof {
                assert(pixels@ =~= self.contents().take(offset + 1));
            }
            offset += 1;
        }
        proof {
            assert(self.contents().take(self.pixels@.len() as int) =~= self.contents());
        }
        pixels
    }

    /// Drawing the stored pixels in the order of the buffer lays the stored
    /// image over the surface.
    proof fn lemma_draw_contents(&self, before: Image, n: int)
        requires
            self.wf(),
            0 <= n <= self.pixels@.len(),
        ensures
            draw_pixels(before, self.contents().take(n)).dom() == before.dom(),
            forall|at: (int, int)|
                before.dom().contains(at) ==> #[trigger] draw_pixels(
                    before,
                    self.contents().take(n),
                )[at] == if self.size.holds(at.0, at.1) && offset_of(
                    self.size.width as int,
                    at.0,
                    at.1,
                ) < n {
                    self.stored(at.0, at.1)
                } else {
                    before[at]
                },
        decreases n,
    {
        let width = self.size.width as int;
        let height = self.size.height as int;
        lemma_draw_pixels_keeps_positions(before, self.contents().take(n));
        if n > 0 {
            self.lemma_draw_contents(before, n - 1);
            let earlier = self.contents().take(n - 1);
            let pixel = self.contents()[n - 1];
            assert(self.contents().take(n) =~= earlier.push(pixel));
            lemma_draw_pixels_push(before, earlier, pixel);
            assert(width > 0) by (nonlinear_arith)
                requires
                    n - 1 < width * height,
                    n - 1 >= 0,
                    width >= 0,
            ;
            let o = n - 1;
            assert(o == width * (o / width) + o % width && 0 <= o % width < width) by {
                vstd::arithmetic::div_mod::lemma_fundamental_div_mod(o, width);
                vstd::arithmetic::div_mod::lemma_mod_bound(o, width);
            }
            assert(0 <= o / width < height) by (nonlinear_arith)
                requires
                    0 <= o < width * height,
                    o == width * (o / width) + o % width,
                    0 <= o % width < width,
            ;
            assert(width * (o / width) == (o / width) * width) by (nonlinear_arith);
            let here = (pixel.point.x as int, pixel.point.y as int);
            assert(here == (o % width, o / width));
            assert(offset_of(width, here.0, here.1) == o);
            assert forall|at: (int, int)| before.dom().contains(at) implies #[trigger] draw_pixels(
                before,
                self.contents().take(n),
            )[at] == if self.size.holds(at.0, at.1) && offset_of(width, at.0, at.1) < n {
                self.stored(at.0, at.1)
            } else {
                before[at]
            } by {
                if self.size.holds(at.0, at.1) && offset_of(width, at.0, at.1) == o {
                    lemma_offset_of_is_injective(width, at.0, at.1, here.0, here.1);
                }
            }
        }
    }

    /// Drawing the stored pixels lays the stored image over the surface.
    proof fn lemma_contents_overlay(&self, before: Image)
        requires
            self.wf(),
        ensures
            draw_pixels(before, self.contents()) == overlay(before, self.image()),
    {
        let drawn = draw_pixels(before, self.contents());
        self.lemma_draw_contents(before, self.pixels@.len() as int);
        assert(self.contents().take(self.pixels@.len() as int) =~= self.contents());
        assert forall|at: (int, int)| before.dom().contains(at) implies #[trigger] drawn[at]
            == overlay(before, self.image())[at] by {
            if self.size.holds(at.0, at.1) {
                lemma_offset_of_in_buffer(
                    self.size.width as int,
                    self.size.height as int,
                    at.0,
                    at.1,
                );
            }
        }
        assert(drawn =~= overlay(before, self.image()));
    }

    /// The colour at `point`, or `None` where the buffer does not hold it.
    pub fn pixel(&self, point: Point) -> (color: Option<Rgb888>)
        ensures
            color == if self.image().dom().contains((point.x as int, point.y as int)) {
                Some(self.image()[(point.x as int, point.y as int)])
            } else {
                None
            },
    {
        match self.convert_point_to_offset(point) {
            Some(offset) => Some(self.pixels[offset]),
            None => None,
        }
    }
}

impl Canvas for CachedCanvas {
    closed spec fn wf(&self) -> bool {
        self.well_formed()
    }

    closed spec fn image(&self) -> Image {
        Map::new(
            |at: (int, int)| self.size.holds(at.0, at.1),
            |at: (int, int)| self.stored(at.0, at.1),
        )
    }

    closed spec fn extent(&self) -> Size {
        self.size
    }

    proof fn lemma_addressable(&self) {
    }

    fn size(&self) -> Size {
        self.size
    }

    fn draw_iter(&mut self, pixels: &[Pixel]) {
        let mut i: usize = 0;
        while i < pixels.len()
            invariant
                0 <= i <= pixels.len(),
                self.size.width <= i32::MAX,
                self.size.height <= i32::MAX,
                self.pixels@.len() == self.size.width * self.size.height,
                self.size == old(self).size,
                self.image() == draw_pixels(old(self).image(), pixels@.take(i as int)),
            decreases pixels.len() - i,
        {
            let pixel = pixels[i];
            let ghost initial = *self;
            let ghost before = self.image();
            match self.convert_point_to_offset(pixel.point) {
                Some(offset) => {
                    self.pixels[offset] = pixel.color;
                    proof {
                        let width = self.size.width as int;
                        let at = (pixel.point.x as int, pixel.point.y as int);
                        assert forall|other: (int, int)| #[trigger]
                            self.size.holds(other.0, other.1) implies self.image()[other]
                            == before.insert(at, pixel.color)[other] by {
                            lemma_offset_of_in_buffer(
                                width,
                                self.size.height as int,
                                other.0,
                                other.1,
                            );
                            assert(before.dom().contains(other));
                            assert(before[other] == initial.stored(other.0, other.1));
                            if offset_of(width, other.0, other.1) == offset {
                                lemma_offset_of_is_injective(
                                    width,
                                    other.0,
                                    other.1,
                                    at.0,
                                    at.1,
                                );
                            }
                        }
                        assert(self.image() =~= before.insert(at, pixel.color));
                    }
                },
                None => {},
            }
            proof {
                assert(self.image() == draw_pixel(before, pixel));
                lemma_draw_pixels_push(old(self).image(), pixels@.take(i as int), pixel);
                assert(pixels@.take(i as int).push(pixel) =~= pixels@.take(i + 1));
            }
            i += 1;
        }
        proof {
            assert(pixels@.take(pixels.len() as int) =~= pixels@);
            lemma_draw_pixels_keeps_positions(old(self).image(), pixels@);
        }
    }

    fn fill_solid(&mut self, area: &Rectangle, color: Rgb888) {
        let width = self.size.width as usize;
        let height = self.size.height as usize;
        let (left, right) = clip_span(area.top_left.x, area.size.width, self.size.width);
        let (top, bottom) = clip_span(area.top_left.y, area.size.height, self.size.height);
        let ghost initial = *self;
        let mut y: usize = top;
        while y < bottom
            invariant
                top <= y <= bottom <= height,
                left <= right <= width,
                self.size == initial.size,
                width == self.size.width <= i32::MAX,
                height == self.size.height <= i32::MAX,
                self.pixels@.len() == width * height,
                forall|u: int, v: int|
                    0 <= u < width && 0 <= v < height ==> #[trigger] self.stored(u, v) == if left
                        <= u < right && top <= v < y {
                        color
                    } else {
                        initial.stored(u, v)
                    },
            decreases bottom - y,
        {
            let mut x: usize = left;
            while x < right
                invariant
                    top <= y < bottom <= height,
                    left <= x <= right <= width,
                    self.size == initial.size,
                    width == self.size.width <= i32::MAX,
                    height == self.size.height <= i32::MAX,
                    self.pixels@.len() == width * height,
                    forall|u: int, v: int|
                        0 <= u < width && 0 <= v < height ==> #[trigger] self.stored(u, v) == if left
                            <= u < right && (top <= v < y || (v == y && u < x)) {
                            color
                        } else {
                            initial.stored(u, v)
                        },
                decreases right - x,
            {
                proof {
                    lemma_offset_of_in_buffer(width as int, height as int, x as int, y as int);
                    assert(y * width >= 0) by (nonlinear_arith)
                        requires
                            y >= 0,
                            width >= 0,
                    ;
                    assert(y * width + x < self.pixels.len() <= usize::MAX);
                }
                let ghost before = *self;
                self.pixels[y * width + x] = color;
                proof {
                    assert forall|u: int, v: int| 0 <= u < width && 0 <= v < height implies (
                    #[trigger] self.stored(u, v)) == if u == x && v == y {
                        color
                    } else {
                        before.stored(u, v)
                    } by {
                        lemma_offset_of_in_buffer(width as int, height as int, u, v);
                        if offset_of(width as int, u, v) == offset_of(
                            width as int,
                            x as int,
                            y as int,
                        ) {
                            lemma_offset_of_is_injective(width as int, u, v, x as int, y as int);
                        }
                    }
                }
                x += 1;
            }
            y += 1;
        }
        proof {
            assert forall|at: (int, int)| #[trigger]
                self.size.holds(at.0, at.1) implies self.image()[at] == fill_area(
                initial.image(),
                *area,
                color,
            )[at] by {
                assert(spans_agree(left, right, area.top_left.x, area.size.width, at.0));
                assert(spans_agree(top, bottom, area.top_left.y, area.size.height, at.1));
            }
            assert(self.image() =~= fill_area(initial.image(), *area, color));
        }
    }

    fn clear(&mut self, color: Rgb888) {
        let whole = Rectangle::at_origin(self.size);
        self.fill_solid(&whole, color);
    }
}


impl<D: Canvas> Render<D> for CachedCanvas {
    /// The stored image is laid over the surface, and the call succeeds.
    open spec fn draws(
        &self,
        before: Image,
        extent: Size,
        after: Image,
        outcome: Result<(), RenderError>,
    ) -> bool {
        outcome is Ok && after == overlay(before, self.image())
    }

    fn render(&self, canvas: &mut D) -> (outcome: Result<(), RenderError>) {
        proof {
            use_type_invariant(self);
        }
        let pixels = self.pixels();
        let ghost before = canvas.image();
        canvas.draw_iter(pixels.as_slice());
        proof {
            self.lemma_contents_overlay(before);
        }
        Ok(())
    }
}

impl<D: Canvas> SubRender<D> for CachedCanvas {
    /// The stored image is laid over what the viewport shows, and the call
    /// succeeds.
    open spec fn paints(
        &self,
        before: Image,
        extent: Size,
        after: Image,
        outcome: Result<(), RenderError>,
    ) -> bool {
        outcome is Ok && after == overlay(before, self.image())
    }

    fn sub_render<'a>(&self, canvas: &mut SubCanvas<'a, D>) -> (outcome: Result<(), RenderError>) {
        proof {
            use_type_invariant(self);
        }
        let pixels = self.pixels();
        let ghost before = canvas.image();
        canvas.draw_iter(pixels.as_slice());
        proof {
            self.lemma_contents_overlay(before);
        }
        Ok(())
    }
}

} // verus!
