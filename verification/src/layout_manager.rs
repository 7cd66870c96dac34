//! Several renders on one surface, each in a region of its own.

use crate::canvas::{fill_area, Canvas, Image};
use crate::geometry::{Point, Rectangle, Rgb888, Size};
use crate::render::sub_canvas::{same_outside, window, SubCanvas, SubRender};
use crate::render::{Render, RenderError};
use vstd::prelude::*;

verus! {

/// What fills one region: a render, or nothing, in which case the region is
/// painted black.
pub type Slot<D> = Option<Box<dyn SubRender<D>>>;

/// The usual ways to divide a surface, with what fills each part.
#[verifier::reject_recursive_types(D)]
pub enum CommonLayout<D: Canvas> {
    Single(Slot<D>),
    SplitWidth { left: Slot<D>, right: Slot<D> },
    SplitHeight { top: Slot<D>, bottom: Slot<D> },
    Split4 { top_left: Slot<D>, top_right: Slot<D>, bottom_left: Slot<D>, bottom_right: Slot<D> },
}

/// The usual ways to divide a surface.
#[derive(Clone, Copy, Debug, PartialEq, Eq, Structural)]
pub enum LayoutType {
    Single,
    SplitWidth,
    SplitHeight,
    Split4,
}

/// The regions into which a surface of `size` is divided, in the order in
/// which they are drawn.
pub open spec fn split_regions(kind: LayoutType, size: Size) -> Seq<Rectangle> {
    let half_width = (size.width / 2) as u32;
    let half_height = (size.height / 2) as u32;
    let origin = Point { x: 0, y: 0 };
    match kind {
        LayoutType::Single => seq![Rectangle { top_left: origin, size }],
        LayoutType::SplitWidth => {
            let part = Size { width: half_width, height: size.height };
            seq![
                Rectangle { top_left: origin, size: part },
                Rectangle { top_left: Point { x: half_width as i32, y: 0 }, size: part },
            ]
        },
        LayoutType::SplitHeight => {
            let part = Size { width: size.width, height: half_height };
            seq![
                Rectangle { top_left: origin, size: part },
                Rectangle { top_left: Point { x: 0, y: half_height as i32 }, size: part },
            ]
        },
        LayoutType::Split4 => {
            let part = Size { width: half_width, height: half_height };
            seq![
                Rectangle { top_left: origin, size: part },
                Rectangle { top_left: Point { x: half_width as i32, y: 0 }, size: part },
                Rectangle { top_left: Point { x: 0, y: half_height as i32 }, size: part },
                Rectangle {
                    top_left: Point { x: half_width as i32, y: half_height as i32 },
                    size: part,
                },
            ]
        },
    }
}

impl<D: Canvas> CommonLayout<D> {
    /// The way the surface is divided.
    pub open spec fn kind(&self) -> LayoutType {
        match self {
            CommonLayout::Single(_) => LayoutType::Single,
            CommonLayout::SplitWidth { .. } => LayoutType::SplitWidth,
            CommonLayout::SplitHeight { .. } => LayoutType::SplitHeight,
            CommonLayout::Split4 { .. } => LayoutType::Split4,
        }
    }

    /// What fills the regions, in the order of `split_regions`.
    pub open spec fn slots(self) -> Seq<Slot<D>> {
        match self {
            CommonLayout::Single(render) => seq![render],
            CommonLayout::SplitWidth { left, right } => seq![left, right],
            CommonLayout::SplitHeight { top, bottom } => seq![top, bottom],
            CommonLayout::Split4 { top_left, top_right, bottom_left, bottom_right } => seq![
                top_left,
                top_right,
                bottom_left,
                bottom_right,
            ],
        }
    }

    /// The way the surface is divided.
    pub fn layout_type(&self) -> (kind: LayoutType)
        ensures
            kind == self.kind(),
    {
        match self {
            CommonLayout::Single(_) => LayoutType::Single,
            CommonLayout::SplitWidth { .. } => LayoutType::SplitWidth,
            CommonLayout::SplitHeight { .. } => LayoutType::SplitHeight,
            CommonLayout::Split4 { .. } => LayoutType::Split4,
        }
    }
}

/// One region of the surface and what fills it.
#[verifier::reject_recursive_types(D)]
struct Layout<D: Canvas> {
    size: Size,
    offset: Point,
    render: Slot<D>,
}

/// Draws each of its renders through a viewport on its region, one after the
/// other.
#[verifier::reject_recursive_types(D)]
pub struct LayoutManager<D: Canvas> {
    layouts: Vec<Layout<D>>,
    layout_type: Option<LayoutType>,
}

impl<D: Canvas> LayoutManager<D> {
    /// The regions, in the order in which they are drawn.
    pub closed spec fn regions(&self) -> Seq<Rectangle> {
        Seq::new(
            self.layouts@.len(),
            |k: int| Rectangle { top_left: self.layouts@[k].offset, size: self.layouts@[k].size },
        )
    }

    /// What fills the regions, in the order of `regions`.
    pub closed spec fn slots(&self) -> Seq<Slot<D>> {
        Seq::new(self.layouts@.len(), |k: int| self.layouts@[k].render)
    }

    /// The common layout that the manager was made from, if it was made from one.
    pub closed spec fn kind(&self) -> Option<LayoutType> {
        self.layout_type
    }

    /// Whether drawing region `k` may turn a surface that shows `before` into
    /// one that shows `after`, and end with `outcome`: seen through a viewport
    /// on the region, the render of the region drew, or, where the region has
    /// none, the region's own size was painted black; and what the viewport has
    /// no name for is as it was.
    pub open spec fn draws_region(
        &self,
        k: int,
        before: Image,
        after: Image,
        outcome: Result<(), RenderError>,
    ) -> bool {
        let region = self.regions()[k];
        &&& same_outside(before, after, region.top_left)
        &&& match self.slots()[k] {
            Some(render) => render.paints(
                window(before, region.top_left),
                region.size,
                window(after, region.top_left),
                outcome,
            ),
            None => outcome is Ok && window(after, region.top_left) == fill_area(
                window(before, region.top_left),
                Rectangle::at_origin(region.size),
                Rgb888::black(),
            ),
        }
    }

    /// Whether drawing region `k` may turn `frames[k]` into `frames[k + 1]` and
    /// end with `outcome`.
    pub open spec fn draws_step(
        &self,
        frames: Seq<Image>,
        k: int,
        outcome: Result<(), RenderError>,
    ) -> bool {
        self.draws_region(k, frames[k], frames[k + 1], outcome)
    }

    /// Whether `frames` are what the surface shows before the first region is
    /// drawn and after each region that is drawn, where the regions are drawn
    /// in order until one fails, and the failure, if any, is the `outcome`.
    pub open spec fn lays_out(
        &self,
        frames: Seq<Image>,
        outcome: Result<(), RenderError>,
    ) -> bool {
        let steps = frames.len() - 1;
        &&& 0 <= steps <= self.regions().len()
        &&& outcome is Ok ==> steps == self.regions().len()
        &&& outcome is Err ==> steps >= 1
        &&& forall|k: int| 0 <= k < steps - 1 ==> #[trigger] self.draws_step(frames, k, Ok(()))
        &&& steps >= 1 ==> self.draws_step(frames, steps - 1, outcome)
    }

    /// A manager without regions.
    pub fn new() -> (manager: LayoutManager<D>)
        ensures
            manager.regions() == Seq::<Rectangle>::empty(),
            manager.slots() == Seq::<Slot<D>>::empty(),
            manager.kind() is None,
    {
        let manager = LayoutManager { layouts: Vec::new(), layout_type: None };
        assert(manager.regions() =~= Seq::<Rectangle>::empty());
        assert(manager.slots() =~= Seq::<Slot<D>>::empty());
        manager
    }

    /// A manager for one of the common layouts on a surface of `canvas_size`.
    pub fn from_common_layout(common_layout: CommonLayout<D>, canvas_size: Size) -> (manager:
        LayoutManager<D>)
        ensures
            manager.kind() == Some(common_layout.kind()),
            manager.regions() == split_regions(common_layout.kind(), canvas_size),
            manager.slots() == common_layout.slots(),
    {
        let layout_type = common_layout.layout_type();
        let split_width: u32 = canvas_size.width / 2;
        let split_height: u32 = canvas_size.height / 2;
        let layouts = match common_layout {
            CommonLayout::Single(render) => {
                vec![Layout { size: canvas_size, offset: Point::zero(), render }]
            },
            CommonLayout::SplitWidth { left, right } => {
                let size = Size { width: split_width, height: canvas_size.height };
                vec![
                    Layout { size, offset: Point::zero(), render: left },
                    Layout { size, offset: Point { x: split_width as i32, y: 0 }, render: right },
                ]
            },
            CommonLayout::SplitHeight { top, bottom } => {
                let size = Size { width: canvas_size.width, height: split_height };
                vec![
                    Layout { size, offset: Point::zero(), render: top },
                    Layout { size, offset: Point { x: 0, y: split_height as i32 }, render: bottom },
                ]
            },
            CommonLayout::Split4 { top_left, top_right, bottom_left, bottom_right } => {
                let size = Size { width: split_width, height: split_height };
                vec![
                    Layout { size, offset: Point::zero(), render: top_left },
                    Layout { size, offset: Point { x: split_width as i32, y: 0 }, render: top_right },
                    Layout {
                        size,
                        offset: Point { x: 0, y: split_height as i32 },
                        render: bottom_left,
                    },
                    Layout {
                        size,
                        offset: Point { x: split_width as i32, y: split_height as i32 },
                        render: bottom_right,
                    },
                ]
            },
        };
        let manager = LayoutManager { layouts, layout_type: Some(layout_type) };
        assert(manager.regions() =~= split_regions(common_layout.kind(), canvas_size));
        assert(manager.slots() =~= common_layout.slots());
        manager
    }

    /// Adds a region of `canvas_size` at `canvas_offset`, filled by `render`
    /// and drawn after the regions that are there. The result is no common
    /// layout.
    pub fn add_render(&mut self, canvas_size: Size, canvas_offset: Point, render: Slot<D>)
        ensures
            final(self).regions() == old(self).regions().push(
                Rectangle { top_left: canvas_offset, size: canvas_size },
            ),
            final(self).slots() == old(self).slots().push(render),
            final(self).kind() is None,
    {
        let layout = Layout { size: canvas_size, offset: canvas_offset, render };
        self.layouts.push(layout);
        self.layout_type = None;
        proof {
            let region = Rectangle { top_left: canvas_offset, size: canvas_size };
            assert(self.layouts@ == old(self).layouts@.push(layout));
            assert forall|k: int| 0 <= k < self.regions().len() implies self.regions()[k] == old(
                self,
            ).regions().push(region)[k] by {
                if k < old(self).layouts@.len() {
                    assert(self.layouts@[k] == old(self).layouts@[k]);
                }
            }
            assert(self.regions() =~= old(self).regions().push(region));
            assert forall|k: int| 0 <= k < self.slots().len() implies self.slots()[k] == old(
                self,
            ).slots().push(render)[k] by {
                if k < old(self).layouts@.len() {
                    assert(self.layouts@[k] == old(self).layouts@[k]);
                }
            }
            assert(self.slots() =~= old(self).slots().push(render));
        }
    }

    /// The number of regions.
    pub fn len(&self) -> (len: usize)
        ensures
            len == self.regions().len(),
    {
        self.layouts.len()
    }

    pub fn is_empty(&self) -> (empty: bool)
        ensures
            empty <==> self.regions().len() == 0,
    {
        self.len() == 0
    }

    /// The common layout that the manager was made from, if it was made from one.
    pub fn layout(&self) -> (kind: Option<LayoutType>)
        ensures
            kind == self.kind(),
    {
        self.layout_type
    }
}

impl<D: Canvas> Render<D> for LayoutManager<D> {
    /// The regions are drawn in order, each on what the one before left, until
    /// all are drawn or one fails.
    open spec fn draws(
        &self,
        before: Image,
        extent: Size,
        after: Image,
        outcome: Result<(), RenderError>,
    ) -> bool {
        exists|frames: Seq<Image>|
            #![auto]
            self.lays_out(frames, outcome) && frames[0] == before && frames.last() == after
    }

    fn render(&self, canvas: &mut D) -> (outcome: Result<(), RenderError>) {
        let ghost mut frames: Seq<Image> = seq![canvas.image()];
        let mut i: usize = 0;
        while i < self.layouts.len()
            invariant
                0 <= i <= self.layouts@.len(),
                canvas.wf(),
                canvas.extent() == old(canvas).extent(),
                canvas.image().dom() == old(canvas).image().dom(),
                frames.len() == i + 1,
                frames[0] == old(canvas).image(),
                frames.last() == canvas.image(),
                forall|k: int| 0 <= k < i ==> #[trigger] self.draws_step(frames, k, Ok(())),
            decreases self.layouts@.len() - i,
        {
            let layout = &self.layouts[i];
            let ghost before = canvas.image();
            let mut sub_canvas = SubCanvas::new(layout.offset, layout.size, canvas);
            let outcome = match &layout.render {
                Some(render) => render.sub_render(&mut sub_canvas),
                None => {
                    sub_canvas.clear(Rgb888::black());
                    Ok(())
                },
            };
            proof {
                let ghost earlier = frames;
                frames = frames.push(canvas.image());
                assert(self.draws_region(i as int, before, canvas.image(), outcome));
                assert(self.draws_step(frames, i as int, outcome));
                assert forall|k: int| 0 <= k < i implies #[trigger] self.draws_step(
                    frames,
                    k,
                    Ok(()),
                ) by {
                    assert(self.draws_step(earlier, k, Ok(())));
                }
            }
            if let Err(error) = outcome {
                proof {
                    assert(outcome == Err::<(), RenderError>(error));
                    assert(self.lays_out(frames, outcome));
                    assert(frames[0] == old(canvas).image() && frames.last() == canvas.image());
                }
                return Err(error);
            }
            proof {
                assert(outcome matches Ok(unit) && unit == ());
            }
            i += 1;
        }
        proof {
            assert(self.lays_out(frames, Ok(())));
            assert(frames[0] == old(canvas).image() && frames.last() == canvas.image());
        }
        Ok(())
    }
}

} // verus!
