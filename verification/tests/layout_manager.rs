use rustic_pixel_display::canvas::{Canvas, Image};
use rustic_pixel_display::geometry::{Pixel, Point, Rgb888, Size};
use rustic_pixel_display::layout_manager::{CommonLayout, LayoutManager, LayoutType, Slot};
use rustic_pixel_display::render::{CachedCanvas, Render, RenderError, SubCanvas, SubRender};

const BLACK: Rgb888 = Rgb888 { r: 0, g: 0, b: 0 };
const WHITE: Rgb888 = Rgb888 { r: 255, g: 255, b: 255 };

/// Paints its own origin in its colour and the far corner of the size it is
/// given in white.
struct Corner {
    color: Rgb888,
}

impl SubRender<CachedCanvas> for Corner {
    fn paints(&self, _: Image, _: Size, _: Image, _: Result<(), RenderError>) -> bool {
        unreachable!()
    }

    fn sub_render<'a>(&self, canvas: &mut SubCanvas<'a, CachedCanvas>) -> Result<(), RenderError> {
        let size = canvas.size();
        canvas.draw_iter(&[
            Pixel::new(Point::new(size.width as i32 - 1, size.height as i32 - 1), WHITE),
            Pixel::new(Point::new(0, 0), self.color),
        ]);
        Ok(())
    }
}

struct Broken;

impl SubRender<CachedCanvas> for Broken {
    fn paints(&self, _: Image, _: Size, _: Image, _: Result<(), RenderError>) -> bool {
        unreachable!()
    }

    fn sub_render<'a>(&self, _: &mut SubCanvas<'a, CachedCanvas>) -> Result<(), RenderError> {
        Err(RenderError { message: "broken".to_string() })
    }
}

fn corner(level: u8) -> Slot<CachedCanvas> {
    Some(Box::new(Corner { color: Rgb888::new(level, 0, 0) }))
}

fn reds(canvas: &CachedCanvas) -> Vec<u8> {
    canvas.pixels().iter().map(|pixel| pixel.color.r).collect()
}

fn draw(manager: &LayoutManager<CachedCanvas>, size: Size) -> CachedCanvas {
    let mut canvas = CachedCanvas::new(size);
    assert!(manager.render(&mut canvas).is_ok());
    canvas
}

#[test]
fn a_single_layout_covers_the_canvas() {
    let manager = LayoutManager::from_common_layout(CommonLayout::Single(corner(1)), Size::new(3, 2));
    assert_eq!(manager.len(), 1);
    assert!(!manager.is_empty());
    assert_eq!(manager.layout(), Some(LayoutType::Single));
    assert_eq!(reds(&draw(&manager, Size::new(3, 2))), vec![1, 0, 0, 0, 0, 255]);
}

#[test]
fn a_width_split_puts_two_halves_side_by_side() {
    let layout = CommonLayout::SplitWidth { left: corner(1), right: corner(2) };
    assert_eq!(layout.layout_type(), LayoutType::SplitWidth);
    let manager = LayoutManager::from_common_layout(layout, Size::new(4, 2));
    assert_eq!(manager.len(), 2);
    assert_eq!(manager.layout(), Some(LayoutType::SplitWidth));
    assert_eq!(
        reds(&draw(&manager, Size::new(4, 2))),
        vec![
            1, 0, 2, 0, //
            0, 255, 0, 255,
        ]
    );
}

#[test]
fn a_width_split_of_an_odd_width_leaves_the_last_column() {
    let layout = CommonLayout::SplitWidth { left: corner(1), right: corner(2) };
    let manager = LayoutManager::from_common_layout(layout, Size::new(5, 1));
    assert_eq!(reds(&draw(&manager, Size::new(5, 1))), vec![1, 255, 2, 255, 0]);
}

#[test]
fn a_height_split_puts_two_halves_on_top_of_each_other() {
    let layout = CommonLayout::SplitHeight { top: corner(1), bottom: corner(2) };
    let manager = LayoutManager::from_common_layout(layout, Size::new(2, 4));
    assert_eq!(manager.layout(), Some(LayoutType::SplitHeight));
    assert_eq!(
        reds(&draw(&manager, Size::new(2, 4))),
        vec![
            1, 0, //
            0, 255, //
            2, 0, //
            0, 255,
        ]
    );
}

#[test]
fn a_split_in_four_on_a_square_puts_one_quarter_in_each_corner() {
    let layout = CommonLayout::Split4 {
        top_left: corner(1),
        top_right: corner(2),
        bottom_left: corner(3),
        bottom_right: corner(4),
    };
    let manager = LayoutManager::from_common_layout(layout, Size::new(4, 4));
    assert_eq!(manager.len(), 4);
    assert_eq!(manager.layout(), Some(LayoutType::Split4));
    assert_eq!(
        reds(&draw(&manager, Size::new(4, 4))),
        vec![
            1, 0, 2, 0, //
            0, 255, 0, 255, //
            3, 0, 4, 0, //
            0, 255, 0, 255,
        ]
    );
}

#[test]
fn a_split_in_four_on_a_wide_canvas_stays_on_the_canvas() {
    let layout = CommonLayout::Split4 {
        top_left: corner(1),
        top_right: corner(2),
        bottom_left: corner(3),
        bottom_right: corner(4),
    };
    // Quarters of 3 by 1 on a canvas of 6 by 2: the offsets are (0, 0),
    // (3, 0), (0, 1) and (3, 1).
    let manager = LayoutManager::from_common_layout(layout, Size::new(6, 2));
    assert_eq!(
        reds(&draw(&manager, Size::new(6, 2))),
        vec![
            1, 0, 255, 2, 0, 255, //
            3, 0, 255, 4, 0, 255,
        ]
    );
}

#[test]
fn an_empty_slot_is_painted_black() {
    let layout = CommonLayout::SplitWidth { left: None, right: corner(2) };
    let manager = LayoutManager::from_common_layout(layout, Size::new(4, 1));
    let mut canvas = CachedCanvas::new(Size::new(4, 1));
    canvas.clear(WHITE);
    assert!(manager.render(&mut canvas).is_ok());
    assert_eq!(
        canvas.pixels().iter().map(|pixel| pixel.color).collect::<Vec<_>>(),
        vec![BLACK, BLACK, Rgb888::new(2, 0, 0), WHITE]
    );
}

#[test]
fn a_manager_without_regions_draws_nothing() {
    let manager: LayoutManager<CachedCanvas> = LayoutManager::new();
    assert_eq!(manager.len(), 0);
    assert!(manager.is_empty());
    assert_eq!(manager.layout(), None);
    let mut canvas = CachedCanvas::new(Size::new(2, 1));
    canvas.clear(WHITE);
    assert!(manager.render(&mut canvas).is_ok());
    assert_eq!(canvas.pixel(Point::new(0, 0)), Some(WHITE));
    assert_eq!(canvas.pixel(Point::new(1, 0)), Some(WHITE));
}

#[test]
fn added_regions_are_drawn_in_the_order_they_were_added() {
    let mut manager: LayoutManager<CachedCanvas> = LayoutManager::new();
    manager.add_render(Size::new(2, 1), Point::new(0, 0), corner(1));
    manager.add_render(Size::new(2, 1), Point::new(1, 0), corner(2));
    assert_eq!(manager.len(), 2);
    assert_eq!(manager.layout(), None);
    assert_eq!(reds(&draw(&manager, Size::new(4, 1))), vec![1, 2, 255, 0]);
}

#[test]
fn adding_a_region_to_a_common_layout_makes_it_no_common_layout() {
    let mut manager = LayoutManager::from_common_layout(CommonLayout::Single(corner(1)), Size::new(2, 1));
    manager.add_render(Size::new(1, 1), Point::new(1, 0), corner(2));
    assert_eq!(manager.layout(), None);
    assert_eq!(reds(&draw(&manager, Size::new(2, 1))), vec![1, 2]);
}

#[test]
fn the_first_failure_ends_the_drawing() {
    let mut manager: LayoutManager<CachedCanvas> = LayoutManager::new();
    manager.add_render(Size::new(1, 1), Point::new(0, 0), corner(1));
    manager.add_render(Size::new(1, 1), Point::new(1, 0), Some(Box::new(Broken)));
    manager.add_render(Size::new(1, 1), Point::new(2, 0), corner(3));
    let mut canvas = CachedCanvas::new(Size::new(3, 1));
    let outcome = manager.render(&mut canvas);
    assert_eq!(outcome.unwrap_err().message, "broken");
    assert_eq!(reds(&canvas), vec![1, 0, 0]);
}
