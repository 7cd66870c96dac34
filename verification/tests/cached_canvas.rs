use rustic_pixel_display::canvas::Canvas;
use rustic_pixel_display::geometry::{Pixel, Point, Rectangle, Rgb888, Size};
use rustic_pixel_display::render::{CachedCanvas, Render};

const RED: Rgb888 = Rgb888 { r: 255, g: 0, b: 0 };
const GREEN: Rgb888 = Rgb888 { r: 0, g: 255, b: 0 };
const BLUE: Rgb888 = Rgb888 { r: 0, g: 0, b: 255 };
const BLACK: Rgb888 = Rgb888 { r: 0, g: 0, b: 0 };

fn colors(canvas: &CachedCanvas) -> Vec<Rgb888> {
    canvas.pixels().iter().map(|pixel| pixel.color).collect()
}

#[test]
fn a_new_canvas_is_black_and_reports_its_size() {
    let canvas = CachedCanvas::new(Size::new(3, 2));
    assert_eq!(canvas.size(), Size::new(3, 2));
    assert_eq!(colors(&canvas), vec![BLACK; 6]);
    assert_eq!(Rgb888::black(), BLACK);
}

#[test]
fn a_canvas_without_pixels_takes_every_call() {
    let mut canvas = CachedCanvas::new(Size::new(0, 5));
    canvas.draw_iter(&[Pixel::new(Point::new(0, 0), RED)]);
    canvas.fill_solid(&Rectangle::new(Point::new(-1, -1), Size::new(9, 9)), GREEN);
    canvas.clear(BLUE);
    assert_eq!(canvas.pixels().len(), 0);
    assert_eq!(canvas.pixel(Point::new(0, 0)), None);
}

#[test]
fn pixels_are_stored_row_after_row() {
    let mut canvas = CachedCanvas::new(Size::new(3, 2));
    canvas.draw_iter(&[Pixel::new(Point::new(2, 0), RED), Pixel::new(Point::new(0, 1), GREEN)]);
    let pixels = canvas.pixels();
    let points: Vec<Point> = pixels.iter().map(|pixel| pixel.point).collect();
    assert_eq!(
        points,
        vec![
            Point::new(0, 0),
            Point::new(1, 0),
            Point::new(2, 0),
            Point::new(0, 1),
            Point::new(1, 1),
            Point::new(2, 1),
        ]
    );
    assert_eq!(colors(&canvas), vec![BLACK, BLACK, RED, GREEN, BLACK, BLACK]);
}

#[test]
fn of_two_pixels_on_one_point_the_later_one_stays() {
    let mut canvas = CachedCanvas::new(Size::new(2, 2));
    canvas.draw_iter(&[
        Pixel::new(Point::new(1, 1), RED),
        Pixel::new(Point::new(1, 1), GREEN),
        Pixel::new(Point::new(0, 0), BLUE),
    ]);
    assert_eq!(canvas.pixel(Point::new(1, 1)), Some(GREEN));
    assert_eq!(canvas.pixel(Point::new(0, 0)), Some(BLUE));
}

#[test]
fn pixels_outside_the_canvas_are_dropped() {
    let mut canvas = CachedCanvas::new(Size::new(2, 2));
    canvas.draw_iter(&[
        Pixel::new(Point::new(-1, 0), RED),
        Pixel::new(Point::new(0, -1), RED),
        Pixel::new(Point::new(2, 0), RED),
        Pixel::new(Point::new(0, 2), RED),
        Pixel::new(Point::new(i32::MAX, i32::MAX), RED),
        Pixel::new(Point::new(i32::MIN, i32::MIN), RED),
    ]);
    assert_eq!(colors(&canvas), vec![BLACK; 4]);
    assert_eq!(canvas.pixel(Point::new(2, 0)), None);
    assert_eq!(canvas.pixel(Point::new(-1, 0)), None);
}

#[test]
fn fill_solid_colors_the_part_of_the_area_on_the_canvas() {
    let mut canvas = CachedCanvas::new(Size::new(4, 3));
    canvas.fill_solid(&Rectangle::new(Point::new(2, 1), Size::new(5, 5)), RED);
    assert_eq!(
        colors(&canvas),
        vec![
            BLACK, BLACK, BLACK, BLACK, //
            BLACK, BLACK, RED, RED, //
            BLACK, BLACK, RED, RED,
        ]
    );
    canvas.fill_solid(&Rectangle::new(Point::new(-3, -3), Size::new(4, 5)), GREEN);
    assert_eq!(
        colors(&canvas),
        vec![
            GREEN, BLACK, BLACK, BLACK, //
            GREEN, BLACK, RED, RED, //
            BLACK, BLACK, RED, RED,
        ]
    );
}

#[test]
fn fill_solid_with_an_empty_or_distant_area_changes_nothing() {
    let mut canvas = CachedCanvas::new(Size::new(2, 2));
    canvas.fill_solid(&Rectangle::new(Point::new(0, 0), Size::new(0, 2)), RED);
    canvas.fill_solid(&Rectangle::new(Point::new(0, 0), Size::new(2, 0)), RED);
    canvas.fill_solid(&Rectangle::new(Point::new(2, 0), Size::new(2, 2)), RED);
    canvas.fill_solid(&Rectangle::new(Point::new(i32::MAX, i32::MAX), Size::new(u32::MAX, u32::MAX)), RED);
    canvas.fill_solid(&Rectangle::new(Point::new(i32::MIN, i32::MIN), Size::new(7, 7)), RED);
    assert_eq!(colors(&canvas), vec![BLACK; 4]);
}

#[test]
fn fill_solid_with_the_largest_area_colors_everything() {
    let mut canvas = CachedCanvas::new(Size::new(2, 2));
    canvas.fill_solid(&Rectangle::new(Point::new(i32::MIN, i32::MIN), Size::new(u32::MAX, u32::MAX)), BLUE);
    assert_eq!(colors(&canvas), vec![BLUE; 4]);
}

#[test]
fn clear_colors_every_pixel() {
    let mut canvas = CachedCanvas::new(Size::new(3, 3));
    canvas.draw_iter(&[Pixel::new(Point::new(1, 1), RED)]);
    canvas.clear(GREEN);
    assert_eq!(colors(&canvas), vec![GREEN; 9]);
}

#[test]
fn a_cached_canvas_draws_its_pixels_over_another_one() {
    let mut stored = CachedCanvas::new(Size::new(2, 2));
    stored.draw_iter(&[Pixel::new(Point::new(0, 0), RED), Pixel::new(Point::new(1, 1), GREEN)]);
    let mut target = CachedCanvas::new(Size::new(3, 1));
    target.clear(BLUE);
    assert!(stored.render(&mut target).is_ok());
    assert_eq!(colors(&target), vec![RED, BLACK, BLUE]);

    let mut wide = CachedCanvas::new(Size::new(3, 3));
    wide.clear(BLUE);
    assert!(stored.render(&mut wide).is_ok());
    assert_eq!(
        colors(&wide),
        vec![
            RED, BLACK, BLUE, //
            BLACK, GREEN, BLUE, //
            BLUE, BLUE, BLUE,
        ]
    );
}
