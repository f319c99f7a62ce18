use atum::backend::canvas::{whole, Canvas};
use atum::backend::{Settings, SlintColor};
use atum::pose::Vec2;

const RED: [u8; 4] = [255, 0, 0, 255];
const BLUE: [u8; 4] = [0, 0, 255, 255];
const CLEAR: [u8; 4] = [0, 0, 0, 0];

fn pixel(canvas: &Canvas, x: u32, y: u32) -> [u8; 4] {
    let i = ((y * canvas.width + x) * 4) as usize;
    [canvas.buffer[i], canvas.buffer[i + 1], canvas.buffer[i + 2], canvas.buffer[i + 3]]
}

fn painted(canvas: &Canvas) -> Vec<(u32, u32)> {
    let mut out = Vec::new();
    for y in 0..canvas.height {
        for x in 0..canvas.width {
            if pixel(canvas, x, y) != CLEAR {
                out.push((x, y));
            }
        }
    }
    out
}

#[test]
fn new_canvas_is_clear() {
    let canvas = Canvas::new(144, 144, SlintColor::Red);
    assert_eq!(canvas.width, 144);
    assert_eq!(canvas.height, 144);
    assert_eq!(canvas.buffer.len(), 144 * 144 * 4);
    assert!(canvas.buffer.iter().all(|b| *b == 0));
    assert_eq!(canvas.color, RED);
    assert_eq!(Canvas::new(2, 3, SlintColor::Blue).color, BLUE);
    assert_eq!(canvas.bytes().len(), 144 * 144 * 4);
}

#[test]
fn canvas_without_pixels() {
    let mut canvas = Canvas::new(0, 5, SlintColor::Red);
    assert!(canvas.buffer.is_empty());
    canvas.set_pixel(0, 0);
    canvas.draw_line(0, 0, 3, 3);
    assert!(canvas.buffer.is_empty());
}

#[test]
fn set_pixel_paints_one_pixel() {
    let mut canvas = Canvas::new(4, 3, SlintColor::Blue);
    canvas.set_pixel(2, 1);
    assert_eq!(painted(&canvas), vec![(2, 1)]);
    assert_eq!(pixel(&canvas, 2, 1), BLUE);
    assert_eq!(&canvas.buffer[24..28], &BLUE);
}

#[test]
fn set_pixel_outside_the_canvas_does_nothing() {
    let mut canvas = Canvas::new(4, 3, SlintColor::Blue);
    canvas.set_pixel(4, 0);
    canvas.set_pixel(0, 3);
    canvas.set_pixel(u32::MAX, u32::MAX);
    assert!(painted(&canvas).is_empty());
}

#[test]
fn horizontal_line_stops_short_of_its_end() {
    let mut canvas = Canvas::new(8, 8, SlintColor::Red);
    canvas.draw_line(1, 2, 5, 2);
    assert_eq!(painted(&canvas), vec![(1, 2), (2, 2), (3, 2), (4, 2)]);
}

#[test]
fn vertical_line_upward() {
    let mut canvas = Canvas::new(8, 8, SlintColor::Red);
    canvas.draw_line(3, 6, 3, 3);
    assert_eq!(painted(&canvas), vec![(3, 4), (3, 5), (3, 6)]);
}

#[test]
fn diagonal_line() {
    let mut canvas = Canvas::new(8, 8, SlintColor::Red);
    canvas.draw_line(0, 0, 4, 4);
    assert_eq!(painted(&canvas), vec![(0, 0), (1, 1), (2, 2), (3, 3)]);
}

#[test]
fn shallow_line_steps_along_the_longer_side() {
    let mut canvas = Canvas::new(8, 8, SlintColor::Red);
    canvas.draw_line(0, 0, 6, 2);
    assert_eq!(painted(&canvas), vec![(0, 0), (1, 0), (2, 1), (3, 1), (4, 1), (5, 2)]);
}

#[test]
fn steep_line_backward() {
    let mut canvas = Canvas::new(8, 8, SlintColor::Red);
    canvas.draw_line(2, 6, 0, 0);
    assert_eq!(painted(&canvas), vec![(0, 1), (1, 2), (1, 3), (1, 4), (2, 5), (2, 6)]);
}

#[test]
fn line_from_a_point_to_itself_paints_nothing() {
    let mut canvas = Canvas::new(8, 8, SlintColor::Red);
    canvas.draw_line(3, 3, 3, 3);
    assert!(painted(&canvas).is_empty());
}

#[test]
fn line_is_cut_at_the_edge_of_the_canvas() {
    let mut canvas = Canvas::new(4, 4, SlintColor::Red);
    canvas.draw_line(-2, 1, 7, 1);
    assert_eq!(painted(&canvas), vec![(0, 1), (1, 1), (2, 1), (3, 1)]);
    let mut canvas = Canvas::new(4, 4, SlintColor::Red);
    canvas.draw_line(-3, -3, -1, -1);
    assert!(painted(&canvas).is_empty());
}

#[test]
fn line_stays_between_its_ends() {
    let mut canvas = Canvas::new(16, 16, SlintColor::Red);
    canvas.draw_line(12, 3, 4, 9);
    let pixels = painted(&canvas);
    assert_eq!(pixels.len(), 8);
    assert!(pixels.iter().all(|(x, y)| (4..=12).contains(x) && (3..=9).contains(y)));
    assert!(pixels.contains(&(12, 3)));
    assert!(!pixels.contains(&(4, 9)));
}

#[test]
fn line_keeps_nearest_to_the_straight_line() {
    let ends: [(i32, i32, i32, i32); 10] = [
        (0, 0, 15, 4),
        (15, 4, 0, 0),
        (3, 14, 9, 1),
        (9, 1, 3, 14),
        (0, 15, 15, 0),
        (2, 2, 13, 2),
        (7, 0, 7, 15),
        (1, 1, 14, 13),
        (12, 3, 2, 10),
        (5, 5, 6, 5),
    ];
    for (x0, y0, x1, y1) in ends {
        let mut canvas = Canvas::new(16, 16, SlintColor::Blue);
        canvas.draw_line(x0, y0, x1, y1);
        let (dx, dy) = ((x1 - x0).abs(), (y1 - y0).abs());
        let (sx, sy) = ((x1 - x0).signum(), (y1 - y0).signum());
        let mut expected = Vec::new();
        // one pixel per step along the longer side; along the shorter side the step count
        // is k * shorter / longer, rounded to the nearest whole number, a half upward
        for k in 0..dx.max(dy) {
            let point = if dx >= dy {
                (x0 + sx * k, y0 + sy * ((2 * k * dy + dx) / (2 * dx)))
            } else {
                (x0 + sx * ((2 * k * dx + dy) / (2 * dy)), y0 + sy * k)
            };
            expected.push((point.0 as u32, point.1 as u32));
        }
        expected.sort_by_key(|(x, y)| (*y, *x));
        assert_eq!(painted(&canvas), expected, "line from ({}, {}) to ({}, {})", x0, y0, x1, y1);
    }
}

#[test]
fn path_paints_each_stretch_without_its_end() {
    let mut canvas = Canvas::new(8, 8, SlintColor::Red);
    canvas.draw_coords(&vec![
        Vec2::new(1_000_000, 1_000_000),
        Vec2::new(4_000_000, 1_000_000),
        Vec2::new(4_000_000, 3_000_000),
    ]);
    // the corner belongs to the second stretch, the last point to none
    assert_eq!(painted(&canvas), vec![(1, 1), (2, 1), (3, 1), (4, 1), (4, 2)]);
}

#[test]
fn path_through_points() {
    let mut canvas = Canvas::new(144, 144, SlintColor::Red);
    canvas.draw_coords(&vec![
        Vec2::new(0, 0),
        Vec2::new(20_000_000, 20_000_000),
        Vec2::new(40_000_000, 15_000_000),
    ]);
    let pixels = painted(&canvas);
    // 20 steps along the diagonal, then 20 more to the right
    assert_eq!(pixels.len(), 40);
    assert!(pixels.contains(&(0, 0)));
    assert!(pixels.contains(&(19, 19)));
    assert!(pixels.contains(&(20, 20)));
    assert!(pixels.contains(&(39, 15)));
    assert!(!pixels.contains(&(40, 15)));
}

#[test]
fn path_of_fewer_than_two_points_paints_nothing() {
    let mut canvas = Canvas::new(8, 8, SlintColor::Red);
    canvas.draw_coords(&vec![]);
    canvas.draw_coords(&vec![Vec2::new(3_000_000, 3_000_000)]);
    assert!(painted(&canvas).is_empty());
}

#[test]
fn coordinates_round_toward_zero() {
    assert_eq!(whole(2_999_999), 2);
    assert_eq!(whole(-2_999_999), -2);
    assert_eq!(whole(0), 0);
    assert_eq!(whole(i64::MAX), i32::MAX);
    assert_eq!(whole(i64::MIN), i32::MIN);
}

#[test]
fn selector_settings_hold_what_was_chosen() {
    let settings = Settings { test_auton: true, side: SlintColor::Blue };
    assert!(settings.test_auton);
    assert_eq!(settings.side, SlintColor::Blue);
}
