use galar::color::Color;
use galar::engine::ConfigGalar;

const RED: u32 = 0xFFFF0000;

#[test]
fn new_canvas_is_zeroed() {
    let c = ConfigGalar::new(4, 3);
    assert_eq!(c.size(), (4, 3));
    assert_eq!(c.buffer().len(), 12);
    assert!(c.buffer().iter().all(|&p| p == 0));
    assert_eq!(c.get_clean_pixels(), true);
    assert_eq!(c.get_background(), 0);
}

#[test]
fn pixel_write_then_read_in_range() {
    let mut c = ConfigGalar::new(10, 10);
    c.draw_pixel(2, 3, RED);
    assert_eq!(c.get_pixel(2, 3), RED);
    // Every other pixel is untouched.
    for y in 0..10 {
        for x in 0..10 {
            if (x, y) != (2, 3) {
                assert_eq!(c.get_pixel(x, y), 0);
            }
        }
    }
}

#[test]
fn pixel_write_out_of_range_is_noop() {
    let mut c = ConfigGalar::new(10, 10);
    let before = c.buffer().clone();
    c.draw_pixel(10, 0, RED);
    c.draw_pixel(0, 10, RED);
    c.draw_pixel(10000, 10000, RED);
    assert_eq!(c.buffer(), &before);
}

#[test]
fn explicit_draw_writes_linear_index() {
    let mut c = ConfigGalar::new(5, 5);
    c.explicit_draw(7, RED);
    assert_eq!(c.get_pixel(2, 1), RED);
}

#[test]
fn iter_d1_covers_buffer() {
    let c = ConfigGalar::new(6, 4);
    let r = c.iter_d1();
    assert_eq!(r.start, 0);
    assert_eq!(r.end, 24);
}

#[test]
fn clear_buffer_fills_background_when_clean() {
    let mut c = ConfigGalar::new(3, 3);
    c.draw_pixel(1, 1, RED);
    c.set_background(0xFF00FF00);
    c.clear_buffer();
    assert!(c.buffer().iter().all(|&p| p == 0xFF00FF00));
}

#[test]
fn clear_buffer_keeps_trails_when_not_clean() {
    let mut c = ConfigGalar::new(3, 3);
    c.draw_pixel(1, 1, RED);
    c.set_clean_pixels(false);
    c.set_background(0xFF00FF00);
    c.clear_buffer();
    assert_eq!(c.get_pixel(1, 1), RED);
    assert_eq!(c.get_pixel(0, 0), 0);
}

#[test]
fn rect_fills_exactly_its_cells() {
    let mut c = ConfigGalar::new(10, 10);
    c.draw_rect(2, 2, 3, 3, RED);
    for y in 0..10 {
        for x in 0..10 {
            let expected = if (2..5).contains(&x) && (2..5).contains(&y) { RED } else { 0 };
            assert_eq!(c.get_pixel(x, y), expected, "pixel ({}, {})", x, y);
        }
    }
}

#[test]
fn rect_clamps_to_canvas() {
    let mut c = ConfigGalar::new(10, 10);
    c.draw_rect(8, 9, 50, 50, RED);
    for y in 0..10 {
        for x in 0..10 {
            let expected = if x >= 8 && y >= 9 { RED } else { 0 };
            assert_eq!(c.get_pixel(x, y), expected);
        }
    }
}

#[test]
fn circle_radius_zero_is_one_pixel() {
    let mut c = ConfigGalar::new(7, 7);
    c.draw_circle(3, 3, 0, RED);
    for y in 0..7 {
        for x in 0..7 {
            let expected = if (x, y) == (3, 3) { RED } else { 0 };
            assert_eq!(c.get_pixel(x, y), expected);
        }
    }
}

#[test]
fn circle_radius_one_is_a_cross() {
    let mut c = ConfigGalar::new(7, 7);
    c.draw_circle(3, 3, 1, RED);
    for y in 0i64..7 {
        for x in 0i64..7 {
            let d2 = (x - 3) * (x - 3) + (y - 3) * (y - 3);
            let expected = if d2 <= 1 { RED } else { 0 };
            assert_eq!(c.get_pixel(x as usize, y as usize), expected);
        }
    }
}

#[test]
fn circle_clips_at_edges() {
    let mut c = ConfigGalar::new(4, 4);
    c.draw_circle(0, 0, 2, RED);
    for y in 0i64..4 {
        for x in 0i64..4 {
            let expected = if x * x + y * y <= 4 { RED } else { 0 };
            assert_eq!(c.get_pixel(x as usize, y as usize), expected);
        }
    }
}

#[test]
fn circle_outline_is_an_annulus() {
    let mut c = ConfigGalar::new(9, 9);
    c.draw_circle_outline(4, 4, 2, Color::rgb(255, 0, 0));
    for y in 0i64..9 {
        for x in 0i64..9 {
            let d2 = (x - 4) * (x - 4) + (y - 4) * (y - 4);
            let expected = if d2 >= 1 && d2 <= 4 { RED } else { 0 };
            assert_eq!(c.get_pixel(x as usize, y as usize), expected, "pixel ({}, {})", x, y);
        }
    }
}

#[test]
fn circle_outline_negative_radius_draws_nothing() {
    let mut c = ConfigGalar::new(5, 5);
    c.draw_circle_outline(2, 2, -3, Color::rgb(255, 0, 0));
    assert!(c.buffer().iter().all(|&p| p == 0));
}

#[test]
fn line_horizontal() {
    let mut c = ConfigGalar::new(8, 8);
    c.draw_line(1, 2, 5, 2, RED);
    for x in 0..8 {
        let expected = if (1..=5).contains(&x) { RED } else { 0 };
        assert_eq!(c.get_pixel(x, 2), expected);
    }
    assert_eq!(c.get_pixel(3, 3), 0);
}

#[test]
fn line_vertical() {
    let mut c = ConfigGalar::new(8, 8);
    c.draw_line(4, 1, 4, 6, RED);
    for y in 0..8 {
        let expected = if (1..=6).contains(&y) { RED } else { 0 };
        assert_eq!(c.get_pixel(4, y), expected);
    }
}

#[test]
fn line_diagonal() {
    let mut c = ConfigGalar::new(8, 8);
    c.draw_line(0, 0, 3, 3, RED);
    for i in 0..4 {
        assert_eq!(c.get_pixel(i, i), RED);
    }
    assert_eq!(c.get_pixel(1, 0), 0);
    assert_eq!(c.get_pixel(0, 1), 0);
}

#[test]
fn line_clips_off_canvas_pixels() {
    let mut c = ConfigGalar::new(4, 4);
    c.draw_line(2, 2, 6, 2, RED);
    assert_eq!(c.get_pixel(2, 2), RED);
    assert_eq!(c.get_pixel(3, 2), RED);
    // Pixels beyond the canvas were silently clipped; nothing else painted.
    for y in 0..4 {
        for x in 0..4 {
            if y != 2 || x < 2 {
                assert_eq!(c.get_pixel(x, y), 0);
            }
        }
    }
}
