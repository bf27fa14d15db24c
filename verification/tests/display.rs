use chip8::display::{Display, DISPLAY_HEIGHT, DISPLAY_WIDTH, PIXEL_COUNT};

fn lit_count(d: &Display) -> usize {
    d.snapshot().iter().filter(|p| **p).count()
}

#[test]
fn display_dimensions() {
    assert_eq!(DISPLAY_WIDTH, 64);
    assert_eq!(DISPLAY_HEIGHT, 32);
    assert_eq!(PIXEL_COUNT, 2048);
}

#[test]
fn new_display_is_blank() {
    let d = Display::new();
    assert_eq!(d.snapshot().len(), PIXEL_COUNT);
    assert_eq!(lit_count(&d), 0);
    assert!(d.lit_cells().is_empty());
}

#[test]
fn set_and_get_one_pixel() {
    let mut d = Display::new();
    d.set(3, 2, true);
    assert!(d.get(3, 2));
    assert!(!d.get(2, 3));
    assert_eq!(lit_count(&d), 1);
    assert!(d.snapshot()[2 * 64 + 3]);
    d.set(3, 2, false);
    assert!(!d.get(3, 2));
    assert_eq!(lit_count(&d), 0);
}

#[test]
fn set_and_get_wrap_at_the_edges() {
    let mut d = Display::new();
    d.set(64, 32, true);
    assert!(d.get(0, 0));
    d.set(65, 33, true);
    assert!(d.get(1, 1));
    assert!(d.get(129, 65));
    d.set(63, 31, true);
    assert!(d.snapshot()[PIXEL_COUNT - 1]);
    assert_eq!(lit_count(&d), 3);
}

#[test]
fn clear_turns_every_pixel_off() {
    let mut d = Display::new();
    for x in 0..DISPLAY_WIDTH {
        d.set(x, x % DISPLAY_HEIGHT, true);
    }
    assert_eq!(lit_count(&d), 64);
    d.clear();
    assert_eq!(lit_count(&d), 0);
}

#[test]
fn draw_full_row_on_blank_screen() {
    let mut d = Display::new();
    assert!(!d.draw(&[0xFF], 10, 5));
    for x in 0..DISPLAY_WIDTH {
        assert_eq!(d.get(x, 5), (10..18).contains(&x));
    }
    assert_eq!(lit_count(&d), 8);
}

#[test]
fn draw_full_row_twice_erases_it() {
    let mut d = Display::new();
    assert!(!d.draw(&[0xFF], 10, 5));
    assert!(d.draw(&[0xFF], 10, 5));
    assert_eq!(lit_count(&d), 0);
}

#[test]
fn draw_full_row_over_one_lit_pixel() {
    let mut d = Display::new();
    d.set(12, 5, true);
    assert!(d.draw(&[0xFF], 10, 5));
    for x in 0..DISPLAY_WIDTH {
        assert_eq!(d.get(x, 5), (10..18).contains(&x) && x != 12);
    }
    assert_eq!(lit_count(&d), 7);
}

#[test]
fn draw_beside_lit_pixels_does_not_collide() {
    let mut d = Display::new();
    d.set(9, 5, true);
    d.set(18, 5, true);
    d.set(12, 4, true);
    d.set(12, 6, true);
    assert!(!d.draw(&[0xFF], 10, 5));
    assert_eq!(lit_count(&d), 12);
}

#[test]
fn draw_clear_bits_touch_nothing() {
    let mut d = Display::new();
    d.set(11, 5, true);
    assert!(!d.draw(&[0b1010_0000], 10, 5));
    assert!(d.get(10, 5));
    assert!(d.get(11, 5));
    assert!(d.get(12, 5));
    assert!(!d.get(13, 5));
    assert_eq!(lit_count(&d), 3);
}

#[test]
fn draw_most_significant_bit_is_leftmost() {
    let mut d = Display::new();
    d.draw(&[0b1000_0000, 0b0000_0001], 0, 0);
    assert!(d.get(0, 0));
    assert!(d.get(7, 1));
    assert_eq!(lit_count(&d), 2);
}

#[test]
fn draw_glyph_rows_go_downwards() {
    let zero = [0xF0, 0x90, 0x90, 0x90, 0xF0];
    let mut d = Display::new();
    assert!(!d.draw(&zero, 2, 3));
    let expect = ["####", "#..#", "#..#", "#..#", "####"];
    for (row, line) in expect.iter().enumerate() {
        for (col, ch) in line.chars().enumerate() {
            assert_eq!(d.get(2 + col, 3 + row), ch == '#');
        }
    }
    assert_eq!(lit_count(&d), 14);
}

#[test]
fn draw_wraps_at_the_right_edge() {
    let mut d = Display::new();
    assert!(!d.draw(&[0xFF], 60, 0));
    for x in 0..DISPLAY_WIDTH {
        assert_eq!(d.get(x, 0), x >= 60 || x < 4);
    }
    assert_eq!(lit_count(&d), 8);
}

#[test]
fn draw_wraps_at_the_bottom_edge() {
    let mut d = Display::new();
    assert!(!d.draw(&[0x80, 0x80, 0x80], 0, 30));
    assert!(d.get(0, 30));
    assert!(d.get(0, 31));
    assert!(d.get(0, 0));
    assert_eq!(lit_count(&d), 3);
}

#[test]
fn draw_start_coordinates_wrap() {
    let mut a = Display::new();
    let mut b = Display::new();
    a.draw(&[0xC3, 0x3C], 200, 100);
    b.draw(&[0xC3, 0x3C], 200 % 64, 100 % 32);
    assert_eq!(a.snapshot(), b.snapshot());
    assert!(a.get(8, 4));
    assert_eq!(lit_count(&a), 8);
}

#[test]
fn draw_empty_sprite_changes_nothing() {
    let mut d = Display::new();
    d.set(1, 1, true);
    assert!(!d.draw(&[], 1, 1));
    assert_eq!(lit_count(&d), 1);
}

#[test]
fn draw_tallest_sprite() {
    let mut d = Display::new();
    assert!(!d.draw(&[0x01; 32], 0, 16));
    for y in 0..DISPLAY_HEIGHT {
        assert!(d.get(7, y));
    }
    assert_eq!(lit_count(&d), 32);
    assert!(d.draw(&[0x01; 32], 0, 0));
    assert_eq!(lit_count(&d), 0);
}

#[test]
fn lit_cells_come_row_by_row() {
    let mut d = Display::new();
    d.set(5, 1, true);
    d.set(63, 0, true);
    d.set(0, 0, true);
    d.set(2, 31, true);
    d.set(4, 1, true);
    assert_eq!(d.lit_cells(), vec![(0, 0), (63, 0), (4, 1), (5, 1), (2, 31)]);
}

#[test]
fn lit_cells_of_a_full_screen() {
    let mut d = Display::new();
    for y in 0..DISPLAY_HEIGHT {
        for x in 0..DISPLAY_WIDTH {
            d.set(x, y, true);
        }
    }
    let cells = d.lit_cells();
    assert_eq!(cells.len(), PIXEL_COUNT);
    for (k, cell) in cells.iter().enumerate() {
        assert_eq!(*cell, ((k % 64) as u8, (k / 64) as u8));
    }
}
