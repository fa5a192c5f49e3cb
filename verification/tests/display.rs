use chip8::display::Display;

fn lit_pixels(display: &Display) -> Vec<(usize, usize)> {
    let mut lit = Vec::new();
    for y in 0..32 {
        for x in 0..64 {
            if display.get_pixel(x, y) {
                lit.push((x, y));
            }
        }
    }
    lit
}

#[test]
fn the_frame_is_64_by_32() {
    assert_eq!(Display::WIDTH, 64);
    assert_eq!(Display::HEIGHT, 32);
}

#[test]
fn a_new_display_is_blank() {
    let display = Display::new();
    assert_eq!(lit_pixels(&display), vec![]);
}

#[test]
fn set_pixel_changes_one_pixel() {
    let mut display = Display::new();
    display.set_pixel(63, 31, true);
    assert!(display.get_pixel(63, 31));
    assert_eq!(lit_pixels(&display), vec![(63, 31)]);
    display.set_pixel(63, 31, false);
    assert_eq!(lit_pixels(&display), vec![]);
}

#[test]
fn clear_screen_turns_every_pixel_off() {
    let mut display = Display::new();
    display.set_pixel(0, 0, true);
    display.set_pixel(10, 20, true);
    display.clear_screen();
    assert_eq!(lit_pixels(&display), vec![]);
}

#[test]
fn draw_puts_the_leftmost_bit_first() {
    let mut display = Display::new();
    let collision = display.draw(3, 5, &[0b1010_0001]);
    assert!(!collision);
    assert_eq!(lit_pixels(&display), vec![(3, 5), (5, 5), (10, 5)]);
}

#[test]
fn draw_puts_one_byte_per_row() {
    let mut display = Display::new();
    let collision = display.draw(0, 0, &[0x80, 0x40, 0x20]);
    assert!(!collision);
    assert_eq!(lit_pixels(&display), vec![(0, 0), (1, 1), (2, 2)]);
}

#[test]
fn draw_wraps_each_column_around_the_right_edge() {
    let mut display = Display::new();
    display.draw(62, 0, &[0b1111_0000]);
    assert_eq!(lit_pixels(&display), vec![(0, 0), (1, 0), (62, 0), (63, 0)]);
}

#[test]
fn draw_wraps_each_row_around_the_bottom_edge() {
    let mut display = Display::new();
    display.draw(0, 31, &[0x80, 0x80]);
    assert_eq!(lit_pixels(&display), vec![(0, 0), (0, 31)]);
}

#[test]
fn draw_takes_start_coordinates_modulo_the_frame() {
    let mut display = Display::new();
    display.draw(64 + 3, 32 + 4, &[0x80]);
    assert_eq!(lit_pixels(&display), vec![(3, 4)]);
    let mut far = Display::new();
    far.draw(255, 255, &[0b1100_0000, 0b1000_0000]);
    assert_eq!(lit_pixels(&far), vec![(63, 0), (0, 31), (63, 31)]);
}

#[test]
fn draw_reports_a_pixel_turned_off_anywhere_in_the_sprite() {
    let mut display = Display::new();
    display.set_pixel(0, 0, true);
    // Only the first bit of the first row hits a lit pixel.
    let collision = display.draw(0, 0, &[0b1000_0001, 0b0000_0001]);
    assert!(collision);
    assert_eq!(lit_pixels(&display), vec![(7, 0), (7, 1)]);
}

#[test]
fn draw_reports_no_collision_for_a_pixel_turned_on() {
    let mut display = Display::new();
    display.set_pixel(1, 0, true);
    let collision = display.draw(0, 0, &[0b1000_0000]);
    assert!(!collision);
    assert_eq!(lit_pixels(&display), vec![(0, 0), (1, 0)]);
}

#[test]
fn drawing_a_sprite_twice_restores_the_blank_frame() {
    let sprite = [0xF0, 0x90, 0x90, 0x90, 0xF0];
    let mut display = Display::new();
    let first = display.draw(10, 7, &sprite);
    assert!(!first);
    assert_eq!(lit_pixels(&display).len(), 14);
    assert!(display.get_pixel(10, 7) && display.get_pixel(13, 11));
    let second = display.draw(10, 7, &sprite);
    assert!(second);
    assert_eq!(lit_pixels(&display), vec![]);
}

#[test]
fn drawing_a_sprite_twice_restores_any_frame() {
    let sprite = [0xFF, 0x81, 0xFF];
    let mut display = Display::new();
    display.set_pixel(61, 30, true);
    display.set_pixel(2, 1, true);
    let before = lit_pixels(&display);
    display.draw(60, 30, &sprite);
    display.draw(60, 30, &sprite);
    assert_eq!(lit_pixels(&display), before);
}

#[test]
fn a_sprite_without_a_set_bit_never_collides() {
    let mut display = Display::new();
    assert!(!display.draw(0, 0, &[0x00, 0x00]));
    assert!(!display.draw(0, 0, &[0x00, 0x00]));
    assert_eq!(lit_pixels(&display), vec![]);
}

#[test]
fn an_empty_sprite_changes_nothing() {
    let mut display = Display::new();
    display.set_pixel(5, 5, true);
    assert!(!display.draw(5, 5, &[]));
    assert_eq!(lit_pixels(&display), vec![(5, 5)]);
}

#[test]
fn a_sprite_taller_than_the_frame_draws_over_itself() {
    let mut display = Display::new();
    let sprite = [0x80; 33];
    // Row 32 of the sprite lands on row 0 again and turns its pixel off.
    let collision = display.draw(0, 0, &sprite);
    assert!(collision);
    assert!(!display.get_pixel(0, 0));
    assert_eq!(lit_pixels(&display).len(), 31);
}
