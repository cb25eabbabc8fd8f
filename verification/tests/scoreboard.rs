use moon_sun::formatter::format_squares_numbers;
use moon_sun::game::Game;
use moon_sun::tint::{tint, Rgb};
use moon_sun::utils::score;

#[test]
fn score_line_pads_to_three_digits() {
    assert_eq!(format_squares_numbers(3, 45), "Moon 003 | Sun 045");
    assert_eq!(format_squares_numbers(0, 0), "Moon 000 | Sun 000");
    assert_eq!(format_squares_numbers(999, 100), "Moon 999 | Sun 100");
}

#[test]
fn score_line_grows_past_three_digits() {
    assert_eq!(format_squares_numbers(1234, 7), "Moon 1234 | Sun 007");
}

#[test]
fn fresh_grid_formats_evenly() {
    let g = Game::new_with_signs(1280, 1280, true, true, true, true);
    let (moon, sun) = score(&g.squares);
    assert_eq!(format_squares_numbers(moon, sun), "Moon 200 | Sun 200");
}

#[test]
fn tint_endpoints_are_the_two_colors() {
    assert_eq!(tint(0, 400), Rgb { r: 0xF7, g: 0xC5, b: 0x9F });
    assert_eq!(tint(400, 400), Rgb { r: 0x2A, g: 0x32, b: 0x4B });
}

#[test]
fn tint_midpoint_truncates() {
    // Halfway: each channel is the truncated average of its endpoints.
    assert_eq!(tint(200, 400), Rgb { r: 144, g: 123, b: 117 });
}
