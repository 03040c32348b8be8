use zsh_infinite::zsh::seq::NamedColor;
use zsh_infinite::zsh::theme::color_scheme::AccentColor;
use zsh_infinite::zsh::theme::gradient::{
    gradient_at, lerp_rgb_color, rotate_hue, rgb_to_hue, sample_sorted, sorted_stops, GradientPart,
    Progress,
};

fn at(numerator: u64, denominator: u64) -> Progress {
    Progress::new(numerator, denominator).unwrap()
}

fn three_stops() -> GradientPart {
    vec![((10, 20, 30), 0), ((110, 120, 130), 500_000), ((250, 240, 230), 1_000_000)]
}

#[test]
fn progress_needs_a_denominator() {
    assert_eq!(Progress::new(1, 0), None);
    let half = at(1, 2);
    assert_eq!(half.numerator(), 1);
    assert_eq!(half.denominator(), 2);
    assert_eq!(Progress::ratio(3, 4), at(3, 4));
}

#[test]
fn gradient_hits_each_stop_exactly() {
    let stops = three_stops();
    assert_eq!(gradient_at(&stops, at(0, 1)), (10, 20, 30));
    assert_eq!(gradient_at(&stops, at(1, 2)), (110, 120, 130));
    assert_eq!(gradient_at(&stops, at(3, 6)), (110, 120, 130));
    assert_eq!(gradient_at(&stops, at(1, 1)), (250, 240, 230));
}

#[test]
fn gradient_clamps_outside_the_stops() {
    let stops: GradientPart = vec![((1, 2, 3), 250_000), ((200, 100, 50), 750_000)];
    assert_eq!(gradient_at(&stops, at(0, 1)), (1, 2, 3));
    assert_eq!(gradient_at(&stops, at(1, 5)), (1, 2, 3));
    assert_eq!(gradient_at(&stops, at(1, 4)), (1, 2, 3));
    assert_eq!(gradient_at(&stops, at(3, 4)), (200, 100, 50));
    assert_eq!(gradient_at(&stops, at(9, 10)), (200, 100, 50));
    assert_eq!(gradient_at(&stops, at(7, 2)), (200, 100, 50));
}

#[test]
fn gradient_interpolates_between_stops() {
    let stops: GradientPart = vec![((0, 0, 0), 0), ((255, 255, 255), 1_000_000)];
    assert_eq!(gradient_at(&stops, at(1, 2)), (128, 128, 128));
    assert_eq!(gradient_at(&stops, at(1, 4)), (64, 64, 64));
    assert_eq!(gradient_at(&stops, at(3, 4)), (191, 191, 191));
    let falling: GradientPart = vec![((200, 100, 0), 0), ((100, 200, 50), 1_000_000)];
    assert_eq!(gradient_at(&falling, at(1, 10)), (190, 110, 5));
    assert_eq!(gradient_at(&falling, at(1, 3)), (167, 133, 17));
}

#[test]
fn gradient_sorts_its_stops_first() {
    let shuffled: GradientPart =
        vec![((250, 240, 230), 1_000_000), ((10, 20, 30), 0), ((110, 120, 130), 500_000)];
    assert_eq!(sorted_stops(&shuffled), three_stops());
    assert_eq!(gradient_at(&shuffled, at(1, 4)), gradient_at(&three_stops(), at(1, 4)));
    assert_eq!(gradient_at(&shuffled, at(1, 4)), (60, 70, 80));
    assert_eq!(gradient_at(&shuffled, at(0, 1)), (10, 20, 30));
}

#[test]
fn sorting_keeps_the_order_of_equal_positions() {
    let stops: GradientPart =
        vec![((3, 3, 3), 500_000), ((1, 1, 1), 0), ((4, 4, 4), 500_000), ((2, 2, 2), 0)];
    let expected: GradientPart =
        vec![((1, 1, 1), 0), ((2, 2, 2), 0), ((3, 3, 3), 500_000), ((4, 4, 4), 500_000)];
    assert_eq!(sorted_stops(&stops), expected);
    assert_eq!(sorted_stops(&Vec::new()), Vec::new());
}

#[test]
fn stops_at_one_position_take_the_first_of_them() {
    let stops: GradientPart = vec![
        ((255, 0, 0), 0),
        ((0, 255, 0), 500_000),
        ((0, 0, 255), 500_000),
        ((255, 255, 255), 1_000_000),
    ];
    assert_eq!(gradient_at(&stops, at(1, 2)), (0, 255, 0));
    assert_eq!(gradient_at(&stops, at(3, 4)), (128, 128, 255));
}

#[test]
fn sample_of_two_stops() {
    let stops: GradientPart = vec![((0, 10, 20), 100_000), ((100, 110, 120), 300_000)];
    assert_eq!(sample_sorted(&stops, at(1, 5)), (50, 60, 70));
    assert_eq!(sample_sorted(&stops, at(1, 10)), (0, 10, 20));
    assert_eq!(sample_sorted(&stops, at(3, 10)), (100, 110, 120));
}

#[test]
fn single_stop_is_constant_and_no_stop_is_white() {
    let one = AccentColor::Gradient(vec![((9, 8, 7), 400_000)]);
    assert_eq!(one.get(at(0, 1)), NamedColor::FullColor((9, 8, 7)));
    assert_eq!(one.get(at(1, 1)), NamedColor::FullColor((9, 8, 7)));
    let none = AccentColor::Gradient(Vec::new());
    assert_eq!(none.get(at(1, 2)), NamedColor::White);
}

#[test]
fn lerp_rounds_to_the_nearest_value() {
    assert_eq!(lerp_rgb_color((0, 0, 0), (255, 255, 255), 0, 7), (0, 0, 0));
    assert_eq!(lerp_rgb_color((0, 0, 0), (255, 255, 255), 7, 7), (255, 255, 255));
    assert_eq!(lerp_rgb_color((0, 100, 255), (10, 0, 0), 1, 2), (5, 50, 128));
    assert_eq!(lerp_rgb_color((0, 0, 0), (1, 2, 3), 1, 4), (0, 1, 1));
}

#[test]
fn single_accent_is_the_same_everywhere() {
    let accent = AccentColor::Single(NamedColor::Code256(42));
    assert_eq!(accent.get(at(0, 1)), NamedColor::Code256(42));
    assert_eq!(accent.get(at(5, 7)), NamedColor::Code256(42));
}

#[test]
fn hue_of_the_primary_colours() {
    assert_eq!(rgb_to_hue((255, 0, 0)), 0);
    assert_eq!(rgb_to_hue((255, 255, 0)), 255);
    assert_eq!(rgb_to_hue((0, 255, 0)), 2 * 255);
    assert_eq!(rgb_to_hue((0, 255, 255)), 3 * 255);
    assert_eq!(rgb_to_hue((0, 0, 255)), 4 * 255);
    assert_eq!(rgb_to_hue((255, 0, 255)), 5 * 255);
    assert_eq!(rgb_to_hue((77, 77, 77)), 0);
    assert_eq!(rgb_to_hue((200, 100, 150)), 6 * 100 - 50);
}

#[test]
fn rainbow_turns_the_hue() {
    let red = (255, 0, 0);
    assert_eq!(rotate_hue(red, at(0, 1)), (255, 0, 0));
    assert_eq!(rotate_hue(red, at(1, 12)), (255, 128, 0));
    assert_eq!(rotate_hue(red, at(1, 6)), (255, 255, 0));
    assert_eq!(rotate_hue(red, at(1, 3)), (0, 255, 0));
    assert_eq!(rotate_hue(red, at(1, 2)), (0, 255, 255));
    assert_eq!(rotate_hue(red, at(2, 3)), (0, 0, 255));
    assert_eq!(rotate_hue(red, at(5, 6)), (255, 0, 255));
    assert_eq!(rotate_hue(red, at(1, 1)), (255, 0, 0));
    assert_eq!(rotate_hue(red, at(4, 3)), (0, 255, 0));
}

#[test]
fn rainbow_keeps_lightness_and_saturation() {
    let base = (200, 100, 150);
    assert_eq!(rotate_hue(base, at(0, 5)), base);
    let turned = rotate_hue(base, at(1, 3));
    assert_eq!(turned, (150, 200, 100));
    assert_eq!(rotate_hue(base, at(2, 3)), (100, 150, 200));
    assert_eq!(rotate_hue((77, 77, 77), at(1, 3)), (77, 77, 77));
}

#[test]
fn rainbow_accent_starts_from_red_without_a_full_colour() {
    let named = AccentColor::Rainbow(NamedColor::Blue);
    assert_eq!(named.get(at(0, 1)), NamedColor::FullColor((255, 0, 0)));
    assert_eq!(named.get(at(1, 3)), NamedColor::FullColor((0, 255, 0)));
    let cyan = AccentColor::Rainbow(NamedColor::FullColor((0, 255, 255)));
    assert_eq!(cyan.get(at(0, 5)), NamedColor::FullColor((0, 255, 255)));
    assert_eq!(cyan.get(at(1, 2)), NamedColor::FullColor((255, 0, 0)));
}
