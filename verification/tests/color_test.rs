//! Perceived-brightness classification.

use listenmoe::color::is_light_color;

#[test]
fn extremes() {
    assert!(is_light_color(255, 255, 255));
    assert!(!is_light_color(0, 0, 0));
}

#[test]
fn threshold_sits_just_above_130() {
    // Gray 130 has luma exactly 130: not light. Gray 131 is.
    assert!(!is_light_color(130, 130, 130));
    assert!(is_light_color(131, 131, 131));
}

#[test]
fn green_dominates_perceived_brightness() {
    assert!(is_light_color(0, 255, 0));
    assert!(!is_light_color(255, 0, 0));
    assert!(!is_light_color(0, 0, 255));
}
