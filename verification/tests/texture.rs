use graphics::texture::{texel_from_escape_count, texels_from_escape_counts};

#[test]
fn texel_at_zero_steps_is_white() {
    assert_eq!(texel_from_escape_count(0), [255, 255, 255, 1]);
}

#[test]
fn texel_after_one_step() {
    assert_eq!(texel_from_escape_count(1), [250, 240, 205, 1]);
}

#[test]
fn texel_channels_wrap_modulo_256() {
    assert_eq!(texel_from_escape_count(6), [225, 165, 211, 1]);
    assert_eq!(texel_from_escape_count(255), [4, 14, 49, 1]);
}

#[test]
fn texels_follow_the_counts() {
    assert_eq!(
        texels_from_escape_counts(&vec![0, 1, 255]),
        vec![255, 255, 255, 1, 250, 240, 205, 1, 4, 14, 49, 1]
    );
    assert!(texels_from_escape_counts(&vec![]).is_empty());
}
