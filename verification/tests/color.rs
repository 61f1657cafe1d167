use rusty_tree::color::Color;

#[test]
fn named_colors() {
    assert_eq!(Color::from_str("black").to_slice(), [0, 0, 0, 255]);
    assert_eq!(Color::from_str("white").to_slice(), [255, 255, 255, 255]);
    assert_eq!(Color::from_str("red").to_slice(), [255, 0, 0, 255]);
    assert_eq!(Color::from_str("blue").to_slice(), [0, 0, 255, 255]);
    assert_eq!(Color::from_str("green").to_slice(), [0, 255, 0, 255]);
    assert_eq!(Color::from_str("purple").to_slice(), [170, 0, 140, 255]);
    assert_eq!(Color::from_str("whine_red").to_slice(), [88, 24, 31, 255]);
}

#[test]
fn unknown_color_name() {
    assert_eq!(Color::by_name("pink"), None);
    assert_eq!(Color::by_name(""), None);
    assert_eq!(Color::by_name("Black"), None);
    assert_eq!(Color::by_name("blac"), None);
    assert_eq!(Color::by_name("red"), Some(Color::RGBA(255, 0, 0, 255)));
}

#[test]
fn to_slice_keeps_the_order_of_the_fields() {
    assert_eq!(Color::new_rgba(1, 2, 3, 4).to_slice(), [1, 2, 3, 4]);
    assert_eq!(Color::new_hsva(5, 6, 7, 8).to_slice(), [5, 6, 7, 8]);
    assert_eq!(Color::rgba_from_slice(&[9, 8, 7, 6]), Color::RGBA(9, 8, 7, 6));
}

#[test]
fn blend_mixes_by_the_upper_opacity() {
    let under = Color::new_rgba(100, 100, 100, 100);
    // an opaque colour covers what is below
    assert_eq!(
        Color::new_rgba(10, 20, 30, 255).blend(&under),
        Color::RGBA(10, 20, 30, 255)
    );
    // a transparent colour leaves it
    assert_eq!(
        Color::new_rgba(10, 20, 30, 0).blend(&under),
        Color::RGBA(100, 100, 100, 100)
    );
    // (200 * 51 + 100 * 204) / 255 = 120, (255 * 51 + 100 * 204) / 255 = 131
    assert_eq!(
        Color::new_rgba(200, 0, 255, 51).blend(&under),
        Color::RGBA(120, 80, 131, 131)
    );
}
