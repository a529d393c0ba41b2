use cosmic_hue::color::{hsv_to_rgb, HsvColor, Rgb, HUE_FULL_TURN, LEVEL_FULL, RGB_UNIT};

fn rgb(red: i64, green: i64, blue: i64) -> Rgb {
    Rgb { red, green, blue }
}

#[test]
fn unit_is_the_product_of_the_ranges() {
    assert_eq!(RGB_UNIT, 254 * 254 * 65535);
    assert_eq!(HUE_FULL_TURN, 65535);
    assert_eq!(LEVEL_FULL, 254);
}

#[test]
fn red_at_hue_zero() {
    assert_eq!(hsv_to_rgb(Some(0), Some(254), Some(254)), rgb(RGB_UNIT, 0, 0));
}

#[test]
fn green_at_a_third_of_a_turn() {
    assert_eq!(hsv_to_rgb(Some(21845), Some(254), Some(254)), rgb(0, RGB_UNIT, 0));
}

#[test]
fn blue_at_two_thirds_of_a_turn() {
    assert_eq!(hsv_to_rgb(Some(43690), Some(254), Some(254)), rgb(0, 0, RGB_UNIT));
}

#[test]
fn full_turn_is_red_again() {
    assert_eq!(hsv_to_rgb(Some(65535), Some(254), Some(254)), rgb(RGB_UNIT, 0, 0));
}

#[test]
fn unknown_component_gives_black() {
    let black = rgb(0, 0, 0);
    assert_eq!(hsv_to_rgb(None, Some(254), Some(254)), black);
    assert_eq!(hsv_to_rgb(Some(100), None, Some(254)), black);
    assert_eq!(hsv_to_rgb(Some(100), Some(254), None), black);
    assert_eq!(hsv_to_rgb(None, None, None), black);
    assert_eq!(Rgb::black(), black);
}

#[test]
fn channels_inside_a_sector() {
    assert_eq!(
        hsv_to_rgb(Some(10000), Some(100), Some(200)),
        rgb(3329178000, 3218478000, 2018478000)
    );
    assert_eq!(
        hsv_to_rgb(Some(32768), Some(254), Some(127)),
        rgb(0, 2113931256, 2114028030)
    );
    assert_eq!(
        hsv_to_rgb(Some(54613), Some(200), Some(100)),
        rgb(1664589000, 353889000, 1664529000)
    );
}

#[test]
fn sector_changes_between_neighbouring_hues() {
    // 60 degrees lie between the hues 10922 and 10923.
    assert_eq!(
        hsv_to_rgb(Some(10922), Some(254), Some(254)),
        rgb(RGB_UNIT, 4227862512, 0)
    );
    assert_eq!(
        hsv_to_rgb(Some(10923), Some(254), Some(254)),
        rgb(4227862512, RGB_UNIT, 0)
    );
}

#[test]
fn no_saturation_gives_grey() {
    assert_eq!(
        hsv_to_rgb(Some(5000), Some(0), Some(254)),
        rgb(RGB_UNIT, RGB_UNIT, RGB_UNIT)
    );
}

#[test]
fn no_brightness_gives_black() {
    assert_eq!(hsv_to_rgb(Some(12345), Some(254), Some(0)), rgb(0, 0, 0));
}

#[test]
fn levels_beyond_the_range_are_computed_all_the_same() {
    assert_eq!(
        hsv_to_rgb(Some(30000), Some(255), Some(255)),
        rgb(-16711425, 4244701950, 3164961825)
    );
}

#[test]
fn colours_compare_by_their_fields() {
    let a = HsvColor { hue: 1, saturation: 2, value: 3 };
    let b = HsvColor { hue: 1, saturation: 2, value: 3 };
    assert_eq!(a, b);
    assert_ne!(a, HsvColor { hue: 1, saturation: 2, value: 4 });
}
