use rich_rs::color::{ansi_color_number, eight_bit_palette, standard_palette, windows_palette, Color, ColorSystem, ColorTriplet, ColorType, Palette, SimpleColor};

#[test]
fn test_color_triplet_new() {
    let t = ColorTriplet::new(255, 128, 64);
    assert_eq!(t.red, 255);
    assert_eq!(t.green, 128);
    assert_eq!(t.blue, 64);
}

#[test]
fn test_color_triplet_hex() {
    assert_eq!(ColorTriplet::new(255, 0, 0).hex(), "#ff0000");
    assert_eq!(ColorTriplet::new(0, 255, 0).hex(), "#00ff00");
    assert_eq!(ColorTriplet::new(0, 0, 255).hex(), "#0000ff");
    assert_eq!(ColorTriplet::new(18, 52, 86).hex(), "#123456");
}

#[test]
fn test_color_triplet_rgb() {
    assert_eq!(ColorTriplet::new(255, 0, 0).rgb(), "rgb(255,0,0)");
    assert_eq!(ColorTriplet::new(128, 64, 32).rgb(), "rgb(128,64,32)");
}

#[test]
fn test_palette_match() {
    let palette = Palette::new(&[(0, 0, 0), (255, 255, 255), (255, 0, 0)]);

    // Exact match
    assert_eq!(palette.match_color(ColorTriplet::new(0, 0, 0)), 0);
    assert_eq!(palette.match_color(ColorTriplet::new(255, 255, 255)), 1);
    assert_eq!(palette.match_color(ColorTriplet::new(255, 0, 0)), 2);

    // Close match - dark gray should match black
    assert_eq!(palette.match_color(ColorTriplet::new(10, 10, 10)), 0);

    // Light gray should match white
    assert_eq!(palette.match_color(ColorTriplet::new(240, 240, 240)), 1);
}

#[test]
fn test_parse_named() {
    let red = Color::parse("red").unwrap();
    assert_eq!(red.color_type, ColorType::Standard);
    assert_eq!(red.number, Some(1));

    let bright_blue = Color::parse("bright_blue").unwrap();
    assert_eq!(bright_blue.color_type, ColorType::Standard);
    assert_eq!(bright_blue.number, Some(12));

    // Case insensitive
    let blue = Color::parse("BLUE").unwrap();
    assert_eq!(blue.number, Some(4));

    // Extended color
    let orchid = Color::parse("orchid").unwrap();
    assert_eq!(orchid.color_type, ColorType::EightBit);
    assert_eq!(orchid.number, Some(170));
}

#[test]
fn test_parse_hex() {
    let red = Color::parse("#ff0000").unwrap();
    assert_eq!(red.color_type, ColorType::TrueColor);
    assert_eq!(red.triplet, Some(ColorTriplet::new(255, 0, 0)));

    // Short form
    let white = Color::parse("#fff").unwrap();
    assert_eq!(white.triplet, Some(ColorTriplet::new(255, 255, 255)));

    // Mixed case
    let color = Color::parse("#AbCdEf").unwrap();
    assert_eq!(color.triplet, Some(ColorTriplet::new(171, 205, 239)));
}

#[test]
fn test_parse_rgb() {
    let red = Color::parse("rgb(255,0,0)").unwrap();
    assert_eq!(red.color_type, ColorType::TrueColor);
    assert_eq!(red.triplet, Some(ColorTriplet::new(255, 0, 0)));

    // With spaces
    let green = Color::parse("rgb(0, 255, 0)").unwrap();
    assert_eq!(green.triplet, Some(ColorTriplet::new(0, 255, 0)));
}

#[test]
fn test_parse_color_number() {
    let standard = Color::parse("color(1)").unwrap();
    assert_eq!(standard.color_type, ColorType::Standard);
    assert_eq!(standard.number, Some(1));

    let extended = Color::parse("color(196)").unwrap();
    assert_eq!(extended.color_type, ColorType::EightBit);
    assert_eq!(extended.number, Some(196));
}

#[test]
fn test_parse_default() {
    let default = Color::parse("default").unwrap();
    assert_eq!(default.color_type, ColorType::Default);
}

#[test]
fn test_parse_invalid() {
    assert!(Color::parse("not_a_color").is_err());
    assert!(Color::parse("#gggggg").is_err());
    assert!(Color::parse("rgb(256,0,0)").is_err());
    assert!(Color::parse("color(256)").is_err());
}

#[test]
fn test_ansi_codes_standard() {
    let black = Color::parse("black").unwrap();
    assert_eq!(black.get_ansi_codes(true), vec!["30"]);
    assert_eq!(black.get_ansi_codes(false), vec!["40"]);

    let red = Color::parse("red").unwrap();
    assert_eq!(red.get_ansi_codes(true), vec!["31"]);
    assert_eq!(red.get_ansi_codes(false), vec!["41"]);

    let bright_red = Color::parse("bright_red").unwrap();
    assert_eq!(bright_red.get_ansi_codes(true), vec!["91"]);
    assert_eq!(bright_red.get_ansi_codes(false), vec!["101"]);
}

#[test]
fn test_ansi_codes_eight_bit() {
    let color = Color::parse("color(196)").unwrap();
    assert_eq!(color.get_ansi_codes(true), vec!["38", "5", "196"]);
    assert_eq!(color.get_ansi_codes(false), vec!["48", "5", "196"]);
}

#[test]
fn test_ansi_codes_truecolor() {
    let color = Color::parse("#ff8000").unwrap();
    assert_eq!(
        color.get_ansi_codes(true),
        vec!["38", "2", "255", "128", "0"]
    );
    assert_eq!(
        color.get_ansi_codes(false),
        vec!["48", "2", "255", "128", "0"]
    );
}

#[test]
fn test_ansi_codes_default() {
    let default = Color::default_color();
    assert_eq!(default.get_ansi_codes(true), vec!["39"]);
    assert_eq!(default.get_ansi_codes(false), vec!["49"]);
}

#[test]
fn test_downgrade_truecolor_to_eight_bit() {
    let rgb = Color::from_rgb(255, 0, 0);
    let downgraded = rgb.downgrade(ColorSystem::EightBit);
    assert_eq!(downgraded.color_type, ColorType::EightBit);
    // Should map to a red in the 256 palette
    assert!(downgraded.number.is_some());
}

#[test]
fn test_downgrade_to_standard() {
    let rgb = Color::from_rgb(255, 0, 0);
    let downgraded = rgb.downgrade(ColorSystem::Standard);
    assert_eq!(downgraded.color_type, ColorType::Standard);
    // Red should map to standard red (1 or 9)
    let num = downgraded.number.unwrap();
    assert!(num == 1 || num == 9);
}

#[test]
fn test_downgrade_grayscale() {
    // A gray color should use the grayscale ramp
    let gray = Color::from_rgb(128, 128, 128);
    let downgraded = gray.downgrade(ColorSystem::EightBit);
    assert_eq!(downgraded.color_type, ColorType::EightBit);
    // Should be in the grayscale range (232-255) or close
    let num = downgraded.number.unwrap();
    assert!(num >= 232 || num == 16 || num == 231);
}

#[test]
fn test_downgrade_no_change() {
    // Default doesn't change
    let default = Color::default_color();
    let downgraded = default.downgrade(ColorSystem::Standard);
    assert_eq!(downgraded.color_type, ColorType::Default);

    // Standard to standard doesn't change
    let standard = Color::parse("red").unwrap();
    let downgraded = standard.downgrade(ColorSystem::Standard);
    assert_eq!(downgraded.number, Some(1));
}

#[test]
fn test_downgrade_to_windows() {
    // TrueColor -> Windows should work (this was the bug: Windows rank=4 > TrueColor rank=3
    // meant TrueColor was never downgraded to Windows)
    let rgb = Color::from_rgb(255, 0, 0);
    let downgraded = rgb.downgrade(ColorSystem::Windows);
    assert_eq!(downgraded.color_type, ColorType::Windows);
    // Red should map to a red in the Windows palette
    assert!(downgraded.number.is_some());

    // EightBit -> Windows should also work
    let eight_bit = Color::from_ansi(196); // Red in 256 palette
    let downgraded = eight_bit.downgrade(ColorSystem::Windows);
    assert_eq!(downgraded.color_type, ColorType::Windows);
    assert!(downgraded.number.is_some());
}

#[test]
fn test_simple_color_parse_named() {
    assert_eq!(SimpleColor::parse("red"), Some(SimpleColor::Standard(1)));
    assert_eq!(SimpleColor::parse("BLUE"), Some(SimpleColor::Standard(4)));
}

#[test]
fn test_simple_color_parse_hex() {
    assert_eq!(
        SimpleColor::parse("#ff0000"),
        Some(SimpleColor::Rgb { r: 255, g: 0, b: 0 })
    );
    assert_eq!(
        SimpleColor::parse("#f00"),
        Some(SimpleColor::Rgb { r: 255, g: 0, b: 0 })
    );
}

#[test]
fn test_simple_color_to_color() {
    let simple = SimpleColor::Standard(1);
    let color = simple.to_color();
    assert_eq!(color.color_type, ColorType::Standard);
    assert_eq!(color.number, Some(1));
}

#[test]
fn test_palette_sizes() {
    assert_eq!(standard_palette().len(), 16);
    assert_eq!(eight_bit_palette().len(), 256);
    assert_eq!(windows_palette().len(), 16);
}

#[test]
fn test_ansi_color_names_coverage() {
    // Test that common color names are present
    assert!(ansi_color_number("red").is_some());
    assert!(ansi_color_number("green").is_some());
    assert!(ansi_color_number("blue").is_some());
    assert!(ansi_color_number("bright_red").is_some());
    assert!(ansi_color_number("grey").is_some());
    assert!(ansi_color_number("gray").is_some()); // Alias
    assert!(ansi_color_number("orchid").is_some());
    assert!(ansi_color_number("grey93").is_some());
}

#[test]
fn simple_color_round_trips_through_color() {
    let cases = [
        SimpleColor::Default,
        SimpleColor::Standard(1),
        SimpleColor::EightBit(200),
        SimpleColor::Rgb { r: 1, g: 2, b: 3 },
    ];
    for c in cases {
        let full = c.to_color();
        assert_eq!(SimpleColor::from_color(&full), c);
        assert_eq!(full.color_type == ColorType::Default, c == SimpleColor::Default);
    }
    let one = SimpleColor::Standard(1).to_color();
    assert_eq!(one.color_type, ColorType::Standard);
    assert_eq!(one.number, Some(1));
}
