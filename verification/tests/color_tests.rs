use gilt::color::{Color, ColorSystem, ColorType};
use gilt::color_cache::ColorCache;
use gilt::color_names::{ansi_color_name, get_ansi_color_number};
use gilt::color_parse::parse_rgb_hex;
use gilt::color_triplet::ColorTriplet;
use gilt::palette::Palette;

#[test]
    fn mod_test_parse_default() {
        let color = Color::parse("default").unwrap();
        assert_eq!(color.name(), "default");
        assert_eq!(color.kind(), ColorType::Default);
        assert_eq!(color.number(), None);
        assert_eq!(color.triplet(), None);
    }

#[test]
    fn mod_test_parse_red() {
        let color = Color::parse("red").unwrap();
        assert_eq!(color.name(), "red");
        assert_eq!(color.kind(), ColorType::Standard);
        assert_eq!(color.number(), Some(1));
        assert_eq!(color.triplet(), None);
    }

#[test]
    fn mod_test_parse_bright_red() {
        let color = Color::parse("bright_red").unwrap();
        assert_eq!(color.name(), "bright_red");
        assert_eq!(color.kind(), ColorType::Standard);
        assert_eq!(color.number(), Some(9));
        assert_eq!(color.triplet(), None);
    }

#[test]
    fn mod_test_parse_yellow4() {
        let color = Color::parse("yellow4").unwrap();
        // L1 enum break (v0.11.0): EightBit colors no longer round-trip
        // their named form ("yellow4" → "color(106)"). Only the 16
        // standard colors get canonical names from `ansi_color_name`.
        assert_eq!(color.name(), "color(106)");
        assert_eq!(color.kind(), ColorType::EightBit);
        assert_eq!(color.number(), Some(106));
        assert_eq!(color.triplet(), None);
    }

#[test]
    fn mod_test_parse_color_100() {
        let color = Color::parse("color(100)").unwrap();
        assert_eq!(color.name(), "color(100)");
        assert_eq!(color.kind(), ColorType::EightBit);
        assert_eq!(color.number(), Some(100));
        assert_eq!(color.triplet(), None);
    }

#[test]
    fn mod_test_parse_hex() {
        let color = Color::parse("#112233").unwrap();
        assert_eq!(color.name(), "#112233");
        assert_eq!(color.kind(), ColorType::TrueColor);
        assert_eq!(color.number(), None);
        assert_eq!(color.triplet(), Some(ColorTriplet::new(0x11, 0x22, 0x33)));
    }

#[test]
    fn mod_test_parse_rgb() {
        let color = Color::parse("rgb(90,100,110)").unwrap();
        assert_eq!(color.name(), "#5a646e");
        assert_eq!(color.kind(), ColorType::TrueColor);
        assert_eq!(color.number(), None);
        assert_eq!(color.triplet(), Some(ColorTriplet::new(90, 100, 110)));
    }

#[test]
    fn mod_test_parse_error_color_256() {
        let result = Color::parse("color(256)");
        assert!(result.is_err());
    }

#[test]
    fn mod_test_parse_error_invalid_rgb() {
        let result = Color::parse("rgb(999,0,0)");
        assert!(result.is_err());
    }

#[test]
    fn mod_test_parse_error_rgb_missing_component() {
        let result = Color::parse("rgb(0,0)");
        assert!(result.is_err());
    }

#[test]
    fn mod_test_parse_error_unknown_color() {
        let result = Color::parse("nosuchcolor");
        assert!(result.is_err());
    }

#[test]
    fn mod_test_parse_error_invalid_hex() {
        let result = Color::parse("#xxyyzz");
        assert!(result.is_err());
    }

#[test]
    fn mod_test_from_triplet() {
        let color = Color::from_triplet(ColorTriplet::new(0x10, 0x20, 0x30));
        assert_eq!(color.name(), "#102030");
        assert_eq!(color.kind(), ColorType::TrueColor);
    }

#[test]
    fn mod_test_from_ansi_standard() {
        let color = Color::from_ansi(1);
        assert_eq!(color.kind(), ColorType::Standard);
        assert_eq!(color.number(), Some(1));
    }

#[test]
    fn mod_test_from_ansi_eightbit() {
        let color = Color::from_ansi(100);
        assert_eq!(color.kind(), ColorType::EightBit);
        assert_eq!(color.number(), Some(100));
    }

#[test]
    fn mod_test_get_ansi_codes_default_foreground() {
        let color = Color::parse("default").unwrap();
        assert_eq!(color.get_ansi_codes(true), vec!["39"]);
    }

#[test]
    fn mod_test_get_ansi_codes_default_background() {
        let color = Color::parse("default").unwrap();
        assert_eq!(color.get_ansi_codes(false), vec!["49"]);
    }

#[test]
    fn mod_test_get_ansi_codes_red_foreground() {
        let color = Color::parse("red").unwrap();
        assert_eq!(color.get_ansi_codes(true), vec!["31"]);
    }

#[test]
    fn mod_test_get_ansi_codes_red_background() {
        let color = Color::parse("red").unwrap();
        assert_eq!(color.get_ansi_codes(false), vec!["41"]);
    }

#[test]
    fn mod_test_get_ansi_codes_bright_red_foreground() {
        let color = Color::parse("bright_red").unwrap();
        assert_eq!(color.get_ansi_codes(true), vec!["91"]);
    }

#[test]
    fn mod_test_get_ansi_codes_truecolor_foreground() {
        let color = Color::parse("#ff0000").unwrap();
        assert_eq!(color.get_ansi_codes(true), vec!["38", "2", "255", "0", "0"]);
    }

#[test]
    fn mod_test_get_ansi_codes_truecolor_background() {
        let color = Color::parse("#ff0000").unwrap();
        assert_eq!(
            color.get_ansi_codes(false),
            vec!["48", "2", "255", "0", "0"]
        );
    }

#[test]
    fn mod_test_get_ansi_codes_eightbit_foreground() {
        let color = Color::parse("color(100)").unwrap();
        assert_eq!(color.get_ansi_codes(true), vec!["38", "5", "100"]);
    }

#[test]
    fn mod_test_get_truecolor_hex() {
        let color = Color::parse("#ff0000").unwrap();
        assert_eq!(
            color.get_truecolor(None, true),
            ColorTriplet::new(255, 0, 0)
        );
    }

#[test]
    fn mod_test_get_truecolor_red() {
        let color = Color::parse("red").unwrap();
        assert_eq!(
            color.get_truecolor(None, true),
            ColorTriplet::new(128, 0, 0)
        );
    }

#[test]
    fn mod_test_get_truecolor_default_foreground() {
        let color = Color::parse("default").unwrap();
        assert_eq!(color.get_truecolor(None, true), ColorTriplet::new(0, 0, 0));
    }

#[test]
    fn mod_test_get_truecolor_default_background() {
        let color = Color::parse("default").unwrap();
        assert_eq!(
            color.get_truecolor(None, false),
            ColorTriplet::new(255, 255, 255)
        );
    }

#[test]
    fn mod_test_downgrade_black_to_eightbit() {
        let color = Color::parse("#000000").unwrap();
        let downgraded = color.downgrade(ColorSystem::EightBit);
        assert_eq!(downgraded.number(), Some(16));
    }

#[test]
    fn mod_test_downgrade_white_to_eightbit() {
        let color = Color::parse("#ffffff").unwrap();
        let downgraded = color.downgrade(ColorSystem::EightBit);
        assert_eq!(downgraded.number(), Some(231));
    }

#[test]
    fn mod_test_downgrade_red_to_eightbit() {
        let color = Color::parse("#ff0000").unwrap();
        let downgraded = color.downgrade(ColorSystem::EightBit);
        assert_eq!(downgraded.number(), Some(196));
    }

#[test]
    fn mod_test_downgrade_red_to_standard() {
        let color = Color::parse("#ff0000").unwrap();
        let downgraded = color.downgrade(ColorSystem::Standard);
        assert_eq!(downgraded.number(), Some(1));
    }

#[test]
    fn mod_test_downgrade_green_to_standard() {
        let color = Color::parse("#00ff00").unwrap();
        let downgraded = color.downgrade(ColorSystem::Standard);
        assert_eq!(downgraded.number(), Some(2));
    }

#[test]
    fn mod_test_downgrade_color_20_to_standard() {
        let color = Color::parse("color(20)").unwrap();
        let downgraded = color.downgrade(ColorSystem::Standard);
        assert_eq!(downgraded.number(), Some(4));
    }

#[test]
    fn mod_test_parse_rgb_hex() {
        let result = parse_rgb_hex("aabbcc").unwrap();
        assert_eq!(result, ColorTriplet::new(0xaa, 0xbb, 0xcc));
    }

#[test]
    fn mod_test_parse_rgb_hex_lowercase() {
        let result = parse_rgb_hex("ffffff").unwrap();
        assert_eq!(result, ColorTriplet::new(255, 255, 255));
    }

#[test]
    fn mod_test_parse_rgb_hex_uppercase() {
        let result = parse_rgb_hex("AABBCC").unwrap();
        assert_eq!(result, ColorTriplet::new(0xaa, 0xbb, 0xcc));
    }

#[test]
    fn mod_test_parse_rgb_hex_invalid_length() {
        let result = parse_rgb_hex("aabb");
        assert!(result.is_err());
    }

#[test]
    fn mod_test_parse_rgb_hex_invalid_chars() {
        let result = parse_rgb_hex("gghhii");
        assert!(result.is_err());
    }

#[test]
    fn mod_test_system() {
        assert_eq!(
            Color::parse("default").unwrap().system(),
            ColorSystem::Standard
        );
        assert_eq!(Color::parse("red").unwrap().system(), ColorSystem::Standard);
        assert_eq!(
            Color::parse("color(100)").unwrap().system(),
            ColorSystem::EightBit
        );
        assert_eq!(
            Color::parse("#ff0000").unwrap().system(),
            ColorSystem::TrueColor
        );
    }

#[test]
    fn mod_test_is_system_defined() {
        assert!(Color::parse("default").unwrap().is_system_defined());
        assert!(Color::parse("red").unwrap().is_system_defined());
        assert!(!Color::parse("color(100)").unwrap().is_system_defined());
        assert!(!Color::parse("#ff0000").unwrap().is_system_defined());
    }

#[test]
    fn mod_test_is_default() {
        assert!(Color::parse("default").unwrap().is_default());
        assert!(!Color::parse("red").unwrap().is_default());
        assert!(!Color::parse("#ff0000").unwrap().is_default());
    }

#[test]
    fn mod_test_display_trait() {
        let color = Color::parse("red").unwrap();
        let display = color.to_string();
        assert!(display.contains("red"));
        assert!(display.contains("ColorType::Standard"));
        assert!(display.contains("number=1"));
    }

#[test]
    fn mod_test_display_trait_no_number() {
        let color = Color::parse("#ff0000").unwrap();
        let display = color.to_string();
        assert!(display.contains("#ff0000"));
        assert!(display.contains("ColorType::TrueColor"));
        assert!(display.contains("number=None"));
    }

#[test]
    fn mod_test_parse_case_insensitive() {
        let color1 = Color::parse("RED").unwrap();
        let color2 = Color::parse("red").unwrap();
        let color3 = Color::parse("Red").unwrap();
        assert_eq!(color1.number(), Some(1));
        assert_eq!(color2.number(), Some(1));
        assert_eq!(color3.number(), Some(1));
    }

#[test]
    fn mod_test_parse_grey_gray_alias() {
        let grey = Color::parse("grey0").unwrap();
        let gray = Color::parse("gray0").unwrap();
        assert_eq!(grey.number(), gray.number());
        assert_eq!(grey.number(), Some(16));
    }

#[test]
    fn mod_test_parse_color_15() {
        let color = Color::parse("color(15)").unwrap();
        assert_eq!(color.kind(), ColorType::Standard);
        assert_eq!(color.number(), Some(15));
    }

#[test]
    fn mod_test_parse_color_16() {
        let color = Color::parse("color(16)").unwrap();
        assert_eq!(color.kind(), ColorType::EightBit);
        assert_eq!(color.number(), Some(16));
    }

#[test]
    fn mod_test_downgrade_default() {
        let color = Color::default_color();
        let downgraded = color.downgrade(ColorSystem::Standard);
        assert_eq!(downgraded.kind(), ColorType::Default);
    }

#[test]
    fn downgrade_to_same_system_is_identity() {
        // A Standard color downgraded to Standard must NOT be re-matched through
        // the palette (which can change the index). It must return itself.
        let c = Color::Standard(5);
        assert_eq!(c.downgrade(ColorSystem::Standard), Color::Standard(5));
        // Discriminating case (audit #39): Standard(8) theme-RGB=(128,128,128)
        // is closer to palette index 7=(170,170,170) than to index 8=(85,85,85)
        // under the redmean metric — without the early-return it returns Standard(7).
        assert_eq!(
            Color::Standard(8).downgrade(ColorSystem::Standard),
            Color::Standard(8)
        );
        // EightBit -> EightBit identity.
        assert_eq!(
            Color::EightBit(123).downgrade(ColorSystem::EightBit),
            Color::EightBit(123)
        );
        // EightBit -> Standard still downgrades (different system, lower fidelity).
        // (no identity assertion here — just must not panic and must be Standard)
        assert!(matches!(
            Color::EightBit(123).downgrade(ColorSystem::Standard),
            Color::Standard(_)
        ));
    }

#[test]
    fn eightbit_low_passthrough_to_windows() {
        // EightBit(0-15) ARE the Windows palette — downgrade to Windows
        // passes through directly to Windows(n) instead of round-tripping
        // through RGB nearest-match (audit #39 residual). Windows has 16
        // entries, so the full 0-15 range is valid.
        for n in 0u8..16 {
            assert_eq!(
                Color::EightBit(n).downgrade(ColorSystem::Windows),
                Color::Windows(n),
                "EightBit({n}) must pass through to Windows({n}) on downgrade",
            );
        }
    }

#[test]
    fn eightbit_bright_downgrade_to_standard_uses_nearest_match() {
        // Indices 0-7 are dark colors; their EightBit RGBs are close enough
        // to the corresponding Standard palette entry that nearest-match is
        // identity (verified: 0->0, 1->1, ..., 7->7).
        for n in 0u8..8 {
            assert_eq!(
                Color::EightBit(n).downgrade(ColorSystem::Standard),
                Color::Standard(n),
                "EightBit({n}) dark color nearest-matches to Standard({n})",
            );
        }
        // Bright colors 8-15: nearest-match into the 16-entry Standard palette.
        // These are the rich-correct values (redmean distance, computed against
        // gilt's EIGHT_BIT_PALETTE and STANDARD_PALETTE).
        let expected: &[(u8, u8)] = &[
            (8, 7),   // (128,128,128) -> (170,170,170)
            (9, 1),   // (255,0,0)     -> (170,0,0)
            (10, 2),  // (0,255,0)     -> (0,170,0)
            (11, 11), // (255,255,0)   -> (255,255,85)
            (12, 4),  // (0,0,255)     -> (0,0,170)
            (13, 13), // (255,0,255)   -> (255,85,255)
            (14, 14), // (0,255,255)   -> (85,255,255)
            (15, 15), // (255,255,255) -> (255,255,255)
        ];
        for &(src, dst) in expected {
            assert_eq!(
                Color::EightBit(src).downgrade(ColorSystem::Standard),
                Color::Standard(dst),
                "EightBit({src}) must nearest-match to Standard({dst}), not Standard({src})",
            );
        }
    }

#[test]
    fn ansi_color_name_and_number_round_trip() {
        // Task 2 (Phase 7): `ansi_color_name` and `get_ansi_color_number`
        // must be public accessors for ANSI color name<->number lookups.
        
        // The first 16 standard colors (per rich's ANSI_COLOR_NAMES table).
        for n in 0u8..16 {
            let name =
                ansi_color_name(n).unwrap_or_else(|| panic!("ansi_color_name({n}) must be Some"));
            assert_eq!(
                get_ansi_color_number(name),
                Some(n),
                "round-trip failed for n={n} (name={name})",
            );
        }
        // Spot-check the canonical name for index 1.
        assert_eq!(ansi_color_name(1), Some("red"));
        // Out-of-range (n >= 16) has no canonical name.
        assert_eq!(ansi_color_name(16), None);
        assert_eq!(ansi_color_name(255), None);
        // Unknown name returns None.
        assert_eq!(get_ansi_color_number("not_a_real_ansi_name"), None);
    }

#[test]
    fn color_test_parse_default() {
        let color = Color::parse("default").unwrap();
        assert_eq!(color.name(), "default");
        assert_eq!(color.kind(), ColorType::Default);
        assert_eq!(color.number(), None);
        assert_eq!(color.triplet(), None);
    }

#[test]
    fn color_test_parse_red() {
        let color = Color::parse("red").unwrap();
        assert_eq!(color.name(), "red");
        assert_eq!(color.kind(), ColorType::Standard);
        assert_eq!(color.number(), Some(1));
        assert_eq!(color.triplet(), None);
    }

#[test]
    fn color_test_parse_bright_red() {
        let color = Color::parse("bright_red").unwrap();
        assert_eq!(color.name(), "bright_red");
        assert_eq!(color.kind(), ColorType::Standard);
        assert_eq!(color.number(), Some(9));
        assert_eq!(color.triplet(), None);
    }

#[test]
    fn color_test_parse_color_100() {
        let color = Color::parse("color(100)").unwrap();
        assert_eq!(color.name(), "color(100)");
        assert_eq!(color.kind(), ColorType::EightBit);
        assert_eq!(color.number(), Some(100));
        assert_eq!(color.triplet(), None);
    }

#[test]
    fn color_test_parse_hex() {
        let color = Color::parse("#112233").unwrap();
        assert_eq!(color.name(), "#112233");
        assert_eq!(color.kind(), ColorType::TrueColor);
        assert_eq!(color.number(), None);
        assert_eq!(color.triplet(), Some(ColorTriplet::new(0x11, 0x22, 0x33)));
    }

#[test]
    fn color_test_parse_rgb() {
        let color = Color::parse("rgb(90,100,110)").unwrap();
        assert_eq!(color.name(), "#5a646e");
        assert_eq!(color.kind(), ColorType::TrueColor);
        assert_eq!(color.number(), None);
        assert_eq!(color.triplet(), Some(ColorTriplet::new(90, 100, 110)));
    }

#[test]
    fn color_test_parse_error_color_256() {
        let result = Color::parse("color(256)");
        assert!(result.is_err());
    }

#[test]
    fn color_test_parse_error_invalid_rgb() {
        let result = Color::parse("rgb(999,0,0)");
        assert!(result.is_err());
    }

#[test]
    fn color_test_parse_error_rgb_missing_component() {
        let result = Color::parse("rgb(0,0)");
        assert!(result.is_err());
    }

#[test]
    fn color_test_parse_error_unknown_color() {
        let result = Color::parse("nosuchcolor");
        assert!(result.is_err());
    }

#[test]
    fn color_test_parse_error_invalid_hex() {
        let result = Color::parse("#xxyyzz");
        assert!(result.is_err());
    }

#[test]
    fn color_test_from_triplet() {
        let color = Color::from_triplet(ColorTriplet::new(0x10, 0x20, 0x30));
        assert_eq!(color.name(), "#102030");
        assert_eq!(color.kind(), ColorType::TrueColor);
    }

#[test]
    fn color_test_from_ansi_standard() {
        let color = Color::from_ansi(1);
        assert_eq!(color.kind(), ColorType::Standard);
        assert_eq!(color.number(), Some(1));
    }

#[test]
    fn color_test_from_ansi_eightbit() {
        let color = Color::from_ansi(100);
        assert_eq!(color.kind(), ColorType::EightBit);
        assert_eq!(color.number(), Some(100));
    }

#[test]
    fn color_test_get_ansi_codes_default_foreground() {
        let color = Color::parse("default").unwrap();
        assert_eq!(color.get_ansi_codes(true), vec!["39"]);
    }

#[test]
    fn color_test_get_ansi_codes_default_background() {
        let color = Color::parse("default").unwrap();
        assert_eq!(color.get_ansi_codes(false), vec!["49"]);
    }

#[test]
    fn color_test_get_ansi_codes_red_foreground() {
        let color = Color::parse("red").unwrap();
        assert_eq!(color.get_ansi_codes(true), vec!["31"]);
    }

#[test]
    fn color_test_get_ansi_codes_red_background() {
        let color = Color::parse("red").unwrap();
        assert_eq!(color.get_ansi_codes(false), vec!["41"]);
    }

#[test]
    fn color_test_get_ansi_codes_bright_red_foreground() {
        let color = Color::parse("bright_red").unwrap();
        assert_eq!(color.get_ansi_codes(true), vec!["91"]);
    }

#[test]
    fn color_test_get_ansi_codes_truecolor_foreground() {
        let color = Color::parse("#ff0000").unwrap();
        assert_eq!(color.get_ansi_codes(true), vec!["38", "2", "255", "0", "0"]);
    }

#[test]
    fn color_test_get_ansi_codes_truecolor_background() {
        let color = Color::parse("#ff0000").unwrap();
        assert_eq!(
            color.get_ansi_codes(false),
            vec!["48", "2", "255", "0", "0"]
        );
    }

#[test]
    fn color_test_get_ansi_codes_eightbit_foreground() {
        let color = Color::parse("color(100)").unwrap();
        assert_eq!(color.get_ansi_codes(true), vec!["38", "5", "100"]);
    }

#[test]
    fn color_test_get_truecolor_hex() {
        let color = Color::parse("#ff0000").unwrap();
        assert_eq!(
            color.get_truecolor(None, true),
            ColorTriplet::new(255, 0, 0)
        );
    }

#[test]
    fn color_test_get_truecolor_red() {
        let color = Color::parse("red").unwrap();
        assert_eq!(
            color.get_truecolor(None, true),
            ColorTriplet::new(128, 0, 0)
        );
    }

#[test]
    fn color_test_get_truecolor_default_foreground() {
        let color = Color::parse("default").unwrap();
        assert_eq!(color.get_truecolor(None, true), ColorTriplet::new(0, 0, 0));
    }

#[test]
    fn color_test_get_truecolor_default_background() {
        let color = Color::parse("default").unwrap();
        assert_eq!(
            color.get_truecolor(None, false),
            ColorTriplet::new(255, 255, 255)
        );
    }

#[test]
    fn color_test_downgrade_black_to_eightbit() {
        let color = Color::parse("#000000").unwrap();
        let downgraded = color.downgrade(ColorSystem::EightBit);
        assert_eq!(downgraded.number(), Some(16));
    }

#[test]
    fn color_test_downgrade_white_to_eightbit() {
        let color = Color::parse("#ffffff").unwrap();
        let downgraded = color.downgrade(ColorSystem::EightBit);
        assert_eq!(downgraded.number(), Some(231));
    }

#[test]
    fn color_test_downgrade_red_to_eightbit() {
        let color = Color::parse("#ff0000").unwrap();
        let downgraded = color.downgrade(ColorSystem::EightBit);
        assert_eq!(downgraded.number(), Some(196));
    }

#[test]
    fn color_test_downgrade_red_to_standard() {
        let color = Color::parse("#ff0000").unwrap();
        let downgraded = color.downgrade(ColorSystem::Standard);
        assert_eq!(downgraded.number(), Some(1));
    }

#[test]
    fn color_test_downgrade_green_to_standard() {
        let color = Color::parse("#00ff00").unwrap();
        let downgraded = color.downgrade(ColorSystem::Standard);
        assert_eq!(downgraded.number(), Some(2));
    }

#[test]
    fn color_test_downgrade_color_20_to_standard() {
        let color = Color::parse("color(20)").unwrap();
        let downgraded = color.downgrade(ColorSystem::Standard);
        assert_eq!(downgraded.number(), Some(4));
    }

#[test]
    fn color_test_parse_rgb_hex() {
        let result = parse_rgb_hex("aabbcc").unwrap();
        assert_eq!(result, ColorTriplet::new(0xaa, 0xbb, 0xcc));
    }

#[test]
    fn color_test_parse_rgb_hex_lowercase() {
        let result = parse_rgb_hex("ffffff").unwrap();
        assert_eq!(result, ColorTriplet::new(255, 255, 255));
    }

#[test]
    fn color_test_parse_rgb_hex_uppercase() {
        let result = parse_rgb_hex("AABBCC").unwrap();
        assert_eq!(result, ColorTriplet::new(0xaa, 0xbb, 0xcc));
    }

#[test]
    fn color_test_parse_rgb_hex_invalid_length() {
        let result = parse_rgb_hex("aabb");
        assert!(result.is_err());
    }

#[test]
    fn color_test_parse_rgb_hex_invalid_chars() {
        let result = parse_rgb_hex("gghhii");
        assert!(result.is_err());
    }

#[test]
    fn color_test_system() {
        assert_eq!(
            Color::parse("default").unwrap().system(),
            ColorSystem::Standard
        );
        assert_eq!(Color::parse("red").unwrap().system(), ColorSystem::Standard);
        assert_eq!(
            Color::parse("color(100)").unwrap().system(),
            ColorSystem::EightBit
        );
        assert_eq!(
            Color::parse("#ff0000").unwrap().system(),
            ColorSystem::TrueColor
        );
    }

#[test]
    fn color_test_is_system_defined() {
        assert!(Color::parse("default").unwrap().is_system_defined());
        assert!(Color::parse("red").unwrap().is_system_defined());
        assert!(!Color::parse("color(100)").unwrap().is_system_defined());
        assert!(!Color::parse("#ff0000").unwrap().is_system_defined());
    }

#[test]
    fn color_test_is_default() {
        assert!(Color::parse("default").unwrap().is_default());
        assert!(!Color::parse("red").unwrap().is_default());
        assert!(!Color::parse("#ff0000").unwrap().is_default());
    }

#[test]
    fn color_test_display_trait() {
        let color = Color::parse("red").unwrap();
        let display = color.to_string();
        assert!(display.contains("red"));
        assert!(display.contains("ColorType::Standard"));
        assert!(display.contains("number=1"));
    }

#[test]
    fn color_test_display_trait_no_number() {
        let color = Color::parse("#ff0000").unwrap();
        let display = color.to_string();
        assert!(display.contains("#ff0000"));
        assert!(display.contains("ColorType::TrueColor"));
        assert!(display.contains("number=None"));
    }

#[test]
    fn color_test_parse_case_insensitive() {
        let color1 = Color::parse("RED").unwrap();
        let color2 = Color::parse("red").unwrap();
        let color3 = Color::parse("Red").unwrap();
        assert_eq!(color1.number(), Some(1));
        assert_eq!(color2.number(), Some(1));
        assert_eq!(color3.number(), Some(1));
    }

#[test]
    fn color_test_parse_grey_gray_alias() {
        let grey = Color::parse("grey0").unwrap();
        let gray = Color::parse("gray0").unwrap();
        assert_eq!(grey.number(), gray.number());
        assert_eq!(grey.number(), Some(16));
    }

#[test]
    fn color_test_parse_color_15() {
        let color = Color::parse("color(15)").unwrap();
        assert_eq!(color.kind(), ColorType::Standard);
        assert_eq!(color.number(), Some(15));
    }

#[test]
    fn color_test_parse_color_16() {
        let color = Color::parse("color(16)").unwrap();
        assert_eq!(color.kind(), ColorType::EightBit);
        assert_eq!(color.number(), Some(16));
    }

#[test]
    fn color_test_downgrade_default() {
        let color = Color::default_color();
        let downgraded = color.downgrade(ColorSystem::Standard);
        assert_eq!(downgraded.kind(), ColorType::Default);
    }

#[test]
    fn test_palette_new() {
        let colors = vec![(255, 0, 0), (0, 255, 0), (0, 0, 255)];
        let palette = Palette::new(colors.clone());
        assert_eq!(palette.len(), 3);
    }

#[test]
    fn test_palette_get() {
        let colors = vec![(255, 0, 0), (0, 255, 0), (0, 0, 255)];
        let palette = Palette::new(colors);

        assert_eq!(palette.get(0), ColorTriplet::new(255, 0, 0));
        assert_eq!(palette.get(1), ColorTriplet::new(0, 255, 0));
        assert_eq!(palette.get(2), ColorTriplet::new(0, 0, 255));
    }

#[test]
    fn test_match_color_exact() {
        let colors = vec![(255, 0, 0), (0, 255, 0), (0, 0, 255)];
        let palette = Palette::new(colors);

        let red = ColorTriplet::new(255, 0, 0);
        let green = ColorTriplet::new(0, 255, 0);
        let blue = ColorTriplet::new(0, 0, 255);

        assert_eq!(palette.match_color(&red), 0);
        assert_eq!(palette.match_color(&green), 1);
        assert_eq!(palette.match_color(&blue), 2);
    }

#[test]
fn color_cache_populates_on_parse() {
    let mut cache = ColorCache::new();
    cache.clear();
    let before = cache.len();
    let _ = cache.parse("color(199)").unwrap();
    let _ = cache.parse("#abcdef").unwrap();
    let _ = cache.parse("color(98)").unwrap();
    assert!(cache.len() >= before + 3);
}

#[test]
fn color_cache_returns_equivalent_value() {
    let mut cache = ColorCache::new();
    cache.clear();
    let first = cache.parse("blue").unwrap();
    let second = cache.parse("blue").unwrap();
    assert_eq!(first.name(), second.name());
    assert_eq!(first.number(), second.number());
}
