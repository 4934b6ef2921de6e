use gilt::ansi::{ansi_tokenize, sgr_style};

#[test]
    fn test_sgr_style_map_basic_attributes() {
        assert_eq!(sgr_style(1), Some("bold"));
        assert_eq!(sgr_style(2), Some("dim"));
        assert_eq!(sgr_style(3), Some("italic"));
        assert_eq!(sgr_style(4), Some("underline"));
        assert_eq!(sgr_style(5), Some("blink"));
        assert_eq!(sgr_style(6), Some("blink2"));
        assert_eq!(sgr_style(7), Some("reverse"));
        assert_eq!(sgr_style(8), Some("conceal"));
        assert_eq!(sgr_style(9), Some("strike"));
        assert_eq!(sgr_style(21), Some("underline2"));
    }

#[test]
    fn test_sgr_style_map_reset_attributes() {
        assert_eq!(sgr_style(22), Some("not dim not bold"));
        assert_eq!(sgr_style(23), Some("not italic"));
        assert_eq!(sgr_style(24), Some("not underline"));
        assert_eq!(sgr_style(25), Some("not blink"));
        assert_eq!(sgr_style(26), Some("not blink2"));
        assert_eq!(sgr_style(27), Some("not reverse"));
        assert_eq!(sgr_style(28), Some("not conceal"));
        assert_eq!(sgr_style(29), Some("not strike"));
        assert_eq!(sgr_style(54), Some("not frame not encircle"));
        assert_eq!(sgr_style(55), Some("not overline"));
    }

#[test]
    fn test_sgr_style_map_foreground_colors() {
        for i in 0..8u8 {
            let expected = format!("color({})", i);
            assert_eq!(
                sgr_style(30 + i),
                Some(expected.as_str()).map(|_| sgr_style(30 + i).unwrap())
            );
        }
        assert_eq!(sgr_style(39), Some("default"));
    }

#[test]
    fn test_sgr_style_map_background_colors() {
        for i in 0..8u8 {
            assert!(sgr_style(40 + i).unwrap().starts_with("on "));
        }
        assert_eq!(sgr_style(49), Some("on default"));
    }

#[test]
    fn test_sgr_style_map_bright_colors() {
        for i in 0..8u8 {
            let expected = format!("color({})", 8 + i);
            assert_eq!(sgr_style(90 + i).unwrap(), expected);
        }
        for i in 0..8u8 {
            let expected = format!("on color({})", 8 + i);
            assert_eq!(sgr_style(100 + i).unwrap(), expected);
        }
    }

#[test]
    fn test_sgr_style_map_decorations() {
        assert_eq!(sgr_style(51), Some("frame"));
        assert_eq!(sgr_style(52), Some("encircle"));
        assert_eq!(sgr_style(53), Some("overline"));
    }

#[test]
    fn test_sgr_style_map_unknown() {
        assert_eq!(sgr_style(10), None);
        assert_eq!(sgr_style(99), None);
        assert_eq!(sgr_style(200), None);
    }

#[test]
    fn test_tokenize_plain_text() {
        let tokens = ansi_tokenize("Hello, World!");
        assert_eq!(tokens.len(), 1);
        assert_eq!(tokens[0].plain, "Hello, World!");
        assert!(tokens[0].sgr.is_none());
        assert!(tokens[0].osc.is_none());
    }

#[test]
    fn test_tokenize_sgr_sequence() {
        let tokens = ansi_tokenize("\x1b[1mBold\x1b[0m");
        // Should produce: SGR("1"), plain("Bold"), SGR("0")
        assert!(tokens.len() >= 3);

        // First token: SGR bold
        assert!(tokens[0].plain.is_empty());
        assert_eq!(tokens[0].sgr.as_deref(), Some("1"));

        // Second token: plain text
        assert_eq!(tokens[1].plain, "Bold");

        // Third token: SGR reset
        assert!(tokens[2].plain.is_empty());
        assert_eq!(tokens[2].sgr.as_deref(), Some("0"));
    }

#[test]
    fn test_tokenize_mixed_content() {
        let tokens = ansi_tokenize("Hello \x1b[31mRed\x1b[0m World");
        // Expect: plain("Hello "), SGR("31"), plain("Red"), SGR("0"), plain(" World")
        assert_eq!(tokens.len(), 5);
        assert_eq!(tokens[0].plain, "Hello ");
        assert_eq!(tokens[1].sgr.as_deref(), Some("31"));
        assert_eq!(tokens[2].plain, "Red");
        assert_eq!(tokens[3].sgr.as_deref(), Some("0"));
        assert_eq!(tokens[4].plain, " World");
    }

#[test]
    fn test_tokenize_osc_sequence() {
        let tokens = ansi_tokenize("\x1b]8;;https://example.com\x1b\\Link\x1b]8;;\x1b\\");
        // Should have OSC tokens and plain text
        let has_osc = tokens.iter().any(|t| t.osc.is_some());
        assert!(has_osc);
        let has_link = tokens.iter().any(|t| t.plain == "Link");
        assert!(has_link);
    }

#[test]
    fn test_tokenize_multiple_sgr_codes() {
        let tokens = ansi_tokenize("\x1b[1;31mBoldRed\x1b[0m");
        assert!(tokens[0].sgr.as_deref() == Some("1;31"));
    }

#[test]
    fn test_tokenize_empty_string() {
        let tokens = ansi_tokenize("");
        assert!(tokens.is_empty());
    }
