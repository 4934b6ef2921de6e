use gilt::badge::{Badge, BadgeStyle};

#[test]
    fn badge_test_new() {
        let badge = Badge::new("Test");
        assert_eq!(badge.text(), "Test");
        assert_eq!(badge.badge_style(), &BadgeStyle::Neutral);
        assert_eq!(badge.icon_str(), None);
        assert!(!badge.is_rounded());
    }

#[test]
    fn test_success() {
        let badge = Badge::success("Done");
        assert_eq!(badge.text(), "Done");
        assert_eq!(badge.badge_style(), &BadgeStyle::Success);
        assert_eq!(badge.icon_str(), Some("✓"));
    }

#[test]
    fn test_error() {
        let badge = Badge::error("Failed");
        assert_eq!(badge.text(), "Failed");
        assert_eq!(badge.badge_style(), &BadgeStyle::Error);
        assert_eq!(badge.icon_str(), Some("✗"));
    }

#[test]
    fn test_warning() {
        let badge = Badge::warning("Caution");
        assert_eq!(badge.text(), "Caution");
        assert_eq!(badge.badge_style(), &BadgeStyle::Warning);
        assert_eq!(badge.icon_str(), Some("⚠"));
    }

#[test]
    fn test_info() {
        let badge = Badge::info("Note");
        assert_eq!(badge.text(), "Note");
        assert_eq!(badge.badge_style(), &BadgeStyle::Info);
        assert_eq!(badge.icon_str(), Some("ℹ"));
    }

#[test]
    fn badge_test_builder_style() {
        let badge = Badge::new("Test").style(BadgeStyle::Success);
        assert_eq!(badge.badge_style(), &BadgeStyle::Success);
    }

#[test]
    fn test_builder_icon() {
        let badge = Badge::new("Test").icon("★");
        assert_eq!(badge.icon_str(), Some("★"));
    }

#[test]
    fn test_builder_rounded() {
        let badge = Badge::new("Test").rounded(true);
        assert!(badge.is_rounded());
    }

#[test]
    fn badge_test_builder_chain() {
        let badge = Badge::new("Test")
            .style(BadgeStyle::Info)
            .icon("→")
            .rounded(true);
        
        assert_eq!(badge.text(), "Test");
        assert_eq!(badge.badge_style(), &BadgeStyle::Info);
        assert_eq!(badge.icon_str(), Some("→"));
        assert!(badge.is_rounded());
    }

#[test]
    fn test_icon_override() {
        // Start with success (has default icon ✓)
        let badge = Badge::success("Done").icon("✔");
        assert_eq!(badge.icon_str(), Some("✔"));
    }

#[test]
    fn test_icon_remove() {
        let badge = Badge::success("Done").icon("");
        assert_eq!(badge.icon_str(), Some(""));
    }

#[test]
    fn badge_test_display_trait() {
        let badge = Badge::info("Info");
        let s = badge.to_string();
        assert!(s.contains("Info"));
        assert!(s.contains('┌') || s.contains('╭'));
    }

#[test]
    fn test_badge_style_default_icons() {
        assert_eq!(BadgeStyle::Success.default_icon(), Some("✓"));
        assert_eq!(BadgeStyle::Error.default_icon(), Some("✗"));
        assert_eq!(BadgeStyle::Warning.default_icon(), Some("⚠"));
        assert_eq!(BadgeStyle::Info.default_icon(), Some("ℹ"));
        assert_eq!(BadgeStyle::Neutral.default_icon(), None);
        assert_eq!(BadgeStyle::Custom(String::new()).default_icon(), None);
    }

#[test]
    fn test_badge_style_equality() {
        assert_eq!(BadgeStyle::Success, BadgeStyle::Success);
        assert_ne!(BadgeStyle::Success, BadgeStyle::Error);
        
        let style1 = BadgeStyle::Custom("red".to_string());
        let style2 = BadgeStyle::Custom("red".to_string());
        assert_eq!(style1, style2);
    }

#[test]
    fn test_effective_icon_explicit() {
        let badge = Badge::new("Test").icon("★");
        assert_eq!(badge.effective_icon(), Some("★"));
    }

#[test]
    fn test_effective_icon_default() {
        let badge = Badge::success("Test");
        // Icon is set explicitly in success()
        assert_eq!(badge.effective_icon(), Some("✓"));
    }

#[test]
    fn test_effective_icon_none() {
        let badge = Badge::new("Test"); // Neutral style, no explicit icon
        assert_eq!(badge.effective_icon(), None);
    }

#[test]
    fn test_box_chars_square() {
        let badge = Badge::new("Test").rounded(false);
        let (tl, tr, bl, br, horiz, vert) = badge.box_chars();
        assert_eq!(tl, '┌');
        assert_eq!(tr, '┐');
        assert_eq!(bl, '└');
        assert_eq!(br, '┘');
        assert_eq!(horiz, '─');
        assert_eq!(vert, '│');
    }

#[test]
    fn test_box_chars_rounded() {
        let badge = Badge::new("Test").rounded(true);
        let (tl, tr, bl, br, horiz, vert) = badge.box_chars();
        assert_eq!(tl, '╭');
        assert_eq!(tr, '╮');
        assert_eq!(bl, '╰');
        assert_eq!(br, '╯');
        assert_eq!(horiz, '─');
        assert_eq!(vert, '│');
    }

#[test]
    fn badge_test_clone() {
        let badge = Badge::success("Done").rounded(true);
        let cloned = badge.clone();
        
        assert_eq!(badge.text(), cloned.text());
        assert_eq!(badge.badge_style(), cloned.badge_style());
        assert_eq!(badge.icon_str(), cloned.icon_str());
        assert_eq!(badge.is_rounded(), cloned.is_rounded());
    }
