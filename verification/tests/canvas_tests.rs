use gilt::canvas::{Blitter, Canvas};
use gilt::octant::octant_bits_to_char;
use std::collections::HashSet;

#[test]
    fn test_empty_canvas() {
        let c = Canvas::new(3, 2);
        let frame = c.frame();
        // Each row is 3 empty braille chars, separated by newline
        let empty_braille = '\u{2800}';
        let expected = format!(
            "{}{}{}",
            std::iter::repeat_n(empty_braille, 3).collect::<String>(),
            "\n",
            std::iter::repeat_n(empty_braille, 3).collect::<String>(),
        );
        assert_eq!(frame, expected);
    }

#[test]
    fn test_single_pixel_set() {
        let mut c = Canvas::new(1, 1);
        c.set(0, 0);
        assert!(c.get(0, 0));
        // Dot 1 (0x01)
        let expected_char = char::from_u32(0x2800u32 + 0x01).unwrap();
        assert_eq!(c.frame(), expected_char.to_string());
    }

#[test]
    fn test_pixel_unset() {
        let mut c = Canvas::new(1, 1);
        c.set(0, 0);
        assert!(c.get(0, 0));
        c.unset(0, 0);
        assert!(!c.get(0, 0));
    }

#[test]
    fn test_pixel_toggle() {
        let mut c = Canvas::new(1, 1);
        assert!(!c.get(0, 0));
        c.toggle(0, 0);
        assert!(c.get(0, 0));
        c.toggle(0, 0);
        assert!(!c.get(0, 0));
    }

#[test]
    fn test_pixel_get_unset() {
        let c = Canvas::new(2, 2);
        assert!(!c.get(0, 0));
        assert!(!c.get(3, 7));
    }

#[test]
    fn test_braille_mapping() {
        // Test each of the 8 dot positions in a single cell
        let dots: [(usize, usize, u8); 8] = [
            (0, 0, 0x01), // dot 1
            (0, 1, 0x02), // dot 2
            (0, 2, 0x04), // dot 3
            (0, 3, 0x40), // dot 7
            (1, 0, 0x08), // dot 4
            (1, 1, 0x10), // dot 5
            (1, 2, 0x20), // dot 6
            (1, 3, 0x80), // dot 8
        ];
        for (px, py, expected_bit) in dots {
            let mut c = Canvas::new(1, 1);
            c.set(px, py);
            assert_eq!(
                c.pixels()[0][0], expected_bit,
                "pixel ({px},{py}) should set bit 0x{expected_bit:02x}"
            );
        }
    }

#[test]
    fn test_line_horizontal() {
        let mut c = Canvas::new(5, 1);
        c.line(0, 0, 9, 0); // full width horizontal
        for x in 0..10 {
            assert!(c.get(x, 0), "pixel ({x}, 0) should be set");
        }
    }

#[test]
    fn test_line_vertical() {
        let mut c = Canvas::new(1, 2);
        c.line(0, 0, 0, 7); // full height vertical
        for y in 0..8 {
            assert!(c.get(0, y), "pixel (0, {y}) should be set");
        }
    }

#[test]
    fn test_line_diagonal() {
        let mut c = Canvas::new(4, 2);
        c.line(0, 0, 7, 7);
        assert!(c.get(0, 0));
        assert!(c.get(7, 7));
    }

#[test]
    fn test_rect_outline() {
        let mut c = Canvas::new(4, 2);
        c.rect(0, 0, 8, 8);
        // Corners should be set
        assert!(c.get(0, 0));
        assert!(c.get(7, 0));
        assert!(c.get(0, 7));
        assert!(c.get(7, 7));
        // Interior should be empty
        assert!(!c.get(3, 3));
    }

#[test]
    fn test_fill_rect() {
        let mut c = Canvas::new(2, 1);
        c.fill_rect(0, 0, 4, 4);
        for y in 0..4 {
            for x in 0..4 {
                assert!(c.get(x, y), "pixel ({x},{y}) should be set");
            }
        }
    }

#[test]
    fn test_circle() {
        let mut c = Canvas::new(10, 5);
        c.circle(10, 10, 8);
        // Some pixels on the circle perimeter should be set
        // At angle 0: (10+8, 10) = (18, 10)
        assert!(c.get(18, 10));
        // At angle 90: (10, 10+8) = (10, 18)
        assert!(c.get(10, 18));
    }

#[test]
    fn test_out_of_bounds() {
        let mut c = Canvas::new(2, 2);
        // These should not panic
        c.set(100, 100);
        c.unset(100, 100);
        c.toggle(100, 100);
        assert!(!c.get(100, 100));
    }

#[test]
    fn test_clear() {
        let mut c = Canvas::new(3, 2);
        c.fill_rect(0, 0, 6, 8);
        c.clear();
        for row in c.pixels() {
            for &cell in row {
                assert_eq!(cell, 0);
            }
        }
    }

#[test]
    fn test_frame_multiline() {
        let c = Canvas::new(2, 3);
        let frame = c.frame();
        let lines: Vec<&str> = frame.split('\n').collect();
        assert_eq!(lines.len(), 3);
        for line in lines {
            assert_eq!(line.chars().count(), 2);
        }
    }

#[test]
    fn canvas_test_display_trait() {
        let c = Canvas::new(2, 2);
        let displayed = c.to_string();
        assert_eq!(displayed, c.frame());
    }

#[test]
    fn test_pixel_dimensions() {
        let c = Canvas::new(10, 5);
        assert_eq!(c.pixel_width(), 20);
        assert_eq!(c.pixel_height(), 20);
    }

#[test]
    fn test_multiple_pixels_same_cell() {
        let mut c = Canvas::new(1, 1);
        c.set(0, 0); // bit 0x01
        c.set(1, 0); // bit 0x08
        assert_eq!(c.pixels()[0][0], 0x01 | 0x08);
        assert!(c.get(0, 0));
        assert!(c.get(1, 0));
    }

#[test]
    fn test_circle_radius_zero() {
        let mut c = Canvas::new(2, 2);
        c.circle(2, 2, 0);
        assert!(c.get(2, 2));
    }

#[test]
    fn test_circle_negative_radius() {
        let mut c = Canvas::new(2, 2);
        c.circle(2, 2, -5);
        // Should not set any pixels
        for y in 0..c.pixel_height() {
            for x in 0..c.pixel_width() {
                assert!(!c.get(x, y));
            }
        }
    }

#[test]
    fn test_rect_zero() {
        let mut c = Canvas::new(2, 2);
        c.rect(0, 0, 0, 0);
        // No pixels set
        for y in 0..c.pixel_height() {
            for x in 0..c.pixel_width() {
                assert!(!c.get(x, y));
            }
        }
    }

#[test]
    fn test_full_braille_char() {
        let mut c = Canvas::new(1, 1);
        // Set all 8 positions
        for y in 0..4 {
            for x in 0..2 {
                c.set(x, y);
            }
        }
        assert_eq!(c.pixels()[0][0], 0xFF);
        let ch = char::from_u32(0x2800u32 + 0xFF).unwrap();
        assert_eq!(c.frame(), ch.to_string());
    }

#[test]
    fn test_octant_anchors() {
        assert_eq!(octant_bits_to_char(0x00), ' ');
        assert_eq!(octant_bits_to_char(0xFF), '\u{2588}');
    }

#[test]
    fn test_octant_half_blocks() {
        assert_eq!(octant_bits_to_char(0x0F), '\u{2580}'); // ▀ upper (cells 1-4)
        assert_eq!(octant_bits_to_char(0xF0), '\u{2584}'); // ▄ lower (cells 5-8)
        assert_eq!(octant_bits_to_char(0x55), '\u{258C}'); // ▌ left  (cells 1,3,5,7)
        assert_eq!(octant_bits_to_char(0xAA), '\u{2590}'); // ▐ right (cells 2,4,6,8)
    }

#[test]
    fn test_octant_new_block_codepoints() {
        assert_eq!(octant_bits_to_char(0x04), '\u{1CD00}');
        assert_eq!(octant_bits_to_char(0x06), '\u{1CD01}');
        assert_eq!(octant_bits_to_char(0x07), '\u{1CD02}');
        assert_eq!(octant_bits_to_char(0xFE), '\u{1CDE5}');
    }

#[test]
    fn test_octant_reused_quarter_blocks() {
        assert_eq!(octant_bits_to_char(0x14), '\u{1FBE6}'); // MIDDLE LEFT ¼ (cells 3,5)
        assert_eq!(octant_bits_to_char(0x28), '\u{1FBE7}'); // MIDDLE RIGHT ¼ (cells 4,6)
        assert_eq!(octant_bits_to_char(0x03), '\u{1FB82}'); // UPPER ¼ (cells 1,2)
        assert_eq!(octant_bits_to_char(0xC0), '\u{2582}'); // LOWER ¼ (cells 7,8)
        assert_eq!(octant_bits_to_char(0x3F), '\u{1FB85}'); // UPPER ¾ (cells 1-6)
        assert_eq!(octant_bits_to_char(0xFC), '\u{2586}'); // LOWER ¾ (cells 3-8)
        assert_eq!(octant_bits_to_char(0x01), '\u{1CEA8}'); // top-left cell only
        assert_eq!(octant_bits_to_char(0x80), '\u{1CEA0}'); // bottom-right cell only
    }

#[test]
    fn test_octant_pixel_bit_mapping() {
        let cases: [(usize, usize, u8); 8] = [
            (0, 0, 0x01), // cell 1 (top-left)
            (1, 0, 0x02), // cell 2 (top-right)
            (0, 1, 0x04), // cell 3
            (1, 1, 0x08), // cell 4
            (0, 2, 0x10), // cell 5
            (1, 2, 0x20), // cell 6
            (0, 3, 0x40), // cell 7 (bottom-left)
            (1, 3, 0x80), // cell 8 (bottom-right)
        ];
        for (px, py, expected_bit) in cases {
            let mut c = Canvas::new(1, 1).with_blitter(Blitter::Octant);
            c.set(px, py);
            assert_eq!(
                c.pixels()[0][0], expected_bit,
                "octant pixel ({px},{py}) should set bit 0x{expected_bit:02X}"
            );
        }
    }

#[test]
    fn test_octant_frame_full_cell() {
        let mut c = Canvas::new(1, 1).with_blitter(Blitter::Octant);
        for y in 0..4 {
            for x in 0..2 {
                c.set(x, y);
            }
        }
        assert_eq!(c.pixels()[0][0], 0xFF);
        assert_eq!(c.frame(), '\u{2588}'.to_string());
    }

#[test]
    fn test_octant_empty_frame_is_space() {
        let c = Canvas::new(3, 1).with_blitter(Blitter::Octant);
        assert_eq!(c.frame(), "   ");
    }

#[test]
    fn test_octant_table_all_distinct() {
        let set: HashSet<char> = (0..=255u8).map(octant_bits_to_char).collect();
        assert_eq!(
            set.len(),
            256,
            "every octant pattern must map to a distinct glyph"
        );
    }
