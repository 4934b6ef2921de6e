use gilt::box_chars::{ascii, ascii2, ascii_double_head, double, double_edge, heavy, heavy_edge, heavy_head, horizontals, markdown, minimal, minimal_double_head, minimal_heavy_head, rounded, simple, simple_head, simple_heavy, square, square_double_head, RowLevel};

#[test]
    fn test_parse_ascii() {
        let b = &ascii();
        assert_eq!(b.top_left, '+');
        assert_eq!(b.top, '-');
        assert_eq!(b.top_divider, '-');
        assert_eq!(b.top_right, '+');
        assert_eq!(b.head_left, '|');
        assert_eq!(b.head_vertical, '|');
        assert_eq!(b.head_right, '|');
        assert_eq!(b.head_row_left, '|');
        assert_eq!(b.head_row_horizontal, '-');
        assert_eq!(b.head_row_cross, '+');
        assert_eq!(b.head_row_right, '|');
        assert_eq!(b.bottom_left, '+');
        assert_eq!(b.bottom_char, '-');
        assert_eq!(b.bottom_divider, '-');
        assert_eq!(b.bottom_right, '+');
        assert!(b.ascii);
    }

#[test]
    fn test_parse_square() {
        let b = &square();
        assert_eq!(b.top_left, '┌');
        assert_eq!(b.top, '─');
        assert_eq!(b.top_divider, '┬');
        assert_eq!(b.top_right, '┐');
        assert_eq!(b.head_left, '│');
        assert_eq!(b.head_vertical, '│');
        assert_eq!(b.head_right, '│');
        assert_eq!(b.head_row_left, '├');
        assert_eq!(b.head_row_horizontal, '─');
        assert_eq!(b.head_row_cross, '┼');
        assert_eq!(b.head_row_right, '┤');
        assert_eq!(b.bottom_left, '└');
        assert_eq!(b.bottom_char, '─');
        assert_eq!(b.bottom_divider, '┴');
        assert_eq!(b.bottom_right, '┘');
        assert!(!b.ascii);
    }

#[test]
    fn test_parse_heavy() {
        let b = &heavy();
        assert_eq!(b.top_left, '┏');
        assert_eq!(b.top, '━');
        assert_eq!(b.top_divider, '┳');
        assert_eq!(b.top_right, '┓');
        assert_eq!(b.head_row_cross, '╋');
        assert!(!b.ascii);
    }

#[test]
    fn test_parse_double() {
        let b = &double();
        assert_eq!(b.top_left, '╔');
        assert_eq!(b.top, '═');
        assert_eq!(b.top_divider, '╦');
        assert_eq!(b.top_right, '╗');
        assert_eq!(b.bottom_left, '╚');
        assert_eq!(b.bottom_char, '═');
        assert_eq!(b.bottom_divider, '╩');
        assert_eq!(b.bottom_right, '╝');
    }

#[test]
    fn test_parse_rounded() {
        let b = &rounded();
        assert_eq!(b.top_left, '╭');
        assert_eq!(b.top_right, '╮');
        assert_eq!(b.bottom_left, '╰');
        assert_eq!(b.bottom_right, '╯');
    }

#[test]
    fn test_parse_all_19_boxes() {
        // Just force initialization of all 19 constants to ensure none panic
        let _ = &ascii();
        let _ = &ascii2();
        let _ = &ascii_double_head();
        let _ = &square();
        let _ = &square_double_head();
        let _ = &minimal();
        let _ = &minimal_heavy_head();
        let _ = &minimal_double_head();
        let _ = &simple();
        let _ = &simple_head();
        let _ = &simple_heavy();
        let _ = &horizontals();
        let _ = &rounded();
        let _ = &heavy();
        let _ = &heavy_edge();
        let _ = &heavy_head();
        let _ = &double();
        let _ = &double_edge();
        let _ = &markdown();
    }

#[test]
    fn test_ascii_flag() {
        assert!(ascii().ascii);
        assert!(ascii2().ascii);
        assert!(ascii_double_head().ascii);
        assert!(markdown().ascii);
        assert!(!square().ascii);
        assert!(!rounded().ascii);
        assert!(!heavy().ascii);
        assert!(!double().ascii);
    }

#[test]
    fn test_get_top_square() {
        let top = square().get_top(&[5, 3]);
        assert_eq!(top, "┌─────┬───┐");
    }

#[test]
    fn test_get_top_ascii() {
        // ascii() top_divider is '-', same as top fill char
        let top = ascii().get_top(&[3, 4]);
        assert_eq!(top, "+--------+");
    }

#[test]
    fn test_get_top_ascii2() {
        // ascii2() top_divider is '+'
        let top = ascii2().get_top(&[3, 4]);
        assert_eq!(top, "+---+----+");
    }

#[test]
    fn test_get_top_single_column() {
        let top = square().get_top(&[10]);
        assert_eq!(top, "┌──────────┐");
    }

#[test]
    fn test_get_top_three_columns() {
        let top = heavy().get_top(&[2, 3, 4]);
        assert_eq!(top, "┏━━┳━━━┳━━━━┓");
    }

#[test]
    fn test_get_bottom_square() {
        let bottom = square().get_bottom(&[5, 3]);
        assert_eq!(bottom, "└─────┴───┘");
    }

#[test]
    fn test_get_bottom_heavy() {
        let bottom = heavy().get_bottom(&[4, 4]);
        assert_eq!(bottom, "┗━━━━┻━━━━┛");
    }

#[test]
    fn test_get_bottom_single_column() {
        let bottom = double().get_bottom(&[6]);
        assert_eq!(bottom, "╚══════╝");
    }

#[test]
    fn test_get_row_head_square() {
        let row = square().get_row(&[5, 3], RowLevel::Head, true);
        assert_eq!(row, "├─────┼───┤");
    }

#[test]
    fn test_get_row_head_no_edge() {
        let row = square().get_row(&[5, 3], RowLevel::Head, false);
        assert_eq!(row, "─────┼───");
    }

#[test]
    fn test_get_row_body_square() {
        let row = square().get_row(&[5, 3], RowLevel::Row, true);
        assert_eq!(row, "├─────┼───┤");
    }

#[test]
    fn test_get_row_foot_square() {
        let row = square().get_row(&[5, 3], RowLevel::Foot, true);
        assert_eq!(row, "├─────┼───┤");
    }

#[test]
    fn test_get_row_head_heavy() {
        let row = heavy().get_row(&[3, 3], RowLevel::Head, true);
        assert_eq!(row, "┣━━━╋━━━┫");
    }

#[test]
    fn test_get_row_ascii() {
        let row = ascii2().get_row(&[4, 4], RowLevel::Head, true);
        assert_eq!(row, "+----+----+");
    }

#[test]
    fn test_substitute_not_ascii() {
        let b = square().substitute(false);
        assert_eq!(b.top_left, '┌');
    }

#[test]
    fn test_substitute_rounded_to_square() {
        let b = rounded().substitute(true);
        assert_eq!(b.top_left, '┌');
        assert_eq!(b.bottom_left, '└');
    }

#[test]
    fn test_substitute_heavy_to_square() {
        let b = heavy().substitute(true);
        assert_eq!(b.top_left, '┌');
    }

#[test]
    fn test_substitute_heavy_edge_to_square() {
        let b = heavy_edge().substitute(true);
        assert_eq!(b.top_left, '┌');
    }

#[test]
    fn test_substitute_simple_heavy_to_simple() {
        let b = simple_heavy().substitute(true);
        assert_eq!(b.head_row_horizontal, '─');
    }

#[test]
    fn test_substitute_minimal_heavy_head_to_minimal() {
        let b = minimal_heavy_head().substitute(true);
        assert_eq!(b.head_row_horizontal, '─');
        assert_eq!(b.head_row_cross, '┼');
    }

#[test]
    fn test_plain_headed_heavy_head() {
        let b = heavy_head().get_plain_headed_box();
        assert_eq!(b.top_left, '┌');
        assert_eq!(b.head_row_horizontal, '─');
    }

#[test]
    fn test_plain_headed_square_double_head() {
        let b = square_double_head().get_plain_headed_box();
        assert_eq!(b.top_left, '┌');
        assert_eq!(b.head_row_horizontal, '─');
    }

#[test]
    fn test_plain_headed_minimal_double_head() {
        let b = minimal_double_head().get_plain_headed_box();
        assert_eq!(b.head_row_horizontal, '─');
        assert_eq!(b.head_row_cross, '┼');
    }

#[test]
    fn test_plain_headed_ascii_double_head() {
        let b = ascii_double_head().get_plain_headed_box();
        assert_eq!(b.head_row_horizontal, '-');
        assert_eq!(b.head_row_cross, '+');
    }

#[test]
    fn test_plain_headed_identity() {
        // square() has no special headed variant, returns itself
        let b = square().get_plain_headed_box();
        assert_eq!(b.top_left, '┌');
        assert_eq!(b.head_row_horizontal, '─');
    }

#[test]
    fn test_get_top_empty_widths() {
        let top = square().get_top(&[]);
        assert_eq!(top, "┌┐");
    }

#[test]
    fn test_get_bottom_empty_widths() {
        let bottom = square().get_bottom(&[]);
        assert_eq!(bottom, "└┘");
    }

#[test]
    fn test_get_row_empty_widths() {
        let row = square().get_row(&[], RowLevel::Head, true);
        assert_eq!(row, "├┤");
    }

#[test]
    fn test_get_top_zero_width_column() {
        let top = square().get_top(&[0, 3]);
        assert_eq!(top, "┌┬───┐");
    }

#[test]
    fn test_markdown_box() {
        let b = &markdown();
        assert_eq!(b.head_left, '|');
        assert_eq!(b.head_vertical, '|');
        assert_eq!(b.head_right, '|');
        assert_eq!(b.head_row_horizontal, '-');
        assert_eq!(b.head_row_cross, '|');
        assert!(b.ascii);
    }
