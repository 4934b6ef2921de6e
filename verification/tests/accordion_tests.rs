use gilt::accordion::{Accordion, AccordionGroup};

#[test]
    fn test_toggle() {
        let mut accordion = Accordion::new("Test", "Content");

        // Default is expanded
        assert!(!accordion.is_collapsed());

        // Toggle to collapsed
        accordion.toggle();
        assert!(accordion.is_collapsed());

        // Toggle back to expanded
        accordion.toggle();
        assert!(!accordion.is_collapsed());
    }

#[test]
    fn test_expand_collapse() {
        let mut accordion = Accordion::new("Test", "Content");

        accordion.collapse();
        assert!(accordion.is_collapsed());

        accordion.expand();
        assert!(!accordion.is_collapsed());
    }

#[test]
    fn test_custom_icons() {
        let accordion = Accordion::new("Test", "Content").icons("+", "−");

        assert_eq!(accordion.expand_icon, "+");
        assert_eq!(accordion.collapse_icon, "−");

        // When expanded, should show collapse icon
        assert_eq!(accordion.current_icon(), "−");

        let collapsed = Accordion::new("Test", "Content")
            .icons("+", "−")
            .collapsed(true);

        // When collapsed, should show expand icon
        assert_eq!(collapsed.current_icon(), "+");
    }

#[test]
    fn test_accordion_group_new() {
        let group = AccordionGroup::new(vec![
            Accordion::new("A", "Content A"),
            Accordion::new("B", "Content B"),
        ]);

        assert_eq!(group.items.len(), 2);
        assert!(group.allow_multiple_open);
    }

#[test]
    fn test_accordion_group_allow_multiple_open() {
        let group = AccordionGroup::new(vec![]).allow_multiple_open(false);

        assert!(!group.allow_multiple_open);
    }

#[test]
    fn test_accordion_group_expand_all() {
        let mut group = AccordionGroup::new(vec![
            Accordion::new("A", "...").collapsed(true),
            Accordion::new("B", "...").collapsed(true),
        ]);

        group.expand_all();

        assert!(!group.items[0].is_collapsed());
        assert!(!group.items[1].is_collapsed());
    }

#[test]
    fn test_accordion_group_collapse_all() {
        let mut group = AccordionGroup::new(vec![
            Accordion::new("A", "..."),
            Accordion::new("B", "..."),
        ]);

        group.collapse_all();

        assert!(group.items[0].is_collapsed());
        assert!(group.items[1].is_collapsed());
    }

#[test]
    fn test_accordion_group_push() {
        let mut group = AccordionGroup::new(vec![]);
        group.push(Accordion::new("New", "Content"));

        assert_eq!(group.items.len(), 1);
    }

#[test]
    fn test_accordion_group_expand_item_mutual_exclusion() {
        let mut group = AccordionGroup::new(vec![
            Accordion::new("A", "..."),
            Accordion::new("B", "..."),
            Accordion::new("C", "..."),
        ])
        .allow_multiple_open(false);

        // Initially all expanded
        assert!(!group.items[0].is_collapsed());
        assert!(!group.items[1].is_collapsed());
        assert!(!group.items[2].is_collapsed());

        // Expand item 1 - should collapse others
        group.expand_item(1);

        assert!(group.items[0].is_collapsed());
        assert!(!group.items[1].is_collapsed());
        assert!(group.items[2].is_collapsed());
    }

#[test]
    fn accordion_test_builder_chain() {
        let accordion = Accordion::new("Title", "Content")
            .collapsed(true)
            .style("dim")
            .title_style("bold")
            .icon_style("cyan")
            .icons("+", "−")
            .indent(4);

        assert!(accordion.collapsed);
        assert!(!accordion.style.is_empty());
        assert!(!accordion.title_style.is_empty());
        assert!(!accordion.icon_style.is_empty());
        assert_eq!(accordion.expand_icon, "+");
        assert_eq!(accordion.collapse_icon, "−");
        assert_eq!(accordion.indent, 4);
    }

#[test]
    fn test_expand_item_out_of_bounds() {
        let mut group =
            AccordionGroup::new(vec![Accordion::new("A", "...")]);

        // Should not panic with out-of-bounds index
        group.expand_item(10);

        // Original item should remain unchanged
        assert!(!group.items[0].is_collapsed());
    }

#[test]
fn test_accordion_display() {
    let accordion = Accordion::new("Title", "Content");
    let output = accordion.to_string();

    assert!(output.contains("Title"));
    assert!(output.contains("Content"));
}

#[test]
fn test_accordion_group_display() {
    let group = AccordionGroup::new(vec![Accordion::new("A", "Content A")]);
    let output = group.to_string();

    assert!(output.contains("A"));
    assert!(output.contains("Content A"));
}

#[test]
fn accordion_plain_lines() {
    let a = Accordion::new("T", "a\n\nb");
    assert_eq!(a.lines(), vec!["▼ T".to_string(), "  a".to_string(), "".to_string(), "  b".to_string()]);
    assert_eq!(a.to_string(), "▼ T\n  a\n\n  b");
    let c = Accordion::new("T", "a").collapsed(true);
    assert_eq!(c.to_string(), "▶ T");
    assert_eq!(Accordion::new("T", "").to_string(), "▼ T");
    let g = AccordionGroup::new(vec![Accordion::new("A", "x"), Accordion::new("B", "y")]);
    assert_eq!(g.to_string(), "▼ A\n  x\n\n▼ B\n  y");
}
