use gilt::breadcrumbs::Breadcrumbs;

#[test]
    fn breadcrumbs_test_new() {
        let crumbs = Breadcrumbs::new(vec!["Home".into(), "Settings".into()]);
        assert_eq!(crumbs.len(), 2);
        assert_eq!(crumbs.items(), &["Home", "Settings"]);
        assert_eq!(crumbs.separator_str(), " > ");
    }

#[test]
    fn test_from_path() {
        let crumbs = Breadcrumbs::from_path("Home/Settings/Profile");
        assert_eq!(crumbs.len(), 3);
        assert_eq!(crumbs.items(), &["Home", "Settings", "Profile"]);
    }

#[test]
    fn test_from_path_with_empty_components() {
        let crumbs = Breadcrumbs::from_path("/Home//Settings/");
        assert_eq!(crumbs.len(), 2);
        assert_eq!(crumbs.items(), &["Home", "Settings"]);
    }

#[test]
    fn test_empty() {
        let crumbs = Breadcrumbs::new(vec![]);
        assert!(crumbs.is_empty());
        assert_eq!(crumbs.len(), 0);
    }

#[test]
    fn test_slash() {
        let crumbs = Breadcrumbs::slash(vec!["usr".into(), "local".into(), "bin".into()]);
        assert_eq!(crumbs.separator_str(), " / ");
        assert_eq!(crumbs.items(), &["usr", "local", "bin"]);
    }

#[test]
    fn test_arrow() {
        let crumbs = Breadcrumbs::arrow(vec!["A".into(), "B".into()]);
        assert_eq!(crumbs.separator_str(), " → ");
    }

#[test]
    fn test_chevron() {
        let crumbs = Breadcrumbs::chevron(vec!["A".into(), "B".into()]);
        assert_eq!(crumbs.separator_str(), " › ");
    }

#[test]
    fn test_builder_separator() {
        let crumbs = Breadcrumbs::new(vec!["A".into(), "B".into()]).separator(" | ");
        assert_eq!(crumbs.separator_str(), " | ");
    }

#[test]
    fn breadcrumbs_test_builder_style() {
        let style = "blue";
        let crumbs = Breadcrumbs::new(vec!["A".into()]).style(style.clone());
        assert_eq!(crumbs.base_style(), style);
    }

#[test]
    fn test_builder_separator_style() {
        let style = "yellow";
        let crumbs = Breadcrumbs::new(vec!["A".into()]).separator_style(style.clone());
        assert_eq!(crumbs.sep_style(), style);
    }

#[test]
    fn test_builder_active_style() {
        let style = "bold";
        let crumbs = Breadcrumbs::new(vec!["A".into()]).active_style(style.clone());
        assert_eq!(crumbs.active_style_opt(), Some(style));
    }

#[test]
    fn breadcrumbs_test_builder_chain() {
        let crumbs = Breadcrumbs::new(vec!["Home".into(), "Profile".into()])
            .separator(" / ")
            .style("white")
            .separator_style("dim")
            .active_style("bold green");

        assert_eq!(crumbs.separator_str(), " / ");
        assert_eq!(crumbs.len(), 2);
    }

#[test]
    fn test_push() {
        let mut crumbs = Breadcrumbs::new(vec!["Home".into()]);
        crumbs.push("Settings");
        crumbs.push("Profile");
        assert_eq!(crumbs.len(), 3);
        assert_eq!(crumbs.items(), &["Home", "Settings", "Profile"]);
    }

#[test]
    fn test_push_string() {
        let mut crumbs = Breadcrumbs::new(vec![]);
        crumbs.push(&"test".to_string());
        assert_eq!(crumbs.len(), 1);
    }

#[test]
    fn test_pop() {
        let mut crumbs = Breadcrumbs::new(vec!["A".into(), "B".into(), "C".into()]);
        let last = crumbs.pop();
        assert_eq!(last, Some("C".to_string()));
        assert_eq!(crumbs.len(), 2);
    }

#[test]
    fn test_pop_empty() {
        let mut crumbs = Breadcrumbs::new(vec![]);
        let last = crumbs.pop();
        assert_eq!(last, None);
    }

#[test]
    fn test_push_pop_sequence() {
        let mut crumbs = Breadcrumbs::new(vec!["Home".into()]);
        crumbs.push("Settings");
        assert_eq!(crumbs.pop(), Some("Settings".to_string()));
        assert_eq!(crumbs.pop(), Some("Home".to_string()));
        assert_eq!(crumbs.pop(), None);
    }

#[test]
    fn breadcrumbs_test_display_trait() {
        let crumbs = Breadcrumbs::new(vec!["Home".into(), "Settings".into()]);
        let s = crumbs.to_string();
        assert!(s.contains("Home"));
        assert!(s.contains("Settings"));
        assert!(s.contains(" > "));
    }

#[test]
    fn test_display_single_item() {
        let crumbs = Breadcrumbs::new(vec!["Home".into()]);
        let s = crumbs.to_string();
        assert_eq!(s, "Home");
    }

#[test]
    fn breadcrumbs_test_clone() {
        let crumbs = Breadcrumbs::new(vec!["A".into(), "B".into()])
            .separator(" / ")
            .active_style("bold");

        let cloned = crumbs.clone();
        assert_eq!(crumbs.items(), cloned.items());
        assert_eq!(crumbs.separator_str(), cloned.separator_str());
    }
