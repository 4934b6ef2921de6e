use gilt::theme::{Theme, ThemeFromStrError, ThemeStack, ThemeStackError};

fn entries(pairs: &[(&str, &str)]) -> Vec<(String, String)> {
    pairs
        .iter()
        .map(|(a, b)| (a.to_string(), b.to_string()))
        .collect()
}

/// A small stand-in for an inherited style table.
fn base() -> Theme {
    Theme::new(
        Some(entries(&[("dim", "dim"), ("bold", "bold"), ("warning", "yellow")])),
        None,
    )
}

fn get<'a>(t: &'a Theme, name: &str) -> Option<&'a str> {
    t.get(name).map(|s| s.as_str())
}

fn stack_get<'a>(s: &'a ThemeStack, name: &str) -> Option<&'a str> {
    s.get(name).map(|s| s.as_str())
}

#[test]
fn test_theme_new_inherit() {
    let b = base();
    let theme = Theme::new(Some(entries(&[("warning", "red")])), Some(&b));
    assert_eq!(get(&theme, "warning"), Some("red"));
    assert_eq!(get(&theme, "dim"), Some("dim"));
}

#[test]
fn test_theme_new_no_inherit() {
    let theme = Theme::new(Some(entries(&[("warning", "red")])), None);
    assert!(theme.get("warning").is_some());
    assert!(theme.get("dim").is_none());
}

#[test]
fn test_theme_new_none_styles() {
    let b = base();
    let theme = Theme::new(None, Some(&b));
    assert_eq!(theme.styles.len(), b.styles.len());
}

#[test]
fn test_theme_config() {
    let b = base();
    let theme = Theme::new(Some(entries(&[("warning", "red")])), Some(&b));
    let config = theme.config();
    assert!(config.starts_with("[styles]\n"));
    assert!(config.contains("warning = red\n"));
}

#[test]
fn test_theme_config_sorted() {
    let theme = Theme::new(Some(entries(&[("zebra", "bold"), ("alpha", "dim")])), None);
    let config = theme.config();
    let lines: Vec<&str> = config.lines().collect();
    assert_eq!(lines[0], "[styles]");
    assert!(lines[1].starts_with("alpha"));
    assert!(lines[2].starts_with("zebra"));
}

#[test]
fn test_theme_get_missing() {
    let theme = Theme::new(None, Some(&base()));
    assert!(theme.get("nonexistent_style").is_none());
}

#[test]
fn test_theme_stack_basic() {
    let theme = Theme::new(Some(entries(&[("warning", "red")])), Some(&base()));
    let stack = ThemeStack::new(theme);
    assert_eq!(stack_get(&stack, "warning"), Some("red"));
}

#[test]
fn test_theme_stack_push_pop() {
    let theme = Theme::new(Some(entries(&[("warning", "red")])), Some(&base()));
    let mut stack = ThemeStack::new(theme);
    assert_eq!(stack_get(&stack, "warning"), Some("red"));

    let new_theme = Theme::new(Some(entries(&[("warning", "bold yellow")])), None);
    stack.push_theme(new_theme, true);
    assert_eq!(stack_get(&stack, "warning"), Some("bold yellow"));

    stack.pop_theme().unwrap();
    assert_eq!(stack_get(&stack, "warning"), Some("red"));
}

#[test]
fn test_theme_stack_push_no_inherit() {
    let theme = Theme::new(Some(entries(&[("warning", "red")])), Some(&base()));
    let mut stack = ThemeStack::new(theme);

    let new_theme = Theme::new(Some(entries(&[("alert", "bold")])), None);
    stack.push_theme(new_theme, false);

    assert!(stack.get("alert").is_some());
    assert!(stack.get("warning").is_none());

    stack.pop_theme().unwrap();
    assert!(stack.get("warning").is_some());
}

#[test]
fn test_pop_base_error() {
    let theme = Theme::new(None, Some(&base()));
    let mut stack = ThemeStack::new(theme);
    let result = stack.pop_theme();
    assert!(result.is_err());
}

#[test]
fn test_theme_stack_error_display() {
    let err = ThemeStackError;
    assert_eq!(err.to_string(), "Unable to pop base theme");
}

#[test]
fn test_theme_stack_get_missing() {
    let theme = Theme::new(None, Some(&base()));
    let stack = ThemeStack::new(theme);
    assert!(stack.get("nonexistent_style_xyz").is_none());
}

#[test]
fn test_theme_override_default() {
    let theme = Theme::new(Some(entries(&[("bold", "italic")])), Some(&base()));
    assert_eq!(get(&theme, "bold"), Some("italic"));
}

#[test]
fn test_from_str_basic() {
    let content = "\
[styles]
info = dim cyan
warning = magenta
danger = bold red
";
    let theme = Theme::from_str(content, None).unwrap();
    assert_eq!(get(&theme, "info"), Some("dim cyan"));
    assert_eq!(get(&theme, "warning"), Some("magenta"));
    assert_eq!(get(&theme, "danger"), Some("bold red"));
    assert_eq!(theme.styles.len(), 3);
}

#[test]
fn test_from_str_with_inheritance() {
    let content = "\
[styles]
info = dim cyan
";
    let b = base();
    let theme = Theme::from_str(content, Some(&b)).unwrap();
    assert_eq!(get(&theme, "info"), Some("dim cyan"));
    assert!(theme.get("dim").is_some());
    assert!(theme.styles.len() > 1);
}

#[test]
fn test_from_str_comments_and_blanks() {
    let content = "\
# This is a comment
[styles]

# Another comment
info = dim cyan

warning = magenta
";
    let theme = Theme::from_str(content, None).unwrap();
    assert_eq!(theme.styles.len(), 2);
    assert!(theme.get("info").is_some());
    assert!(theme.get("warning").is_some());
}

#[test]
fn test_from_str_ignores_non_styles_sections() {
    let content = "\
[metadata]
author = someone

[styles]
info = dim cyan
";
    let theme = Theme::from_str(content, None).unwrap();
    assert_eq!(theme.styles.len(), 1);
    assert!(theme.get("info").is_some());
    assert!(theme.get("author").is_none());
}

#[test]
fn test_from_str_empty_content() {
    let theme = Theme::from_str("", None).unwrap();
    assert_eq!(theme.styles.len(), 0);
}

#[test]
fn test_from_str_no_styles_section() {
    let content = "\
[metadata]
author = someone
";
    let theme = Theme::from_str(content, None).unwrap();
    assert_eq!(theme.styles.len(), 0);
}

#[test]
fn test_from_str_missing_equals() {
    let content = "\
[styles]
this has no equals sign
";
    let result = Theme::from_str(content, None);
    assert!(result.is_err());
    match &result.unwrap_err() {
        ThemeFromStrError::Parse(msg) => {
            assert!(msg.contains("expected 'name = style'"));
            assert_eq!(msg, "line 2: expected 'name = style', got: this has no equals sign");
        }
        other => panic!("expected Parse error, got: {}", other.to_string()),
    }
}

#[test]
fn test_from_str_empty_name() {
    let content = "\
[styles]
 = bold red
";
    let result = Theme::from_str(content, None);
    assert!(result.is_err());
    match &result.unwrap_err() {
        ThemeFromStrError::Parse(msg) => {
            assert!(msg.contains("empty style name"));
            assert_eq!(msg, "line 2: empty style name");
        }
        other => panic!("expected Parse error, got: {}", other.to_string()),
    }
}

#[test]
fn test_from_str_invalid_style() {
    let content = "\
[styles]
bad_style = not_a_real_style_at_all zzz
";
    let result = Theme::from_str(content, None);
    assert!(result.is_err());
    let err = result.unwrap_err();
    match &err {
        ThemeFromStrError::Style { name, .. } => {
            assert_eq!(name, "bad_style");
        }
        other => panic!("expected Style error, got: {}", other.to_string()),
    }
}

#[test]
fn test_to_config_alias() {
    let theme = Theme::new(Some(entries(&[("info", "cyan")])), None);
    assert_eq!(theme.to_config(), theme.config());
}

#[test]
fn test_round_trip() {
    let original = Theme::new(
        Some(entries(&[("info", "dim cyan"), ("warning", "magenta"), ("danger", "bold red")])),
        None,
    );
    let config = original.to_config();
    let restored = Theme::from_str(&config, None).unwrap();
    assert_eq!(original.styles.len(), restored.styles.len());
    for (name, style) in &original.styles {
        assert_eq!(restored.get(name).unwrap(), style, "style '{}' did not round-trip correctly", name);
    }
}

#[test]
fn test_theme_from_str_error_display() {
    let err = ThemeFromStrError::Parse("test message".to_string());
    assert_eq!(err.to_string(), "theme parse error: test message");
}

#[test]
fn test_from_str_style_with_on_color() {
    let content = "\
[styles]
alert = bold red on white
";
    let theme = Theme::from_str(content, None).unwrap();
    assert_eq!(get(&theme, "alert"), Some("bold red on white"));
}

#[test]
fn test_from_str_dotted_names() {
    let content = "\
[styles]
bar.back = grey23
progress.elapsed = cyan
";
    let theme = Theme::from_str(content, None).unwrap();
    assert!(theme.get("bar.back").is_some());
    assert!(theme.get("progress.elapsed").is_some());
}

#[test]
fn test_semicolon_comment_skipped() {
    let content = "[styles]\n; this is a semicolon comment\ninfo = dim cyan\n";
    let theme = Theme::from_str(content, None).unwrap();
    assert!(theme.get("info").is_some());
}

// ---- further cases ----

#[test]
fn theme_config_exact_text() {
    let theme = Theme::new(Some(entries(&[("zebra", "bold"), ("alpha", "dim")])), None);
    assert_eq!(theme.config(), "[styles]\nalpha = dim\nzebra = bold\n");
}

#[test]
fn theme_config_empty_theme() {
    let theme = Theme::new(None, None);
    assert_eq!(theme.config(), "[styles]\n");
}

#[test]
fn theme_config_sorts_by_code_point() {
    let theme = Theme::new(Some(entries(&[("é", "red"), ("z", "blue"), ("Z", "green")])), None);
    assert_eq!(theme.config(), "[styles]\nZ = green\nz = blue\né = red\n");
}

#[test]
fn theme_new_later_entry_wins() {
    let theme = Theme::new(Some(entries(&[("info", "red"), ("info", "blue")])), None);
    assert_eq!(get(&theme, "info"), Some("blue"));
    assert_eq!(theme.styles.len(), 1);
}

#[test]
fn theme_from_str_crlf_lines() {
    let theme = Theme::from_str("[styles]\r\ninfo = dim cyan\r\nwarn = red\r\n", None).unwrap();
    assert_eq!(get(&theme, "info"), Some("dim cyan"));
    assert_eq!(get(&theme, "warn"), Some("red"));
}

#[test]
fn theme_from_str_section_ignores_case() {
    let theme = Theme::from_str("[STYLES]\ninfo = cyan\n[Other]\nx = y\n[Styles]\nz = bold\n", None).unwrap();
    assert_eq!(get(&theme, "info"), Some("cyan"));
    assert!(theme.get("x").is_none());
    assert_eq!(get(&theme, "z"), Some("bold"));
}

#[test]
fn theme_from_str_unicode_whitespace_trimmed() {
    let theme = Theme::from_str("[styles]\n\u{3000}info\u{a0}=\u{2003}dim cyan\u{85}\n", None).unwrap();
    assert_eq!(get(&theme, "info"), Some("dim cyan"));
}

#[test]
fn theme_from_str_value_keeps_later_equals() {
    let theme = Theme::from_str("[styles]\nlink = link https://x.y/?a=b\n", None).unwrap();
    assert_eq!(get(&theme, "link"), Some("link https://x.y/?a=b"));
}

#[test]
fn theme_from_str_empty_value() {
    let theme = Theme::from_str("[styles]\nplain =\n", None).unwrap();
    assert_eq!(get(&theme, "plain"), Some(""));
}

#[test]
fn theme_from_str_lines_outside_sections_are_skipped() {
    let theme = Theme::from_str("no equals here\ninfo = red\n[styles]\nok = blue\n", None).unwrap();
    assert_eq!(theme.styles.len(), 1);
    assert_eq!(get(&theme, "ok"), Some("blue"));
}

#[test]
fn theme_from_str_error_line_number() {
    let err = Theme::from_str("# c\n\n[styles]\na = b\n\noops\n", None).unwrap_err();
    assert_eq!(err, ThemeFromStrError::Parse("line 6: expected 'name = style', got: oops".to_string()));
}

#[test]
fn theme_round_trip_with_empty_definition_and_brackets() {
    let original = Theme::new(
        Some(entries(&[("[x", "bold"), ("plain", ""), ("a]", "on red"), ("k", "link a=b")])),
        None,
    );
    let restored = Theme::from_str(&original.config(), None).unwrap();
    assert_eq!(restored.styles.len(), 4);
    for (name, style) in &original.styles {
        assert_eq!(restored.get(name).unwrap(), style);
    }
}

#[test]
fn theme_round_trip_fails_for_unsafe_name() {
    // A name starting with `#` is written as a comment line.
    let original = Theme::new(Some(entries(&[("#x", "bold")])), None);
    let restored = Theme::from_str(&original.config(), None).unwrap();
    assert!(restored.get("#x").is_none());
}

#[test]
fn theme_stack_pop_after_push_restores() {
    let mut stack = ThemeStack::new(base());
    stack.push_theme(Theme::new(Some(entries(&[("dim", "bold dim")])), None), true);
    stack.push_theme(Theme::new(Some(entries(&[("new", "x")])), None), false);
    assert_eq!(stack_get(&stack, "new"), Some("x"));
    assert!(stack.get("dim").is_none());
    stack.pop_theme().unwrap();
    assert_eq!(stack_get(&stack, "dim"), Some("bold dim"));
    assert_eq!(stack_get(&stack, "warning"), Some("yellow"));
    stack.pop_theme().unwrap();
    assert_eq!(stack_get(&stack, "dim"), Some("dim"));
    assert_eq!(stack.pop_theme(), Err(ThemeStackError));
    assert_eq!(stack_get(&stack, "bold"), Some("bold"));
}

#[test]
fn theme_style_definitions_checked() {
    let ok = [
        "bold red on blue", "none", "", "not bold", "B I U", "link https://example.com bold",
        "on #282a36", "color(100) on rgb(1,2,3)", "Bold RED", "dim cyan", "default on default",
    ];
    for d in ok {
        let text = format!("[styles]\nx = {}\n", d);
        assert!(Theme::from_str(&text, None).is_ok(), "{} should be accepted", d);
    }
    let bad = ["on", "not", "link", "not red", "on bold", "bold zzz", "none bold", "not BOLD", "#12"];
    for d in bad {
        let text = format!("[styles]\nx = {}\n", d);
        assert_eq!(
            Theme::from_str(&text, None).err(),
            Some(ThemeFromStrError::Style { name: "x".to_string() }),
            "{} should be rejected",
            d
        );
    }
}

#[test]
fn theme_style_error_message() {
    let err = ThemeFromStrError::Style { name: "bad".to_string() };
    assert_eq!(err.to_string(), "invalid style for 'bad'");
}
