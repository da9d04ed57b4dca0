use mdview::config::{
    build_stack, Config, FontConfig, FontValue, DEFAULT_FONT_MATH, DEFAULT_FONT_MONO,
    DEFAULT_FONT_SANS,
};

fn strings(v: &[&str]) -> Vec<String> {
    v.iter().map(|s| s.to_string()).collect()
}

fn config(sans: Option<FontValue>, mono: Option<FontValue>, math: Option<FontValue>) -> Config {
    Config { colorscheme: None, fonts: Some(FontConfig { sans, mono, math }) }
}

#[test]
fn into_vec_single_gives_one_name() {
    let v = FontValue::Single("Iosevka".to_string());
    assert_eq!(v.into_vec(), strings(&["Iosevka"]));
}

#[test]
fn into_vec_multiple_keeps_list() {
    let v = FontValue::Multiple(strings(&["Iosevka", "JetBrains Mono"]));
    assert_eq!(v.into_vec(), strings(&["Iosevka", "JetBrains Mono"]));
}

#[test]
fn into_vec_multiple_empty() {
    let v = FontValue::Multiple(Vec::new());
    assert!(v.into_vec().is_empty());
}

#[test]
fn unconfigured_stacks_are_the_defaults() {
    let c = Config { colorscheme: None, fonts: None };
    assert_eq!(c.font_sans(), strings(&DEFAULT_FONT_SANS));
    assert_eq!(c.font_mono(), strings(&DEFAULT_FONT_MONO));
    assert_eq!(c.font_math(), strings(&DEFAULT_FONT_MATH));
}

#[test]
fn empty_fonts_table_gives_the_defaults() {
    let c = config(None, None, None);
    assert_eq!(c.font_sans(), strings(&DEFAULT_FONT_SANS));
    assert_eq!(c.font_mono(), strings(&DEFAULT_FONT_MONO));
    assert_eq!(c.font_math(), strings(&DEFAULT_FONT_MATH));
}

#[test]
fn configured_sans_comes_first() {
    let c = config(Some(FontValue::Single("Source Han Sans SC".to_string())), None, None);
    let stack = c.font_sans();
    assert_eq!(stack[0], "Source Han Sans SC");
    assert_eq!(stack.len(), 9);
    assert_eq!(&stack[1..], &strings(&DEFAULT_FONT_SANS)[..]);
}

#[test]
fn configured_default_is_not_repeated() {
    let c = config(None, Some(FontValue::Multiple(strings(&["Iosevka", "JetBrains Mono"]))), None);
    assert_eq!(
        c.font_mono(),
        strings(&[
            "Iosevka",
            "JetBrains Mono",
            "Fira Code",
            "ui-monospace",
            "SF Mono",
            "Cascadia Code",
            "Consolas",
            "Courier New",
            "monospace",
        ])
    );
}

#[test]
fn configured_math_font() {
    let c = config(None, None, Some(FontValue::Single("Noto Sans Math".to_string())));
    assert_eq!(c.font_math(), strings(&["Noto Sans Math", "KaTeX_Main", "serif"]));
}

#[test]
fn duplicates_in_configuration_are_kept() {
    let c = config(Some(FontValue::Multiple(strings(&["A", "A"]))), None, None);
    let stack = c.font_sans();
    assert_eq!(&stack[..2], &strings(&["A", "A"])[..]);
    assert_eq!(stack.len(), 10);
}

#[test]
fn preferred_fonts_without_config_are_first_defaults() {
    let c = Config { colorscheme: None, fonts: None };
    assert_eq!(c.preferred_fonts(), strings(&["Noto Sans SC", "JetBrains Mono", "KaTeX_Main"]));
}

#[test]
fn preferred_fonts_lists_sans_mono_math_in_order() {
    let c = config(
        Some(FontValue::Single("Source Han Sans SC".to_string())),
        Some(FontValue::Multiple(strings(&["Iosevka", "JetBrains Mono"]))),
        Some(FontValue::Single("Noto Sans Math".to_string())),
    );
    assert_eq!(
        c.preferred_fonts(),
        strings(&["Source Han Sans SC", "Iosevka", "JetBrains Mono", "Noto Sans Math"])
    );
}

#[test]
fn preferred_fonts_only_mono() {
    let c = config(None, Some(FontValue::Single("Iosevka".to_string())), None);
    assert_eq!(c.preferred_fonts(), strings(&["Iosevka"]));
}

#[test]
fn preferred_fonts_empty_lists_fall_back() {
    let c = config(Some(FontValue::Multiple(Vec::new())), None, None);
    assert_eq!(c.preferred_fonts(), strings(&["Noto Sans SC", "JetBrains Mono", "KaTeX_Main"]));
}

#[test]
fn build_stack_without_preference() {
    assert_eq!(build_stack(None, &["a", "b", "a"]), strings(&["a", "b"]));
}

#[test]
fn build_stack_keeps_preference_prefix_and_every_default() {
    let pref = FontValue::Multiple(strings(&["x", "b"]));
    let stack = build_stack(Some(pref), &["a", "b", "c"]);
    assert_eq!(stack, strings(&["x", "b", "a", "c"]));
    for d in ["a", "b", "c"] {
        assert!(stack.iter().any(|s| s == d));
    }
}

#[test]
fn build_stack_adds_no_duplicates() {
    let pref = FontValue::Multiple(strings(&["serif", "Arial"]));
    let stack = build_stack(Some(pref), &DEFAULT_FONT_SANS);
    let mut seen = std::collections::HashSet::new();
    for s in &stack {
        assert!(seen.insert(s.clone()));
    }
    assert_eq!(stack.len(), 9);
}

#[test]
fn build_stack_empty_defaults() {
    let pref = FontValue::Single("Only".to_string());
    assert_eq!(build_stack(Some(pref), &[]), strings(&["Only"]));
}

#[test]
fn checked_fonts_are_in_the_stacks() {
    let configs = vec![
        Config { colorscheme: None, fonts: None },
        config(
            Some(FontValue::Single("Source Han Sans SC".to_string())),
            Some(FontValue::Multiple(strings(&["Iosevka", "JetBrains Mono"]))),
            Some(FontValue::Single("Noto Sans Math".to_string())),
        ),
        config(None, None, Some(FontValue::Multiple(Vec::new()))),
    ];
    for c in configs {
        let (s, m, h) = (c.font_sans(), c.font_mono(), c.font_math());
        for f in c.preferred_fonts() {
            assert!(s.contains(&f) || m.contains(&f) || h.contains(&f), "{}", f);
        }
    }
}
