use mdview::theme::{select_theme, themes, Theme};

#[test]
fn available_names_in_order() {
    assert_eq!(
        Theme::available_names(),
        vec!["gruvbox-light", "gruvbox-dark", "nord", "catppuccin-latte", "catppuccin-mocha"]
    );
}

#[test]
fn by_name_finds_nord() {
    let t = Theme::by_name("nord").expect("nord exists");
    assert_eq!(t.name, "nord");
    assert_eq!(t.bg_primary, "#2e3440");
    assert_eq!(t.link_hover_color, "#81a1c1");
}

#[test]
fn by_name_unknown_is_none() {
    assert!(Theme::by_name("bogus").is_none());
    assert!(Theme::by_name("").is_none());
    assert!(Theme::by_name("Nord").is_none());
}

#[test]
fn every_listed_name_selects_its_theme() {
    for (i, name) in Theme::available_names().iter().enumerate() {
        let t = Theme::by_name(name).expect("listed");
        assert_eq!(t.name, *name);
        assert_eq!(t.bg_primary, themes()[i].bg_primary);
    }
}

#[test]
fn theme_names_are_distinct() {
    let names = Theme::available_names();
    for i in 0..names.len() {
        for j in 0..names.len() {
            if i != j {
                assert_ne!(names[i], names[j]);
            }
        }
    }
}

#[test]
fn css_vars_of_gruvbox_light() {
    let t = Theme::by_name("gruvbox-light").unwrap();
    let expected = "--bg-primary: #fbf1c7;\n            --bg-secondary: #ebdbb2;\n            --bg-code: #282828;\n            --text-primary: #3c3836;\n            --text-secondary: #504945;\n            --text-muted: #7c6f64;\n            --border-color: #d5c4a1;\n            --accent-color: #d65d0e;\n            --link-color: #458588;\n            --link-hover-color: #076678";
    assert_eq!(t.css_vars(), expected);
}

#[test]
fn css_vars_of_catppuccin_mocha() {
    let t = Theme::by_name("catppuccin-mocha").unwrap();
    let v = t.css_vars();
    assert!(v.starts_with("--bg-primary: #1e1e2e;\n"));
    assert!(v.ends_with("--link-hover-color: #89dceb"));
}

#[test]
fn themes_table_has_five_entries() {
    let all = themes();
    assert_eq!(all.len(), 5);
    assert_eq!(all[0].name, "gruvbox-light");
    assert_eq!(all[4].accent_color, "#fab387");
}

#[test]
fn select_default_theme() {
    assert_eq!(select_theme(None, None).unwrap().name, "gruvbox-light");
}

#[test]
fn select_configured_theme() {
    assert_eq!(select_theme(None, Some("catppuccin-mocha")).unwrap().name, "catppuccin-mocha");
}

#[test]
fn command_line_theme_wins() {
    assert_eq!(select_theme(Some("nord"), Some("catppuccin-mocha")).unwrap().name, "nord");
}

#[test]
fn unknown_theme_lists_available() {
    assert_eq!(
        select_theme(Some("bogus"), None).unwrap_err(),
        "Unknown color scheme 'bogus'. Available schemes: gruvbox-light, gruvbox-dark, nord, catppuccin-latte, catppuccin-mocha"
    );
    assert!(select_theme(None, Some("bogus")).is_err());
    assert!(select_theme(Some("bogus"), Some("nord")).is_err());
}
