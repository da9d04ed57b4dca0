use mdview::check::{
    check_font, check_fonts, config_path, font_directories, font_file_key, font_search_name,
    health_report, is_font_ext, split_file_name, FontStatus, Location,
};

fn strings(v: &[&str]) -> Vec<String> {
    v.iter().map(|s| s.to_string()).collect()
}

#[test]
fn split_plain_font_file() {
    assert_eq!(
        split_file_name("NotoSansSC-Regular.otf"),
        ("NotoSansSC-Regular".to_string(), Some("otf".to_string()))
    );
}

#[test]
fn split_uses_last_dot() {
    assert_eq!(
        split_file_name("archive.tar.gz"),
        ("archive.tar".to_string(), Some("gz".to_string()))
    );
}

#[test]
fn split_without_dot() {
    assert_eq!(split_file_name("noext"), ("noext".to_string(), None));
}

#[test]
fn split_leading_dot_only() {
    assert_eq!(split_file_name(".bashrc"), (".bashrc".to_string(), None));
}

#[test]
fn split_trailing_dot() {
    assert_eq!(split_file_name("trailing."), ("trailing".to_string(), Some(String::new())));
}

#[test]
fn split_dot_dot() {
    assert_eq!(split_file_name(".."), ("..".to_string(), None));
    assert_eq!(split_file_name("..x"), (".".to_string(), Some("x".to_string())));
}

#[test]
fn split_agrees_with_path() {
    for name in ["a.b", ".x.y", "x", "x.", ".hidden", "a..b", "..x", "tt.f.woff2"] {
        let p = std::path::Path::new(name);
        let (stem, ext) = split_file_name(name);
        assert_eq!(Some(stem.as_str()), p.file_stem().and_then(|s| s.to_str()), "{}", name);
        assert_eq!(ext.as_deref(), p.extension().and_then(|s| s.to_str()), "{}", name);
    }
}

#[test]
fn font_extensions() {
    for e in ["ttf", "otf", "ttc", "woff", "woff2"] {
        assert!(is_font_ext(e));
    }
    assert!(!is_font_ext("TTF"));
    assert!(!is_font_ext("txt"));
    assert!(!is_font_ext(""));
}

#[test]
fn search_name_lowercases_and_drops_spaces() {
    assert_eq!(font_search_name("Noto Sans SC"), "notosanssc");
    assert_eq!(font_search_name("JetBrains Mono"), "jetbrainsmono");
}

#[test]
fn file_key_of_font_file() {
    assert_eq!(font_file_key("Noto Sans SC Bold.TTF"), Some("notosansscbold".to_string()));
    assert_eq!(font_file_key("FiraCode-Regular.woff2"), Some("firacode-regular".to_string()));
}

#[test]
fn file_key_of_other_files() {
    assert_eq!(font_file_key("readme.txt"), None);
    assert_eq!(font_file_key("fonts.dir"), None);
    assert_eq!(font_file_key("ttf"), None);
    assert_eq!(font_file_key(".ttf"), None);
}

#[test]
fn check_font_finds_installed_family() {
    let files = strings(&["readme.txt", "NotoSansSC-Regular.otf"]);
    assert!(check_font("Noto Sans SC", &files));
}

#[test]
fn check_font_ignores_case_of_extension_and_name() {
    let files = strings(&["FIRACODE-BOLD.WOFF2"]);
    assert!(check_font("Fira Code", &files));
}

#[test]
fn check_font_missing_family() {
    let files = strings(&["FiraCode-Regular.ttf", "JetBrainsMono.txt"]);
    assert!(!check_font("JetBrains Mono", &files));
    assert!(!check_font("Noto Sans SC", &[]));
}

#[test]
fn check_font_more_files_keep_it_installed() {
    let mut files = strings(&["Iosevka.ttc"]);
    assert!(check_font("Iosevka", &files));
    files.push("other.otf".to_string());
    assert!(check_font("Iosevka", &files));
}

#[test]
fn check_font_spaces_do_not_matter() {
    let files = strings(&["SourceHanSansSC-Regular.otf"]);
    assert!(check_font("Source Han Sans SC", &files));
    assert!(check_font("SourceHanSansSC", &files));
}

#[test]
fn check_fonts_keeps_order_and_names() {
    let files = strings(&["NotoSansSC-Regular.otf"]);
    let st = check_fonts(&strings(&["Noto Sans SC", "JetBrains Mono"]), &files);
    assert_eq!(st.len(), 2);
    assert_eq!(st[0].family, "Noto Sans SC");
    assert!(st[0].installed);
    assert_eq!(st[1].family, "JetBrains Mono");
    assert!(!st[1].installed);
}

#[test]
fn health_report_with_missing_font() {
    let st = vec![
        FontStatus { family: "Noto Sans SC".to_string(), installed: true },
        FontStatus { family: "JetBrains Mono".to_string(), installed: false },
    ];
    let expected = format!(
        "\nFont Check Report\n{}\n \u{2713}  Noto Sans SC  Installed\n \u{2717}  JetBrains Mono  Not installed\n\nSome fonts are missing. The browser will fall back to system fonts.\n",
        "\u{2500}".repeat(50)
    );
    assert_eq!(health_report(&st), expected);
}

#[test]
fn health_report_all_installed() {
    let st = vec![FontStatus { family: "KaTeX_Main".to_string(), installed: true }];
    let r = health_report(&st);
    assert!(r.ends_with("\n\nAll configured fonts are available.\n"));
    assert!(r.contains(" \u{2713}  KaTeX_Main  Installed\n"));
}

#[test]
fn health_report_empty() {
    let r = health_report(&[]);
    assert_eq!(
        r,
        format!("\nFont Check Report\n{}\n\nAll configured fonts are available.\n", "\u{2500}".repeat(50))
    );
}

fn view(locs: &[Location]) -> Vec<(bool, Vec<&'static str>)> {
    locs.iter().map(|l| (l.under_home, l.parts.clone())).collect()
}

#[test]
fn font_directories_with_home() {
    assert_eq!(
        view(&font_directories(true)),
        vec![
            (true, vec![".fonts"]),
            (true, vec![".local", "share", "fonts"]),
            (true, vec!["Library", "Fonts"]),
            (false, vec!["/Library/Fonts"]),
            (false, vec!["/System/Library/Fonts"]),
            (false, vec!["/usr/share/fonts"]),
            (false, vec!["/usr/local/share/fonts"]),
        ]
    );
}

#[test]
fn font_directories_without_home() {
    assert_eq!(
        view(&font_directories(false)),
        vec![
            (false, vec!["/Library/Fonts"]),
            (false, vec!["/System/Library/Fonts"]),
            (false, vec!["/usr/share/fonts"]),
            (false, vec!["/usr/local/share/fonts"]),
        ]
    );
}

#[test]
fn config_file_location() {
    let loc = config_path();
    assert!(loc.under_home);
    assert_eq!(loc.parts, vec![".config", "mdview.toml"]);
}

#[test]
fn check_font_ignores_letter_case_of_family() {
    let files = strings(&["NotoSansSC-Regular.otf"]);
    assert!(check_font("NOTO SANS SC", &files));
    assert!(check_font("noto sans sc", &files));
    assert!(!check_font("NOTO SERIF", &files));
}
