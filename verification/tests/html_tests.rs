use base64::Engine;
use mdview::html::{
    css_font_family, escape_markdown, family_entry_of, font_face_rule, generate_html_template,
    generate_katex_font_faces, katex_font_face, katex_fonts, KatexFont, PageAssets,
    DEBUG_SECTION,
};
use mdview::theme::Theme;

fn light() -> Theme {
    Theme::by_name("gruvbox-light").unwrap()
}

fn strings(v: &[&str]) -> Vec<String> {
    v.iter().map(|s| s.to_string()).collect()
}

fn assets() -> PageAssets<'static> {
    PageAssets {
        prism_css: "/*PRISM_CSS*/",
        katex_css: "/*KATEX_CSS*/",
        marked_js: "//MARKED",
        katex_js: "//KATEX",
        marked_katex_js: "//MARKED_KATEX",
        prism_js: "//PRISM",
        prism_c: "//C",
        prism_cpp: "//CPP",
        prism_python: "//PYTHON",
        prism_rust: "//RUST",
        prism_javascript: "//JAVASCRIPT",
        prism_typescript: "//TYPESCRIPT",
        prism_bash: "//BASH",
        prism_json: "//JSON",
        prism_markdown: "//MARKDOWN",
        prism_yaml: "//YAML",
        prism_sql: "//SQL",
        prism_java: "//JAVA",
        prism_go: "//GO",
    }
}

#[test]
fn family_entries() {
    assert_eq!(family_entry_of("Noto Sans SC"), "\"Noto Sans SC\"");
    assert_eq!(family_entry_of("system-ui"), "system-ui");
    assert_eq!(family_entry_of("Roboto"), "Roboto");
    assert_eq!(family_entry_of(""), "");
}

#[test]
fn css_font_family_default_sans() {
    let fonts = strings(&["Noto Sans SC", "system-ui", "-apple-system", "Segoe UI", "sans-serif"]);
    assert_eq!(
        css_font_family(&fonts),
        "\"Noto Sans SC\", system-ui, -apple-system, \"Segoe UI\", sans-serif"
    );
}

#[test]
fn css_font_family_edge_cases() {
    assert_eq!(css_font_family(&[]), "");
    assert_eq!(css_font_family(&strings(&["monospace"])), "monospace");
    assert_eq!(css_font_family(&strings(&["a b", "c"])), "\"a b\", c");
}

#[test]
fn escape_replaces_every_end_tag() {
    assert_eq!(escape_markdown("a</script>b"), "a<\\/script>b");
    assert_eq!(escape_markdown("</script></script>"), "<\\/script><\\/script>");
    assert_eq!(escape_markdown("</scr"), "</scr");
    assert_eq!(escape_markdown(""), "");
    assert_eq!(escape_markdown("</SCRIPT>"), "</SCRIPT>");
}

#[test]
fn escaped_markdown_cannot_close_its_element() {
    for input in ["<</script>/script>", "</</script>script>", "x</script", "</script>>", "<\\/script>"] {
        let out = escape_markdown(input);
        assert!(!out.contains("</script>"), "{}", input);
        assert_eq!(out, input.replace("</script>", "<\\/script>"));
    }
}

#[test]
fn page_embeds_the_markdown_source() {
    let page = generate_html_template(
        "# Title\n</script>",
        &strings(&["Noto Sans SC", "sans-serif"]),
        &strings(&["JetBrains Mono", "monospace"]),
        &strings(&["KaTeX_Main", "serif"]),
        "@font-face{}",
        false,
        &light(),
        &assets(),
    );
    assert!(page.starts_with("<!DOCTYPE html>\n<html lang=\"zh-CN\">"));
    assert!(page.ends_with("</html>"));
    assert!(page.contains(
        "<script id=\"markdown-source\" type=\"text/plain\"># Title\n<\\/script></script>\n\n    <script>//MARKED</script>"
    ));
    assert!(page.contains("--font-sans: \"Noto Sans SC\", sans-serif;\n            --font-math: KaTeX_Main, serif;\n            --font-mono: \"JetBrains Mono\", monospace;"));
    assert!(page.contains("<!-- KaTeX Fonts (embedded as data URIs) -->\n    <style>@font-face{}</style>"));
    assert!(page.contains("<style>/*PRISM_CSS*/</style>"));
    assert!(page.contains("//JAVA</script>\n    <script>//GO</script>"));
    assert!(!page.contains("Debug: Font Information"));
}

#[test]
fn page_in_debug_mode_adds_debug_section() {
    let page = generate_html_template("text", &[], &[], &[], "", true, &light(), &assets());
    let expected = format!("type=\"text/plain\">text{}</script>", DEBUG_SECTION);
    assert!(page.contains(&expected));
    assert!(page.contains("--font-sans: ;"));
}

#[test]
fn page_holds_assets_in_order() {
    let page = generate_html_template("m", &[], &[], &[], "", false, &light(), &assets());
    let order = [
        "//MARKED</script>", "//KATEX</script>", "//MARKED_KATEX</script>", "//PRISM</script>",
        "//C</script>", "//CPP</script>", "//PYTHON</script>", "//RUST</script>",
        "//JAVASCRIPT</script>", "//TYPESCRIPT</script>", "//BASH</script>", "//JSON</script>",
        "//MARKDOWN</script>", "//YAML</script>", "//SQL</script>", "//JAVA</script>", "//GO</script>",
    ];
    let mut pos = 0;
    for marker in order {
        let at = page[pos..].find(marker).expect(marker) + pos;
        pos = at + marker.len();
    }
}

#[test]
fn font_face_rule_text() {
    assert_eq!(
        font_face_rule("KaTeX_AMS", 400, "normal", "QUJD"),
        "@font-face{font-family:KaTeX_AMS;font-style:normal;font-weight:400;src:url(data:font/woff2;base64,QUJD)format(\"woff2\")}"
    );
    assert!(font_face_rule("F", 0, "italic", "").contains("font-weight:0;"));
    assert!(font_face_rule("F", 65535, "italic", "").contains("font-weight:65535;"));
}

#[test]
fn katex_font_face_embeds_base64() {
    let f = KatexFont {
        family: "KaTeX_Main".to_string(),
        weight: 700,
        style: "italic".to_string(),
        data: vec![1, 2, 3, 255],
    };
    assert_eq!(
        katex_font_face(&f),
        "@font-face{font-family:KaTeX_Main;font-style:italic;font-weight:700;src:url(data:font/woff2;base64,AQID/w==)format(\"woff2\")}"
    );
}

#[test]
fn katex_font_faces_concatenated_in_order() {
    let a = KatexFont { family: "A".to_string(), weight: 400, style: "normal".to_string(), data: b"hi".to_vec() };
    let b = KatexFont { family: "B".to_string(), weight: 700, style: "normal".to_string(), data: Vec::new() };
    let css = generate_katex_font_faces(&[a, b]);
    assert_eq!(
        css,
        "@font-face{font-family:A;font-style:normal;font-weight:400;src:url(data:font/woff2;base64,aGk=)format(\"woff2\")}@font-face{font-family:B;font-style:normal;font-weight:700;src:url(data:font/woff2;base64,)format(\"woff2\")}"
    );
    assert_eq!(generate_katex_font_faces(&[]), "");
}

const ORIGINAL_ROOT: &str = "\n        :root {\n            --bg-primary: #fbf1c7;\n            --bg-secondary: #ebdbb2;\n            --bg-code: #282828;\n            --text-primary: #3c3836;\n            --text-secondary: #504945;\n            --text-muted: #7c6f64;\n            --border-color: #d5c4a1;\n            --accent-color: #d65d0e;\n            --link-color: #458588;\n            --link-hover-color: #076678;\n            --font-sans: ";

#[test]
fn default_theme_gives_the_original_colors() {
    let page = generate_html_template("m", &[], &[], &[], "", false, &light(), &assets());
    assert!(page.contains(ORIGINAL_ROOT));
    assert!(page.contains(&light().css_vars()));
}

#[test]
fn page_uses_the_chosen_theme() {
    let nord = Theme::by_name("nord").unwrap();
    let page = generate_html_template("m", &[], &[], &[], "", false, &nord, &assets());
    assert!(page.contains(&nord.css_vars()));
    assert!(page.contains("--bg-primary: #2e3440;"));
    assert!(!page.contains("#fbf1c7"));
}

#[test]
fn markdown_adds_no_script_end_tag() {
    let base = generate_html_template("", &[], &[], &[], "", true, &light(), &assets())
        .matches("</script>")
        .count();
    for m in ["</script>", "a</script>b</script>", "<</script>", "</scrip", "t>", "x"] {
        let page = generate_html_template(m, &[], &[], &[], "", true, &light(), &assets());
        assert_eq!(page.matches("</script>").count(), base, "{}", m);
    }
}

fn table_data() -> Vec<Vec<u8>> {
    (0..20u8).map(|i| vec![i, i.wrapping_mul(7), 255 - i]).collect()
}

#[test]
fn katex_font_table_in_order() {
    let fonts = katex_fonts(table_data());
    let got: Vec<(String, u16, String)> =
        fonts.iter().map(|f| (f.family.clone(), f.weight, f.style.clone())).collect();
    let expected: Vec<(&str, u16, &str)> = vec![
        ("KaTeX_AMS", 400, "normal"),
        ("KaTeX_Caligraphic", 700, "normal"),
        ("KaTeX_Caligraphic", 400, "normal"),
        ("KaTeX_Fraktur", 700, "normal"),
        ("KaTeX_Fraktur", 400, "normal"),
        ("KaTeX_Main", 700, "normal"),
        ("KaTeX_Main", 700, "italic"),
        ("KaTeX_Main", 400, "italic"),
        ("KaTeX_Main", 400, "normal"),
        ("KaTeX_Math", 700, "italic"),
        ("KaTeX_Math", 400, "italic"),
        ("KaTeX_SansSerif", 700, "normal"),
        ("KaTeX_SansSerif", 400, "italic"),
        ("KaTeX_SansSerif", 400, "normal"),
        ("KaTeX_Script", 400, "normal"),
        ("KaTeX_Size1", 400, "normal"),
        ("KaTeX_Size2", 400, "normal"),
        ("KaTeX_Size3", 400, "normal"),
        ("KaTeX_Size4", 400, "normal"),
        ("KaTeX_Typewriter", 400, "normal"),
    ];
    assert_eq!(got.len(), 20);
    for (g, e) in got.iter().zip(expected.iter()) {
        assert_eq!((g.0.as_str(), g.1, g.2.as_str()), *e);
    }
    for (i, f) in fonts.iter().enumerate() {
        assert_eq!(f.data, table_data()[i]);
    }
}

#[test]
fn katex_css_starts_with_ams_and_embeds_fonts_losslessly() {
    let css = generate_katex_font_faces(&katex_fonts(table_data()));
    assert!(css.starts_with("@font-face{font-family:KaTeX_AMS;font-style:normal;font-weight:400;src:url(data:font/woff2;base64,"));
    assert!(css.contains(")format(\"woff2\")}@font-face{font-family:KaTeX_Main;font-style:italic;font-weight:700;src:url(data:font/woff2;base64,"));
    assert!(css.ends_with(")format(\"woff2\")}"));
    assert_eq!(css.matches("@font-face").count(), 20);
    let data = table_data();
    let mut rest = css.as_str();
    for i in 0..20 {
        let start = rest.find("base64,").unwrap() + "base64,".len();
        let end = start + rest[start..].find(")format").unwrap();
        let decoded = base64::engine::general_purpose::STANDARD.decode(&rest[start..end]).unwrap();
        assert_eq!(decoded, data[i]);
        rest = &rest[end..];
    }
}

#[test]
fn base64_padding_cases() {
    let enc = |d: &[u8]| {
        katex_font_face(&KatexFont { family: String::new(), weight: 1, style: String::new(), data: d.to_vec() })
    };
    assert!(enc(b"").contains("base64,)"));
    assert!(enc(b"f").contains("base64,Zg==)"));
    assert!(enc(b"fo").contains("base64,Zm8=)"));
    assert!(enc(b"foo").contains("base64,Zm9v)"));
    assert!(enc(b"foobar").contains("base64,Zm9vYmFy)"));
    assert!(enc(&[0xfb, 0xff]).contains("base64,+/8=)"));
}
