//! Assembly of the self-contained HTML page.
use vstd::prelude::*;
use vstd::string::StringExecFns;
use crate::text::{
    lemma_contains_middle, lemma_concat_contains_triple, lemma_contains_within, lemma_join_contains, count_occurrences, lemma_concat_around, lemma_count_concat, lemma_count_none, concat,
    concat_strs, contains_char, contains_seq, decimal, decimal_string, join,
    join_strings, occurs_at, replace_all, replace_str, str_eq, strs_view,
};
use crate::encoding::{
    base64_decode, base64_standard, is_b64_output_char, law_base64_alphabet,
    law_base64_round_trip,
};
use crate::theme::{css_vars_text, Theme};
use base64::Engine;

verus! {

/// The generic CSS family names, which are never quoted.
pub const GENERIC_FAMILIES: [&'static str; 13] = [
    "serif",
    "sans-serif",
    "monospace",
    "cursive",
    "fantasy",
    "system-ui",
    "ui-serif",
    "ui-sans-serif",
    "ui-monospace",
    "ui-rounded",
    "math",
    "emoji",
    "fangsong",
];

/// How one family is written in a CSS `font-family` list: as it is when it is
/// a generic family or holds no space, else in double quotes.
pub open spec fn family_entry(f: Seq<char>) -> Seq<char> {
    if strs_view(GENERIC_FAMILIES@).contains(f) || !f.contains(' ') {
        f
    } else {
        "\""@ + f + "\""@
    }
}

/// The value of a CSS `font-family` property for a stack of families.
pub open spec fn css_font_family_text(fonts: Seq<Seq<char>>) -> Seq<char> {
    join(fonts.map_values(|f: Seq<char>| family_entry(f)), ", "@)
}

/// Whether `f` is one of the generic CSS families.
fn is_generic_family(f: &str) -> (res: bool)
    ensures
        res == strs_view(GENERIC_FAMILIES@).contains(f@),
{
    let mut i: usize = 0;
    while i < 13
        invariant
            i <= 13,
            forall|k: int| 0 <= k < i ==> #[trigger] strs_view(GENERIC_FAMILIES@)[k] != f@,
        decreases 13 - i,
    {
        if str_eq(GENERIC_FAMILIES[i], f) {
            assert(strs_view(GENERIC_FAMILIES@)[i as int] == f@);
            return true;
        }
        i = i + 1;
    }
    false
}

/// How one family is written in a CSS `font-family` list.
pub fn family_entry_of(f: &str) -> (res: String)
    ensures
        res@ == family_entry(f@),
{
    if is_generic_family(f) || !contains_char(f, ' ') {
        f.to_string()
    } else {
        let mut s = String::new();
        s.push('"');
        s.append(f);
        s.push('"');
        proof {
            reveal_strlit("\"");
        }
        assert(s@ =~= "\""@ + f@ + "\""@);
        s
    }
}

/// The CSS `font-family` value of a font stack: the families in order,
/// separated by `, `, those with a space quoted unless generic.
pub fn css_font_family(fonts: &[String]) -> (res: String)
    ensures
        res@ == css_font_family_text(fonts.deep_view()),
{
    let mut entries: Vec<String> = Vec::new();
    let mut i: usize = 0;
    while i < fonts.len()
        invariant
            i <= fonts.len(),
            entries.deep_view() == fonts.deep_view().take(i as int).map_values(
                |f: Seq<char>| family_entry(f),
            ),
        decreases fonts.len() - i,
    {
        let e = family_entry_of(fonts[i].as_str());
        let ghost prev = entries.deep_view();
        entries.push(e);
        assert(entries.deep_view() =~= prev.push(family_entry(fonts.deep_view()[i as int])));
        i = i + 1;
        assert(entries.deep_view() =~= fonts.deep_view().take(i as int).map_values(
            |f: Seq<char>| family_entry(f),
        ));
    }
    assert(fonts.deep_view().take(fonts.len() as int) =~= fonts.deep_view());
    join_strings(&entries, ", ")
}

/// The end tag that the Markdown source must not contain.
pub const SCRIPT_END_TAG: &'static str = "</script>";

/// What each `</script>` of the Markdown source becomes.
pub const ESCAPED_SCRIPT_END_TAG: &'static str = "<\\/script>";

/// The section added after the Markdown source in debug mode.
pub const DEBUG_SECTION: &'static str = "\n\n---\n\n## Debug: Font Information\n\n<div id=\"font-debug\"><noscript>JavaScript required.</noscript></div>\n";

/// The Markdown source with every `</script>` escaped.
pub open spec fn escape_script_end(markdown: Seq<char>) -> Seq<char> {
    replace_all(markdown, SCRIPT_END_TAG@, ESCAPED_SCRIPT_END_TAG@)
}

/// The text placed in the Markdown source element: the escaped source, and
/// the debug section when `debug` is set.
pub open spec fn markdown_section(markdown: Seq<char>, debug: bool) -> Seq<char> {
    escape_script_end(markdown) + if debug {
        DEBUG_SECTION@
    } else {
        Seq::empty()
    }
}

/// The Markdown source with every `</script>` replaced by `<\/script>`, so that
/// it cannot close the element that holds it.
pub fn escape_markdown(markdown: &str) -> (res: String)
    ensures
        res@ == escape_script_end(markdown@),
{
    proof {
        reveal_strlit("</script>");
    }
    replace_str(markdown, SCRIPT_END_TAG, ESCAPED_SCRIPT_END_TAG)
}

/// The bundled style sheets and scripts that the page embeds.
pub struct PageAssets<'a> {
    /// The Prism "Tomorrow Night" theme.
    pub prism_css: &'a str,
    /// The KaTeX style sheet.
    pub katex_css: &'a str,
    /// The marked Markdown parser.
    pub marked_js: &'a str,
    /// KaTeX.
    pub katex_js: &'a str,
    /// The marked extension that renders math with KaTeX.
    pub marked_katex_js: &'a str,
    /// Prism.
    pub prism_js: &'a str,
    /// The Prism grammar for C.
    pub prism_c: &'a str,
    /// The Prism grammar for C++.
    pub prism_cpp: &'a str,
    /// The Prism grammar for Python.
    pub prism_python: &'a str,
    /// The Prism grammar for Rust.
    pub prism_rust: &'a str,
    /// The Prism grammar for JavaScript.
    pub prism_javascript: &'a str,
    /// The Prism grammar for TypeScript.
    pub prism_typescript: &'a str,
    /// The Prism grammar for Bash.
    pub prism_bash: &'a str,
    /// The Prism grammar for JSON.
    pub prism_json: &'a str,
    /// The Prism grammar for Markdown.
    pub prism_markdown: &'a str,
    /// The Prism grammar for YAML.
    pub prism_yaml: &'a str,
    /// The Prism grammar for SQL.
    pub prism_sql: &'a str,
    /// The Prism grammar for Java.
    pub prism_java: &'a str,
    /// The Prism grammar for Go.
    pub prism_go: &'a str,
}

/// The start of the page, up to the style element of the KaTeX fonts.
pub const PAGE_HEAD: &'static str = r##"<!DOCTYPE html>
<html lang="zh-CN">
<head>
    <meta charset="UTF-8">
    <meta name="viewport" content="width=device-width, initial-scale=1.0">
    <title>mdview - Markdown Viewer</title>

    <!-- KaTeX Fonts (embedded as data URIs) -->
    <style>"##;

/// Closes the KaTeX font styles and opens the Prism theme styles.
pub const PRISM_STYLE_OPEN: &'static str = "</style>\n\n    <!-- Prism.js Theme: Tomorrow Night -->\n    <style>";

/// Closes the Prism styles and opens the KaTeX styles.
pub const KATEX_STYLE_OPEN: &'static str = "</style>\n\n    <!-- KaTeX CSS -->\n    <style>";

/// Closes the KaTeX styles and opens the page styles.
pub const PAGE_STYLE_OPEN: &'static str = "</style>\n\n    <style>";

/// Opens the custom properties of the page, before the theme's colors.
pub const ROOT_VARS_OPEN: &'static str = r##"
        :root {
            "##;

/// Ends the color declarations and starts `--font-sans`.
pub const FONT_SANS_DECL: &'static str = r##";
            --font-sans: "##;

/// Ends the sans stack and starts `--font-math`.
pub const FONT_MATH_DECL: &'static str = r##";
            --font-math: "##;

/// Ends the math stack and starts `--font-mono`.
pub const FONT_MONO_DECL: &'static str = r##";
            --font-mono: "##;

/// The rest of the styles and the page body, before the Markdown source element.
pub const PAGE_BODY: &'static str = r##";
            --max-width: 800px;
            --line-height: 1.65;
        }

        * {
            margin: 0;
            padding: 0;
            box-sizing: border-box;
        }

        html {
            font-size: 16px;
            -webkit-font-smoothing: antialiased;
            -moz-osx-font-smoothing: grayscale;
        }

        body {
            font-family: var(--font-sans);
            line-height: var(--line-height);
            color: var(--text-primary);
            background-color: var(--bg-primary);
            padding: 3rem 2rem;
        }

        .container {
            max-width: var(--max-width);
            margin: 0 auto;
        }

        h1, h2, h3, h4, h5, h6 {
            font-weight: 600;
            line-height: 1.3;
            margin-top: 2em;
            margin-bottom: 0.75em;
            color: var(--text-primary);
        }

        h1 {
            font-size: 2rem;
            font-weight: 700;
            margin-top: 0;
            padding-bottom: 0.5em;
            border-bottom: 1px solid var(--border-color);
        }

        h2 {
            font-size: 1.5rem;
            padding-bottom: 0.3em;
            border-bottom: 1px solid var(--border-color);
        }

        h3 {
            font-size: 1.25rem;
        }

        h4 {
            font-size: 1.1rem;
        }

        h5, h6 {
            font-size: 1rem;
            color: var(--text-secondary);
        }

        p {
            margin-bottom: 1.5em;
        }

        a {
            color: var(--link-color);
            text-decoration: none;
            border-bottom: 1px solid transparent;
            transition: border-bottom-color 0.2s ease;
        }

        a:hover {
            color: var(--link-hover-color);
            border-bottom-color: var(--link-hover-color);
        }

        strong {
            font-weight: 600;
        }

        em {
            font-style: italic;
        }

        ul, ol {
            margin-bottom: 1.5em;
            padding-left: 1.5em;
        }

        li {
            margin-bottom: 0.5em;
        }

        li > ul,
        li > ol {
            margin-top: 0.5em;
            margin-bottom: 0;
        }

        blockquote {
            margin: 1.5em 0;
            padding: 0.75em 1.25em;
            border-left: 4px solid var(--accent-color);
            background-color: var(--bg-secondary);
            border-radius: 0 8px 8px 0;
            color: var(--text-secondary);
        }

        blockquote p:last-child {
            margin-bottom: 0;
        }

        blockquote code {
            background-color: rgba(0, 0, 0, 0.1);
        }

        code {
            font-family: var(--font-mono);
            font-size: 0.875em;
            background-color: rgba(0, 0, 0, 0.08);
            padding: 0.2em 0.4em;
            border-radius: 4px;
            color: var(--text-primary);
        }

        pre {
            margin: 1.5em 0;
            border-radius: 8px;
            overflow: hidden;
            background-color: var(--bg-code);
            box-shadow: 0 4px 6px -1px rgba(0, 0, 0, 0.1), 0 2px 4px -2px rgba(0, 0, 0, 0.1);
        }

        pre code {
            display: block;
            padding: 1.25em 1.5em;
            overflow-x: auto;
            font-size: 0.875rem;
            line-height: 1.6;
            background-color: transparent;
            color: #ebdbb2;
            border-radius: 0;
        }

        pre[class*="language-"] {
            margin: 1.5em 0;
        }

        code[class*="language-"] {
            background-color: transparent;
            padding: 0;
        }

        table {
            width: 100%;
            margin: 1.5em 0;
            border-collapse: collapse;
            font-size: 0.95rem;
        }

        thead {
            background-color: var(--bg-secondary);
        }

        th, td {
            padding: 0.75em 1em;
            text-align: left;
            border-bottom: 1px solid var(--border-color);
        }

        th {
            font-weight: 600;
            color: var(--text-primary);
        }

        tbody tr:hover {
            background-color: rgba(0, 0, 0, 0.05);
        }

        hr {
            margin: 2em 0;
            border: none;
            border-top: 1px solid var(--border-color);
        }

        img {
            max-width: 100%;
            height: auto;
            border-radius: 8px;
            margin: 1em 0;
        }

        .katex-display {
            margin: 1.5em 0;
            overflow-x: auto;
            overflow-y: hidden;
            padding: 0.5em 0;
            font-family: var(--font-math);
        }

        .katex {
            font-size: 1.1em;
            font-family: var(--font-math);
        }

        .katex .mathnormal,
        .katex .mathit {
            font-family: var(--font-math);
            font-style: normal;
        }

        .katex .mathnormal {
            font-style: normal;
        }

        .katex {
            font-style: normal;
        }

        .katex-inline {
            vertical-align: baseline;
        }

        .katex-block {
            display: flex;
            justify-content: center;
            margin: 1.5em 0;
            padding: 1em;
            background-color: var(--bg-secondary);
            border-radius: 8px;
        }

        .task-list-item {
            list-style: none;
            margin-left: -1.5em;
        }

        .task-list-item input {
            margin-right: 0.5em;
        }

        @media print {
            body {
                background-color: white;
                padding: 0;
            }

            pre {
                box-shadow: none;
                border: 1px solid var(--border-color);
            }
        }

        @media (max-width: 640px) {
            body {
                padding: 1.5rem 1rem;
            }

            h1 {
                font-size: 1.75rem;
            }

            h2 {
                font-size: 1.35rem;
            }

            pre code {
                font-size: 0.8rem;
            }
        }
    </style>
</head>
<body>
    <div class="container">
        <div id="content"></div>
    </div>

    "##;

/// Opens the element that carries the Markdown source.
pub const MARKDOWN_SOURCE_OPEN: &'static str = r##"<script id="markdown-source" type="text/plain">"##;

/// Closes one script element and opens the next, with a blank line between.
pub const SCRIPT_GAP_WIDE: &'static str = r##"</script>

    <script>"##;

/// Closes one script element and opens the next.
pub const SCRIPT_GAP: &'static str = "</script>\n    <script>";

/// The script that renders the Markdown, and the end of the page.
pub const PAGE_TAIL: &'static str = r##"</script>

    <script>
        const markdownSource = document.getElementById('markdown-source');
        const markdownText = markdownSource.textContent || markdownSource.innerText;

        marked.use(markedKatex({
            throwOnError: false,
            output: 'html',
            nonStandard: true
        }));

        const contentElement = document.getElementById('content');
        contentElement.innerHTML = marked.parse(markdownText);

        Prism.highlightAllUnder(contentElement);

        (function() {
            var el = document.getElementById('font-debug');
            if (!el) return;
            document.fonts.ready.then(function() {
                function check(family) {
                    try {
                        var q = family.indexOf(' ') >= 0 ? '"' + family + '"' : family;
                        return document.fonts.check('12px ' + q) ? '\u2713' : '\u2717';
                    } catch(e) { return '?'; }
                }
                var roles = [
                    {label: 'Body (Sans)', sel: 'body'},
                    {label: 'Code (Mono)', sel: 'code'},
                    {label: 'Math', sel: '.katex'}
                ];
                var html = '<table><tr><th>Role</th><th>Font Checks</th></tr>';
                roles.forEach(function(r) {
                    var target = document.querySelector(r.sel);
                    if (!target) return;
                    var stack = getComputedStyle(target).fontFamily;
                    var fonts = stack.split(',').map(function(f) {
                        return f.trim().replace(/["']/g, '');
                    });
                    var seen = {};
                    var unique = fonts.filter(function(f) { return seen[f] ? false : (seen[f] = true); });
                    var checks = unique.map(function(f) {
                        return f + ' ' + check(f);
                    }).join(' \u2192 ');
                    html += '<tr><td>' + r.label + '</td><td style="font-size:0.85em">' + checks + '</td></tr>';
                });
                html += '</table>';
                el.innerHTML = html;
            });
        })();
    </script>
</body>
</html>"##;

/// The parts of the page, in order.
pub open spec fn page_parts(
    markdown_content: Seq<char>,
    font_sans: Seq<Seq<char>>,
    font_mono: Seq<Seq<char>>,
    font_math: Seq<Seq<char>>,
    katex_font_css: Seq<char>,
    debug: bool,
    theme: Theme,
    assets: PageAssets,
) -> Seq<Seq<char>> {
    seq![
        PAGE_HEAD@,
        katex_font_css,
        PRISM_STYLE_OPEN@,
        assets.prism_css@,
        KATEX_STYLE_OPEN@,
        assets.katex_css@,
        PAGE_STYLE_OPEN@,
        ROOT_VARS_OPEN@,
        css_vars_text(theme),
        FONT_SANS_DECL@,
        css_font_family_text(font_sans),
        FONT_MATH_DECL@,
        css_font_family_text(font_math),
        FONT_MONO_DECL@,
        css_font_family_text(font_mono),
        PAGE_BODY@,
        MARKDOWN_SOURCE_OPEN@,
        markdown_section(markdown_content, debug),
        SCRIPT_GAP_WIDE@,
        assets.marked_js@,
        SCRIPT_GAP_WIDE@,
        assets.katex_js@,
        SCRIPT_GAP_WIDE@,
        assets.marked_katex_js@,
        SCRIPT_GAP_WIDE@,
        assets.prism_js@,
        SCRIPT_GAP_WIDE@,
        assets.prism_c@,
        SCRIPT_GAP@,
        assets.prism_cpp@,
        SCRIPT_GAP@,
        assets.prism_python@,
        SCRIPT_GAP@,
        assets.prism_rust@,
        SCRIPT_GAP@,
        assets.prism_javascript@,
        SCRIPT_GAP@,
        assets.prism_typescript@,
        SCRIPT_GAP@,
        assets.prism_bash@,
        SCRIPT_GAP@,
        assets.prism_json@,
        SCRIPT_GAP@,
        assets.prism_markdown@,
        SCRIPT_GAP@,
        assets.prism_yaml@,
        SCRIPT_GAP@,
        assets.prism_sql@,
        SCRIPT_GAP@,
        assets.prism_java@,
        SCRIPT_GAP@,
        assets.prism_go@,
        PAGE_TAIL@,
    ]
}

/// The whole page.
pub open spec fn html_page(
    markdown_content: Seq<char>,
    font_sans: Seq<Seq<char>>,
    font_mono: Seq<Seq<char>>,
    font_math: Seq<Seq<char>>,
    katex_font_css: Seq<char>,
    debug: bool,
    theme: Theme,
    assets: PageAssets,
) -> Seq<char> {
    concat(
        page_parts(
            markdown_content,
            font_sans,
            font_mono,
            font_math,
            katex_font_css,
            debug,
            theme,
            assets,
        ),
    )
}

/// The self-contained HTML page that renders `markdown_content` in the
/// browser with the given font stacks, KaTeX font faces, color scheme and
/// bundled assets.
pub fn generate_html_template(
    markdown_content: &str,
    font_sans: &[String],
    font_mono: &[String],
    font_math: &[String],
    katex_font_css: &str,
    debug: bool,
    theme: &Theme,
    assets: &PageAssets,
) -> (res: String)
    ensures
        res@ == html_page(
            markdown_content@,
            font_sans.deep_view(),
            font_mono.deep_view(),
            font_math.deep_view(),
            katex_font_css@,
            debug,
            *theme,
            *assets,
        ),
{
    let mut safe_content = escape_markdown(markdown_content);
    if debug {
        safe_content.append(DEBUG_SECTION);
    }
    assert(safe_content@ =~= markdown_section(markdown_content@, debug));
    let sans_family = css_font_family(font_sans);
    let mono_family = css_font_family(font_mono);
    let math_family = css_font_family(font_math);
    let theme_vars = theme.css_vars();
    let parts: Vec<&str> = vec![
        PAGE_HEAD,
        katex_font_css,
        PRISM_STYLE_OPEN,
        assets.prism_css,
        KATEX_STYLE_OPEN,
        assets.katex_css,
        PAGE_STYLE_OPEN,
        ROOT_VARS_OPEN,
        theme_vars.as_str(),
        FONT_SANS_DECL,
        sans_family.as_str(),
        FONT_MATH_DECL,
        math_family.as_str(),
        FONT_MONO_DECL,
        mono_family.as_str(),
        PAGE_BODY,
        MARKDOWN_SOURCE_OPEN,
        safe_content.as_str(),
        SCRIPT_GAP_WIDE,
        assets.marked_js,
        SCRIPT_GAP_WIDE,
        assets.katex_js,
        SCRIPT_GAP_WIDE,
        assets.marked_katex_js,
        SCRIPT_GAP_WIDE,
        assets.prism_js,
        SCRIPT_GAP_WIDE,
        assets.prism_c,
        SCRIPT_GAP,
        assets.prism_cpp,
        SCRIPT_GAP,
        assets.prism_python,
        SCRIPT_GAP,
        assets.prism_rust,
        SCRIPT_GAP,
        assets.prism_javascript,
        SCRIPT_GAP,
        assets.prism_typescript,
        SCRIPT_GAP,
        assets.prism_bash,
        SCRIPT_GAP,
        assets.prism_json,
        SCRIPT_GAP,
        assets.prism_markdown,
        SCRIPT_GAP,
        assets.prism_yaml,
        SCRIPT_GAP,
        assets.prism_sql,
        SCRIPT_GAP,
        assets.prism_java,
        SCRIPT_GAP,
        assets.prism_go,
        PAGE_TAIL,
    ];
    assert(parts@.map_values(|p: &str| p@) =~= page_parts(
        markdown_content@,
        font_sans.deep_view(),
        font_mono.deep_view(),
        font_math.deep_view(),
        katex_font_css@,
        debug,
        *theme,
        *assets,
    ));
    concat_strs(&parts)
}

/// One KaTeX font: its family, weight and style, and the bytes of its woff2 file.
pub struct KatexFont {
    pub family: String,
    pub weight: u16,
    pub style: String,
    pub data: Vec<u8>,
}

/// The KaTeX font families, one per font file, in the order of the rules.
pub const KATEX_FONT_FAMILIES: [&'static str; 20] = [
    "KaTeX_AMS",
    "KaTeX_Caligraphic",
    "KaTeX_Caligraphic",
    "KaTeX_Fraktur",
    "KaTeX_Fraktur",
    "KaTeX_Main",
    "KaTeX_Main",
    "KaTeX_Main",
    "KaTeX_Main",
    "KaTeX_Math",
    "KaTeX_Math",
    "KaTeX_SansSerif",
    "KaTeX_SansSerif",
    "KaTeX_SansSerif",
    "KaTeX_Script",
    "KaTeX_Size1",
    "KaTeX_Size2",
    "KaTeX_Size3",
    "KaTeX_Size4",
    "KaTeX_Typewriter",
];

/// The weight of each KaTeX font, in the order of `KATEX_FONT_FAMILIES`.
pub const KATEX_FONT_WEIGHTS: [u16; 20] = [
    400,
    700,
    400,
    700,
    400,
    700,
    700,
    400,
    400,
    700,
    400,
    700,
    400,
    400,
    400,
    400,
    400,
    400,
    400,
    400,
];

/// The style of each KaTeX font, in the order of `KATEX_FONT_FAMILIES`.
pub const KATEX_FONT_STYLES: [&'static str; 20] = [
    "normal",
    "normal",
    "normal",
    "normal",
    "normal",
    "normal",
    "italic",
    "italic",
    "normal",
    "italic",
    "italic",
    "normal",
    "italic",
    "normal",
    "normal",
    "normal",
    "normal",
    "normal",
    "normal",
    "normal",
];

/// The KaTeX fonts of the page: the families, weights and styles of the
/// table above, each with the contents of its woff2 file, given in table order.
pub fn katex_fonts(data: Vec<Vec<u8>>) -> (res: Vec<KatexFont>)
    requires
        data.len() == 20,
    ensures
        res.len() == 20,
        forall|i: int|
            0 <= i < 20 ==> #[trigger] res@[i].family@ == KATEX_FONT_FAMILIES@[i]@
                && res@[i].weight == KATEX_FONT_WEIGHTS@[i] && res@[i].style@
                == KATEX_FONT_STYLES@[i]@ && res@[i].data@ == data@[i]@,
{
    let mut res: Vec<KatexFont> = Vec::new();
    let mut data = data;
    let ghost orig = data@;
    let mut i: usize = 0;
    while i < 20
        invariant
            i <= 20,
            res.len() == i,
            data.len() == 20 - i,
            orig.len() == 20,
            forall|k: int| 0 <= k < data.len() ==> data@[k] == orig[k + i],
            forall|k: int|
                0 <= k < i ==> #[trigger] res@[k].family@ == KATEX_FONT_FAMILIES@[k]@
                    && res@[k].weight == KATEX_FONT_WEIGHTS@[k] && res@[k].style@
                    == KATEX_FONT_STYLES@[k]@ && res@[k].data@ == orig[k]@,
        decreases 20 - i,
    {
        let bytes = data.remove(0);
        let ghost prev = res@;
        res.push(KatexFont {
            family: KATEX_FONT_FAMILIES[i].to_string(),
            weight: KATEX_FONT_WEIGHTS[i],
            style: KATEX_FONT_STYLES[i].to_string(),
            data: bytes,
        });
        assert forall|k: int| 0 <= k < i implies res@[k] == prev[k] by {}
        i = i + 1;
    }
    res
}

/// Calls `STANDARD.encode` of the `base64` crate, which encodes with the
/// standard alphabet and `=` padding. The contract states that encoding, as
/// RFC 4648 defines it, in `base64_standard`.
#[verifier::external_body]
fn encode_base64(data: &[u8]) -> (res: String)
    ensures
        res@ == base64_standard(data@),
{
    base64::engine::general_purpose::STANDARD.encode(data)
}

/// The `@font-face` rule of a font whose file is embedded as the base64 text `encoded`.
pub open spec fn font_face_text(
    family: Seq<char>,
    weight: u16,
    style: Seq<char>,
    encoded: Seq<char>,
) -> Seq<char> {
    "@font-face{font-family:"@ + family + ";font-style:"@ + style + ";font-weight:"@ + decimal(
        weight as nat,
    ) + ";src:url(data:font/woff2;base64,"@ + encoded + ")format(\"woff2\")}"@
}

/// The `@font-face` rule of a KaTeX font.
pub open spec fn katex_font_face_text(font: KatexFont) -> Seq<char> {
    font_face_text(font.family@, font.weight, font.style@, base64_standard(font.data@))
}

/// The `@font-face` rules of all fonts, in order.
pub open spec fn katex_font_faces_text(fonts: Seq<KatexFont>) -> Seq<char> {
    concat(fonts.map_values(|f: KatexFont| katex_font_face_text(f)))
}

/// The `@font-face` rule of a font whose woff2 file is embedded as the base64
/// text `encoded`.
pub fn font_face_rule(family: &str, weight: u16, style: &str, encoded: &str) -> (res: String)
    ensures
        res@ == font_face_text(family@, weight, style@, encoded@),
{
    let mut s = String::new();
    s.append("@font-face{font-family:");
    s.append(family);
    s.append(";font-style:");
    s.append(style);
    s.append(";font-weight:");
    let w = decimal_string(weight as u64);
    s.append(w.as_str());
    s.append(";src:url(data:font/woff2;base64,");
    s.append(encoded);
    s.append(")format(\"woff2\")}");
    assert(s@ =~= font_face_text(family@, weight, style@, encoded@));
    s
}

/// The `@font-face` rule of a KaTeX font, with its file embedded as a data URI.
pub fn katex_font_face(font: &KatexFont) -> (res: String)
    ensures
        res@ == katex_font_face_text(*font),
{
    let encoded = encode_base64(font.data.as_slice());
    font_face_rule(font.family.as_str(), font.weight, font.style.as_str(), encoded.as_str())
}

/// The `@font-face` rules of all KaTeX fonts, in order, with every font file
/// embedded as a data URI.
pub fn generate_katex_font_faces(fonts: &[KatexFont]) -> (res: String)
    ensures
        res@ == katex_font_faces_text(fonts@),
{
    let ghost views = fonts@.map_values(|f: KatexFont| katex_font_face_text(f));
    let mut css = String::new();
    let mut i: usize = 0;
    while i < fonts.len()
        invariant
            i <= fonts.len(),
            views == fonts@.map_values(|f: KatexFont| katex_font_face_text(f)),
            css@ == concat(views.take(i as int)),
        decreases fonts.len() - i,
    {
        let rule = katex_font_face(&fonts[i]);
        css.append(rule.as_str());
        assert(views.take(i + 1).drop_last() =~= views.take(i as int));
        i = i + 1;
    }
    assert(views.take(fonts.len() as int) =~= views);
    css
}

/// Where the replacement output begins with `n` characters none of which is
/// `<`, those characters are the first `n` of the input: every inserted
/// `<\/script>` starts with `<`.
proof fn lemma_escape_prefix(t: Seq<char>, n: int)
    requires
        0 <= n <= escape_script_end(t).len(),
        forall|j: int| 0 <= j < n ==> escape_script_end(t)[j] != '<',
    ensures
        n <= t.len(),
        t.take(n) == escape_script_end(t).take(n),
    decreases t.len(),
{
    reveal_strlit("</script>");
    reveal_strlit("<\\/script>");
    let p = SCRIPT_END_TAG@;
    let r = ESCAPED_SCRIPT_END_TAG@;
    let out = escape_script_end(t);
    if t.len() < p.len() {
        assert(t.take(n) =~= out.take(n));
    } else if t.take(p.len() as int) == p {
        assert(out == r + escape_script_end(t.skip(p.len() as int)));
        if n > 0 {
            assert(out[0] == '<');
        }
        assert(t.take(n) =~= out.take(n));
    } else {
        let rest = t.skip(1);
        assert(out == seq![t[0]] + escape_script_end(rest));
        if n > 0 {
            assert forall|j: int| 0 <= j < n - 1 implies escape_script_end(rest)[j] != '<' by {
                assert(out[j + 1] == escape_script_end(rest)[j]);
            }
            lemma_escape_prefix(rest, n - 1);
            assert(t.take(n) =~= seq![t[0]] + rest.take(n - 1));
            assert(out.take(n) =~= seq![t[0]] + escape_script_end(rest).take(n - 1));
        } else {
            assert(t.take(n) =~= out.take(n));
        }
    }
}

/// The escaped source holds no `</script>`.
proof fn lemma_escape_closes_nothing(s: Seq<char>)
    ensures
        forall|k: int| !occurs_at(escape_script_end(s), SCRIPT_END_TAG@, k),
    decreases s.len(),
{
    reveal_strlit("</script>");
    reveal_strlit("<\\/script>");
    let p = SCRIPT_END_TAG@;
    let r = ESCAPED_SCRIPT_END_TAG@;
    let out = escape_script_end(s);
    if s.len() < p.len() {
    } else if s.take(p.len() as int) == p {
        let rest = s.skip(p.len() as int);
        lemma_escape_closes_nothing(rest);
        assert(out == r + escape_script_end(rest));
        assert forall|k: int| !occurs_at(out, p, k) by {
            if occurs_at(out, p, k) {
                assert(out.subrange(k, k + 9)[0] == '<');
                assert(out.subrange(k, k + 9)[1] == '/');
                if k >= 10 {
                    assert(escape_script_end(rest).subrange(k - 10, k - 1) =~= out.subrange(
                        k,
                        k + 9,
                    ));
                    assert(occurs_at(escape_script_end(rest), p, k - 10));
                } else {
                    assert(out[k] == r[k]);
                    assert(out[k + 1] == '/');
                    if k + 1 < 10 {
                        assert(out[k + 1] == r[k + 1]);
                    }
                }
            }
        }
    } else {
        let rest = s.skip(1);
        lemma_escape_closes_nothing(rest);
        let tail = escape_script_end(rest);
        assert(out == seq![s[0]] + tail);
        assert forall|k: int| !occurs_at(out, p, k) by {
            if occurs_at(out, p, k) {
                if k >= 1 {
                    assert(tail.subrange(k - 1, k + 8) =~= out.subrange(k, k + 9));
                    assert(occurs_at(tail, p, k - 1));
                } else {
                    assert forall|j: int| 0 <= j < 8 implies tail[j] != '<' by {
                        assert(tail[j] == out.subrange(0, 9)[j + 1]);
                    }
                    lemma_escape_prefix(rest, 8);
                    assert(s.take(9) =~= seq![s[0]] + rest.take(8));
                    assert(out.take(9) =~= seq![s[0]] + tail.take(8));
                    assert(s.take(9) =~= p);
                }
            }
        }
    }
}

/// The Markdown source, once escaped and with the optional debug section,
/// holds no `</script>`: whatever the document says, it cannot close the
/// script element that carries it into the page.
pub proof fn law_markdown_cannot_close_its_element(markdown: Seq<char>, debug: bool)
    ensures
        !contains_seq(markdown_section(markdown, debug), SCRIPT_END_TAG@),
{
    reveal_strlit("</script>");
    reveal_strlit("\n\n---\n\n## Debug: Font Information\n\n<div id=\"font-debug\"><noscript>JavaScript required.</noscript></div>\n");
    lemma_escape_closes_nothing(markdown);
    let p = SCRIPT_END_TAG@;
    let e = escape_script_end(markdown);
    let d: Seq<char> = if debug {
        DEBUG_SECTION@
    } else {
        Seq::empty()
    };
    let all = markdown_section(markdown, debug);
    assert(all == e + d);
    assert forall|k: int| !occurs_at(all, p, k) by {
        if occurs_at(all, p, k) {
            let w = all.subrange(k, k + 9);
            if k + 9 <= e.len() {
                assert(e.subrange(k, k + 9) =~= w);
                assert(occurs_at(e, p, k));
            } else if k < e.len() {
                let j = e.len() - k;
                assert(w[j] == d[0]);
                assert(d[0] == '\n');
            } else {
                let q = k - e.len();
                assert(debug);
                assert(d.len() > q + 8);
                assert(d.subrange(q, q + 9) =~= w);
                assert(w[0] == '<' && w[1] == '/' && w[2] == 's');
                assert(d[q] == '<' && d[q + 1] == '/' && d[q + 2] == 's');
            }
        }
    }
}

/// The page is its text before the Markdown section, the section, and its
/// text after; the text before ends with `>` and the text after starts with `<`.
proof fn lemma_page_around_markdown(
    markdown_content: Seq<char>,
    font_sans: Seq<Seq<char>>,
    font_mono: Seq<Seq<char>>,
    font_math: Seq<Seq<char>>,
    katex_font_css: Seq<char>,
    debug: bool,
    theme: Theme,
    assets: PageAssets,
)
    ensures
        ({
            let parts = page_parts(
                markdown_content,
                font_sans,
                font_mono,
                font_math,
                katex_font_css,
                debug,
                theme,
                assets,
            );
            let before = concat(parts.take(17));
            let after = concat(parts.skip(18));
            &&& html_page(
                markdown_content,
                font_sans,
                font_mono,
                font_math,
                katex_font_css,
                debug,
                theme,
                assets,
            ) == before + markdown_section(markdown_content, debug) + after
            &&& before.len() > 0 && before.last() == '>'
            &&& after.len() > 0 && after[0] == '<'
        }),
{
    reveal_strlit("<script id=\"markdown-source\" type=\"text/plain\">");
    reveal_strlit("</script>\n\n    <script>");
    let parts = page_parts(
        markdown_content,
        font_sans,
        font_mono,
        font_math,
        katex_font_css,
        debug,
        theme,
        assets,
    );
    lemma_concat_around(parts, 17);
    let pre = parts.take(17);
    assert(pre.last() == MARKDOWN_SOURCE_OPEN@);
    assert(concat(pre) == concat(pre.drop_last()) + pre.last());
    let post = parts.skip(18);
    lemma_concat_around(post, 0);
    assert(post[0] == SCRIPT_GAP_WIDE@);
    assert(post.take(0) =~= Seq::<Seq<char>>::empty());
    assert(concat(post) == concat(post.take(0)) + post[0] + concat(post.skip(1)));
    assert(concat(post)[0] == post[0][0]);
}

/// The Markdown source adds no `</script>` to the page: the page holds as
/// many end tags whatever the source says, so the source can never end the
/// element that carries it.
pub proof fn law_markdown_adds_no_script_end(
    m1: Seq<char>,
    m2: Seq<char>,
    font_sans: Seq<Seq<char>>,
    font_mono: Seq<Seq<char>>,
    font_math: Seq<Seq<char>>,
    katex_font_css: Seq<char>,
    debug: bool,
    theme: Theme,
    assets: PageAssets,
)
    ensures
        count_occurrences(
            html_page(m1, font_sans, font_mono, font_math, katex_font_css, debug, theme, assets),
            SCRIPT_END_TAG@,
        ) == count_occurrences(
            html_page(m2, font_sans, font_mono, font_math, katex_font_css, debug, theme, assets),
            SCRIPT_END_TAG@,
        ),
{
    let p1 = page_parts(m1, font_sans, font_mono, font_math, katex_font_css, debug, theme, assets);
    let p2 = page_parts(m2, font_sans, font_mono, font_math, katex_font_css, debug, theme, assets);
    assert(p1.take(17) =~= p2.take(17));
    assert(p1.skip(18) =~= p2.skip(18));
    lemma_page_count(m1, font_sans, font_mono, font_math, katex_font_css, debug, theme, assets);
    lemma_page_count(m2, font_sans, font_mono, font_math, katex_font_css, debug, theme, assets);
}

/// The end tags of the page are those of its text before and after the
/// Markdown section.
proof fn lemma_page_count(
    m: Seq<char>,
    font_sans: Seq<Seq<char>>,
    font_mono: Seq<Seq<char>>,
    font_math: Seq<Seq<char>>,
    katex_font_css: Seq<char>,
    debug: bool,
    theme: Theme,
    assets: PageAssets,
)
    ensures
        ({
            let parts = page_parts(
                m,
                font_sans,
                font_mono,
                font_math,
                katex_font_css,
                debug,
                theme,
                assets,
            );
            count_occurrences(
                html_page(m, font_sans, font_mono, font_math, katex_font_css, debug, theme, assets),
                SCRIPT_END_TAG@,
            ) == count_occurrences(concat(parts.take(17)), SCRIPT_END_TAG@) + count_occurrences(
                concat(parts.skip(18)),
                SCRIPT_END_TAG@,
            )
        }),
{
    reveal_strlit("</script>");
    let p = SCRIPT_END_TAG@;
    let parts = page_parts(m, font_sans, font_mono, font_math, katex_font_css, debug, theme, assets);
    let before = concat(parts.take(17));
    let after = concat(parts.skip(18));
    let sec = markdown_section(m, debug);
    lemma_page_around_markdown(m, font_sans, font_mono, font_math, katex_font_css, debug, theme, assets);
    law_markdown_cannot_close_its_element(m, debug);
    lemma_count_none(sec, p);
    let rest = sec + after;
    assert forall|k: int|
        0 <= k < sec.len() && k + p.len() > sec.len() implies !occurs_at(sec + after, p, k) by {
        if occurs_at(sec + after, p, k) {
            let j = sec.len() - k;
            assert((sec + after).subrange(k, k + 9)[j] == p[j]);
            assert((sec + after)[sec.len() as int] == after[0]);
        }
    }
    lemma_count_concat(sec, after, p);
    assert forall|k: int|
        0 <= k < before.len() && k + p.len() > before.len() implies !occurs_at(
        before + rest,
        p,
        k,
    ) by {
        if occurs_at(before + rest, p, k) {
            let j = before.len() - 1 - k;
            assert((before + rest).subrange(k, k + 9)[j] == p[j]);
            assert((before + rest)[before.len() - 1] == before.last());
        }
    }
    lemma_count_concat(before, rest, p);
    assert(before + sec + after =~= before + rest);
}

/// The page declares the colors of the theme it was given, in the order of
/// the theme's fields.
pub proof fn law_page_uses_theme_colors(
    markdown_content: Seq<char>,
    font_sans: Seq<Seq<char>>,
    font_mono: Seq<Seq<char>>,
    font_math: Seq<Seq<char>>,
    katex_font_css: Seq<char>,
    debug: bool,
    theme: Theme,
    assets: PageAssets,
)
    ensures
        contains_seq(
            html_page(
                markdown_content,
                font_sans,
                font_mono,
                font_math,
                katex_font_css,
                debug,
                theme,
                assets,
            ),
            css_vars_text(theme),
        ),
{
    let parts = page_parts(
        markdown_content,
        font_sans,
        font_mono,
        font_math,
        katex_font_css,
        debug,
        theme,
        assets,
    );
    lemma_concat_around(parts, 8);
    let pre = concat(parts.take(8));
    let page = html_page(
        markdown_content,
        font_sans,
        font_mono,
        font_math,
        katex_font_css,
        debug,
        theme,
        assets,
    );
    assert(parts[8] == css_vars_text(theme));
    assert(page.subrange(pre.len() as int, (pre.len() + parts[8].len()) as int) =~= parts[8]);
    assert(occurs_at(page, css_vars_text(theme), pre.len() as int));
}

/// Each KaTeX rule embeds its font losslessly: the rule is its header up to
/// `base64,`, then a text that decodes back to the font's bytes and holds no
/// `)`, then `)format("woff2")}`; so the data URI ends at the first `)`.
pub proof fn law_font_face_embeds_font_losslessly(font: KatexFont)
    ensures
        ({
            let encoded = base64_standard(font.data@);
            &&& katex_font_face_text(font) == "@font-face{font-family:"@ + font.family@
                + ";font-style:"@ + font.style@ + ";font-weight:"@ + decimal(font.weight as nat)
                + ";src:url(data:font/woff2;base64,"@ + encoded + ")format(\"woff2\")}"@
            &&& base64_decode(encoded) == font.data@
            &&& !encoded.contains(')')
        }),
{
    law_base64_round_trip(font.data@);
    law_base64_alphabet(font.data@);
    let encoded = base64_standard(font.data@);
    if encoded.contains(')') {
        let i = choose|i: int| 0 <= i < encoded.len() && encoded[i] == ')';
        assert(is_b64_output_char(encoded[i]));
    }
}

/// A CSS font-family value lists every family of the stack, one entry per
/// family and in order, separated by `, `: each entry is the family itself,
/// or the family in double quotes; a generic family or one without a space is
/// never quoted, and any other family is.
pub proof fn law_css_family_lists_every_font(fonts: Seq<Seq<char>>)
    ensures
        exists|entries: Seq<Seq<char>>|
            {
                &&& entries.len() == fonts.len()
                &&& forall|i: int|
                    0 <= i < fonts.len() ==> (#[trigger] entries[i] == fonts[i] || entries[i]
                        == "\""@ + fonts[i] + "\""@)
                &&& forall|i: int|
                    0 <= i < fonts.len() && !fonts[i].contains(' ') ==> #[trigger] entries[i]
                        == fonts[i]
                &&& forall|i: int|
                    0 <= i < fonts.len() && strs_view(GENERIC_FAMILIES@).contains(fonts[i])
                        ==> #[trigger] entries[i] == fonts[i]
                &&& forall|i: int|
                    0 <= i < fonts.len() && fonts[i].contains(' ') && !strs_view(
                        GENERIC_FAMILIES@,
                    ).contains(fonts[i]) ==> #[trigger] entries[i] == "\""@ + fonts[i] + "\""@
                &&& css_font_family_text(fonts) == join(entries, ", "@)
            },
{
    let entries = fonts.map_values(|f: Seq<char>| family_entry(f));
    assert(entries.len() == fonts.len());
    assert(css_font_family_text(fonts) == join(entries, ", "@));
}

/// Every family of the stack appears in its CSS font-family value.
pub proof fn law_css_family_shows_each_font(fonts: Seq<Seq<char>>, i: int)
    requires
        0 <= i < fonts.len(),
    ensures
        contains_seq(css_font_family_text(fonts), fonts[i]),
{
    reveal_strlit("\"");
    let entries = fonts.map_values(|f: Seq<char>| family_entry(f));
    lemma_join_contains(entries, ", "@, i);
    let e = entries[i];
    let f = fonts[i];
    if e == f {
        assert(e.subrange(0, f.len() as int) =~= f);
        assert(occurs_at(e, f, 0));
    } else {
        assert(e == "\""@ + f + "\""@);
        assert(e.subrange(1, (1 + f.len()) as int) =~= f);
        assert(occurs_at(e, f, 1));
    }
    let k = choose|k: int| occurs_at(css_font_family_text(fonts), e, k);
    lemma_contains_within(css_font_family_text(fonts), k, e, f);
}

/// The page holds every bundled asset whole in its own element, in order:
/// the KaTeX font faces, the Prism theme and the KaTeX style sheet each
/// between the tags of their style elements, and every script between the
/// tags of its script element.
pub proof fn law_page_embeds_each_asset(
    markdown_content: Seq<char>,
    font_sans: Seq<Seq<char>>,
    font_mono: Seq<Seq<char>>,
    font_math: Seq<Seq<char>>,
    katex_font_css: Seq<char>,
    debug: bool,
    theme: Theme,
    assets: PageAssets,
)
    ensures
        ({
            let page = html_page(markdown_content, font_sans, font_mono, font_math, katex_font_css, debug, theme, assets);
            &&& contains_seq(page, PAGE_HEAD@ + katex_font_css + PRISM_STYLE_OPEN@)
            &&& contains_seq(page, PRISM_STYLE_OPEN@ + assets.prism_css@ + KATEX_STYLE_OPEN@)
            &&& contains_seq(page, KATEX_STYLE_OPEN@ + assets.katex_css@ + PAGE_STYLE_OPEN@)
            &&& contains_seq(page, SCRIPT_GAP_WIDE@ + assets.marked_js@ + SCRIPT_GAP_WIDE@)
            &&& contains_seq(page, SCRIPT_GAP_WIDE@ + assets.katex_js@ + SCRIPT_GAP_WIDE@)
            &&& contains_seq(page, SCRIPT_GAP_WIDE@ + assets.marked_katex_js@ + SCRIPT_GAP_WIDE@)
            &&& contains_seq(page, SCRIPT_GAP_WIDE@ + assets.prism_js@ + SCRIPT_GAP_WIDE@)
            &&& contains_seq(page, SCRIPT_GAP_WIDE@ + assets.prism_c@ + SCRIPT_GAP@)
            &&& contains_seq(page, SCRIPT_GAP@ + assets.prism_cpp@ + SCRIPT_GAP@)
            &&& contains_seq(page, SCRIPT_GAP@ + assets.prism_python@ + SCRIPT_GAP@)
            &&& contains_seq(page, SCRIPT_GAP@ + assets.prism_rust@ + SCRIPT_GAP@)
            &&& contains_seq(page, SCRIPT_GAP@ + assets.prism_javascript@ + SCRIPT_GAP@)
            &&& contains_seq(page, SCRIPT_GAP@ + assets.prism_typescript@ + SCRIPT_GAP@)
            &&& contains_seq(page, SCRIPT_GAP@ + assets.prism_bash@ + SCRIPT_GAP@)
            &&& contains_seq(page, SCRIPT_GAP@ + assets.prism_json@ + SCRIPT_GAP@)
            &&& contains_seq(page, SCRIPT_GAP@ + assets.prism_markdown@ + SCRIPT_GAP@)
            &&& contains_seq(page, SCRIPT_GAP@ + assets.prism_yaml@ + SCRIPT_GAP@)
            &&& contains_seq(page, SCRIPT_GAP@ + assets.prism_sql@ + SCRIPT_GAP@)
            &&& contains_seq(page, SCRIPT_GAP@ + assets.prism_java@ + SCRIPT_GAP@)
            &&& contains_seq(page, SCRIPT_GAP@ + assets.prism_go@ + PAGE_TAIL@)
        }),
{
    let parts = page_parts(markdown_content, font_sans, font_mono, font_math, katex_font_css, debug, theme, assets);
    lemma_concat_contains_triple(parts, 1);
    lemma_concat_contains_triple(parts, 3);
    lemma_concat_contains_triple(parts, 5);
    lemma_concat_contains_triple(parts, 19);
    lemma_concat_contains_triple(parts, 21);
    lemma_concat_contains_triple(parts, 23);
    lemma_concat_contains_triple(parts, 25);
    lemma_concat_contains_triple(parts, 27);
    lemma_concat_contains_triple(parts, 29);
    lemma_concat_contains_triple(parts, 31);
    lemma_concat_contains_triple(parts, 33);
    lemma_concat_contains_triple(parts, 35);
    lemma_concat_contains_triple(parts, 37);
    lemma_concat_contains_triple(parts, 39);
    lemma_concat_contains_triple(parts, 41);
    lemma_concat_contains_triple(parts, 43);
    lemma_concat_contains_triple(parts, 45);
    lemma_concat_contains_triple(parts, 47);
    lemma_concat_contains_triple(parts, 49);
    lemma_concat_contains_triple(parts, 51);
}

/// The page declares each font stack under its own property, gives the
/// theme's colors, and carries the escaped Markdown source (with the debug
/// section in debug mode) whole inside its script element.
pub proof fn law_page_declares_fonts_and_source(
    markdown_content: Seq<char>,
    font_sans: Seq<Seq<char>>,
    font_mono: Seq<Seq<char>>,
    font_math: Seq<Seq<char>>,
    katex_font_css: Seq<char>,
    debug: bool,
    theme: Theme,
    assets: PageAssets,
)
    ensures
        ({
            let page = html_page(markdown_content, font_sans, font_mono, font_math, katex_font_css, debug, theme, assets);
            &&& contains_seq(page, ROOT_VARS_OPEN@ + css_vars_text(theme) + FONT_SANS_DECL@)
            &&& contains_seq(
                page,
                FONT_SANS_DECL@ + css_font_family_text(font_sans) + FONT_MATH_DECL@,
            )
            &&& contains_seq(
                page,
                FONT_MATH_DECL@ + css_font_family_text(font_math) + FONT_MONO_DECL@,
            )
            &&& contains_seq(page, FONT_MONO_DECL@ + css_font_family_text(font_mono) + PAGE_BODY@)
            &&& contains_seq(
                page,
                MARKDOWN_SOURCE_OPEN@ + (escape_script_end(markdown_content) + if debug {
                    DEBUG_SECTION@
                } else {
                    Seq::empty()
                }) + SCRIPT_GAP_WIDE@,
            )
        }),
{
    let parts = page_parts(markdown_content, font_sans, font_mono, font_math, katex_font_css, debug, theme, assets);
    lemma_concat_contains_triple(parts, 8);
    lemma_concat_contains_triple(parts, 10);
    lemma_concat_contains_triple(parts, 12);
    lemma_concat_contains_triple(parts, 14);
    lemma_concat_contains_triple(parts, 17);
}

/// The KaTeX font CSS holds the rule of every font it was given.
pub proof fn law_katex_css_has_every_font(fonts: Seq<KatexFont>, i: int)
    requires
        0 <= i < fonts.len(),
    ensures
        contains_seq(
            katex_font_faces_text(fonts),
            "@font-face{font-family:"@ + fonts[i].family@ + ";font-style:"@ + fonts[i].style@
                + ";font-weight:"@ + decimal(fonts[i].weight as nat)
                + ";src:url(data:font/woff2;base64,"@ + base64_standard(fonts[i].data@)
                + ")format(\"woff2\")}"@,
        ),
{
    let rules = fonts.map_values(|f: KatexFont| katex_font_face_text(f));
    lemma_concat_around(rules, i);
    let pre = concat(rules.take(i));
    let post = concat(rules.skip(i + 1));
    lemma_contains_middle(pre, rules[i], post);
}

} // verus!
