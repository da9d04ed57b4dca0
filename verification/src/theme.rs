//! Color schemes and the CSS custom properties they define.
use vstd::prelude::*;
use crate::text::{contains_seq, occurs_at, join, join_strings, lemma_contains_middle, str_eq};
use vstd::string::StringExecFns;

verus! {

/// A color scheme: its name and the colors of the page.
#[derive(Clone, Copy, Debug)]
pub struct Theme {
    pub name: &'static str,
    pub bg_primary: &'static str,
    pub bg_secondary: &'static str,
    pub bg_code: &'static str,
    pub text_primary: &'static str,
    pub text_secondary: &'static str,
    pub text_muted: &'static str,
    pub border_color: &'static str,
    pub accent_color: &'static str,
    pub link_color: &'static str,
    pub link_hover_color: &'static str,
}

/// Separator between two declarations of the CSS block.
pub open spec fn decl_sep() -> Seq<char> {
    ";\n            "@
}

/// The custom-property declarations of a theme, in the order of its fields.
pub open spec fn css_vars_text(t: Theme) -> Seq<char> {
    "--bg-primary: "@ + t.bg_primary@ + decl_sep() + "--bg-secondary: "@ + t.bg_secondary@
        + decl_sep() + "--bg-code: "@ + t.bg_code@ + decl_sep() + "--text-primary: "@
        + t.text_primary@ + decl_sep() + "--text-secondary: "@ + t.text_secondary@ + decl_sep()
        + "--text-muted: "@ + t.text_muted@ + decl_sep() + "--border-color: "@ + t.border_color@
        + decl_sep() + "--accent-color: "@ + t.accent_color@ + decl_sep() + "--link-color: "@
        + t.link_color@ + decl_sep() + "--link-hover-color: "@ + t.link_hover_color@
}

/// The names of all themes, in order.
pub open spec fn theme_names() -> Seq<Seq<char>> {
    theme_table().map_values(|t: Theme| t.name@)
}

/// The theme that a row of `THEME_ROWS` describes.
pub open spec fn theme_of_row(row: Seq<&'static str>) -> Theme {
    Theme {
        name: row[0],
        bg_primary: row[1],
        bg_secondary: row[2],
        bg_code: row[3],
        text_primary: row[4],
        text_secondary: row[5],
        text_muted: row[6],
        border_color: row[7],
        accent_color: row[8],
        link_color: row[9],
        link_hover_color: row[10],
    }
}

/// The built-in themes, in order.
pub open spec fn theme_table() -> Seq<Theme> {
    THEME_ROWS@.map_values(|r: [&'static str; 11]| theme_of_row(r@))
}

/// Builds the theme that `row` describes.
fn theme_from_row(row: &[&'static str; 11]) -> (res: Theme)
    ensures
        res == theme_of_row(row@),
{
    Theme {
        name: row[0],
        bg_primary: row[1],
        bg_secondary: row[2],
        bg_code: row[3],
        text_primary: row[4],
        text_secondary: row[5],
        text_muted: row[6],
        border_color: row[7],
        accent_color: row[8],
        link_color: row[9],
        link_hover_color: row[10],
    }
}

/// The built-in themes, gruvbox-light first.
pub fn themes() -> (res: Vec<Theme>)
    ensures
        res@ == theme_table(),
{
    let mut res: Vec<Theme> = Vec::new();
    let mut i: usize = 0;
    while i < 5
        invariant
            i <= 5,
            res@ == theme_table().take(i as int),
        decreases 5 - i,
    {
        res.push(theme_from_row(&THEME_ROWS[i]));
        i = i + 1;
        assert(res@ =~= theme_table().take(i as int));
    }
    assert(theme_table().take(5) =~= theme_table());
    res
}

impl Theme {
    /// The theme called `name`, if any.
    pub fn by_name(name: &str) -> (res: Option<Theme>)
        ensures
            res is Some <==> theme_names().contains(name@),
            res matches Some(t) ==> t.name@ == name@ && exists|i: int|
                0 <= i < 5 && theme_table()[i] == t && forall|j: int|
                    0 <= j < i ==> theme_table()[j].name@ != name@,
    {
        let themes = themes();
        let mut i: usize = 0;
        while i < 5
            invariant
                i <= 5,
                themes@ == theme_table(),
                forall|j: int| 0 <= j < i ==> theme_table()[j].name@ != name@,
            decreases 5 - i,
        {
            if str_eq(themes[i].name, name) {
                assert(theme_names()[i as int] == name@);
                return Some(themes[i]);
            }
            i = i + 1;
        }
        assert forall|k: int| 0 <= k < theme_names().len() implies theme_names()[k] != name@ by {
            assert(theme_table()[k].name@ != name@);
        }
        None
    }

    /// The CSS custom-property declarations of this theme.
    pub fn css_vars(&self) -> (res: String)
        ensures
            res@ == css_vars_text(*self),
    {
        let mut s = String::new();
        s.append("--bg-primary: ");
        s.append(self.bg_primary);
        s.append(";\n            --bg-secondary: ");
        s.append(self.bg_secondary);
        s.append(";\n            --bg-code: ");
        s.append(self.bg_code);
        s.append(";\n            --text-primary: ");
        s.append(self.text_primary);
        s.append(";\n            --text-secondary: ");
        s.append(self.text_secondary);
        s.append(";\n            --text-muted: ");
        s.append(self.text_muted);
        s.append(";\n            --border-color: ");
        s.append(self.border_color);
        s.append(";\n            --accent-color: ");
        s.append(self.accent_color);
        s.append(";\n            --link-color: ");
        s.append(self.link_color);
        s.append(";\n            --link-hover-color: ");
        s.append(self.link_hover_color);
        proof {
            reveal_strlit(";\n            --bg-secondary: ");
            reveal_strlit(";\n            --bg-code: ");
            reveal_strlit(";\n            --text-primary: ");
            reveal_strlit(";\n            --text-secondary: ");
            reveal_strlit(";\n            --text-muted: ");
            reveal_strlit(";\n            --border-color: ");
            reveal_strlit(";\n            --accent-color: ");
            reveal_strlit(";\n            --link-color: ");
            reveal_strlit(";\n            --link-hover-color: ");
            reveal_strlit(";\n            ");
            reveal_strlit("--bg-secondary: ");
            reveal_strlit("--bg-code: ");
            reveal_strlit("--text-primary: ");
            reveal_strlit("--text-secondary: ");
            reveal_strlit("--text-muted: ");
            reveal_strlit("--border-color: ");
            reveal_strlit("--accent-color: ");
            reveal_strlit("--link-color: ");
            reveal_strlit("--link-hover-color: ");
        }
        assert(s@ =~= css_vars_text(*self));
        s
    }

    /// The names of all themes, in order.
    pub fn available_names() -> (res: Vec<&'static str>)
        ensures
            res@.map_values(|n: &'static str| n@) == theme_names(),
    {
        let themes = themes();
        let mut names: Vec<&'static str> = Vec::new();
        let mut i: usize = 0;
        while i < 5
            invariant
                i <= 5,
                themes@ == theme_table(),
                names@.map_values(|n: &'static str| n@) == theme_names().take(i as int),
            decreases 5 - i,
        {
            let ghost prev = names@;
            names.push(themes[i].name);
            assert(names@.map_values(|n: &'static str| n@) =~= prev.map_values(
                |n: &'static str| n@,
            ).push(theme_table()[i as int].name@));
            i = i + 1;
            assert(names@.map_values(|n: &'static str| n@) =~= theme_names().take(i as int));
        }
        assert(theme_names().take(5) =~= theme_names());
        names
    }
}

/// The built-in themes, gruvbox-light first: one row per theme, holding its
/// name and then its colors in the order of the fields of `Theme`.
pub const THEME_ROWS: [[&'static str; 11]; 5] = [
    [
        "gruvbox-light",
        "#fbf1c7",
        "#ebdbb2",
        "#282828",
        "#3c3836",
        "#504945",
        "#7c6f64",
        "#d5c4a1",
        "#d65d0e",
        "#458588",
        "#076678",
    ],
    [
        "gruvbox-dark",
        "#282828",
        "#3c3836",
        "#1d2021",
        "#ebdbb2",
        "#d5c4a1",
        "#928374",
        "#504945",
        "#d65d0e",
        "#83a598",
        "#458588",
    ],
    [
        "nord",
        "#2e3440",
        "#3b4252",
        "#1e222a",
        "#eceff4",
        "#d8dee9",
        "#7b88a1",
        "#4c566a",
        "#bf616a",
        "#88c0d0",
        "#81a1c1",
    ],
    [
        "catppuccin-latte",
        "#eff1f5",
        "#e6e9ef",
        "#dce0e8",
        "#4c4f69",
        "#5c5f77",
        "#9ca0b0",
        "#ccd0da",
        "#fe640b",
        "#1e66f5",
        "#04a5e5",
    ],
    [
        "catppuccin-mocha",
        "#1e1e2e",
        "#313244",
        "#11111b",
        "#cdd6f4",
        "#bac2de",
        "#7f849c",
        "#45475a",
        "#fab387",
        "#89b4fa",
        "#89dceb",
    ],
];

/// No two themes share a name, so a name selects at most one theme.
pub proof fn law_theme_names_distinct()
    ensures
        theme_names().no_duplicates(),
{
    reveal_strlit("gruvbox-light");
    reveal_strlit("gruvbox-dark");
    reveal_strlit("nord");
    reveal_strlit("catppuccin-latte");
    reveal_strlit("catppuccin-mocha");
    let n = theme_names();
    assert(n.len() == 5);
    assert forall|i: int, j: int| 0 <= i < n.len() && 0 <= j < n.len() && i != j implies n[i]
        != n[j] by {
        assert(n[i].len() != n[j].len() || n[i][11] != n[j][11]);
    }
}

/// The name of the theme at index `i` belongs to that theme alone, so
/// `by_name` given it returns that theme.
pub proof fn law_name_selects_one_theme(i: int)
    requires
        0 <= i < 5,
    ensures
        forall|j: int| 0 <= j < 5 && theme_table()[j].name@ == theme_names()[i] ==> j == i,
{
    law_theme_names_distinct();
    assert forall|j: int| 0 <= j < 5 && theme_table()[j].name@ == theme_names()[i] implies j
        == i by {
        assert(theme_names()[j] == theme_table()[j].name@);
    }
}

/// The color scheme used when none is asked for.
pub const DEFAULT_THEME: &'static str = "gruvbox-light";

/// The name of the scheme in force: the one given on the command line, else
/// the one of the configuration file, else the default.
pub open spec fn chosen_scheme(cli: Option<Seq<char>>, configured: Option<Seq<char>>) -> Seq<
    char,
> {
    match cli {
        Some(n) => n,
        None => match configured {
            Some(n) => n,
            None => DEFAULT_THEME@,
        },
    }
}

/// The error for an unknown scheme name: it lists the available schemes.
pub open spec fn unknown_scheme_text(name: Seq<char>) -> Seq<char> {
    "Unknown color scheme '"@ + name + "'. Available schemes: "@ + join(theme_names(), ", "@)
}

/// The view of an optional string slice.
pub open spec fn opt_view(s: Option<&str>) -> Option<Seq<char>> {
    match s {
        Some(x) => Some(x@),
        None => None,
    }
}

/// The theme to render with, from the `--colorscheme` argument and the
/// `colorscheme` of the configuration file, the argument taking precedence
/// and gruvbox-light applying when neither is given; an unknown name gives
/// an error that lists the available schemes.
pub fn select_theme(cli: Option<&str>, configured: Option<&str>) -> (res: Result<Theme, String>)
    ensures
        match res {
            Ok(t) => {
                let n = chosen_scheme(opt_view(cli), opt_view(configured));
                &&& theme_names().contains(n)
                &&& t.name@ == n
                &&& exists|i: int|
                    0 <= i < 5 && theme_table()[i] == t && forall|j: int|
                        0 <= j < i ==> theme_table()[j].name@ != n
            },
            Err(msg) => {
                let n = chosen_scheme(opt_view(cli), opt_view(configured));
                &&& !theme_names().contains(n)
                &&& msg@ == unknown_scheme_text(n)
            },
        },
{
    let name: &str = match cli {
        Some(n) => n,
        None => match configured {
            Some(n) => n,
            None => DEFAULT_THEME,
        },
    };
    match Theme::by_name(name) {
        Some(t) => Ok(t),
        None => {
            let names = Theme::available_names();
            let mut listed: Vec<String> = Vec::new();
            let mut i: usize = 0;
            while i < names.len()
                invariant
                    i <= names.len(),
                    names@.map_values(|n: &'static str| n@) == theme_names(),
                    listed.deep_view() == theme_names().take(i as int),
                decreases names.len() - i,
            {
                let ghost prev = listed.deep_view();
                listed.push(names[i].to_string());
                assert(names@.map_values(|n: &'static str| n@)[i as int] == names@[i as int]@);
                assert(listed.deep_view() =~= prev.push(theme_names()[i as int]));
                i = i + 1;
                assert(listed.deep_view() =~= theme_names().take(i as int));
            }
            assert(theme_names().take(names.len() as int) =~= theme_names());
            let mut msg = String::new();
            msg.append("Unknown color scheme '");
            msg.append(name);
            msg.append("'. Available schemes: ");
            let all = join_strings(&listed, ", ");
            msg.append(all.as_str());
            Err(msg)
        },
    }
}

proof fn lemma_declares_color_0(t: Theme)
    ensures
        contains_seq(css_vars_text(t), "--bg-primary: "@ + t.bg_primary@),
{
    let m = "--bg-primary: "@ + t.bg_primary@;
    let v = css_vars_text(t);
    let rest = v.skip(m.len() as int);
    assert(v =~= m + rest);
    assert(v.subrange(0, m.len() as int) =~= m);
    assert(occurs_at(v, m, 0));
}

proof fn lemma_declares_color_1(t: Theme)
    ensures
        contains_seq(css_vars_text(t), "--bg-secondary: "@ + t.bg_secondary@),
{
    let x = "--bg-primary: "@ + t.bg_primary@ + decl_sep();
    let y = (decl_sep() + "--bg-code: "@ + t.bg_code@ + decl_sep() + "--text-primary: "@ + t.text_primary@ + decl_sep() + "--text-secondary: "@ + t.text_secondary@ + decl_sep() + "--text-muted: "@ + t.text_muted@ + decl_sep() + "--border-color: "@ + t.border_color@ + decl_sep() + "--accent-color: "@ + t.accent_color@ + decl_sep() + "--link-color: "@ + t.link_color@ + decl_sep() + "--link-hover-color: "@ + t.link_hover_color@);
    assert(css_vars_text(t) =~= x + ("--bg-secondary: "@ + t.bg_secondary@) + y);
    lemma_contains_middle(x, "--bg-secondary: "@ + t.bg_secondary@, y);
}

proof fn lemma_declares_color_2(t: Theme)
    ensures
        contains_seq(css_vars_text(t), "--bg-code: "@ + t.bg_code@),
{
    let x = "--bg-primary: "@ + t.bg_primary@ + decl_sep() + "--bg-secondary: "@ + t.bg_secondary@ + decl_sep();
    let y = (decl_sep() + "--text-primary: "@ + t.text_primary@ + decl_sep() + "--text-secondary: "@ + t.text_secondary@ + decl_sep() + "--text-muted: "@ + t.text_muted@ + decl_sep() + "--border-color: "@ + t.border_color@ + decl_sep() + "--accent-color: "@ + t.accent_color@ + decl_sep() + "--link-color: "@ + t.link_color@ + decl_sep() + "--link-hover-color: "@ + t.link_hover_color@);
    assert(css_vars_text(t) =~= x + ("--bg-code: "@ + t.bg_code@) + y);
    lemma_contains_middle(x, "--bg-code: "@ + t.bg_code@, y);
}

proof fn lemma_declares_color_3(t: Theme)
    ensures
        contains_seq(css_vars_text(t), "--text-primary: "@ + t.text_primary@),
{
    let x = "--bg-primary: "@ + t.bg_primary@ + decl_sep() + "--bg-secondary: "@ + t.bg_secondary@ + decl_sep() + "--bg-code: "@ + t.bg_code@ + decl_sep();
    let y = (decl_sep() + "--text-secondary: "@ + t.text_secondary@ + decl_sep() + "--text-muted: "@ + t.text_muted@ + decl_sep() + "--border-color: "@ + t.border_color@ + decl_sep() + "--accent-color: "@ + t.accent_color@ + decl_sep() + "--link-color: "@ + t.link_color@ + decl_sep() + "--link-hover-color: "@ + t.link_hover_color@);
    assert(css_vars_text(t) =~= x + ("--text-primary: "@ + t.text_primary@) + y);
    lemma_contains_middle(x, "--text-primary: "@ + t.text_primary@, y);
}

proof fn lemma_declares_color_4(t: Theme)
    ensures
        contains_seq(css_vars_text(t), "--text-secondary: "@ + t.text_secondary@),
{
    let x = "--bg-primary: "@ + t.bg_primary@ + decl_sep() + "--bg-secondary: "@ + t.bg_secondary@ + decl_sep() + "--bg-code: "@ + t.bg_code@ + decl_sep() + "--text-primary: "@ + t.text_primary@ + decl_sep();
    let y = (decl_sep() + "--text-muted: "@ + t.text_muted@ + decl_sep() + "--border-color: "@ + t.border_color@ + decl_sep() + "--accent-color: "@ + t.accent_color@ + decl_sep() + "--link-color: "@ + t.link_color@ + decl_sep() + "--link-hover-color: "@ + t.link_hover_color@);
    assert(css_vars_text(t) =~= x + ("--text-secondary: "@ + t.text_secondary@) + y);
    lemma_contains_middle(x, "--text-secondary: "@ + t.text_secondary@, y);
}

proof fn lemma_declares_color_5(t: Theme)
    ensures
        contains_seq(css_vars_text(t), "--text-muted: "@ + t.text_muted@),
{
    let x = "--bg-primary: "@ + t.bg_primary@ + decl_sep() + "--bg-secondary: "@ + t.bg_secondary@ + decl_sep() + "--bg-code: "@ + t.bg_code@ + decl_sep() + "--text-primary: "@ + t.text_primary@ + decl_sep() + "--text-secondary: "@ + t.text_secondary@ + decl_sep();
    let y = (decl_sep() + "--border-color: "@ + t.border_color@ + decl_sep() + "--accent-color: "@ + t.accent_color@ + decl_sep() + "--link-color: "@ + t.link_color@ + decl_sep() + "--link-hover-color: "@ + t.link_hover_color@);
    assert(css_vars_text(t) =~= x + ("--text-muted: "@ + t.text_muted@) + y);
    lemma_contains_middle(x, "--text-muted: "@ + t.text_muted@, y);
}

proof fn lemma_declares_color_6(t: Theme)
    ensures
        contains_seq(css_vars_text(t), "--border-color: "@ + t.border_color@),
{
    let x = "--bg-primary: "@ + t.bg_primary@ + decl_sep() + "--bg-secondary: "@ + t.bg_secondary@ + decl_sep() + "--bg-code: "@ + t.bg_code@ + decl_sep() + "--text-primary: "@ + t.text_primary@ + decl_sep() + "--text-secondary: "@ + t.text_secondary@ + decl_sep() + "--text-muted: "@ + t.text_muted@ + decl_sep();
    let y = (decl_sep() + "--accent-color: "@ + t.accent_color@ + decl_sep() + "--link-color: "@ + t.link_color@ + decl_sep() + "--link-hover-color: "@ + t.link_hover_color@);
    assert(css_vars_text(t) =~= x + ("--border-color: "@ + t.border_color@) + y);
    lemma_contains_middle(x, "--border-color: "@ + t.border_color@, y);
}

proof fn lemma_declares_color_7(t: Theme)
    ensures
        contains_seq(css_vars_text(t), "--accent-color: "@ + t.accent_color@),
{
    let x = "--bg-primary: "@ + t.bg_primary@ + decl_sep() + "--bg-secondary: "@ + t.bg_secondary@ + decl_sep() + "--bg-code: "@ + t.bg_code@ + decl_sep() + "--text-primary: "@ + t.text_primary@ + decl_sep() + "--text-secondary: "@ + t.text_secondary@ + decl_sep() + "--text-muted: "@ + t.text_muted@ + decl_sep() + "--border-color: "@ + t.border_color@ + decl_sep();
    let y = (decl_sep() + "--link-color: "@ + t.link_color@ + decl_sep() + "--link-hover-color: "@ + t.link_hover_color@);
    assert(css_vars_text(t) =~= x + ("--accent-color: "@ + t.accent_color@) + y);
    lemma_contains_middle(x, "--accent-color: "@ + t.accent_color@, y);
}

proof fn lemma_declares_color_8(t: Theme)
    ensures
        contains_seq(css_vars_text(t), "--link-color: "@ + t.link_color@),
{
    let x = "--bg-primary: "@ + t.bg_primary@ + decl_sep() + "--bg-secondary: "@ + t.bg_secondary@ + decl_sep() + "--bg-code: "@ + t.bg_code@ + decl_sep() + "--text-primary: "@ + t.text_primary@ + decl_sep() + "--text-secondary: "@ + t.text_secondary@ + decl_sep() + "--text-muted: "@ + t.text_muted@ + decl_sep() + "--border-color: "@ + t.border_color@ + decl_sep() + "--accent-color: "@ + t.accent_color@ + decl_sep();
    let y = (decl_sep() + "--link-hover-color: "@ + t.link_hover_color@);
    assert(css_vars_text(t) =~= x + ("--link-color: "@ + t.link_color@) + y);
    lemma_contains_middle(x, "--link-color: "@ + t.link_color@, y);
}

proof fn lemma_declares_color_9(t: Theme)
    ensures
        contains_seq(css_vars_text(t), "--link-hover-color: "@ + t.link_hover_color@),
{
    let x = "--bg-primary: "@ + t.bg_primary@ + decl_sep() + "--bg-secondary: "@ + t.bg_secondary@ + decl_sep() + "--bg-code: "@ + t.bg_code@ + decl_sep() + "--text-primary: "@ + t.text_primary@ + decl_sep() + "--text-secondary: "@ + t.text_secondary@ + decl_sep() + "--text-muted: "@ + t.text_muted@ + decl_sep() + "--border-color: "@ + t.border_color@ + decl_sep() + "--accent-color: "@ + t.accent_color@ + decl_sep() + "--link-color: "@ + t.link_color@ + decl_sep();
    let y = Seq::<char>::empty();
    assert(css_vars_text(t) =~= x + ("--link-hover-color: "@ + t.link_hover_color@) + y);
    lemma_contains_middle(x, "--link-hover-color: "@ + t.link_hover_color@, y);
}

/// The declarations of a theme give each of its ten colors to its own custom
/// property.
pub proof fn law_css_vars_declare_every_color(t: Theme)
    ensures
        contains_seq(css_vars_text(t), "--bg-primary: "@ + t.bg_primary@),
        contains_seq(css_vars_text(t), "--bg-secondary: "@ + t.bg_secondary@),
        contains_seq(css_vars_text(t), "--bg-code: "@ + t.bg_code@),
        contains_seq(css_vars_text(t), "--text-primary: "@ + t.text_primary@),
        contains_seq(css_vars_text(t), "--text-secondary: "@ + t.text_secondary@),
        contains_seq(css_vars_text(t), "--text-muted: "@ + t.text_muted@),
        contains_seq(css_vars_text(t), "--border-color: "@ + t.border_color@),
        contains_seq(css_vars_text(t), "--accent-color: "@ + t.accent_color@),
        contains_seq(css_vars_text(t), "--link-color: "@ + t.link_color@),
        contains_seq(css_vars_text(t), "--link-hover-color: "@ + t.link_hover_color@),
{
    lemma_declares_color_0(t);
    lemma_declares_color_1(t);
    lemma_declares_color_2(t);
    lemma_declares_color_3(t);
    lemma_declares_color_4(t);
    lemma_declares_color_5(t);
    lemma_declares_color_6(t);
    lemma_declares_color_7(t);
    lemma_declares_color_8(t);
    lemma_declares_color_9(t);
}

/// The scheme in force is the one given on the command line, else the one
/// of the configuration file, else gruvbox-light.
pub proof fn law_scheme_precedence(cli: Seq<char>, configured: Seq<char>)
    ensures
        chosen_scheme(Some(cli), Some(configured)) == cli,
        chosen_scheme(Some(cli), None) == cli,
        chosen_scheme(None, Some(configured)) == configured,
        chosen_scheme(None, None) == "gruvbox-light"@,
{
}

} // verus!
