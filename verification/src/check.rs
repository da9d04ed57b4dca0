//! Deciding which font families are installed, and the health report.
use vstd::prelude::*;
use vstd::string::StringExecFns;
use crate::text::{
    ascii_lower, ascii_lower_char, ascii_upper, ascii_upper_char, chars_of, contains_seq,
    contains_str, is_ascii_seq, lowercase, occurs_at, replace_all, replace_str, str_eq,
    string_of_range, strs_view, to_lowercase,
};

verus! {

/// Whether one font family was found among the installed font files.
#[derive(Debug)]
pub struct FontStatus {
    pub family: String,
    pub installed: bool,
}

/// The font file extensions that count, compared after lowercasing.
pub const FONT_EXTENSIONS: [&'static str; 5] = ["ttf", "otf", "ttc", "woff", "woff2"];

/// `i` is the index of the last `.` of `name`.
pub open spec fn is_last_dot(name: Seq<char>, i: int) -> bool {
    &&& 0 <= i < name.len()
    &&& name[i] == '.'
    &&& forall|j: int| i < j < name.len() ==> name[j] != '.'
}

/// Where a file name splits into stem and extension: at its last dot, unless
/// that dot starts the name, or the name is `..`.
pub open spec fn dot_split(name: Seq<char>) -> Option<int> {
    if name != ".."@ && exists|i: int| #[trigger] is_last_dot(name, i) && i > 0 {
        Some(choose|i: int| #[trigger] is_last_dot(name, i) && i > 0)
    } else {
        None
    }
}

/// The stem of a file name, as `Path::file_stem` gives it.
pub open spec fn file_stem_of(name: Seq<char>) -> Seq<char> {
    match dot_split(name) {
        Some(i) => name.take(i),
        None => name,
    }
}

/// The extension of a file name, as `Path::extension` gives it.
pub open spec fn extension_of(name: Seq<char>) -> Option<Seq<char>> {
    match dot_split(name) {
        Some(i) => Some(name.skip(i + 1)),
        None => None,
    }
}

/// Removes every space.
pub open spec fn without_spaces(s: Seq<char>) -> Seq<char> {
    replace_all(s, " "@, ""@)
}

/// An extension, already lowercased, that marks a font file.
pub open spec fn is_font_extension(ext_lower: Seq<char>) -> bool {
    strs_view(FONT_EXTENSIONS@).contains(ext_lower)
}

/// The name under which a family is looked for: spaces removed, then lowercased.
pub open spec fn search_name(family: Seq<char>) -> Seq<char> {
    lowercase(without_spaces(family))
}

/// The key of a file from its lowercased stem and extension: the stem without
/// spaces when the extension marks a font file.
pub open spec fn key_of_lowered(stem_lower: Seq<char>, ext_lower: Seq<char>) -> Option<
    Seq<char>,
> {
    if is_font_extension(ext_lower) {
        Some(without_spaces(stem_lower))
    } else {
        None
    }
}

/// The key under which a font file is matched, or none for a file that is
/// not a font: its stem, lowercased, with spaces removed.
pub open spec fn font_key(file_name: Seq<char>) -> Option<Seq<char>> {
    match extension_of(file_name) {
        Some(ext) => key_of_lowered(lowercase(file_stem_of(file_name)), lowercase(ext)),
        None => None,
    }
}

/// A font file whose key contains the family's search name is in `files`.
pub open spec fn font_installed(family: Seq<char>, files: Seq<Seq<char>>) -> bool {
    exists|i: int|
        0 <= i < files.len() && (#[trigger] font_key(files[i]) matches Some(k) && contains_seq(
            k,
            search_name(family),
        ))
}

/// Splits a file name into its stem and its extension, as `Path::file_stem`
/// and `Path::extension` do.
pub fn split_file_name(name: &str) -> (res: (String, Option<String>))
    ensures
        res.0@ == file_stem_of(name@),
        res.1 matches Some(e) ==> extension_of(name@) == Some(e@),
        res.1 is None ==> extension_of(name@) is None,
{
    let chars = chars_of(name);
    let mut i = chars.len();
    while i > 0 && chars[i - 1] != '.'
        invariant
            i <= chars.len(),
            chars@ == name@,
            forall|j: int| i <= j < chars.len() ==> chars@[j] != '.',
        decreases i,
    {
        i = i - 1;
    }
    if str_eq(name, "..") || i <= 1 {
        proof {
            if name@ != ".."@ {
                assert forall|k: int| #[trigger] is_last_dot(name@, k) implies k <= 0 by {
                    if k > 0 && i > 0 {
                        assert(chars@[i - 1] == '.');
                    }
                }
            }
        }
        let whole = name.to_string();
        return (whole, None);
    }
    let dot = i - 1;
    proof {
        assert(is_last_dot(name@, dot as int));
        let c = choose|k: int| #[trigger] is_last_dot(name@, k) && k > 0;
        assert(c == dot) by {
            if c < dot {
                assert(name@[dot as int] == '.');
            } else if c > dot {
                assert(name@[c] == '.');
            }
        }
    }
    let stem = string_of_range(&chars, 0, dot);
    let ext = string_of_range(&chars, dot + 1, chars.len());
    assert(stem@ =~= name@.take(dot as int));
    assert(ext@ =~= name@.skip(dot + 1));
    (stem, Some(ext))
}

/// Whether a lowercased extension marks a font file.
pub fn is_font_ext(ext_lower: &str) -> (res: bool)
    ensures
        res == is_font_extension(ext_lower@),
{
    let mut i: usize = 0;
    while i < 5
        invariant
            i <= 5,
            forall|k: int| 0 <= k < i ==> FONT_EXTENSIONS@[k]@ != ext_lower@,
        decreases 5 - i,
    {
        if str_eq(FONT_EXTENSIONS[i], ext_lower) {
            assert(strs_view(FONT_EXTENSIONS@)[i as int] == ext_lower@);
            return true;
        }
        i = i + 1;
    }
    assert forall|k: int|
        0 <= k < 5 implies #[trigger] strs_view(FONT_EXTENSIONS@)[k]
        != ext_lower@ by {
        assert(FONT_EXTENSIONS@[k]@ != ext_lower@);
    }
    false
}

/// A copy of `s` without spaces.
pub fn remove_spaces(s: &str) -> (res: String)
    ensures
        res@ == without_spaces(s@),
{
    proof {
        reveal_strlit(" ");
    }
    replace_str(s, " ", "")
}

/// The key of a file from its already lowercased stem and extension.
pub fn key_from_lowered(stem_lower: &str, ext_lower: &str) -> (res: Option<String>)
    ensures
        res matches Some(k) ==> key_of_lowered(stem_lower@, ext_lower@) == Some(k@),
        res is None ==> key_of_lowered(stem_lower@, ext_lower@) is None,
{
    if is_font_ext(ext_lower) {
        Some(remove_spaces(stem_lower))
    } else {
        None
    }
}

/// The key under which a font file is matched, or `None` when the file is not
/// a font file.
pub fn font_file_key(file_name: &str) -> (res: Option<String>)
    ensures
        res matches Some(k) ==> font_key(file_name@) == Some(k@),
        res is None ==> font_key(file_name@) is None,
{
    let (stem, ext) = split_file_name(file_name);
    match ext {
        Some(e) => {
            let ext_lower = to_lowercase(e.as_str());
            let stem_lower = to_lowercase(stem.as_str());
            key_from_lowered(stem_lower.as_str(), ext_lower.as_str())
        },
        None => None,
    }
}

/// The name under which `family` is looked for among font files.
pub fn font_search_name(family: &str) -> (res: String)
    ensures
        res@ == search_name(family@),
{
    let bare = remove_spaces(family);
    to_lowercase(bare.as_str())
}

/// Whether `family` is installed: some font file among `font_files` (file
/// names, as found in the font directories) has a key containing the
/// family's search name.
pub fn check_font(family: &str, font_files: &[String]) -> (res: bool)
    ensures
        res == font_installed(family@, font_files.deep_view()),
{
    let search = font_search_name(family);
    let mut i: usize = 0;
    while i < font_files.len()
        invariant
            i <= font_files.len(),
            search@ == search_name(family@),
            forall|k: int|
                0 <= k < i ==> !(#[trigger] font_key(font_files.deep_view()[k]) matches Some(key)
                    && contains_seq(key, search_name(family@))),
        decreases font_files.len() - i,
    {
        assert(font_files.deep_view()[i as int] == font_files@[i as int]@);
        match font_file_key(font_files[i].as_str()) {
            Some(key) => {
                if contains_str(key.as_str(), search.as_str()) {
                    return true;
                }
            },
            None => {},
        }
        i = i + 1;
    }
    false
}

/// The installation status of each family, in order.
pub fn check_fonts(families: &[String], font_files: &[String]) -> (res: Vec<FontStatus>)
    ensures
        res.len() == families.len(),
        forall|i: int|
            0 <= i < families.len() ==> #[trigger] res@[i].family@ == families@[i]@
                && res@[i].installed == font_installed(families@[i]@, font_files.deep_view()),
{
    let mut res: Vec<FontStatus> = Vec::new();
    let mut i: usize = 0;
    while i < families.len()
        invariant
            i <= families.len(),
            res.len() == i,
            forall|k: int|
                0 <= k < i ==> #[trigger] res@[k].family@ == families@[k]@ && res@[k].installed
                    == font_installed(families@[k]@, font_files.deep_view()),
        decreases families.len() - i,
    {
        let family = families[i].clone();
        let installed = check_font(families[i].as_str(), font_files);
        let ghost prev = res@;
        res.push(FontStatus { family, installed });
        assert forall|k: int| 0 <= k < i implies res@[k] == prev[k] by {}
        i = i + 1;
    }
    res
}

/// One line of the report for one family.
pub open spec fn status_line(s: FontStatus) -> Seq<char> {
    " "@ + (if s.installed {
        "✓"@
    } else {
        "✗"@
    }) + "  "@ + s.family@ + "  "@ + (if s.installed {
        "Installed"@
    } else {
        "Not installed"@
    }) + "\n"@
}

/// The report lines of all statuses, in order.
pub open spec fn status_lines(s: Seq<FontStatus>) -> Seq<char>
    decreases s.len(),
{
    if s.len() == 0 {
        Seq::empty()
    } else {
        status_lines(s.drop_last()) + status_line(s.last())
    }
}

/// Every family was found.
pub open spec fn all_installed(s: Seq<FontStatus>) -> bool {
    forall|i: int| 0 <= i < s.len() ==> #[trigger] s[i].installed
}

/// The horizontal rule under the title: fifty box-drawing characters.
pub open spec fn rule_line() -> Seq<char> {
    Seq::new(50, |i: int| '─')
}

/// The closing sentence of the report.
pub open spec fn report_verdict(s: Seq<FontStatus>) -> Seq<char> {
    if all_installed(s) {
        "All configured fonts are available.\n"@
    } else {
        "Some fonts are missing. The browser will fall back to system fonts.\n"@
    }
}

/// The whole text of the health report, as it is printed.
pub open spec fn report_text(s: Seq<FontStatus>) -> Seq<char> {
    "\nFont Check Report\n"@ + rule_line() + "\n"@ + status_lines(s) + "\n"@ + report_verdict(s)
}

/// Whether every status says installed.
fn every_installed(statuses: &[FontStatus]) -> (res: bool)
    ensures
        res == all_installed(statuses@),
{
    let mut i: usize = 0;
    while i < statuses.len()
        invariant
            i <= statuses.len(),
            forall|k: int| 0 <= k < i ==> #[trigger] statuses@[k].installed,
        decreases statuses.len() - i,
    {
        if !statuses[i].installed {
            return false;
        }
        i = i + 1;
    }
    true
}

/// The text of the font health report for `statuses`: a title, a rule, one
/// line per family with its mark and state, and a closing verdict.
pub fn health_report(statuses: &[FontStatus]) -> (res: String)
    ensures
        res@ == report_text(statuses@),
{
    let mut out = String::new();
    out.append("\nFont Check Report\n");
    let mut r: usize = 0;
    while r < 50
        invariant
            r <= 50,
            out@ == "\nFont Check Report\n"@ + Seq::new(r as nat, |i: int| '─'),
        decreases 50 - r,
    {
        out.push('─');
        r = r + 1;
        assert(out@ =~= "\nFont Check Report\n"@ + Seq::new(r as nat, |i: int| '─'));
    }
    out.append("\n");
    let ghost head = out@;
    let mut i: usize = 0;
    while i < statuses.len()
        invariant
            i <= statuses.len(),
            out@ == head + status_lines(statuses@.take(i as int)),
        decreases statuses.len() - i,
    {
        let s = &statuses[i];
        let ghost before = out@;
        out.append(" ");
        if s.installed {
            out.append("✓");
        } else {
            out.append("✗");
        }
        out.append("  ");
        out.append(s.family.as_str());
        out.append("  ");
        if s.installed {
            out.append("Installed");
        } else {
            out.append("Not installed");
        }
        out.append("\n");
        assert(out@ =~= before + status_line(statuses@[i as int]));
        assert(statuses@.take(i + 1).drop_last() =~= statuses@.take(i as int));
        i = i + 1;
    }
    assert(statuses@.take(statuses.len() as int) =~= statuses@);
    out.append("\n");
    if every_installed(statuses) {
        out.append("All configured fonts are available.\n");
    } else {
        out.append("Some fonts are missing. The browser will fall back to system fonts.\n");
    }
    assert(out@ =~= report_text(statuses@));
    out
}

/// A directory or file named relative to the home directory or absolutely:
/// the path is the home directory (when `under_home`) followed by `parts`,
/// each joined as a path component.
pub struct Location {
    pub under_home: bool,
    pub parts: Vec<&'static str>,
}

/// Whether a location hangs under the home directory, and its components.
pub open spec fn location_view(l: Location) -> (bool, Seq<Seq<char>>) {
    (l.under_home, strs_view(l.parts@))
}

/// The views of a list of locations.
pub open spec fn locations_view(ls: Seq<Location>) -> Seq<(bool, Seq<Seq<char>>)> {
    ls.map_values(|l: Location| location_view(l))
}

/// The directories searched for font files: those under the home directory,
/// when it is known, then the system-wide ones.
pub open spec fn font_directory_list(home_known: bool) -> Seq<(bool, Seq<Seq<char>>)> {
    let user = if home_known {
        seq![
            (true, seq![".fonts"@]),
            (true, seq![".local"@, "share"@, "fonts"@]),
            (true, seq!["Library"@, "Fonts"@]),
        ]
    } else {
        Seq::empty()
    };
    user + seq![
        (false, seq!["/Library/Fonts"@]),
        (false, seq!["/System/Library/Fonts"@]),
        (false, seq!["/usr/share/fonts"@]),
        (false, seq!["/usr/local/share/fonts"@]),
    ]
}

/// A location from its components.
fn location(under_home: bool, parts: Vec<&'static str>) -> (res: Location)
    ensures
        res.under_home == under_home,
        res.parts@ == parts@,
{
    Location { under_home, parts }
}

/// The directories searched for font files: `~/.fonts`,
/// `~/.local/share/fonts` and `~/Library/Fonts` when the home directory is
/// known, then `/Library/Fonts`, `/System/Library/Fonts`, `/usr/share/fonts`
/// and `/usr/local/share/fonts`.
pub fn font_directories(home_known: bool) -> (res: Vec<Location>)
    ensures
        locations_view(res@) == font_directory_list(home_known),
{
    let mut dirs: Vec<Location> = Vec::new();
    if home_known {
        let l = location(true, vec![".fonts"]);
        assert(strs_view(l.parts@) =~= seq![".fonts"@]);
        dirs.push(l);
        let l = location(true, vec![".local", "share", "fonts"]);
        assert(strs_view(l.parts@) =~= seq![".local"@, "share"@, "fonts"@]);
        dirs.push(l);
        let l = location(true, vec!["Library", "Fonts"]);
        assert(strs_view(l.parts@) =~= seq!["Library"@, "Fonts"@]);
        dirs.push(l);
    }
    let l = location(false, vec!["/Library/Fonts"]);
    assert(strs_view(l.parts@) =~= seq!["/Library/Fonts"@]);
    dirs.push(l);
    let l = location(false, vec!["/System/Library/Fonts"]);
    assert(strs_view(l.parts@) =~= seq!["/System/Library/Fonts"@]);
    dirs.push(l);
    let l = location(false, vec!["/usr/share/fonts"]);
    assert(strs_view(l.parts@) =~= seq!["/usr/share/fonts"@]);
    dirs.push(l);
    let l = location(false, vec!["/usr/local/share/fonts"]);
    assert(strs_view(l.parts@) =~= seq!["/usr/local/share/fonts"@]);
    dirs.push(l);
    assert(locations_view(dirs@) =~= font_directory_list(home_known));
    dirs
}

/// Where the configuration file is: `~/.config/mdview.toml`.
pub fn config_path() -> (res: Location)
    ensures
        location_view(res) == (true, seq![".config"@, "mdview.toml"@]),
{
    let res = location(true, vec![".config", "mdview.toml"]);
    assert(strs_view(res.parts@) =~= seq![".config"@, "mdview.toml"@]);
    res
}

/// Finding more font files never makes an installed family missing.
pub proof fn law_more_files_keep_fonts_installed(
    family: Seq<char>,
    files: Seq<Seq<char>>,
    more: Seq<Seq<char>>,
)
    requires
        font_installed(family, files),
    ensures
        font_installed(family, files + more),
{
    let i = choose|i: int|
        0 <= i < files.len() && (#[trigger] font_key(files[i]) matches Some(k) && contains_seq(
            k,
            search_name(family),
        ));
    assert((files + more)[i] == files[i]);
}

/// Removing spaces twice is removing them once.
proof fn lemma_without_spaces_idempotent(s: Seq<char>)
    ensures
        without_spaces(without_spaces(s)) == without_spaces(s),
    decreases s.len(),
{
    reveal_strlit(" ");
    reveal_strlit("");
    if s.len() >= 1 {
        let rest = s.skip(1);
        lemma_without_spaces_idempotent(rest);
        assert(s.take(1) =~= seq![s[0]]);
        assert(" "@ =~= seq![' ']);
        assert(""@ =~= Seq::<char>::empty());
        if s[0] == ' ' {
            assert(s.take(1) == " "@);
            assert(""@ + without_spaces(rest) =~= without_spaces(rest));
            assert(without_spaces(s) == without_spaces(rest));
        } else {
            let w = without_spaces(rest);
            assert(s.take(1)[0] != " "@[0]);
            assert(s.take(1) != " "@);
            assert(without_spaces(s) == seq![s[0]] + w);
            let ws = seq![s[0]] + w;
            assert(ws.take(1) =~= seq![s[0]]);
            assert(ws.skip(1) =~= w);
            assert(ws.take(1)[0] != " "@[0]);
            assert(ws.take(1) != " "@);
            assert(without_spaces(ws) == seq![s[0]] + without_spaces(w));
        }
    } else {
        assert(without_spaces(s) == s);
    }
}

/// Spaces in a family name do not matter: a family is looked for under the
/// same name as the family written without its spaces.
pub proof fn law_spaces_in_family_do_not_matter(family: Seq<char>)
    ensures
        search_name(family) == search_name(without_spaces(family)),
{
    lemma_without_spaces_idempotent(family);
}

/// One step of removing spaces: the first character goes, or stays in front.
proof fn lemma_without_spaces_step(s: Seq<char>)
    requires
        s.len() >= 1,
    ensures
        without_spaces(s) == if s[0] == ' ' {
            without_spaces(s.skip(1))
        } else {
            seq![s[0]] + without_spaces(s.skip(1))
        },
{
    reveal_strlit(" ");
    reveal_strlit("");
    assert(s.take(1) =~= seq![s[0]]);
    assert(" "@ =~= seq![' ']);
    assert(""@ =~= Seq::<char>::empty());
    if s[0] == ' ' {
        assert(s.take(1) == " "@);
        assert(""@ + without_spaces(s.skip(1)) =~= without_spaces(s.skip(1)));
    } else {
        assert(s.take(1)[0] != " "@[0]);
    }
}

/// Removing spaces keeps an ASCII string ASCII, and commutes with mapping
/// letters to upper case.
proof fn lemma_without_spaces_upper(s: Seq<char>)
    ensures
        is_ascii_seq(s) ==> is_ascii_seq(without_spaces(s)),
        without_spaces(ascii_upper(s)) == ascii_upper(without_spaces(s)),
    decreases s.len(),
{
    if s.len() == 0 {
        assert(ascii_upper(s) =~= s);
        assert(without_spaces(s) == s);
        assert(ascii_upper(Seq::<char>::empty()) =~= Seq::<char>::empty());
    } else {
        let rest = s.skip(1);
        let u = ascii_upper(s);
        lemma_without_spaces_upper(rest);
        lemma_without_spaces_step(s);
        lemma_without_spaces_step(u);
        assert(u.skip(1) =~= ascii_upper(rest));
        assert(u[0] == ascii_upper_char(s[0]));
        let w = without_spaces(rest);
        if is_ascii_seq(s) {
            assert(is_ascii_seq(rest)) by {
                assert forall|i: int| 0 <= i < rest.len() implies (#[trigger] rest[i]) as nat
                    <= 127 by {
                    assert(rest[i] == s[i + 1]);
                }
            }
            if s[0] != ' ' {
                assert forall|i: int| 0 <= i < (seq![s[0]] + w).len() implies (#[trigger] (
                seq![s[0]] + w)[i]) as nat <= 127 by {
                    if i > 0 {
                        assert((seq![s[0]] + w)[i] == w[i - 1]);
                    }
                }
            }
        }
        if s[0] != ' ' {
            assert(ascii_upper(seq![s[0]] + w) =~= seq![ascii_upper_char(s[0])] + ascii_upper(w));
        }
    }
}

/// Lowering the upper-case form of an ASCII string lowers the string itself.
proof fn lemma_lower_of_upper(s: Seq<char>)
    requires
        is_ascii_seq(s),
    ensures
        is_ascii_seq(ascii_upper(s)),
        ascii_lower(ascii_upper(s)) == ascii_lower(s),
{
    assert forall|i: int| 0 <= i < s.len() implies ascii_lower_char(ascii_upper_char(s[i]))
        == ascii_lower_char(s[i]) by {
        assert(s[i] as nat <= 127);
    }
    assert(ascii_lower(ascii_upper(s)) =~= ascii_lower(s));
    assert forall|i: int| 0 <= i < ascii_upper(s).len() implies (#[trigger] ascii_upper(s)[i])
        as nat <= 127 by {
        assert(s[i] as nat <= 127);
    }
}

/// Whether an ASCII family is installed depends neither on the case of its
/// letters nor on its spaces: written in capitals, or without spaces, it is
/// found in the same font files.
pub proof fn law_family_case_and_spaces_do_not_matter(family: Seq<char>, files: Seq<Seq<char>>)
    requires
        is_ascii_seq(family),
    ensures
        font_installed(ascii_upper(family), files) == font_installed(family, files),
        font_installed(without_spaces(family), files) == font_installed(family, files),
{
    lemma_without_spaces_upper(family);
    let w = without_spaces(family);
    lemma_lower_of_upper(w);
    assert(search_name(ascii_upper(family)) == search_name(family));
    law_spaces_in_family_do_not_matter(family);
}

/// The report closes with "All configured fonts are available." when every
/// family was found, and with the missing-fonts sentence as soon as one was
/// not.
pub proof fn law_report_verdict_follows_every_status(s: Seq<FontStatus>)
    ensures
        ({
            let all = "All configured fonts are available.\n"@;
            let some = "Some fonts are missing. The browser will fall back to system fonts.\n"@;
            let r = report_text(s);
            &&& (forall|i: int| 0 <= i < s.len() ==> #[trigger] s[i].installed) ==> r.len()
                >= all.len() && r.skip(r.len() - all.len()) == all
            &&& (exists|i: int| 0 <= i < s.len() && !#[trigger] s[i].installed) ==> r.len()
                >= some.len() && r.skip(r.len() - some.len()) == some
        }),
{
    let all = "All configured fonts are available.\n"@;
    let some = "Some fonts are missing. The browser will fall back to system fonts.\n"@;
    let r = report_text(s);
    let head = "\nFont Check Report\n"@ + rule_line() + "\n"@ + status_lines(s) + "\n"@;
    assert(r == head + report_verdict(s));
    if forall|i: int| 0 <= i < s.len() ==> #[trigger] s[i].installed {
        assert(all_installed(s));
        assert(r.skip(r.len() - all.len()) =~= all);
    }
    if exists|i: int| 0 <= i < s.len() && !#[trigger] s[i].installed {
        let k = choose|i: int| 0 <= i < s.len() && !#[trigger] s[i].installed;
        assert(!all_installed(s));
        assert(r.skip(r.len() - some.len()) =~= some);
    }
}

/// The lines of all statuses are the lines of the first ones followed by those
/// of the rest.
proof fn lemma_status_lines_split(s: Seq<FontStatus>, i: int)
    requires
        0 <= i < s.len(),
    ensures
        status_lines(s) == status_lines(s.take(i)) + status_line(s[i]) + status_lines(
            s.skip(i + 1),
        ),
    decreases s.len(),
{
    if i == s.len() - 1 {
        assert(s.drop_last() =~= s.take(i));
        assert(s.skip(i + 1) =~= Seq::<FontStatus>::empty());
        assert(status_lines(s.take(i)) + status_line(s[i]) + status_lines(s.skip(i + 1))
            =~= status_lines(s.take(i)) + status_line(s[i]));
    } else {
        let d = s.drop_last();
        lemma_status_lines_split(d, i);
        assert(d.take(i) =~= s.take(i));
        assert(d[i] == s[i]);
        let rest = s.skip(i + 1);
        assert(rest.drop_last() =~= d.skip(i + 1));
        assert(rest.last() == s.last());
        assert(status_lines(rest) == status_lines(d.skip(i + 1)) + status_line(s.last()));
    }
}

/// The report gives every family a line of its own, with its check mark and
/// its state.
pub proof fn law_report_lists_every_family(s: Seq<FontStatus>, i: int)
    requires
        0 <= i < s.len(),
    ensures
        s[i].installed ==> contains_seq(
            report_text(s),
            " ✓  "@ + s[i].family@ + "  Installed\n"@,
        ),
        !s[i].installed ==> contains_seq(
            report_text(s),
            " ✗  "@ + s[i].family@ + "  Not installed\n"@,
        ),
{
    lemma_status_lines_split(s, i);
    let pre = "\nFont Check Report\n"@ + rule_line() + "\n"@ + status_lines(s.take(i));
    let line = status_line(s[i]);
    let r = report_text(s);
    assert(r =~= pre + line + (status_lines(s.skip(i + 1)) + "\n"@ + report_verdict(s)));
    let expected = if s[i].installed {
        " ✓  "@ + s[i].family@ + "  Installed\n"@
    } else {
        " ✗  "@ + s[i].family@ + "  Not installed\n"@
    };
    reveal_strlit(" ✓  ");
    reveal_strlit(" ✗  ");
    reveal_strlit(" ");
    reveal_strlit("✓");
    reveal_strlit("✗");
    reveal_strlit("  ");
    reveal_strlit("Installed");
    reveal_strlit("Not installed");
    reveal_strlit("\n");
    reveal_strlit("  Installed\n");
    reveal_strlit("  Not installed\n");
    assert(line =~= expected);
    assert(r.subrange(pre.len() as int, (pre.len() + line.len()) as int) =~= line);
    assert(occurs_at(r, expected, pre.len() as int));
}

/// Files with any of the five font extensions, in any letter case, count as
/// font files and no other file does: their key is their stem without spaces.
pub proof fn law_font_extensions_give_keys(stem_lower: Seq<char>, ext_lower: Seq<char>)
    ensures
        (ext_lower == "ttf"@ || ext_lower == "otf"@ || ext_lower == "ttc"@ || ext_lower
            == "woff"@ || ext_lower == "woff2"@) ==> key_of_lowered(stem_lower, ext_lower) == Some(
            without_spaces(stem_lower),
        ),
        !(ext_lower == "ttf"@ || ext_lower == "otf"@ || ext_lower == "ttc"@ || ext_lower
            == "woff"@ || ext_lower == "woff2"@) ==> key_of_lowered(stem_lower, ext_lower) is None,
{
    let exts = strs_view(FONT_EXTENSIONS@);
    assert(exts[0] == "ttf"@ && exts[1] == "otf"@ && exts[2] == "ttc"@ && exts[3] == "woff"@
        && exts[4] == "woff2"@);
    if exts.contains(ext_lower) {
        let k = choose|k: int| 0 <= k < exts.len() && exts[k] == ext_lower;
        assert(k == 0 || k == 1 || k == 2 || k == 3 || k == 4);
    }
}

/// A family is installed as soon as one file with a font extension has a
/// lowercased stem that, spaces removed, contains the family's search name.
pub proof fn law_font_file_with_family_in_stem_installs_it(
    family: Seq<char>,
    files: Seq<Seq<char>>,
    i: int,
)
    requires
        0 <= i < files.len(),
        extension_of(files[i]) matches Some(ext) && (lowercase(ext) == "ttf"@ || lowercase(ext)
            == "otf"@ || lowercase(ext) == "ttc"@ || lowercase(ext) == "woff"@ || lowercase(ext)
            == "woff2"@),
        contains_seq(without_spaces(lowercase(file_stem_of(files[i]))), search_name(family)),
    ensures
        font_installed(family, files),
{
    let ext = extension_of(files[i])->0;
    law_font_extensions_give_keys(lowercase(file_stem_of(files[i])), lowercase(ext));
    assert(font_key(files[i]) == Some(without_spaces(lowercase(file_stem_of(files[i])))));
}

/// A family counts as installed only through a file with one of the five
/// font extensions whose lowercased stem, spaces removed, contains the
/// family's search name.
pub proof fn law_installed_only_through_a_font_file(family: Seq<char>, files: Seq<Seq<char>>)
    requires
        font_installed(family, files),
    ensures
        exists|i: int|
            0 <= i < files.len() && (#[trigger] extension_of(files[i]) matches Some(ext) && (
            lowercase(ext) == "ttf"@ || lowercase(ext) == "otf"@ || lowercase(ext) == "ttc"@
                || lowercase(ext) == "woff"@ || lowercase(ext) == "woff2"@) && contains_seq(
                without_spaces(lowercase(file_stem_of(files[i]))),
                search_name(family),
            )),
{
    let i = choose|i: int|
        0 <= i < files.len() && (#[trigger] font_key(files[i]) matches Some(k) && contains_seq(
            k,
            search_name(family),
        ));
    let ext = extension_of(files[i])->0;
    law_font_extensions_give_keys(lowercase(file_stem_of(files[i])), lowercase(ext));
}

/// A file name is its stem, then, when it has an extension, a dot and the
/// extension, which holds no dot; a name with no extension is its own stem.
pub proof fn law_stem_and_extension_rebuild_name(name: Seq<char>)
    ensures
        extension_of(name) matches Some(e) ==> file_stem_of(name) + "."@ + e == name
            && !e.contains('.') && file_stem_of(name).len() > 0,
        extension_of(name) is None ==> file_stem_of(name) == name,
{
    reveal_strlit(".");
    if let Some(i) = dot_split(name) {
        let e = name.skip(i + 1);
        assert(is_last_dot(name, i) && i > 0);
        assert(file_stem_of(name) + "."@ + e =~= name);
        if e.contains('.') {
            let k = choose|k: int| 0 <= k < e.len() && e[k] == '.';
            assert(name[i + 1 + k] == '.');
        }
    }
}

/// The report opens with its title and a rule of fifty box-drawing characters.
pub proof fn law_report_opens_with_title_and_rule(s: Seq<FontStatus>)
    ensures
        ({
            let head = "\nFont Check Report\n"@ + Seq::new(50, |i: int| '─') + "\n"@;
            report_text(s).len() >= head.len() && report_text(s).take(head.len() as int) == head
        }),
{
    let head = "\nFont Check Report\n"@ + Seq::new(50, |i: int| '─') + "\n"@;
    assert(rule_line() =~= Seq::new(50, |i: int| '─'));
    assert(report_text(s) =~= head + (status_lines(s) + "\n"@ + report_verdict(s)));
    assert(report_text(s).take(head.len() as int) =~= head);
}

} // verus!
