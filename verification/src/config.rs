//! Font preferences and the font stacks built from them.
use vstd::prelude::*;
use crate::text::strs_view;

verus! {

/// A font preference: one family name or a list of them.
#[derive(Debug, Clone)]
pub enum FontValue {
    Single(String),
    Multiple(Vec<String>),
}

/// The `[fonts]` table of the configuration file.
#[derive(Debug)]
pub struct FontConfig {
    pub sans: Option<FontValue>,
    pub mono: Option<FontValue>,
    pub math: Option<FontValue>,
}

/// The whole configuration.
#[derive(Debug)]
pub struct Config {
    pub colorscheme: Option<String>,
    pub fonts: Option<FontConfig>,
}

/// Fallback stack for body text.
pub const DEFAULT_FONT_SANS: [&'static str; 8] = [
    "Noto Sans SC",
    "system-ui",
    "-apple-system",
    "Segoe UI",
    "Roboto",
    "Helvetica Neue",
    "Arial",
    "sans-serif",
];

/// Fallback stack for code.
pub const DEFAULT_FONT_MONO: [&'static str; 8] = [
    "JetBrains Mono",
    "Fira Code",
    "ui-monospace",
    "SF Mono",
    "Cascadia Code",
    "Consolas",
    "Courier New",
    "monospace",
];

/// Fallback stack for math.
pub const DEFAULT_FONT_MATH: [&'static str; 2] = ["KaTeX_Main", "serif"];

/// Font names of the default sans stack.
pub open spec fn default_sans() -> Seq<Seq<char>> {
    strs_view(DEFAULT_FONT_SANS@)
}

/// Font names of the default mono stack.
pub open spec fn default_mono() -> Seq<Seq<char>> {
    strs_view(DEFAULT_FONT_MONO@)
}

/// Font names of the default math stack.
pub open spec fn default_math() -> Seq<Seq<char>> {
    strs_view(DEFAULT_FONT_MATH@)
}

/// Adds each default, in order, unless the stack already holds it.
pub open spec fn stack_with_defaults(stack: Seq<Seq<char>>, defaults: Seq<Seq<char>>) -> Seq<
    Seq<char>,
>
    decreases defaults.len(),
{
    if defaults.len() == 0 {
        stack
    } else {
        let d = defaults[0];
        let next = if stack.contains(d) {
            stack
        } else {
            stack.push(d)
        };
        stack_with_defaults(next, defaults.drop_first())
    }
}

/// The font names of an optional preference (none when absent).
pub open spec fn preference(v: Option<FontValue>) -> Seq<Seq<char>> {
    match v {
        Some(f) => f.fonts(),
        None => Seq::empty(),
    }
}

impl FontValue {
    /// The family names this value lists, in order.
    pub open spec fn fonts(&self) -> Seq<Seq<char>> {
        match self {
            FontValue::Single(s) => seq![s@],
            FontValue::Multiple(v) => v.deep_view(),
        }
    }

    /// The family names as a list: one entry for `Single`, the list itself for `Multiple`.
    pub fn into_vec(self) -> (res: Vec<String>)
        ensures
            res.deep_view() == self.fonts(),
    {
        match self {
            FontValue::Single(s) => {
                let mut v = Vec::new();
                v.push(s);
                assert(v.deep_view() =~= seq![s@]);
                v
            },
            FontValue::Multiple(v) => v,
        }
    }

    /// A copy of this value with the same names.
    fn duplicate(&self) -> (res: FontValue)
        ensures
            res.fonts() == self.fonts(),
    {
        match self {
            FontValue::Single(s) => FontValue::Single(s.clone()),
            FontValue::Multiple(v) => {
                let mut out: Vec<String> = Vec::new();
                let mut i: usize = 0;
                while i < v.len()
                    invariant
                        i <= v.len(),
                        out.deep_view() == v.deep_view().take(i as int),
                    decreases v.len() - i,
                {
                    let ghost prev = out.deep_view();
                    let c = v[i].clone();
                    assert(c@ == v.deep_view()[i as int]);
                    out.push(c);
                    assert(out.deep_view() =~= prev.push(c@));
                    i = i + 1;
                    assert(out.deep_view() =~= v.deep_view().take(i as int));
                }
                assert(v.deep_view().take(v.len() as int) =~= v.deep_view());
                FontValue::Multiple(out)
            },
        }
    }
}

/// A copy of an optional preference.
fn duplicate_option(v: &Option<FontValue>) -> (res: Option<FontValue>)
    ensures
        preference(res) == preference(*v),
        res is Some <==> v is Some,
{
    match v {
        Some(f) => Some(f.duplicate()),
        None => None,
    }
}

/// Whether `stack` holds a string equal to `s`.
fn stack_contains(stack: &Vec<String>, s: &String) -> (res: bool)
    ensures
        res == stack.deep_view().contains(s@),
{
    let mut i: usize = 0;
    while i < stack.len()
        invariant
            i <= stack.len(),
            forall|k: int| 0 <= k < i ==> stack.deep_view()[k] != s@,
        decreases stack.len() - i,
    {
        if stack[i] == *s {
            assert(stack.deep_view()[i as int] == s@);
            return true;
        }
        i = i + 1;
    }
    false
}

/// The stack of `preferred` families followed by every default it lacks.
pub fn build_stack(preferred: Option<FontValue>, defaults: &[&'static str]) -> (res: Vec<String>)
    ensures
        res.deep_view() == stack_with_defaults(preference(preferred), strs_view(defaults@)),
{
    let ghost pref = preference(preferred);
    let mut stack: Vec<String> = match preferred {
        Some(v) => v.into_vec(),
        None => {
            let r: Vec<String> = Vec::new();
            assert(r.deep_view() =~= pref);
            r
        },
    };
    let ghost all = strs_view(defaults@);
    assert(all.skip(0) =~= all);
    let mut i: usize = 0;
    while i < defaults.len()
        invariant
            i <= defaults.len(),
            all == strs_view(defaults@),
            stack_with_defaults(stack.deep_view(), all.skip(i as int)) == stack_with_defaults(
                pref,
                all,
            ),
        decreases defaults.len() - i,
    {
        let s = defaults[i].to_string();
        assert(s@ == all[i as int]);
        assert(all.skip(i as int).drop_first() =~= all.skip(i + 1));
        let ghost prev = stack.deep_view();
        if !stack_contains(&stack, &s) {
            stack.push(s);
            assert(stack.deep_view() =~= prev.push(all[i as int]));
        }
        i = i + 1;
    }
    assert(all.skip(defaults.len() as int) =~= Seq::<Seq<char>>::empty());
    stack
}

impl Config {
    /// The configured `sans` preference, if any.
    pub open spec fn sans_preference(&self) -> Option<FontValue> {
        match self.fonts {
            Some(fc) => fc.sans,
            None => None,
        }
    }

    /// The configured `mono` preference, if any.
    pub open spec fn mono_preference(&self) -> Option<FontValue> {
        match self.fonts {
            Some(fc) => fc.mono,
            None => None,
        }
    }

    /// The configured `math` preference, if any.
    pub open spec fn math_preference(&self) -> Option<FontValue> {
        match self.fonts {
            Some(fc) => fc.math,
            None => None,
        }
    }

    /// Every family the configuration names: sans, then mono, then math.
    pub open spec fn configured_fonts(&self) -> Seq<Seq<char>> {
        preference(self.sans_preference()) + preference(self.mono_preference()) + preference(
            self.math_preference(),
        )
    }

    /// The families to check for installation: the configured ones, or, when
    /// none are configured, the first default of each stack.
    pub open spec fn spec_preferred_fonts(&self) -> Seq<Seq<char>> {
        if self.configured_fonts().len() == 0 {
            seq![default_sans()[0], default_mono()[0], default_math()[0]]
        } else {
            self.configured_fonts()
        }
    }

    /// The body-text stack: the configured `sans` families, then the defaults they lack.
    pub fn font_sans(&self) -> (res: Vec<String>)
        ensures
            res.deep_view() == stack_with_defaults(
                preference(self.sans_preference()),
                default_sans(),
            ),
    {
        let pref = match &self.fonts {
            Some(f) => duplicate_option(&f.sans),
            None => None,
        };
        build_stack(pref, &DEFAULT_FONT_SANS)
    }

    /// The code stack: the configured `mono` families, then the defaults they lack.
    pub fn font_mono(&self) -> (res: Vec<String>)
        ensures
            res.deep_view() == stack_with_defaults(
                preference(self.mono_preference()),
                default_mono(),
            ),
    {
        let pref = match &self.fonts {
            Some(f) => duplicate_option(&f.mono),
            None => None,
        };
        build_stack(pref, &DEFAULT_FONT_MONO)
    }

    /// The math stack: the configured `math` families, then the defaults they lack.
    pub fn font_math(&self) -> (res: Vec<String>)
        ensures
            res.deep_view() == stack_with_defaults(
                preference(self.math_preference()),
                default_math(),
            ),
    {
        let pref = match &self.fonts {
            Some(f) => duplicate_option(&f.math),
            None => None,
        };
        build_stack(pref, &DEFAULT_FONT_MATH)
    }

    /// The families that a health check looks for.
    pub fn preferred_fonts(&self) -> (res: Vec<String>)
        ensures
            res.deep_view() == self.spec_preferred_fonts(),
    {
        let mut fonts: Vec<String> = Vec::new();
        if let Some(fc) = &self.fonts {
            if let Some(sans) = &fc.sans {
                append_names(&mut fonts, sans.duplicate().into_vec());
            }
            assert(fonts.deep_view() =~= preference(self.sans_preference()));
            if let Some(mono) = &fc.mono {
                append_names(&mut fonts, mono.duplicate().into_vec());
            }
            assert(fonts.deep_view() =~= preference(self.sans_preference()) + preference(
                self.mono_preference(),
            ));
            if let Some(math) = &fc.math {
                append_names(&mut fonts, math.duplicate().into_vec());
            }
        }
        assert(fonts.deep_view() =~= self.configured_fonts());
        if fonts.len() == 0 {
            fonts.push(DEFAULT_FONT_SANS[0].to_string());
            fonts.push(DEFAULT_FONT_MONO[0].to_string());
            fonts.push(DEFAULT_FONT_MATH[0].to_string());
            assert(fonts.deep_view() =~= seq![default_sans()[0], default_mono()[0], default_math()[0]]);
        }
        fonts
    }
}

/// Moves the names of `more` to the end of `fonts`.
fn append_names(fonts: &mut Vec<String>, more: Vec<String>)
    ensures
        final(fonts).deep_view() == old(fonts).deep_view() + more.deep_view(),
{
    let mut more = more;
    let ghost m = more.deep_view();
    fonts.append(&mut more);
    assert(fonts.deep_view() =~= old(fonts).deep_view() + m);
}

/// What building a stack does, by induction over the defaults: the stack is
/// kept as a prefix, the result holds exactly the names of the stack and of the
/// defaults, no duplicate is introduced, and defaults that are new and distinct
/// are appended as they are.
proof fn lemma_stack_with_defaults(stack: Seq<Seq<char>>, defaults: Seq<Seq<char>>)
    ensures
        stack_with_defaults(stack, defaults).len() >= stack.len(),
        stack_with_defaults(stack, defaults).take(stack.len() as int) == stack,
        forall|x: Seq<char>|
            stack_with_defaults(stack, defaults).contains(x) <==> (stack.contains(x)
                || defaults.contains(x)),
        stack.no_duplicates() ==> stack_with_defaults(stack, defaults).no_duplicates(),
        defaults.no_duplicates() && (forall|i: int|
            0 <= i < defaults.len() ==> !stack.contains(#[trigger] defaults[i]))
            ==> stack_with_defaults(stack, defaults) == stack + defaults,
    decreases defaults.len(),
{
    if defaults.len() == 0 {
        assert(stack.take(stack.len() as int) =~= stack);
        assert(stack + defaults =~= stack);
    } else {
        let d = defaults[0];
        let rest = defaults.drop_first();
        let next = if stack.contains(d) {
            stack
        } else {
            stack.push(d)
        };
        lemma_stack_with_defaults(next, rest);
        let res = stack_with_defaults(stack, defaults);
        assert(res == stack_with_defaults(next, rest));
        assert(next.take(stack.len() as int) =~= stack);
        assert(res.take(stack.len() as int) =~= res.take(next.len() as int).take(
            stack.len() as int,
        ));
        assert forall|x: Seq<char>| res.contains(x) <==> (stack.contains(x) || defaults.contains(
            x,
        )) by {
            if next.contains(x) && !stack.contains(x) {
                let k = choose|k: int| 0 <= k < next.len() && next[k] == x;
                assert(k == stack.len());
                assert(defaults[0] == x);
            }
            if stack.contains(x) {
                let k = choose|k: int| 0 <= k < stack.len() && stack[k] == x;
                assert(next[k] == x);
            }
            if defaults.contains(x) {
                let k = choose|k: int| 0 <= k < defaults.len() && defaults[k] == x;
                if k > 0 {
                    assert(rest[k - 1] == x);
                } else if !stack.contains(d) {
                    assert(next[stack.len() as int] == x);
                }
            }
            if rest.contains(x) {
                let k = choose|k: int| 0 <= k < rest.len() && rest[k] == x;
                assert(defaults[k + 1] == x);
            }
        }
        if stack.no_duplicates() && !stack.contains(d) {
            assert forall|i: int, j: int|
                0 <= i < next.len() && 0 <= j < next.len() && i != j implies next[i]
                != next[j] by {
                if i == stack.len() {
                    assert(stack[j] == next[j]);
                } else if j == stack.len() {
                    assert(stack[i] == next[i]);
                }
            }
        }
        if defaults.no_duplicates() && (forall|i: int|
            0 <= i < defaults.len() ==> !stack.contains(#[trigger] defaults[i])) {
            assert(!stack.contains(defaults[0]));
            assert(next == stack.push(d));
            assert forall|i: int| 0 <= i < rest.len() implies !next.contains(#[trigger] rest[i]) by {
                assert(rest[i] == defaults[i + 1]);
                assert(!stack.contains(defaults[i + 1]));
                if next.contains(rest[i]) {
                    let k = choose|k: int| 0 <= k < next.len() && next[k] == rest[i];
                    if k < stack.len() {
                        assert(stack[k] == rest[i]);
                    } else {
                        assert(defaults[0] == defaults[i + 1]);
                    }
                }
            }
            assert(rest.no_duplicates());
            assert(next + rest =~= stack + defaults);
        }
    }
}

/// A font stack always begins with the configured families, in their order,
/// and never loses one of them.
pub proof fn law_stack_starts_with_preference(preferred: Option<FontValue>, defaults: Seq<Seq<char>>)
    ensures
        stack_with_defaults(preference(preferred), defaults).len() >= preference(preferred).len(),
        stack_with_defaults(preference(preferred), defaults).take(
            preference(preferred).len() as int,
        ) == preference(preferred),
{
    lemma_stack_with_defaults(preference(preferred), defaults);
}

/// A font stack holds every default (so the browser can always fall back to
/// them) and names no family that is neither configured nor a default.
pub proof fn law_stack_holds_defaults(preferred: Option<FontValue>, defaults: Seq<Seq<char>>)
    ensures
        forall|x: Seq<char>|
            stack_with_defaults(preference(preferred), defaults).contains(x) <==> (preference(
                preferred,
            ).contains(x) || defaults.contains(x)),
{
    lemma_stack_with_defaults(preference(preferred), defaults);
}

/// Building a stack adds no duplicate: when the configured families are
/// distinct, so are the names of the stack.
pub proof fn law_stack_adds_no_duplicates(preferred: Option<FontValue>, defaults: Seq<Seq<char>>)
    requires
        preference(preferred).no_duplicates(),
    ensures
        stack_with_defaults(preference(preferred), defaults).no_duplicates(),
{
    lemma_stack_with_defaults(preference(preferred), defaults);
}

/// Distinct defaults that none of the configured families repeats are all
/// appended after them, in their order.
pub proof fn law_stack_appends_new_defaults(preferred: Option<FontValue>, defaults: Seq<Seq<char>>)
    requires
        defaults.no_duplicates(),
        forall|i: int|
            0 <= i < defaults.len() ==> !preference(preferred).contains(#[trigger] defaults[i]),
    ensures
        stack_with_defaults(preference(preferred), defaults) == preference(preferred) + defaults,
{
    lemma_stack_with_defaults(preference(preferred), defaults);
}

/// Each default stack names every family once.
proof fn lemma_defaults_distinct()
    ensures
        default_sans().no_duplicates(),
        default_mono().no_duplicates(),
        default_math().no_duplicates(),
{
    reveal_strlit("Noto Sans SC");
    reveal_strlit("system-ui");
    reveal_strlit("-apple-system");
    reveal_strlit("Segoe UI");
    reveal_strlit("Roboto");
    reveal_strlit("Helvetica Neue");
    reveal_strlit("Arial");
    reveal_strlit("sans-serif");
    reveal_strlit("JetBrains Mono");
    reveal_strlit("Fira Code");
    reveal_strlit("ui-monospace");
    reveal_strlit("SF Mono");
    reveal_strlit("Cascadia Code");
    reveal_strlit("Consolas");
    reveal_strlit("Courier New");
    reveal_strlit("monospace");
    reveal_strlit("KaTeX_Main");
    reveal_strlit("serif");
    let s = default_sans();
    let m = default_mono();
    let h = default_math();
    assert(s.len() == 8 && m.len() == 8 && h.len() == 2);
    assert forall|i: int, j: int| 0 <= i < s.len() && 0 <= j < s.len() && i != j implies s[i]
        != s[j] by {
        assert(s[i].len() != s[j].len());
    }
    assert forall|i: int, j: int| 0 <= i < m.len() && 0 <= j < m.len() && i != j implies m[i]
        != m[j] by {
        assert(m[i].len() != m[j].len() || m[i][0] != m[j][0]);
    }
    assert forall|i: int, j: int| 0 <= i < h.len() && 0 <= j < h.len() && i != j implies h[i]
        != h[j] by {
        assert(h[i].len() != h[j].len());
    }
}

/// Without a configuration file each stack is exactly its default list.
pub proof fn law_unconfigured_stacks_are_defaults(config: Config)
    requires
        config.fonts is None,
    ensures
        stack_with_defaults(preference(config.sans_preference()), default_sans())
            == default_sans(),
        stack_with_defaults(preference(config.mono_preference()), default_mono())
            == default_mono(),
        stack_with_defaults(preference(config.math_preference()), default_math())
            == default_math(),
{
    lemma_defaults_distinct();
    let e = Seq::<Seq<char>>::empty();
    lemma_stack_with_defaults(e, default_sans());
    lemma_stack_with_defaults(e, default_mono());
    lemma_stack_with_defaults(e, default_math());
    assert(e + default_sans() =~= default_sans());
    assert(e + default_mono() =~= default_mono());
    assert(e + default_math() =~= default_math());
}

/// The list of families to check is never empty.
pub proof fn law_preferred_fonts_nonempty(config: Config)
    ensures
        config.spec_preferred_fonts().len() > 0,
{
}

/// The families a health check looks for are families that the page asks
/// for: each one stands in the sans, the mono or the math stack.
pub proof fn law_checked_fonts_are_in_stacks(config: Config)
    ensures
        forall|x: Seq<char>|
            #[trigger] config.spec_preferred_fonts().contains(x) ==> stack_with_defaults(
                preference(config.sans_preference()),
                default_sans(),
            ).contains(x) || stack_with_defaults(
                preference(config.mono_preference()),
                default_mono(),
            ).contains(x) || stack_with_defaults(
                preference(config.math_preference()),
                default_math(),
            ).contains(x),
{
    let s = preference(config.sans_preference());
    let m = preference(config.mono_preference());
    let h = preference(config.math_preference());
    lemma_stack_with_defaults(s, default_sans());
    lemma_stack_with_defaults(m, default_mono());
    lemma_stack_with_defaults(h, default_math());
    assert forall|x: Seq<char>| #[trigger] config.spec_preferred_fonts().contains(x) implies
        stack_with_defaults(s, default_sans()).contains(x) || stack_with_defaults(
            m,
            default_mono(),
        ).contains(x) || stack_with_defaults(h, default_math()).contains(x) by {
        let p = config.spec_preferred_fonts();
        let k = choose|k: int| 0 <= k < p.len() && p[k] == x;
        if config.configured_fonts().len() == 0 {
            if k == 0 {
                assert(default_sans().contains(x)) by {
                    assert(default_sans()[0] == x);
                }
            } else if k == 1 {
                assert(default_mono().contains(x)) by {
                    assert(default_mono()[0] == x);
                }
            } else {
                assert(default_math().contains(x)) by {
                    assert(default_math()[0] == x);
                }
            }
        } else {
            assert(p == s + m + h);
            if k < s.len() {
                assert(s[k] == x);
            } else if k < s.len() + m.len() {
                assert(m[k - s.len()] == x);
            } else {
                assert(h[k - s.len() - m.len()] == x);
            }
        }
    }
}

/// A preference names exactly the families it was written with: one name for
/// `Single`, every name of the list, in order, for `Multiple`.
pub proof fn law_preference_names_every_family(v: FontValue)
    ensures
        v matches FontValue::Single(s) ==> v.fonts().len() == 1 && v.fonts()[0] == s@,
        v matches FontValue::Multiple(list) ==> v.fonts().len() == list@.len() && forall|i: int|
            0 <= i < list@.len() ==> v.fonts()[i] == (#[trigger] list@[i])@,
{
}

/// A configured list heads its font stack whole: the stack starts with every
/// listed family, in the order of the list, whatever the defaults.
pub proof fn law_configured_list_heads_stack(list: Vec<String>, defaults: Seq<Seq<char>>)
    ensures
        ({
            let stack = stack_with_defaults(
                preference(Some(FontValue::Multiple(list))),
                defaults,
            );
            &&& stack.len() >= list@.len()
            &&& forall|i: int| 0 <= i < list@.len() ==> stack[i] == (#[trigger] list@[i])@
        }),
{
    let pref = preference(Some(FontValue::Multiple(list)));
    law_preference_names_every_family(FontValue::Multiple(list));
    lemma_stack_with_defaults(pref, defaults);
    let stack = stack_with_defaults(pref, defaults);
    assert forall|i: int| 0 <= i < list@.len() implies stack[i] == (#[trigger] list@[i])@ by {
        assert(stack.take(pref.len() as int)[i] == stack[i]);
    }
}

/// The families that a health check looks for start with every family of a
/// configured non-empty sans list, in its order.
pub proof fn law_checked_fonts_start_with_sans_list(config: Config, list: Vec<String>)
    requires
        config.sans_preference() == Some(FontValue::Multiple(list)),
        list@.len() > 0,
    ensures
        config.spec_preferred_fonts().len() >= list@.len(),
        forall|i: int|
            0 <= i < list@.len() ==> config.spec_preferred_fonts()[i] == (#[trigger] list@[i])@,
{
    law_preference_names_every_family(FontValue::Multiple(list));
    let p = config.configured_fonts();
    assert(p.len() >= list@.len());
    assert forall|i: int| 0 <= i < list@.len() implies config.spec_preferred_fonts()[i]
        == (#[trigger] list@[i])@ by {
        assert(p[i] == preference(config.sans_preference())[i]);
    }
}

/// Without any configured family, the health check looks for Noto Sans SC,
/// JetBrains Mono and KaTeX_Main, in that order.
pub proof fn law_unconfigured_checks_first_defaults(config: Config)
    requires
        config.configured_fonts().len() == 0,
    ensures
        config.spec_preferred_fonts() == seq!["Noto Sans SC"@, "JetBrains Mono"@, "KaTeX_Main"@],
{
    assert(default_sans()[0] == "Noto Sans SC"@);
    assert(default_mono()[0] == "JetBrains Mono"@);
    assert(default_math()[0] == "KaTeX_Main"@);
}

} // verus!
