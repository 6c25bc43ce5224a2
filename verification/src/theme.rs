//! Colour themes: the owned `Theme` record that configuration files and the
//! UI exchange, the built-in table of `ThemeRef`s, and lookup by name.

use vstd::prelude::*;

use crate::text::{
    ascii_lower_char, ascii_lowered, ascii_upper_char, ascii_uppered, is_ascii_text, lemma_case_keeps_white_space,
    lemma_lower_absorbs, lemma_trim_map, lemma_trimmed_ascii, lemma_trimmed_idempotent, lowercase_of, owned, str_eq,
    to_lowercase, trim, trim_end_of, trim_start_of, trimmed_of,
};

verus! {

/// A colour theme as read from configuration or handed to the UI.
/// Every field may be absent.
#[derive(Debug, PartialEq, Eq)]
pub struct Theme {
    pub name: Option<String>,
    /// background colour
    pub bg_color: Option<String>,
    /// foreground colour used for highlighting
    pub fg_color: Option<String>,
    /// font colour used for background items
    pub bg_font_color: Option<String>,
    /// font colour used for foreground items
    pub fg_font_color: Option<String>,
}

/// The mathematical content of a `Theme`.
pub struct ThemeModel {
    pub name: Option<Seq<char>>,
    pub bg_color: Option<Seq<char>>,
    pub fg_color: Option<Seq<char>>,
    pub bg_font_color: Option<Seq<char>>,
    pub fg_font_color: Option<Seq<char>>,
}

/// The view of an optional owned string.
pub open spec fn opt_view(o: Option<String>) -> Option<Seq<char>> {
    match o {
        Some(s) => Some(s@),
        None => None,
    }
}

impl View for Theme {
    type V = ThemeModel;

    open spec fn view(&self) -> ThemeModel {
        ThemeModel {
            name: opt_view(self.name),
            bg_color: opt_view(self.bg_color),
            fg_color: opt_view(self.fg_color),
            bg_font_color: opt_view(self.bg_font_color),
            fg_font_color: opt_view(self.fg_font_color),
        }
    }
}

/// A copy of an optional string with the same content.
pub fn clone_opt_string(o: &Option<String>) -> (r: Option<String>)
    ensures
        opt_view(r) == opt_view(*o),
{
    match o {
        Some(s) => Some(s.clone()),
        None => None,
    }
}

impl Theme {
    /// A theme with every field absent.
    pub fn empty() -> (r: Theme)
        ensures
            r@ == (ThemeModel {
                name: None,
                bg_color: None,
                fg_color: None,
                bg_font_color: None,
                fg_font_color: None,
            }),
    {
        Theme { name: None, bg_color: None, fg_color: None, bg_font_color: None, fg_font_color: None }
    }

    /// A copy of the theme with the same content.
    pub fn duplicate(&self) -> (r: Theme)
        ensures
            r@ == self@,
    {
        Theme {
            name: clone_opt_string(&self.name),
            bg_color: clone_opt_string(&self.bg_color),
            fg_color: clone_opt_string(&self.fg_color),
            bg_font_color: clone_opt_string(&self.bg_font_color),
            fg_font_color: clone_opt_string(&self.fg_font_color),
        }
    }

    /// Whether the theme carries exactly this name.
    pub fn has_name(&self, name: &str) -> (r: bool)
        ensures
            r == (self@.name == Some(name@)),
    {
        match &self.name {
            Some(n) => str_eq(n.as_str(), name),
            None => false,
        }
    }
}

/// A built-in theme: five static strings.
#[derive(Copy, Clone, Debug, PartialEq, Eq)]
pub struct ThemeRef {
    pub name: &'static str,
    pub bg_color: &'static str,
    pub fg_color: &'static str,
    pub bg_font_color: &'static str,
    pub fg_font_color: &'static str,
}

impl ThemeRef {
    /// A built-in theme from its name and its four colours.
    #[verifier::allow_in_spec]
    pub fn new(
        name: &'static str,
        bg_color: &'static str,
        fg_color: &'static str,
        bg_font_color: &'static str,
        fg_font_color: &'static str,
    ) -> Self
        returns
            (ThemeRef { name, bg_color, fg_color, bg_font_color, fg_font_color }),
    {
        ThemeRef { name, bg_color, fg_color, bg_font_color, fg_font_color }
    }

    /// The owned theme that this built-in theme turns into: every field present.
    pub open spec fn owned_model(self) -> ThemeModel {
        ThemeModel {
            name: Some(self.name@),
            bg_color: Some(self.bg_color@),
            fg_color: Some(self.fg_color@),
            bg_font_color: Some(self.bg_font_color@),
            fg_font_color: Some(self.fg_font_color@),
        }
    }

    /// The owned `Theme` with every field present and equal to this theme's.
    pub fn to_owned(self) -> (r: Theme)
        ensures
            r@ == self.owned_model(),
    {
        Theme {
            name: Some(owned(self.name)),
            bg_color: Some(owned(self.bg_color)),
            fg_color: Some(owned(self.fg_color)),
            bg_font_color: Some(owned(self.bg_font_color)),
            fg_font_color: Some(owned(self.fg_font_color)),
        }
    }
}

impl From<ThemeRef> for Theme {
    /// The owned theme of a built-in theme, as `ThemeRef::to_owned` makes it.
    fn from(t: ThemeRef) -> (r: Theme)
        ensures
            r@ == t.owned_model(),
    {
        t.to_owned()
    }
}

impl vstd::std_specs::convert::FromSpecImpl<ThemeRef> for Theme {
    /// The conversion's result is described by the `ensures` of `from`, by
    /// its content; no single `Theme` value is promised.
    open spec fn obeys_from_spec() -> bool {
        false
    }

    open spec fn from_spec(v: ThemeRef) -> Theme {
        choose|t: Theme| t@ == v.owned_model()
    }
}

#[verifier::allow_in_spec]
pub fn monokai() -> ThemeRef
    returns
        ThemeRef::new("monokai", "#272822", "#49483E", "#F8F8F2", "#FFFFFF"),
{
    ThemeRef::new("monokai", "#272822", "#49483E", "#F8F8F2", "#FFFFFF")
}

#[verifier::allow_in_spec]
pub fn dracula() -> ThemeRef
    returns
        ThemeRef::new("dracula", "#282A36", "#44475A", "#F8F8F2", "#FFFFFF"),
{
    ThemeRef::new("dracula", "#282A36", "#44475A", "#F8F8F2", "#FFFFFF")
}

#[verifier::allow_in_spec]
pub fn catppuccin_latte() -> ThemeRef
    returns
        ThemeRef::new("catppuccin-latte", "#EFF1F5", "#CCD0DA", "#4C4F69", "#1E1E2E"),
{
    ThemeRef::new("catppuccin-latte", "#EFF1F5", "#CCD0DA", "#4C4F69", "#1E1E2E")
}

#[verifier::allow_in_spec]
pub fn catppuccin_frappe() -> ThemeRef
    returns
        ThemeRef::new("catppuccin-frappe", "#303446", "#414559", "#C6D0F5", "#E6E9EF"),
{
    ThemeRef::new("catppuccin-frappe", "#303446", "#414559", "#C6D0F5", "#E6E9EF")
}

#[verifier::allow_in_spec]
pub fn catppuccin_macchiato() -> ThemeRef
    returns
        ThemeRef::new("catppuccin-macchiato", "#24273A", "#363A4F", "#CAD3F5", "#E8E8E8"),
{
    ThemeRef::new("catppuccin-macchiato", "#24273A", "#363A4F", "#CAD3F5", "#E8E8E8")
}

#[verifier::allow_in_spec]
pub fn catppuccin_mocha() -> ThemeRef
    returns
        ThemeRef::new("catppuccin-mocha", "#1E1E2E", "#313244", "#CDD6F4", "#E6E6E6"),
{
    ThemeRef::new("catppuccin-mocha", "#1E1E2E", "#313244", "#CDD6F4", "#E6E6E6")
}

#[verifier::allow_in_spec]
pub fn solarized_dark() -> ThemeRef
    returns
        ThemeRef::new("solarized-dark", "#002B36", "#073642", "#93A1A1", "#FDF6E3"),
{
    ThemeRef::new("solarized-dark", "#002B36", "#073642", "#93A1A1", "#FDF6E3")
}

#[verifier::allow_in_spec]
pub fn solarized_light() -> ThemeRef
    returns
        ThemeRef::new("solarized-light", "#FDF6E3", "#EEE8D5", "#586E75", "#073642"),
{
    ThemeRef::new("solarized-light", "#FDF6E3", "#EEE8D5", "#586E75", "#073642")
}

#[verifier::allow_in_spec]
pub fn gruvbox_dark() -> ThemeRef
    returns
        ThemeRef::new("gruvbox-dark", "#282828", "#3C3836", "#EBDBB2", "#FBF1C7"),
{
    ThemeRef::new("gruvbox-dark", "#282828", "#3C3836", "#EBDBB2", "#FBF1C7")
}

#[verifier::allow_in_spec]
pub fn gruvbox_light() -> ThemeRef
    returns
        ThemeRef::new("gruvbox-light", "#FBF1C7", "#EBDBB2", "#3C3836", "#282828"),
{
    ThemeRef::new("gruvbox-light", "#FBF1C7", "#EBDBB2", "#3C3836", "#282828")
}

#[verifier::allow_in_spec]
pub fn nord() -> ThemeRef
    returns
        ThemeRef::new("nord", "#2E3440", "#3B4252", "#D8DEE9", "#ECEFF4"),
{
    ThemeRef::new("nord", "#2E3440", "#3B4252", "#D8DEE9", "#ECEFF4")
}

#[verifier::allow_in_spec]
pub fn one_dark() -> ThemeRef
    returns
        ThemeRef::new("one-dark", "#282C34", "#3E4451", "#ABB2BF", "#FFFFFF"),
{
    ThemeRef::new("one-dark", "#282C34", "#3E4451", "#ABB2BF", "#FFFFFF")
}

#[verifier::allow_in_spec]
pub fn tokyo_night() -> ThemeRef
    returns
        ThemeRef::new("tokyo-night", "#1A1B26", "#2F334D", "#C0CAF5", "#E6E6E6"),
{
    ThemeRef::new("tokyo-night", "#1A1B26", "#2F334D", "#C0CAF5", "#E6E6E6")
}

#[verifier::allow_in_spec]
pub fn tokyo_night_storm() -> ThemeRef
    returns
        ThemeRef::new("tokyo-night-storm", "#24283B", "#283457", "#C0CAF5", "#E6E6E6"),
{
    ThemeRef::new("tokyo-night-storm", "#24283B", "#283457", "#C0CAF5", "#E6E6E6")
}

#[verifier::allow_in_spec]
pub fn yal_red() -> ThemeRef
    returns
        ThemeRef::new("yal-red", "#24273A", "#FF7A93", "#CAD3F5", "#242424"),
{
    ThemeRef::new("yal-red", "#24273A", "#FF7A93", "#CAD3F5", "#242424")
}

#[verifier::allow_in_spec]
pub fn yal_blue() -> ThemeRef
    returns
        ThemeRef::new("yal-blue", "#24273A", "#7AA2F7", "#CAD3F5", "#242424"),
{
    ThemeRef::new("yal-blue", "#24273A", "#7AA2F7", "#CAD3F5", "#242424")
}

#[verifier::allow_in_spec]
pub fn yal_green() -> ThemeRef
    returns
        ThemeRef::new("yal-green", "#24273A", "#9ECE6A", "#CAD3F5", "#242424"),
{
    ThemeRef::new("yal-green", "#24273A", "#9ECE6A", "#CAD3F5", "#242424")
}

#[verifier::allow_in_spec]
pub fn yal_yellow() -> ThemeRef
    returns
        ThemeRef::new("yal-yellow", "#24273A", "#E0AF68", "#CAD3F5", "#242424"),
{
    ThemeRef::new("yal-yellow", "#24273A", "#E0AF68", "#CAD3F5", "#242424")
}

#[verifier::allow_in_spec]
pub fn yal_purple() -> ThemeRef
    returns
        ThemeRef::new("yal-purple", "#24273A", "#BB9AF7", "#CAD3F5", "#242424"),
{
    ThemeRef::new("yal-purple", "#24273A", "#BB9AF7", "#CAD3F5", "#242424")
}

/// The built-in themes, in the order in which they are offered.
pub open spec fn builtin_themes() -> Seq<ThemeRef> {
    seq![
        monokai(),
        dracula(),
        catppuccin_latte(),
        catppuccin_frappe(),
        catppuccin_macchiato(),
        catppuccin_mocha(),
        solarized_dark(),
        solarized_light(),
        gruvbox_dark(),
        gruvbox_light(),
        nord(),
        one_dark(),
        tokyo_night(),
        tokyo_night_storm(),
        yal_red(),
        yal_blue(),
        yal_green(),
        yal_yellow(),
        yal_purple(),
    ]
}

/// The built-in themes as a vector.
pub fn all() -> (r: Vec<ThemeRef>)
    ensures
        r@ == builtin_themes(),
{
    let mut v: Vec<ThemeRef> = Vec::new();
    v.push(monokai());
    v.push(dracula());
    v.push(catppuccin_latte());
    v.push(catppuccin_frappe());
    v.push(catppuccin_macchiato());
    v.push(catppuccin_mocha());
    v.push(solarized_dark());
    v.push(solarized_light());
    v.push(gruvbox_dark());
    v.push(gruvbox_light());
    v.push(nord());
    v.push(one_dark());
    v.push(tokyo_night());
    v.push(tokyo_night_storm());
    v.push(yal_red());
    v.push(yal_blue());
    v.push(yal_green());
    v.push(yal_yellow());
    v.push(yal_purple());
    assert(v@ =~= builtin_themes());
    v
}

/// The canonical theme name that a (trimmed, lower-case) name or alias stands for.
pub open spec fn alias_target(n: Seq<char>) -> Seq<char> {
    if n == "one"@ || n == "onedark"@ || n == "one-dark-pro"@ {
        "one-dark"@
    } else if n == "tokyo"@ || n == "tokyonight"@ {
        "tokyo-night"@
    } else if n == "tokyo-storm"@ || n == "tokyonight-storm"@ {
        "tokyo-night-storm"@
    } else if n == "catppuccin"@ {
        "catppuccin-mocha"@
    } else if n == "catppuccin-latte"@ || n == "latte"@ {
        "catppuccin-latte"@
    } else if n == "catppuccin-frappe"@ || n == "frappe"@ {
        "catppuccin-frappe"@
    } else if n == "catppuccin-macchiato"@ || n == "macchiato"@ {
        "catppuccin-macchiato"@
    } else if n == "catppuccin-mocha"@ || n == "mocha"@ {
        "catppuccin-mocha"@
    } else if n == "yalred"@ || n == "yal-red"@ {
        "yal-red"@
    } else if n == "yalblue"@ || n == "yal-blue"@ {
        "yal-blue"@
    } else if n == "yalgreen"@ || n == "yal-green"@ {
        "yal-green"@
    } else if n == "yalyellow"@ || n == "yal-yellow"@ {
        "yal-yellow"@
    } else if n == "yalpurple"@ || n == "yal-purple"@ {
        "yal-purple"@
    } else {
        n
    }
}

/// Maps an alias to the canonical name it stands for; other names are kept.
pub fn resolve_alias(n: &str) -> (r: &str)
    ensures
        r@ == alias_target(n@),
{
    if str_eq(n, "one") || str_eq(n, "onedark") || str_eq(n, "one-dark-pro") {
        "one-dark"
    } else if str_eq(n, "tokyo") || str_eq(n, "tokyonight") {
        "tokyo-night"
    } else if str_eq(n, "tokyo-storm") || str_eq(n, "tokyonight-storm") {
        "tokyo-night-storm"
    } else if str_eq(n, "catppuccin") {
        "catppuccin-mocha"
    } else if str_eq(n, "catppuccin-latte") || str_eq(n, "latte") {
        "catppuccin-latte"
    } else if str_eq(n, "catppuccin-frappe") || str_eq(n, "frappe") {
        "catppuccin-frappe"
    } else if str_eq(n, "catppuccin-macchiato") || str_eq(n, "macchiato") {
        "catppuccin-macchiato"
    } else if str_eq(n, "catppuccin-mocha") || str_eq(n, "mocha") {
        "catppuccin-mocha"
    } else if str_eq(n, "yalred") || str_eq(n, "yal-red") {
        "yal-red"
    } else if str_eq(n, "yalblue") || str_eq(n, "yal-blue") {
        "yal-blue"
    } else if str_eq(n, "yalgreen") || str_eq(n, "yal-green") {
        "yal-green"
    } else if str_eq(n, "yalyellow") || str_eq(n, "yal-yellow") {
        "yal-yellow"
    } else if str_eq(n, "yalpurple") || str_eq(n, "yal-purple") {
        "yal-purple"
    } else {
        n
    }
}

/// The first theme of `ts` whose name is `name`.
pub open spec fn first_ref_named(ts: Seq<ThemeRef>, name: Seq<char>) -> Option<ThemeRef>
    decreases ts.len(),
{
    if ts.len() == 0 {
        None
    } else if ts[0].name@ == name {
        Some(ts[0])
    } else {
        first_ref_named(ts.drop_first(), name)
    }
}

/// A theme found by name is one of the themes searched, and has that name;
/// none is found only when no theme has it.
pub proof fn lemma_first_ref_named(ts: Seq<ThemeRef>, name: Seq<char>)
    ensures
        first_ref_named(ts, name) matches Some(t) ==> ts.contains(t) && t.name@ == name,
        first_ref_named(ts, name) is None <==> forall|i: int| 0 <= i < ts.len() ==> (#[trigger] ts[i]).name@ != name,
    decreases ts.len(),
{
    if ts.len() > 0 {
        lemma_first_ref_named(ts.drop_first(), name);
        if let Some(t) = first_ref_named(ts, name) {
            if ts[0].name@ != name {
                let k = choose|k: int| 0 <= k < ts.drop_first().len() && ts.drop_first()[k] == t;
                assert(ts[k + 1] == t);
            }
        }
        if first_ref_named(ts, name) is None {
            assert forall|i: int| 0 <= i < ts.len() implies (#[trigger] ts[i]).name@ != name by {
                if i > 0 {
                    assert(ts[i] == ts.drop_first()[i - 1]);
                }
            }
        }
        if forall|i: int| 0 <= i < ts.len() ==> (#[trigger] ts[i]).name@ != name {
            assert forall|i: int| 0 <= i < ts.drop_first().len() implies (#[trigger] ts.drop_first()[i]).name@
                != name by {
                assert(ts.drop_first()[i] == ts[i + 1]);
            }
        }
    }
}

/// What `by_name` finds is always a built-in theme whose canonical name is
/// what the given name stands for.
pub proof fn law_lookup_finds_builtins(name: Seq<char>)
    ensures
        first_ref_named(builtin_themes(), alias_target(name)) matches Some(t) ==> builtin_themes().contains(t)
            && t.name@ == alias_target(name),
{
    lemma_first_ref_named(builtin_themes(), alias_target(name));
}

/// The length, first and last character of a name, which tell the
/// built-in names and aliases apart.
spec fn name_sig(s: Seq<char>) -> (nat, char, char) {
    (s.len(), s[0], s[s.len() - 1])
}

proof fn lemma_literal_sigs()
    ensures
        name_sig("monokai"@) == (7nat, 'm', 'i'),
        name_sig("dracula"@) == (7nat, 'd', 'a'),
        name_sig("catppuccin-latte"@) == (16nat, 'c', 'e'),
        name_sig("catppuccin-frappe"@) == (17nat, 'c', 'e'),
        name_sig("catppuccin-macchiato"@) == (20nat, 'c', 'o'),
        name_sig("catppuccin-mocha"@) == (16nat, 'c', 'a'),
        name_sig("solarized-dark"@) == (14nat, 's', 'k'),
        name_sig("solarized-light"@) == (15nat, 's', 't'),
        name_sig("gruvbox-dark"@) == (12nat, 'g', 'k'),
        name_sig("gruvbox-light"@) == (13nat, 'g', 't'),
        name_sig("nord"@) == (4nat, 'n', 'd'),
        name_sig("one-dark"@) == (8nat, 'o', 'k'),
        name_sig("tokyo-night"@) == (11nat, 't', 't'),
        name_sig("tokyo-night-storm"@) == (17nat, 't', 'm'),
        name_sig("yal-red"@) == (7nat, 'y', 'd'),
        name_sig("yal-blue"@) == (8nat, 'y', 'e'),
        name_sig("yal-green"@) == (9nat, 'y', 'n'),
        name_sig("yal-yellow"@) == (10nat, 'y', 'w'),
        name_sig("yal-purple"@) == (10nat, 'y', 'e'),
        name_sig("one"@) == (3nat, 'o', 'e'),
        name_sig("onedark"@) == (7nat, 'o', 'k'),
        name_sig("one-dark-pro"@) == (12nat, 'o', 'o'),
        name_sig("tokyo"@) == (5nat, 't', 'o'),
        name_sig("tokyonight"@) == (10nat, 't', 't'),
        name_sig("tokyo-storm"@) == (11nat, 't', 'm'),
        name_sig("tokyonight-storm"@) == (16nat, 't', 'm'),
        name_sig("catppuccin"@) == (10nat, 'c', 'n'),
        name_sig("latte"@) == (5nat, 'l', 'e'),
        name_sig("frappe"@) == (6nat, 'f', 'e'),
        name_sig("macchiato"@) == (9nat, 'm', 'o'),
        name_sig("mocha"@) == (5nat, 'm', 'a'),
        name_sig("yalred"@) == (6nat, 'y', 'd'),
        name_sig("yalblue"@) == (7nat, 'y', 'e'),
        name_sig("yalgreen"@) == (8nat, 'y', 'n'),
        name_sig("yalyellow"@) == (9nat, 'y', 'w'),
        name_sig("yalpurple"@) == (9nat, 'y', 'e'),
{
    reveal_strlit("monokai");
    reveal_strlit("dracula");
    reveal_strlit("catppuccin-latte");
    reveal_strlit("catppuccin-frappe");
    reveal_strlit("catppuccin-macchiato");
    reveal_strlit("catppuccin-mocha");
    reveal_strlit("solarized-dark");
    reveal_strlit("solarized-light");
    reveal_strlit("gruvbox-dark");
    reveal_strlit("gruvbox-light");
    reveal_strlit("nord");
    reveal_strlit("one-dark");
    reveal_strlit("tokyo-night");
    reveal_strlit("tokyo-night-storm");
    reveal_strlit("yal-red");
    reveal_strlit("yal-blue");
    reveal_strlit("yal-green");
    reveal_strlit("yal-yellow");
    reveal_strlit("yal-purple");
    reveal_strlit("one");
    reveal_strlit("onedark");
    reveal_strlit("one-dark-pro");
    reveal_strlit("tokyo");
    reveal_strlit("tokyonight");
    reveal_strlit("tokyo-storm");
    reveal_strlit("tokyonight-storm");
    reveal_strlit("catppuccin");
    reveal_strlit("latte");
    reveal_strlit("frappe");
    reveal_strlit("macchiato");
    reveal_strlit("mocha");
    reveal_strlit("yalred");
    reveal_strlit("yalblue");
    reveal_strlit("yalgreen");
    reveal_strlit("yalyellow");
    reveal_strlit("yalpurple");
}

/// Whether a name is made of lower-case ASCII letters and hyphens only.
spec fn plain_name(s: Seq<char>) -> bool {
    forall|k: int| 0 <= k < s.len() ==> 97 <= (#[trigger] s[k] as u32) <= 122 || s[k] == '-'
}

proof fn lemma_builtin_names_plain()
    ensures
        plain_name("monokai"@),
        plain_name("dracula"@),
        plain_name("catppuccin-latte"@),
        plain_name("catppuccin-frappe"@),
        plain_name("catppuccin-macchiato"@),
        plain_name("catppuccin-mocha"@),
        plain_name("solarized-dark"@),
        plain_name("solarized-light"@),
        plain_name("gruvbox-dark"@),
        plain_name("gruvbox-light"@),
        plain_name("nord"@),
        plain_name("one-dark"@),
        plain_name("tokyo-night"@),
        plain_name("tokyo-night-storm"@),
        plain_name("yal-red"@),
        plain_name("yal-blue"@),
        plain_name("yal-green"@),
        plain_name("yal-yellow"@),
        plain_name("yal-purple"@),
{
    reveal_strlit("monokai");
    reveal_strlit("dracula");
    reveal_strlit("catppuccin-latte");
    reveal_strlit("catppuccin-frappe");
    reveal_strlit("catppuccin-macchiato");
    reveal_strlit("catppuccin-mocha");
    reveal_strlit("solarized-dark");
    reveal_strlit("solarized-light");
    reveal_strlit("gruvbox-dark");
    reveal_strlit("gruvbox-light");
    reveal_strlit("nord");
    reveal_strlit("one-dark");
    reveal_strlit("tokyo-night");
    reveal_strlit("tokyo-night-storm");
    reveal_strlit("yal-red");
    reveal_strlit("yal-blue");
    reveal_strlit("yal-green");
    reveal_strlit("yal-yellow");
    reveal_strlit("yal-purple");
}

/// A plain name is ASCII and is its own lookup key.
proof fn lemma_plain_key(s: Seq<char>)
    requires
        plain_name(s),
    ensures
        is_ascii_text(s),
        ascii_key(s) == s,
{
    if s.len() > 0 {
        assert(97 <= (s[0] as u32) <= 122 || s[0] == '-');
        assert(trim_start_of(s) == s);
        assert(97 <= (s[s.len() - 1] as u32) <= 122 || s[s.len() - 1] == '-');
        assert(trim_end_of(s) == s);
    }
    assert(trimmed_of(s) == s);
    assert forall|k: int| 0 <= k < s.len() implies #[trigger] ascii_lowered(s)[k] == s[k] by {
        assert(97 <= (s[k] as u32) <= 122 || s[k] == '-');
    }
    assert(ascii_lowered(s) =~= s);
}

/// The only names that an alias rewrites.
proof fn lemma_alias_moves(n: Seq<char>)
    ensures
        alias_target(n) != n ==> (n == "one"@ || n == "onedark"@ || n == "one-dark-pro"@ || n == "tokyo"@ || n == "tokyonight"@ || n == "tokyo-storm"@ || n == "tokyonight-storm"@ || n == "catppuccin"@ || n == "latte"@ || n == "frappe"@ || n == "macchiato"@ || n == "mocha"@ || n == "yalred"@ || n == "yalblue"@ || n == "yalgreen"@ || n == "yalyellow"@ || n == "yalpurple"@),
{
}

/// The theme at `i` is the first with its name when no theme before it has
/// that name.
proof fn lemma_first_ref_named_at(ts: Seq<ThemeRef>, name: Seq<char>, i: int)
    requires
        0 <= i < ts.len(),
        ts[i].name@ == name,
        forall|j: int| 0 <= j < i ==> (#[trigger] ts[j]).name@ != name,
    ensures
        first_ref_named(ts, name) == Some(ts[i]),
    decreases i,
{
    if i > 0 {
        assert(ts[0].name@ != name);
        assert forall|j: int| 0 <= j < i - 1 implies (#[trigger] ts.drop_first()[j]).name@ != name by {
            assert(ts.drop_first()[j] == ts[j + 1]);
        }
        lemma_first_ref_named_at(ts.drop_first(), name, i - 1);
    }
}

/// Every built-in theme is found by its own name: the name is ASCII and its
/// own lookup key, no alias rewrites it, and no theme before it in the
/// table has it; so `by_name` and `by_normalized_name` find it.
pub proof fn law_builtins_found_by_name(i: int)
    requires
        0 <= i < builtin_themes().len(),
    ensures
        is_ascii_text(builtin_themes()[i].name@),
        ascii_key(builtin_themes()[i].name@) == builtin_themes()[i].name@,
        alias_target(builtin_themes()[i].name@) == builtin_themes()[i].name@,
        first_ref_named(builtin_themes(), alias_target(ascii_key(builtin_themes()[i].name@))) == Some(
            builtin_themes()[i],
        ),
{
    lemma_literal_sigs();
    lemma_builtin_names_plain();
    let ts = builtin_themes();
    let n = ts[i].name@;
    lemma_plain_key(n);
    lemma_alias_moves(n);
    assert(alias_target(n) == n);
    assert forall|j: int| 0 <= j < i implies (#[trigger] ts[j]).name@ != n by {
        assert(name_sig(ts[j].name@) != name_sig(n));
    }
    lemma_first_ref_named_at(ts, n, i);
}

/// Every alias, in any ASCII case and with any white space around it,
/// finds the theme it stands for: `one`, `onedark` and `one-dark-pro` find
/// One Dark; `tokyo` and `tokyonight` find Tokyo Night; `tokyo-storm` and
/// `tokyonight-storm` find Tokyo Night Storm; `catppuccin` and `mocha` find
/// Catppuccin Mocha; `latte`, `frappe` and `macchiato` find those flavours
/// of Catppuccin; `yalred`, `yalblue`, `yalgreen`, `yalyellow` and
/// `yalpurple` find the YAL themes of those colours.
pub proof fn law_aliases_find_their_theme(s: Seq<char>)
    requires
        is_ascii_text(s),
    ensures
        (ascii_key(s) == "one"@ || ascii_key(s) == "onedark"@ || ascii_key(s) == "one-dark-pro"@) ==> first_ref_named(builtin_themes(), alias_target(ascii_key(s))) == Some(one_dark()),
        (ascii_key(s) == "tokyo"@ || ascii_key(s) == "tokyonight"@) ==> first_ref_named(builtin_themes(), alias_target(ascii_key(s))) == Some(tokyo_night()),
        (ascii_key(s) == "tokyo-storm"@ || ascii_key(s) == "tokyonight-storm"@) ==> first_ref_named(builtin_themes(), alias_target(ascii_key(s))) == Some(tokyo_night_storm()),
        (ascii_key(s) == "catppuccin"@ || ascii_key(s) == "catppuccin-mocha"@ || ascii_key(s) == "mocha"@) ==> first_ref_named(builtin_themes(), alias_target(ascii_key(s))) == Some(catppuccin_mocha()),
        (ascii_key(s) == "catppuccin-latte"@ || ascii_key(s) == "latte"@) ==> first_ref_named(builtin_themes(), alias_target(ascii_key(s))) == Some(catppuccin_latte()),
        (ascii_key(s) == "catppuccin-frappe"@ || ascii_key(s) == "frappe"@) ==> first_ref_named(builtin_themes(), alias_target(ascii_key(s))) == Some(catppuccin_frappe()),
        (ascii_key(s) == "catppuccin-macchiato"@ || ascii_key(s) == "macchiato"@) ==> first_ref_named(builtin_themes(), alias_target(ascii_key(s))) == Some(catppuccin_macchiato()),
        (ascii_key(s) == "yalred"@ || ascii_key(s) == "yal-red"@) ==> first_ref_named(builtin_themes(), alias_target(ascii_key(s))) == Some(yal_red()),
        (ascii_key(s) == "yalblue"@ || ascii_key(s) == "yal-blue"@) ==> first_ref_named(builtin_themes(), alias_target(ascii_key(s))) == Some(yal_blue()),
        (ascii_key(s) == "yalgreen"@ || ascii_key(s) == "yal-green"@) ==> first_ref_named(builtin_themes(), alias_target(ascii_key(s))) == Some(yal_green()),
        (ascii_key(s) == "yalyellow"@ || ascii_key(s) == "yal-yellow"@) ==> first_ref_named(builtin_themes(), alias_target(ascii_key(s))) == Some(yal_yellow()),
        (ascii_key(s) == "yalpurple"@ || ascii_key(s) == "yal-purple"@) ==> first_ref_named(builtin_themes(), alias_target(ascii_key(s))) == Some(yal_purple()),
{
    lemma_literal_sigs();
    law_builtins_found_by_name(11);
    law_builtins_found_by_name(12);
    law_builtins_found_by_name(13);
    law_builtins_found_by_name(5);
    law_builtins_found_by_name(2);
    law_builtins_found_by_name(3);
    law_builtins_found_by_name(4);
    law_builtins_found_by_name(14);
    law_builtins_found_by_name(15);
    law_builtins_found_by_name(16);
    law_builtins_found_by_name(17);
    law_builtins_found_by_name(18);
}

/// Looks up a built-in theme by its exact canonical name, after resolving aliases.
pub fn by_normalized_name(n: &str) -> (r: Option<ThemeRef>)
    ensures
        r == first_ref_named(builtin_themes(), alias_target(n@)),
{
    let normalized = resolve_alias(n);
    let ts = all();
    let len = ts.len();
    let mut i: usize = 0;
    assert(ts@.subrange(0, len as int) =~= ts@);
    while i < len
        invariant
            len == ts@.len(),
            ts@ == builtin_themes(),
            i <= len,
            normalized@ == alias_target(n@),
            first_ref_named(ts@, normalized@) == first_ref_named(ts@.subrange(i as int, len as int), normalized@),
        decreases len - i,
    {
        let t = ts[i];
        assert(ts@.subrange(i as int, len as int).drop_first() =~= ts@.subrange(i + 1, len as int));
        if str_eq(t.name, normalized) {
            return Some(t);
        }
        i = i + 1;
    }
    None
}

/// Case-insensitive lookup of a built-in theme, ignoring surrounding white
/// space and accepting a few aliases (`catppuccin` means `catppuccin-mocha`,
/// `onedark` means `one-dark`, ...).
pub fn by_name(name: &str) -> (r: Option<ThemeRef>)
    ensures
        r == first_ref_named(builtin_themes(), alias_target(lowercase_of(trimmed_of(name@)))),
        is_ascii_text(name@) ==> r == first_ref_named(builtin_themes(), alias_target(ascii_key(name@))),
{
    let t = trim(name);
    proof {
        if is_ascii_text(name@) {
            lemma_trimmed_ascii(name@);
        }
    }
    let lower = to_lowercase(t);
    by_normalized_name(lower.as_str())
}

/// The name that an ASCII name is looked up by: trimmed and lower-cased.
pub open spec fn ascii_key(s: Seq<char>) -> Seq<char> {
    ascii_lowered(trimmed_of(s))
}

/// The lookup of a built-in theme by an ASCII name ignores its case and the
/// white space around it: the name, the name in upper case, and the name
/// trimmed and in lower case are all looked up by the same key (and stay
/// ASCII, so `by_name` finds the same theme, or none, for all three).
pub proof fn law_lookup_ignores_ascii_case_and_space(s: Seq<char>)
    requires
        is_ascii_text(s),
    ensures
        is_ascii_text(ascii_uppered(s)),
        is_ascii_text(ascii_key(s)),
        ascii_key(ascii_uppered(s)) == ascii_key(s),
        ascii_key(ascii_key(s)) == ascii_key(s),
{
    let lower = |c: char| ascii_lower_char(c);
    let upper = |c: char| ascii_upper_char(c);
    lemma_case_keeps_white_space();
    lemma_trimmed_ascii(s);
    let t = trimmed_of(s);
    // upper-casing commutes with trimming, and lower-casing absorbs it
    lemma_trim_map(s, upper);
    assert(ascii_uppered(s) =~= s.map_values(upper));
    assert forall|i: int| 0 <= i < t.len() implies #[trigger] ascii_lowered(t.map_values(upper))[i] == ascii_lowered(
        t,
    )[i] by {
        lemma_lower_absorbs(t[i]);
    }
    assert(ascii_lowered(t.map_values(upper)) =~= ascii_lowered(t));
    // lower-casing commutes with trimming, trimming and lower-casing are idempotent
    lemma_trim_map(t, lower);
    assert(ascii_lowered(t) =~= t.map_values(lower));
    lemma_trimmed_idempotent(s);
    assert forall|i: int| 0 <= i < t.len() implies #[trigger] ascii_lowered(ascii_lowered(t))[i] == ascii_lowered(
        t,
    )[i] by {
        lemma_lower_absorbs(t[i]);
    }
    assert(ascii_lowered(ascii_lowered(t)) =~= ascii_lowered(t));
    assert forall|i: int| 0 <= i < s.len() implies (#[trigger] ascii_uppered(s)[i] as u32) < 128 by {
        assert((s[i] as u32) < 128);
    }
    assert forall|i: int| 0 <= i < ascii_key(s).len() implies (#[trigger] ascii_key(s)[i] as u32) < 128 by {
        assert((t[i] as u32) < 128);
    }
}

/// Every built-in theme as an owned `Theme`, in table order.
pub fn list_owned() -> (r: Vec<Theme>)
    ensures
        r@.len() == builtin_themes().len(),
        forall|i: int| 0 <= i < r@.len() ==> #[trigger] r@[i]@ == builtin_themes()[i].owned_model(),
{
    let ts = all();
    let mut out: Vec<Theme> = Vec::new();
    let mut i: usize = 0;
    while i < ts.len()
        invariant
            ts@ == builtin_themes(),
            i <= ts@.len(),
            out@.len() == i,
            forall|k: int| 0 <= k < i ==> #[trigger] out@[k]@ == builtin_themes()[k].owned_model(),
        decreases ts@.len() - i,
    {
        out.push(ts[i].to_owned());
        i = i + 1;
    }
    out
}

/* ------------------------------- user themes ------------------------------- */

/// A theme from a table keyed by name: the key names the theme unless the
/// theme names itself.
pub open spec fn keyed_model(key: Seq<char>, t: ThemeModel) -> ThemeModel {
    ThemeModel { name: if t.name is None { Some(key) } else { t.name }, ..t }
}

/// The themes of a table keyed by name, in the table's order.
pub fn name_keyed(entries: Vec<(String, Theme)>) -> (r: Vec<Theme>)
    ensures
        r@.len() == entries@.len(),
        forall|i: int| 0 <= i < r@.len() ==> #[trigger] r@[i]@ == keyed_model(entries@[i].0@, entries@[i].1@),
{
    let ghost all = entries@;
    let mut rest = entries;
    let mut out: Vec<Theme> = Vec::new();
    while rest.len() > 0
        invariant
            out@.len() + rest@.len() == all.len(),
            rest@ == all.subrange(out@.len() as int, all.len() as int),
            forall|i: int| 0 <= i < out@.len() ==> #[trigger] out@[i]@ == keyed_model(all[i].0@, all[i].1@),
        decreases rest@.len(),
    {
        let (key, t) = rest.remove(0);
        let mut t = t;
        if t.name.is_none() {
            t.name = Some(key);
        }
        out.push(t);
    }
    out
}

/// The themes that a themes file holds, read in each of the layouts it may
/// use (`None` where the file does not read so): an array of `[[theme]]`
/// tables; a `themes` array; a `[themes.<name>]` table of tables; top-level
/// `[<name>]` tables; an inline `themes = [...]` array. The first layout that
/// gives at least one theme is used, a theme of a table keyed by name taking
/// the key as its name when it has none; with none, there are no themes.
pub open spec fn selected_themes(
    singular: Option<Seq<Theme>>,
    plural: Option<Seq<Theme>>,
    namespaced: Option<Seq<(String, Theme)>>,
    keyed: Option<Seq<(String, Theme)>>,
    inline: Option<Seq<Theme>>,
) -> Seq<ThemeModel> {
    if singular is Some && singular.unwrap().len() > 0 {
        models(singular.unwrap())
    } else if plural is Some && plural.unwrap().len() > 0 {
        models(plural.unwrap())
    } else if namespaced is Some && namespaced.unwrap().len() > 0 {
        namespaced.unwrap().map_values(|e: (String, Theme)| keyed_model(e.0@, e.1@))
    } else if keyed is Some && keyed.unwrap().len() > 0 {
        keyed.unwrap().map_values(|e: (String, Theme)| keyed_model(e.0@, e.1@))
    } else if inline is Some && inline.unwrap().len() > 0 {
        models(inline.unwrap())
    } else {
        Seq::empty()
    }
}

/// The models of a list of themes.
pub open spec fn models(v: Seq<Theme>) -> Seq<ThemeModel> {
    v.map_values(|t: Theme| t@)
}

/// Whether a reading of a themes file gives at least one theme.
pub open spec fn gives<T>(reading: Option<Seq<T>>) -> bool {
    reading is Some && reading.unwrap().len() > 0
}

/// The themes of a table keyed by name keep their colours and their own
/// name, and take the key as their name when they have none.
pub open spec fn keyed_as(es: Seq<(String, Theme)>, r: Seq<ThemeModel>) -> bool {
    &&& r.len() == es.len()
    &&& forall|i: int|
        0 <= i < es.len() ==> (#[trigger] r[i]).name == (match es[i].1.name {
            Some(n) => Some(n@),
            None => Some(es[i].0@),
        }) && r[i].bg_color == opt_view(es[i].1.bg_color) && r[i].fg_color == opt_view(es[i].1.fg_color)
            && r[i].bg_font_color == opt_view(es[i].1.bg_font_color) && r[i].fg_font_color == opt_view(
            es[i].1.fg_font_color,
        )
}

/// Reading a themes file: the first layout, in the order `[[theme]]`,
/// `themes`, `[themes.<name>]`, `[<name>]`, inline, that gives at least one
/// theme is used whole, whatever the later layouts give; a theme of a table
/// keyed by name keeps its colours and its own name, and takes the key as
/// its name when it has none; with no layout giving a theme there are none.
pub proof fn law_first_nonempty_layout_wins(
    singular: Option<Seq<Theme>>,
    plural: Option<Seq<Theme>>,
    namespaced: Option<Seq<(String, Theme)>>,
    keyed: Option<Seq<(String, Theme)>>,
    inline: Option<Seq<Theme>>,
)
    ensures
        gives(singular) ==> selected_themes(singular, plural, namespaced, keyed, inline) == singular.unwrap().map_values(
            |t: Theme| t@,
        ),
        !gives(singular) && gives(plural) ==> selected_themes(singular, plural, namespaced, keyed, inline)
            == plural.unwrap().map_values(|t: Theme| t@),
        !gives(singular) && !gives(plural) && gives(namespaced) ==> keyed_as(
            namespaced.unwrap(),
            selected_themes(singular, plural, namespaced, keyed, inline),
        ),
        !gives(singular) && !gives(plural) && !gives(namespaced) && gives(keyed) ==> keyed_as(
            keyed.unwrap(),
            selected_themes(singular, plural, namespaced, keyed, inline),
        ),
        !gives(singular) && !gives(plural) && !gives(namespaced) && !gives(keyed) && gives(inline) ==> selected_themes(
            singular,
            plural,
            namespaced,
            keyed,
            inline,
        ) == inline.unwrap().map_values(|t: Theme| t@),
        !gives(singular) && !gives(plural) && !gives(namespaced) && !gives(keyed) && !gives(inline)
            ==> selected_themes(singular, plural, namespaced, keyed, inline).len() == 0,
{
}

/// Picks the themes of a themes file among its readings (see
/// `selected_themes`).
pub fn select_themes(
    singular: Option<Vec<Theme>>,
    plural: Option<Vec<Theme>>,
    namespaced: Option<Vec<(String, Theme)>>,
    keyed: Option<Vec<(String, Theme)>>,
    inline: Option<Vec<Theme>>,
) -> (r: Vec<Theme>)
    ensures
        models(r@) == selected_themes(
            match singular {
                Some(v) => Some(v@),
                None => None,
            },
            match plural {
                Some(v) => Some(v@),
                None => None,
            },
            match namespaced {
                Some(v) => Some(v@),
                None => None,
            },
            match keyed {
                Some(v) => Some(v@),
                None => None,
            },
            match inline {
                Some(v) => Some(v@),
                None => None,
            },
        ),
{
    if let Some(v) = singular {
        if v.len() > 0 {
            return v;
        }
    }
    if let Some(v) = plural {
        if v.len() > 0 {
            return v;
        }
    }
    if let Some(v) = namespaced {
        if v.len() > 0 {
            let ghost e = v@;
            let r = name_keyed(v);
            assert(models(r@) =~= e.map_values(|x: (String, Theme)| keyed_model(x.0@, x.1@)));
            return r;
        }
    }
    if let Some(v) = keyed {
        if v.len() > 0 {
            let ghost e = v@;
            let r = name_keyed(v);
            assert(models(r@) =~= e.map_values(|x: (String, Theme)| keyed_model(x.0@, x.1@)));
            return r;
        }
    }
    if let Some(v) = inline {
        if v.len() > 0 {
            return v;
        }
    }
    let r: Vec<Theme> = Vec::new();
    assert(models(r@) =~= Seq::<ThemeModel>::empty());
    r
}

/// The themes offered: the user's, then the built-in ones.
pub fn load_themes(user: Vec<Theme>) -> (r: Vec<Theme>)
    ensures
        r@.len() == user@.len() + builtin_themes().len(),
        forall|i: int| 0 <= i < user@.len() ==> #[trigger] r@[i] == user@[i],
        forall|i: int|
            0 <= i < builtin_themes().len() ==> #[trigger] r@[user@.len() + i]@
                == builtin_themes()[i].owned_model(),
{
    let mut r = user;
    let mut b = list_owned();
    r.append(&mut b);
    r
}

/// The position of the first theme named `name`.
pub open spec fn first_named(ts: Seq<Theme>, name: Seq<char>) -> Option<int>
    decreases ts.len(),
{
    if ts.len() == 0 {
        None
    } else if ts[0]@.name == Some(name) {
        Some(0)
    } else {
        match first_named(ts.drop_first(), name) {
            Some(i) => Some(i + 1),
            None => None,
        }
    }
}

proof fn lemma_first_named_in_range(ts: Seq<Theme>, name: Seq<char>)
    ensures
        first_named(ts, name) matches Some(i) ==> 0 <= i < ts.len() && ts[i]@.name == Some(name),
    decreases ts.len(),
{
    if ts.len() > 0 {
        lemma_first_named_in_range(ts.drop_first(), name);
    }
}

/// Finds the first theme named `name`.
pub fn find_theme(themes: &Vec<Theme>, name: &str) -> (r: Option<usize>)
    ensures
        match r {
            Some(i) => first_named(themes@, name@) == Some(i as int),
            None => first_named(themes@, name@) is None,
        },
{
    let ghost s = themes@;
    let mut i: usize = 0;
    assert(s.subrange(0, s.len() as int) =~= s);
    while i < themes.len()
        invariant
            s == themes@,
            i <= s.len(),
            first_named(s, name@) == (match first_named(s.subrange(i as int, s.len() as int), name@) {
                Some(m) => Some(m + i),
                None => None::<int>,
            }),
        decreases s.len() - i,
    {
        let ghost rest = s.subrange(i as int, s.len() as int);
        assert(rest[0] == s[i as int]);
        assert(rest.drop_first() =~= s.subrange(i + 1, s.len() as int));
        if themes[i].has_name(name) {
            return Some(i);
        }
        i = i + 1;
    }
    None
}

proof fn lemma_first_named(ts: Seq<Theme>, name: Seq<char>)
    ensures
        first_named(ts, name) matches Some(i) ==> 0 <= i < ts.len() && (ts[i].name matches Some(n) && n@ == name)
            && forall|k: int| 0 <= k < i ==> !((#[trigger] ts[k]).name matches Some(n) && n@ == name),
        first_named(ts, name) is None ==> forall|k: int|
            0 <= k < ts.len() ==> !((#[trigger] ts[k]).name matches Some(n) && n@ == name),
    decreases ts.len(),
{
    if ts.len() > 0 {
        lemma_first_named(ts.drop_first(), name);
        assert forall|k: int| 0 < k < ts.len() implies #[trigger] ts[k] == ts.drop_first()[k - 1] by {}
    }
}

/// Looking a theme up by name finds the first theme with that name, and
/// finds none only when no theme has it; so among the themes offered (the
/// user's, then the built-in ones), a user theme shadows a built-in theme of
/// the same name.
pub proof fn law_lookup_finds_first_named(ts: Seq<Theme>, more: Seq<Theme>, name: Seq<char>)
    ensures
        first_named(ts, name) matches Some(i) ==> 0 <= i < ts.len() && (ts[i].name matches Some(n) && n@ == name)
            && forall|k: int| 0 <= k < i ==> !((#[trigger] ts[k]).name matches Some(n) && n@ == name),
        first_named(ts, name) is None <==> forall|k: int|
            0 <= k < ts.len() ==> !((#[trigger] ts[k]).name matches Some(n) && n@ == name),
        first_named(ts, name) is Some ==> first_named(ts + more, name) == first_named(ts, name),
{
    lemma_first_named(ts, name);
    lemma_first_named(ts + more, name);
    if first_named(ts, name) is None {
        assert forall|k: int| 0 <= k < ts.len() implies !((#[trigger] ts[k]).name matches Some(n) && n@ == name) by {}
    } else {
        let i = first_named(ts, name).unwrap();
        assert(ts[i].name matches Some(n) && n@ == name);
    }
    if let Some(i) = first_named(ts, name) {
        let all = ts + more;
        assert(all[i] == ts[i]);
        assert forall|k: int| 0 <= k < i implies !((#[trigger] all[k]).name matches Some(n) && n@ == name) by {
            assert(all[k] == ts[k]);
        }
        if let Some(j) = first_named(all, name) {
            if j < i {
                assert(all[j] == ts[j]);
            }
        }
    }
}

/// The configured theme among `themes`: the first theme named as the
/// configuration says; none when the configuration names no theme or no
/// theme has that name.
pub fn get_theme(themes: &Vec<Theme>, configured: &Option<String>) -> (r: Option<Theme>)
    ensures
        match configured {
            None => r is None,
            Some(name) => match first_named(themes@, name@) {
                Some(i) => r matches Some(t) && t@ == themes@[i]@,
                None => r is None,
            },
        },
{
    match configured {
        None => None,
        Some(name) => match find_theme(themes, name.as_str()) {
            Some(i) => {
                proof {
                    lemma_first_named_in_range(themes@, name@);
                }
                Some(themes[i].duplicate())
            },
            None => None,
        },
    }
}

/// The theme in use, by name.
#[derive(Debug, PartialEq, Eq)]
pub struct ThemeManager {
    pub current: Option<String>,
}

impl ThemeManager {
    /// No theme applied yet.
    pub fn new() -> (r: ThemeManager)
        ensures
            r.current is None,
    {
        ThemeManager { current: None }
    }

    /// Records the theme in use.
    pub fn set_current(&mut self, theme_name: &str)
        ensures
            final(self).current matches Some(n) && n@ == theme_name@,
    {
        self.current = Some(owned(theme_name));
    }

    /// Applies the theme `theme_name` among `themes`: the first theme of that
    /// name is the one to show (none when there is no such theme), and the
    /// name becomes the theme in use either way.
    pub fn apply_theme(&mut self, themes: &Vec<Theme>, theme_name: &str) -> (r: Option<usize>)
        ensures
            match r {
                Some(i) => first_named(themes@, theme_name@) == Some(i as int),
                None => first_named(themes@, theme_name@) is None,
            },
            final(self).current matches Some(n) && n@ == theme_name@,
    {
        let found = find_theme(themes, theme_name);
        self.set_current(theme_name);
        found
    }
}

} // verus!
