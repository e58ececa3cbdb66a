//! The built-in themes by name, how a theme argument is taken, and the status markers.

use vstd::prelude::*;
use crate::model::Status;
use crate::text::str_eq;

verus! {

/// A built-in theme.
#[derive(Debug, Clone, Copy, PartialEq, Eq, Structural)]
pub enum ThemeName {
    Default,
    Monochrome,
    Accessible,
    Warm,
}

/// The built-in theme a name selects; any other name selects the default theme.
pub open spec fn theme_named(name: Seq<char>) -> ThemeName {
    if name == "monochrome"@ {
        ThemeName::Monochrome
    } else if name == "accessible"@ {
        ThemeName::Accessible
    } else if name == "warm"@ {
        ThemeName::Warm
    } else {
        ThemeName::Default
    }
}

/// The names of the built-in themes, in the order they are listed.
pub open spec fn builtin_names() -> Seq<Seq<char>> {
    seq!["default"@, "monochrome"@, "accessible"@, "warm"@]
}

impl ThemeName {
    /// The built-in theme matching `name`, or the default theme if unrecognised.
    pub fn by_name(name: &str) -> (t: ThemeName)
        ensures
            t == theme_named(name@),
    {
        if str_eq(name, "monochrome") {
            ThemeName::Monochrome
        } else if str_eq(name, "accessible") {
            ThemeName::Accessible
        } else if str_eq(name, "warm") {
            ThemeName::Warm
        } else {
            ThemeName::Default
        }
    }

    /// The names of all built-in themes.
    pub fn names() -> (v: Vec<&'static str>)
        ensures
            v@.map_values(|s: &str| s@) == builtin_names(),
    {
        let v = vec!["default", "monochrome", "accessible", "warm"];
        assert(v@.map_values(|s: &str| s@) =~= builtin_names());
        v
    }

    /// The name the theme is listed under.
    pub fn name(&self) -> (s: &'static str)
        ensures
            s@ == builtin_names()[self.index()],
    {
        match self {
            ThemeName::Default => "default",
            ThemeName::Monochrome => "monochrome",
            ThemeName::Accessible => "accessible",
            ThemeName::Warm => "warm",
        }
    }

    pub open spec fn index(&self) -> int {
        match self {
            ThemeName::Default => 0,
            ThemeName::Monochrome => 1,
            ThemeName::Accessible => 2,
            ThemeName::Warm => 3,
        }
    }
}

/// A theme argument names a built-in theme, a theme file, or nothing known.
#[derive(Debug, Clone, Copy, PartialEq, Eq, Structural)]
pub enum ThemeSource {
    BuiltIn(ThemeName),
    File,
    Unknown,
}

/// The argument looks like a path: it holds a slash or a backslash, or ends in `.toml`.
pub open spec fn looks_like_path(arg: Seq<char>) -> bool {
    arg.contains('/') || arg.contains('\\') || (arg.len() >= 5 && arg.skip(arg.len() - 5) == ".toml"@)
}

/// How a `--theme` argument is taken: a path is a theme file to load; one of the built-in
/// names selects that theme; anything else is refused.
pub open spec fn theme_source_of(arg: Seq<char>) -> ThemeSource {
    if looks_like_path(arg) {
        ThemeSource::File
    } else if builtin_names().contains(arg) {
        ThemeSource::BuiltIn(theme_named(arg))
    } else {
        ThemeSource::Unknown
    }
}

fn holds_char(v: &Vec<char>, c: char) -> (r: bool)
    ensures
        r == v@.contains(c),
{
    let mut i: usize = 0;
    while i < v.len()
        invariant
            i <= v@.len(),
            forall|k: int| 0 <= k < i ==> v@[k] != c,
        decreases v@.len() - i,
    {
        if v[i] == c {
            assert(v@[i as int] == c);
            return true;
        }
        i = i + 1;
    }
    false
}

fn ends_with_toml(v: &Vec<char>) -> (r: bool)
    ensures
        r == (v@.len() >= 5 && v@.skip(v@.len() - 5) == ".toml"@),
{
    proof {
        reveal_strlit(".toml");
    }
    let n = v.len();
    if n < 5 {
        return false;
    }
    let r = v[n - 5] == '.' && v[n - 4] == 't' && v[n - 3] == 'o' && v[n - 2] == 'm' && v[n - 1] == 'l';
    let ghost t = v@.skip(n - 5);
    assert(t.len() == 5);
    assert(t[0] == v@[n - 5] && t[1] == v@[n - 4] && t[2] == v@[n - 3] && t[3] == v@[n - 2] && t[4] == v@[n - 1]);
    if r {
        assert(t =~= ".toml"@);
    } else {
        assert(t != ".toml"@) by {
            if t == ".toml"@ {
                assert(t[0] == '.' && t[1] == 't' && t[2] == 'o' && t[3] == 'm' && t[4] == 'l');
            }
        }
    }
    r
}

/// Decides how the command line takes a `--theme` argument.
pub fn theme_source(arg: &str) -> (r: ThemeSource)
    ensures
        r == theme_source_of(arg@),
{
    let c = crate::text::char_seq(arg);
    if holds_char(&c, '/') || holds_char(&c, '\\') || ends_with_toml(&c) {
        return ThemeSource::File;
    }
    let ghost names = builtin_names();
    if str_eq(arg, "default") || str_eq(arg, "monochrome") || str_eq(arg, "accessible") || str_eq(arg, "warm") {
        assert(names[0] == "default"@ && names[1] == "monochrome"@ && names[2] == "accessible"@
            && names[3] == "warm"@);
        assert(names.contains(arg@));
        ThemeSource::BuiltIn(ThemeName::by_name(arg))
    } else {
        assert(!names.contains(arg@)) by {
            if names.contains(arg@) {
                let k = choose|k: int| 0 <= k < names.len() && names[k] == arg@;
                assert(names[0] == "default"@ && names[1] == "monochrome"@ && names[2] == "accessible"@
                    && names[3] == "warm"@);
            }
        }
        ThemeSource::Unknown
    }
}

/// The shape of a status marker; a second encoding besides color.
#[derive(Debug, Clone, Copy, PartialEq, Eq, Structural)]
pub enum MarkerShape {
    Circle,
    Triangle,
    Diamond,
}

/// The marker a status shows: success a circle, warning a triangle, critical a diamond;
/// normal and no status show none.
pub open spec fn marker_of(status: Option<Status>) -> Option<MarkerShape> {
    match status {
        Some(Status::Success) => Some(MarkerShape::Circle),
        Some(Status::Warning) => Some(MarkerShape::Triangle),
        Some(Status::Critical) => Some(MarkerShape::Diamond),
        _ => None,
    }
}

/// The marker drawn for an item's status.
pub fn marker_shape(status: Option<Status>) -> (r: Option<MarkerShape>)
    ensures
        r == marker_of(status),
{
    match status {
        Some(Status::Success) => Some(MarkerShape::Circle),
        Some(Status::Warning) => Some(MarkerShape::Triangle),
        Some(Status::Critical) => Some(MarkerShape::Diamond),
        _ => None,
    }
}

/// Distinct statuses that show a marker show distinct shapes.
pub proof fn lemma_markers_distinct(a: Status, b: Status)
    requires
        marker_of(Some(a)) is Some,
        marker_of(Some(b)) is Some,
        a != b,
    ensures
        marker_of(Some(a)) != marker_of(Some(b)),
{
}

} // verus!
