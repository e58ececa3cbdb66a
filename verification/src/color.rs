//! Colors of a theme: `#RRGGBB` text, and whether a color reads as dark.

use vstd::prelude::*;
use crate::doc::{lookup, read_toml, str_field, toml_document, DocEntry, DocValue};
use crate::error::{DeclartError, SpecError};
use crate::text::{char_seq, owned, push_char};

use crate::naming_laws::{color_field_is, lemma_theme_fields};

verus! {

/// An RGB color.
#[derive(Debug, Clone, Copy, PartialEq, Eq, Structural)]
pub struct Color {
    pub r: u8,
    pub g: u8,
    pub b: u8,
}

/// The upper-case hexadecimal digit of `n` (below 16).
pub open spec fn hex_digit(n: nat) -> char {
    if n < 10 { ((n + 48) as u32) as char } else { ((n - 10 + 65) as u32) as char }
}

/// Two hexadecimal digits of a byte.
pub open spec fn byte_hex(x: u8) -> Seq<char> {
    seq![hex_digit(x as nat / 16), hex_digit(x as nat % 16)]
}

/// `#RRGGBB` with upper-case digits.
pub open spec fn hex_text(c: Color) -> Seq<char> {
    seq!['#'] + byte_hex(c.r) + byte_hex(c.g) + byte_hex(c.b)
}

/// The eight colors whose luminance 0.299 r + 0.587 g + 0.114 b is exactly 128 while its
/// single-precision value, summed left to right, comes out just under 128.
pub open spec fn rounds_under(c: Color) -> bool {
    ||| (c.r == 75 && c.g == 175 && c.b == 25)
    ||| (c.r == 94 && c.g == 156 && c.b == 73)
    ||| (c.r == 113 && c.g == 137 && c.b == 121)
    ||| (c.r == 132 && c.g == 118 && c.b == 169)
    ||| (c.r == 199 && c.g == 93 && c.b == 122)
    ||| (c.r == 202 && c.g == 114 && c.b == 6)
    ||| (c.r == 218 && c.g == 74 && c.b == 170)
    ||| (c.r == 237 && c.g == 55 && c.b == 218)
}

/// The relative luminance rule: 0.299 r + 0.587 g + 0.114 b below 128, as single precision
/// computes it. Everywhere but on the eight colors of [`rounds_under`] that is the exact
/// comparison; on those eight the exact value is 128 and the single-precision one is below.
pub open spec fn dark(c: Color) -> bool {
    299 * (c.r as int) + 587 * (c.g as int) + 114 * (c.b as int) < 128000 || rounds_under(c)
}

fn hex_char(n: u8) -> (c: char)
    requires
        n < 16,
    ensures
        c == hex_digit(n as nat),
{
    if n < 10 {
        (n + 48) as char
    } else {
        (n - 10 + 65) as char
    }
}

impl Color {
    pub fn new(r: u8, g: u8, b: u8) -> (c: Color)
        ensures
            c == (Color { r, g, b }),
    {
        Color { r, g, b }
    }

    /// The color as `#RRGGBB` with upper-case digits.
    pub fn to_hex(&self) -> (s: String)
        ensures
            s@ == hex_text(*self),
    {
        let mut s = owned("#");
        assert(s@ == seq!['#']) by {
            reveal_strlit("#");
        }
        let parts = [self.r, self.g, self.b];
        let mut i: usize = 0;
        while i < 3
            invariant
                i <= 3,
                parts@ == seq![self.r, self.g, self.b],
                s@ == seq!['#'] + if i == 0 { Seq::empty() } else if i == 1 { byte_hex(self.r) }
                    else if i == 2 { byte_hex(self.r) + byte_hex(self.g) }
                    else { byte_hex(self.r) + byte_hex(self.g) + byte_hex(self.b) },
            decreases 3 - i,
        {
            let x = parts[i];
            let ghost before = s@;
            push_char(&mut s, hex_char(x / 16));
            push_char(&mut s, hex_char(x % 16));
            assert(s@ =~= before + byte_hex(x));
            i = i + 1;
        }
        assert(s@ =~= hex_text(*self));
        s
    }

    /// Whether text on this color should be light: its luminance is below 128.
    pub fn is_dark(&self) -> (d: bool)
        ensures
            d == dark(*self),
    {
        let (r, g, b) = (self.r, self.g, self.b);
        299 * (r as u32) + 587 * (g as u32) + 114 * (b as u32) < 128000
            || (r == 75 && g == 175 && b == 25) || (r == 94 && g == 156 && b == 73)
            || (r == 113 && g == 137 && b == 121) || (r == 132 && g == 118 && b == 169)
            || (r == 199 && g == 93 && b == 122) || (r == 202 && g == 114 && b == 6)
            || (r == 218 && g == 74 && b == 170) || (r == 237 && g == 55 && b == 218)
    }
}

/// The value of a hexadecimal digit of either case.
pub open spec fn hex_value(c: char) -> Option<nat> {
    if '0' <= c && c <= '9' {
        Some((c as u32 - 48) as nat)
    } else if 'a' <= c && c <= 'f' {
        Some((c as u32 - 97 + 10) as nat)
    } else if 'A' <= c && c <= 'F' {
        Some((c as u32 - 65 + 10) as nat)
    } else {
        None
    }
}

/// A byte written as two hexadecimal digits.
pub open spec fn hex_pair(a: char, b: char) -> Option<nat> {
    match (hex_value(a), hex_value(b)) {
        (Some(x), Some(y)) => Some(16 * x + y),
        _ => None,
    }
}

/// `s` without one leading `#`, if it has one.
pub open spec fn hex_body(s: Seq<char>) -> Seq<char> {
    if s.len() > 0 && s[0] == '#' { s.drop_first() } else { s }
}

/// The color a `#RRGGBB` text names: six hexadecimal digits of either case after at most
/// one `#`; `None` for any other text.
pub open spec fn hex_color(text: Seq<char>) -> Option<Color> {
    let s = hex_body(text);
    if s.len() == 6 {
        match (hex_pair(s[0], s[1]), hex_pair(s[2], s[3]), hex_pair(s[4], s[5])) {
            (Some(r), Some(g), Some(b)) => Some(Color { r: r as u8, g: g as u8, b: b as u8 }),
            _ => None,
        }
    } else {
        None
    }
}

fn hex_value_of(c: char) -> (r: Option<u8>)
    ensures
        match r {
            Some(v) => hex_value(c) == Some(v as nat) && v < 16,
            None => hex_value(c) is None,
        },
{
    if '0' <= c && c <= '9' {
        Some((c as u32 - 48) as u8)
    } else if 'a' <= c && c <= 'f' {
        Some((c as u32 - 97 + 10) as u8)
    } else if 'A' <= c && c <= 'F' {
        Some((c as u32 - 65 + 10) as u8)
    } else {
        None
    }
}

fn hex_pair_of(a: char, b: char) -> (r: Option<u8>)
    ensures
        match r {
            Some(v) => hex_pair(a, b) == Some(v as nat),
            None => hex_pair(a, b) is None,
        },
{
    match (hex_value_of(a), hex_value_of(b)) {
        (Some(x), Some(y)) => Some(16 * x + y),
        _ => None,
    }
}

/// Reads a `#RRGGBB` theme color named `field`.
pub fn parse_hex(field: &str, hex: &str) -> (r: Result<Color, DeclartError>)
    ensures
        match r {
            Ok(c) => hex_color(hex@) == Some(c),
            Err(e) => hex_color(hex@) is None
                && e@ == (SpecError::InvalidThemeColor { field: field@, hex: hex@ }),
        },
{
    let c = char_seq(hex);
    let i: usize = if c.len() > 0 && c[0] == '#' { 1 } else { 0 };
    let ghost s = c@.skip(i as int);
    assert(hex_body(c@) =~= s);
    if c.len() - i != 6 {
        return Err(DeclartError::InvalidThemeColor { field: owned(field), hex: owned(hex) });
    }
    let r = hex_pair_of(c[i], c[i + 1]);
    let g = hex_pair_of(c[i + 2], c[i + 3]);
    let b = hex_pair_of(c[i + 4], c[i + 5]);
    assert(s[0] == c@[i as int] && s[1] == c@[i + 1] && s[2] == c@[i + 2] && s[3] == c@[i + 3]
        && s[4] == c@[i + 4] && s[5] == c@[i + 5]);
    match (r, g, b) {
        (Some(r), Some(g), Some(b)) => Ok(Color { r, g, b }),
        _ => Err(DeclartError::InvalidThemeColor { field: owned(field), hex: owned(hex) }),
    }
}

// ---------------------------------------------------------------------------
// The colors of a custom theme
// ---------------------------------------------------------------------------

/// The six colors of a theme.
#[derive(Debug, Clone, Copy)]
pub struct ThemeColors {
    pub background: Color,
    pub apex: Color,
    pub base: Color,
    pub on_dark: Color,
    pub on_light: Color,
    pub title: Color,
}

/// The optional typography field `key` is absent or a number.
pub open spec fn size_ok(t: Seq<DocEntry>, key: Seq<char>) -> bool {
    match lookup(t, key) {
        None => true,
        Some(DocValue::Number) => true,
        _ => false,
    }
}

/// The texts of the six colors, in the order they are checked, when the document fits
/// the theme schema: a `[colors]` table with six string fields and an optional
/// `[typography]` table of optional numbers. Other keys are ignored.
pub open spec fn theme_color_texts(doc: DocValue) -> Option<Seq<Seq<char>>> {
    match doc {
        DocValue::Table(es) => match lookup(es@, "colors"@) {
            Some(DocValue::Table(c)) => {
                let typography_ok = match lookup(es@, "typography"@) {
                    None => true,
                    Some(DocValue::Table(t)) => size_ok(t@, "title_size"@) && size_ok(t@, "label_size"@)
                        && size_ok(t@, "label_size_min"@),
                    _ => false,
                };
                let keys = seq!["background"@, "apex"@, "base"@, "on_dark"@, "on_light"@, "title"@];
                if typography_ok && forall|i: int| 0 <= i < 6 ==> (#[trigger] str_field(c@, keys[i])) is Some {
                    Some(keys.map_values(|k: Seq<char>| str_field(c@, k).unwrap()))
                } else {
                    None
                }
            },
            _ => None,
        },
        _ => None,
    }
}

/// The text of a theme whose `[colors]` or `[typography]` table does not fit the theme
/// schema. It is the library's own text, the same for every such theme, not a
/// deserializer's message naming the field (such as a missing `base`).
pub open spec fn theme_schema_message() -> Seq<char> {
    "expected a [colors] table with string fields apex, base, background, on_dark, on_light and title, and an optional [typography] table of numbers"@
}

/// The field names the six colors are reported under, in the order they are checked.
pub open spec fn color_fields() -> Seq<Seq<char>> {
    seq!["colors.background"@, "colors.apex"@, "colors.base"@, "colors.on_dark"@, "colors.on_light"@,
        "colors.title"@]
}

/// The first color text that is not `#RRGGBB`, as an error; else the six colors.
pub open spec fn colors_from_texts(t: Seq<Seq<char>>) -> Result<Seq<Color>, SpecError> {
    if forall|i: int| 0 <= i < 6 ==> (#[trigger] hex_color(t[i])) is Some {
        Ok(t.map_values(|x: Seq<char>| hex_color(x).unwrap()))
    } else {
        let i = choose|i: int| 0 <= i < 6 && hex_color(t[i]) is None
            && forall|j: int| 0 <= j < i ==> (#[trigger] hex_color(t[j])) is Some;
        Err(SpecError::InvalidThemeColor { field: color_fields()[i], hex: t[i] })
    }
}

/// What [`theme_colors_from_toml`] gives for a theme's TOML text.
pub open spec fn theme_colors_value(text: Seq<char>) -> Result<Seq<Color>, SpecError> {
    match toml_document(text) {
        Err(m) => Err(SpecError::InvalidTheme(m)),
        Ok(doc) => match theme_color_texts(doc) {
            None => Err(SpecError::InvalidTheme(theme_schema_message())),
            Some(t) => colors_from_texts(t),
        },
    }
}

pub open spec fn colors_seq(c: ThemeColors) -> Seq<Color> {
    seq![c.background, c.apex, c.base, c.on_dark, c.on_light, c.title]
}

fn size_field_ok(t: &Vec<DocEntry>, key: &str) -> (r: bool)
    ensures
        r == size_ok(t@, key@),
{
    match crate::doc::get_field(t, key) {
        None => true,
        Some(DocValue::Number) => true,
        _ => false,
    }
}

pub open spec fn views(v: Seq<String>) -> Seq<Seq<char>> {
    v.map_values(|x: String| x@)
}

/// The six color texts of a theme document, checked against the theme schema.
#[verifier::loop_isolation(false)]
fn theme_texts(doc: &DocValue) -> (r: Option<Vec<String>>)
    ensures
        match r {
            Some(v) => theme_color_texts(*doc) == Some(views(v@)),
            None => theme_color_texts(*doc) is None,
        },
{
    let es = match doc {
        DocValue::Table(es) => es,
        _ => return None,
    };
    let c = match crate::doc::get_field(es, "colors") {
        Some(DocValue::Table(c)) => c,
        _ => return None,
    };
    let typography_ok = match crate::doc::get_field(es, "typography") {
        None => true,
        Some(DocValue::Table(t)) => size_field_ok(t, "title_size") && size_field_ok(t, "label_size")
            && size_field_ok(t, "label_size_min"),
        _ => false,
    };
    let keys: [&str; 6] = ["background", "apex", "base", "on_dark", "on_light", "title"];
    let ghost skeys = seq!["background"@, "apex"@, "base"@, "on_dark"@, "on_light"@, "title"@];
    assert(keys@.map_values(|k: &str| k@) =~= skeys);
    let mut strs: Vec<String> = Vec::new();
    let mut i: usize = 0;
    while i < 6
        invariant
            i <= 6,
            keys@.map_values(|k: &str| k@) == skeys,
            strs@.len() == i,
            forall|k: int| 0 <= k < i ==> str_field(c@, skeys[k]) == Some((#[trigger] strs@[k])@),
        decreases 6 - i,
    {
        assert(keys@[i as int]@ == skeys[i as int]);
        match crate::doc::read_str(c, keys[i]) {
            Some(s) => strs.push(s),
            None => {
                assert(str_field(c@, skeys[i as int]) is None);
                return None;
            },
        }
        i = i + 1;
    }
    if !typography_ok {
        return None;
    }
    assert forall|k: int| 0 <= k < 6 implies (#[trigger] str_field(c@, skeys[k])) is Some by {
        assert(str_field(c@, skeys[k]) == Some(strs@[k]@));
    }
    assert(skeys.map_values(|k: Seq<char>| str_field(c@, k).unwrap()) =~= views(strs@));
    Some(strs)
}

proof fn lemma_first_bad_color(t: Seq<Seq<char>>, i: int)
    requires
        0 <= i < 6,
        t.len() == 6,
        hex_color(t[i]) is None,
        forall|m: int| 0 <= m < i ==> (#[trigger] hex_color(t[m])) is Some,
    ensures
        colors_from_texts(t) == Err::<Seq<Color>, SpecError>(
            SpecError::InvalidThemeColor { field: color_fields()[i], hex: t[i] }),
{
    let j = choose|j: int| 0 <= j < 6 && hex_color(t[j]) is None
        && forall|m: int| 0 <= m < j ==> (#[trigger] hex_color(t[m])) is Some;
    if j < i {
        assert(hex_color(t[j]) is Some);
    } else if j > i {
        assert(hex_color(t[i]) is Some);
    }
}

proof fn lemma_all_colors(t: Seq<Seq<char>>, colors: Seq<Color>)
    requires
        t.len() == 6,
        colors.len() == 6,
        forall|k: int| 0 <= k < 6 ==> hex_color(t[k]) == Some(#[trigger] colors[k]),
    ensures
        colors_from_texts(t) == Ok::<Seq<Color>, SpecError>(colors),
{
    assert forall|k: int| 0 <= k < 6 implies (#[trigger] hex_color(t[k])) is Some by {
        assert(hex_color(t[k]) == Some(colors[k]));
    }
    assert(t.map_values(|x: Seq<char>| hex_color(x).unwrap()) =~= colors);
}

/// The six colors of the texts, or the error for the first that is not `#RRGGBB`.
#[verifier::spinoff_prover]
#[verifier::rlimit(40)]
fn colors_of(strs: &Vec<String>) -> (r: Result<ThemeColors, DeclartError>)
    requires
        strs@.len() == 6,
    ensures
        match r {
            Ok(c) => colors_from_texts(views(strs@)) == Ok::<Seq<Color>, SpecError>(colors_seq(c)),
            Err(e) => colors_from_texts(views(strs@)) == Err::<Seq<Color>, SpecError>(e@),
        },
{
    let ghost t = views(strs@);
    let fields: [&str; 6] = ["colors.background", "colors.apex", "colors.base", "colors.on_dark",
        "colors.on_light", "colors.title"];
    assert(fields@.map_values(|k: &str| k@) =~= color_fields());
    let mut colors: Vec<Color> = Vec::new();
    let mut i: usize = 0;
    while i < 6
        invariant
            i <= 6,
            strs@.len() == 6,
            t == views(strs@),
            fields@.map_values(|k: &str| k@) == color_fields(),
            colors@.len() == i,
            forall|k: int| 0 <= k < i ==> hex_color(t[k]) == Some(#[trigger] colors@[k]),
        decreases 6 - i,
    {
        match parse_hex(fields[i], strs[i].as_str()) {
            Ok(col) => colors.push(col),
            Err(e) => {
                assert(fields@[i as int]@ == color_fields()[i as int]);
                assert forall|m: int| 0 <= m < i implies (#[trigger] hex_color(t[m])) is Some by {
                    assert(hex_color(t[m]) == Some(colors@[m]));
                }
                proof {
                    lemma_first_bad_color(t, i as int);
                }
                return Err(e);
            },
        }
        i = i + 1;
    }
    let out = ThemeColors {
        background: colors[0],
        apex: colors[1],
        base: colors[2],
        on_dark: colors[3],
        on_light: colors[4],
        title: colors[5],
    };
    proof {
        lemma_all_colors(t, colors@);
    }
    assert(colors_seq(out) =~= colors@);
    Ok(out)
}

/// Reads the colors of a custom theme from TOML text, checking the theme schema
/// (including the types of the optional typography sizes) and each `#RRGGBB` color.
pub fn theme_colors_from_toml(text: &str) -> (r: Result<ThemeColors, DeclartError>)
    ensures
        match r {
            Ok(c) => theme_colors_value(text@) == Ok::<Seq<Color>, SpecError>(colors_seq(c)),
            Err(e) => theme_colors_value(text@) == Err::<Seq<Color>, SpecError>(e@),
        },
        r matches Ok(c) ==> {
            &&& color_field_is(text@, "background"@, c.background)
            &&& color_field_is(text@, "apex"@, c.apex)
            &&& color_field_is(text@, "base"@, c.base)
            &&& color_field_is(text@, "on_dark"@, c.on_dark)
            &&& color_field_is(text@, "on_light"@, c.on_light)
            &&& color_field_is(text@, "title"@, c.title)
        },
{
    let doc = match read_toml(text) {
        Ok(d) => d,
        Err(m) => return Err(DeclartError::InvalidTheme(m)),
    };
    match theme_texts(&doc) {
        None => Err(DeclartError::InvalidTheme(owned(
            "expected a [colors] table with string fields apex, base, background, on_dark, on_light and title, and an optional [typography] table of numbers"))),
        Some(strs) => {
            let r = colors_of(&strs);
            if let Ok(c) = &r {
                proof { lemma_theme_fields(text@, *c); }
            }
            r
        },
    }
}

} // verus!
