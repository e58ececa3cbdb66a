//! The errors a declaration or a theme can be refused with.

use vstd::prelude::*;
use crate::text::{decimal, decimal_string, owned};

verus! {

/// Why a declaration or a theme was refused.
#[derive(Debug, Clone)]
pub enum DeclartError {
    /// `kind` names no diagram kind.
    UnknownKind(String),
    /// A kind that needs at least one item got none.
    EmptyItems,
    /// A kind or view got fewer items than it needs.
    TooFewItems { kind: String, min: usize, got: usize },
    /// A matrix declared other than four quadrants.
    InvalidQuadrantCount(usize),
    /// A field holds a value the kind does not accept.
    InvalidValue { field: String, value: String, hint: String },
    /// The TOML text does not parse, or does not fit the kind's schema.
    Parse(String),
    /// The JSON text does not parse, or does not fit the kind's schema.
    Json(String),
    /// A theme's TOML text does not parse or does not fit the theme schema.
    InvalidTheme(String),
    /// A theme color is not of the form `#RRGGBB`.
    InvalidThemeColor { field: String, hex: String },
}

/// The mathematical value of a [`DeclartError`].
pub enum SpecError {
    UnknownKind(Seq<char>),
    EmptyItems,
    TooFewItems { kind: Seq<char>, min: nat, got: nat },
    InvalidQuadrantCount(nat),
    InvalidValue { field: Seq<char>, value: Seq<char>, hint: Seq<char> },
    Parse(Seq<char>),
    Json(Seq<char>),
    InvalidTheme(Seq<char>),
    InvalidThemeColor { field: Seq<char>, hex: Seq<char> },
}

impl View for DeclartError {
    type V = SpecError;

    open spec fn view(&self) -> SpecError {
        match self {
            DeclartError::UnknownKind(k) => SpecError::UnknownKind(k@),
            DeclartError::EmptyItems => SpecError::EmptyItems,
            DeclartError::TooFewItems { kind, min, got } => SpecError::TooFewItems {
                kind: kind@,
                min: *min as nat,
                got: *got as nat,
            },
            DeclartError::InvalidQuadrantCount(n) => SpecError::InvalidQuadrantCount(*n as nat),
            DeclartError::InvalidValue { field, value, hint } => SpecError::InvalidValue {
                field: field@,
                value: value@,
                hint: hint@,
            },
            DeclartError::Parse(m) => SpecError::Parse(m@),
            DeclartError::Json(m) => SpecError::Json(m@),
            DeclartError::InvalidTheme(m) => SpecError::InvalidTheme(m@),
            DeclartError::InvalidThemeColor { field, hex } => SpecError::InvalidThemeColor {
                field: field@,
                hex: hex@,
            },
        }
    }
}

/// The list of kinds given as a hint when `kind` is unknown.
pub open spec fn valid_kinds_hint() -> Seq<char> {
    "flow, tier, hierarchy, timeline, matrix, hub_spoke, venn, comparison, state"@
}

/// The text a [`DeclartError`] is shown as.
pub open spec fn error_message(e: SpecError) -> Seq<char> {
    match e {
        SpecError::UnknownKind(k) => "unknown diagram kind: `"@ + k + "`\n  = hint: Valid kinds are: "@
            + valid_kinds_hint(),
        SpecError::EmptyItems => "empty items: at least one [[items]] entry is required"@,
        SpecError::TooFewItems { kind, min, got } => "too few items for `"@ + kind
            + "`: at least "@ + decimal(min) + " required, got "@ + decimal(got),
        SpecError::InvalidQuadrantCount(n) => "matrix requires exactly 4 quadrants, got "@
            + decimal(n),
        SpecError::InvalidValue { field, value, hint } => "invalid value `"@ + value
            + "` for field `"@ + field + "`\n  = hint: "@ + hint,
        SpecError::Parse(_) => "parse error\n  = hint: Check for forbidden fields (color, font, size, etc.) or missing required fields."@,
        SpecError::Json(_) => "JSON parse error\n  = hint: Check for forbidden fields (color, font, size, etc.) or missing required fields."@,
        SpecError::InvalidTheme(m) => "invalid theme: "@ + m,
        SpecError::InvalidThemeColor { field, hex } => "invalid hex color `"@ + hex + "` for `"@
            + field + "` (expected #RRGGBB)"@,
    }
}

impl DeclartError {
    /// The text this error is shown as.
    pub fn message(&self) -> (m: String)
        ensures
            m@ == error_message(self@),
    {
        match self {
            DeclartError::UnknownKind(k) => {
                let mut m = owned("unknown diagram kind: `");
                m.append(k.as_str());
                m.append("`\n  = hint: Valid kinds are: ");
                m.append("flow, tier, hierarchy, timeline, matrix, hub_spoke, venn, comparison, state");
                m
            },
            DeclartError::EmptyItems => owned("empty items: at least one [[items]] entry is required"),
            DeclartError::TooFewItems { kind, min, got } => {
                let mut m = owned("too few items for `");
                m.append(kind.as_str());
                m.append("`: at least ");
                m.append(decimal_string(*min).as_str());
                m.append(" required, got ");
                m.append(decimal_string(*got).as_str());
                m
            },
            DeclartError::InvalidQuadrantCount(n) => {
                let mut m = owned("matrix requires exactly 4 quadrants, got ");
                m.append(decimal_string(*n).as_str());
                m
            },
            DeclartError::InvalidValue { field, value, hint } => {
                let mut m = owned("invalid value `");
                m.append(value.as_str());
                m.append("` for field `");
                m.append(field.as_str());
                m.append("`\n  = hint: ");
                m.append(hint.as_str());
                m
            },
            DeclartError::Parse(_) => owned("parse error\n  = hint: Check for forbidden fields (color, font, size, etc.) or missing required fields."),
            DeclartError::Json(_) => owned("JSON parse error\n  = hint: Check for forbidden fields (color, font, size, etc.) or missing required fields."),
            DeclartError::InvalidTheme(msg) => {
                let mut m = owned("invalid theme: ");
                m.append(msg.as_str());
                m
            },
            DeclartError::InvalidThemeColor { field, hex } => {
                let mut m = owned("invalid hex color `");
                m.append(hex.as_str());
                m.append("` for `");
                m.append(field.as_str());
                m.append("` (expected #RRGGBB)");
                m
            },
        }
    }
}

} // verus!
