//! Reading a declaration: TOML or JSON text, its kind, its schema, and the
//! rules of the kind.

use vstd::prelude::*;
use crate::comparison::{comparison_value, validate_comparison};
use crate::doc::{json_document, read_json, read_toml, toml_document, DocValue};
use crate::error::{DeclartError, SpecError};
use crate::hierarchy::{hierarchy_value, validate_hierarchy};
use crate::kinds::{flow_value, hub_spoke_value, tier_value, validate_flow, validate_hub_spoke,
    validate_tier, validate_venn, venn_value};
use crate::matrix::{matrix_value, validate_matrix};
use crate::model::{Diagram, SpecDiagram};
use crate::raw::{Decode, KindProbe, RawComparisonDiagram, RawFlowDiagram, RawHierarchyDiagram,
    RawHubSpokeDiagram, RawMatrixDiagram, RawStateDiagram, RawTierDiagram, RawTimelineDiagram,
    RawVennDiagram};
use crate::rules::{invalid, invalid_value, res};
use crate::state::{state_value, validate_state};
use crate::text::{char_seq, owned, str_eq};
use crate::timeline::{timeline_value, validate_timeline};

verus! {

/// The text carried by a schema refusal of a document without a string `kind` (the
/// library's own text, as for every schema refusal).
pub open spec fn kind_missing_message() -> Seq<char> {
    "`kind` is missing or not a string"@
}

/// The text carried by a schema refusal of a document of kind `k`. A schema refusal carries
/// this text of the library's own, not a deserializer's message naming the missing, unknown
/// or mistyped field: the schema is checked on the parsed document, where that message is
/// not to be had.
pub open spec fn schema_message(k: Seq<char>) -> Seq<char> {
    "the fields do not match the schema of kind `"@ + k + "`"@
}

/// A schema refusal, reported as a TOML or a JSON error.
pub open spec fn schema_error(json: bool, msg: Seq<char>) -> SpecError {
    if json { SpecError::Json(msg) } else { SpecError::Parse(msg) }
}

/// The hint given for the retired `sequence` kind.
pub open spec fn sequence_hint(json: bool) -> Seq<char> {
    if json {
        "`sequence` was renamed to `flow` in v0.17 — update your diagram to `\"kind\": \"flow\"`"@
    } else {
        "`sequence` was renamed to `flow` in v0.17 — update your diagram to `kind = \"flow\"`"@
    }
}

/// Reads `doc` as a `T` and applies the rules `rules`; a schema refusal otherwise.
pub open spec fn by_schema<T: Decode>(
    doc: DocValue,
    json: bool,
    kind: Seq<char>,
    rules: spec_fn(T::V) -> Result<SpecDiagram, SpecError>,
) -> Result<SpecDiagram, SpecError> {
    match T::spec_decode(doc) {
        None => Err(schema_error(json, schema_message(kind))),
        Some(raw) => rules(raw),
    }
}

/// A parsed document read as a declaration: its `kind` selects the schema and the rules.
pub open spec fn declaration_value(doc: DocValue, json: bool) -> Result<SpecDiagram, SpecError> {
    match KindProbe::spec_decode(doc) {
        None => Err(schema_error(json, kind_missing_message())),
        Some(probe) => {
            let k = probe.kind;
            if k == "flow"@ {
                by_schema::<RawFlowDiagram>(doc, json, k, |r| flow_value(r))
            } else if k == "tier"@ {
                by_schema::<RawTierDiagram>(doc, json, k, |r| tier_value(r))
            } else if k == "sequence"@ {
                Err(invalid("kind"@, "sequence"@, sequence_hint(json)))
            } else if k == "hierarchy"@ {
                by_schema::<RawHierarchyDiagram>(doc, json, k, |r| hierarchy_value(r))
            } else if k == "matrix"@ {
                by_schema::<RawMatrixDiagram>(doc, json, k, |r| matrix_value(r))
            } else if k == "hub_spoke"@ {
                by_schema::<RawHubSpokeDiagram>(doc, json, k, |r| hub_spoke_value(r))
            } else if k == "venn"@ {
                by_schema::<RawVennDiagram>(doc, json, k, |r| venn_value(r))
            } else if k == "timeline"@ {
                by_schema::<RawTimelineDiagram>(doc, json, k, |r| timeline_value(r))
            } else if k == "comparison"@ {
                by_schema::<RawComparisonDiagram>(doc, json, k, |r| comparison_value(r))
            } else if k == "state"@ {
                by_schema::<RawStateDiagram>(doc, json, k, |r| state_value(r))
            } else {
                Err(SpecError::UnknownKind(k))
            }
        },
    }
}

/// What [`parse`] gives for TOML text.
pub open spec fn parse_value(text: Seq<char>) -> Result<SpecDiagram, SpecError> {
    match toml_document(text) {
        Err(m) => Err(SpecError::Parse(m)),
        Ok(doc) => declaration_value(doc, false),
    }
}

/// What [`parse_json`] gives for JSON text.
pub open spec fn parse_json_value(text: Seq<char>) -> Result<SpecDiagram, SpecError> {
    match json_document(text) {
        Err(m) => Err(SpecError::Json(m)),
        Ok(doc) => declaration_value(doc, true),
    }
}

/// The characters Rust's `char::is_whitespace` accepts (Unicode `White_Space`).
pub open spec fn is_white(c: char) -> bool {
    c == ' ' || c == '\t' || c == '\n' || c == '\u{b}' || c == '\u{c}' || c == '\r'
        || c == '\u{85}' || c == '\u{a0}' || c == '\u{1680}'
        || ('\u{2000}' <= c && c <= '\u{200a}') || c == '\u{2028}' || c == '\u{2029}'
        || c == '\u{202f}' || c == '\u{205f}' || c == '\u{3000}'
}

/// The first character of `s` that is not white space is `{`.
pub open spec fn looks_like_json(s: Seq<char>) -> bool {
    exists|i: int| 0 <= i < s.len() && s[i] == '{'
        && forall|j: int| 0 <= j < i ==> #[trigger] is_white(s[j])
}

/// What [`parse_auto`] gives: JSON when the text, after leading white space, opens with
/// `{`; TOML otherwise.
pub open spec fn parse_auto_value(text: Seq<char>) -> Result<SpecDiagram, SpecError> {
    if looks_like_json(text) { parse_json_value(text) } else { parse_value(text) }
}

fn schema_refusal(json: bool, msg: String) -> (e: DeclartError)
    ensures
        e@ == schema_error(json, msg@),
{
    if json { DeclartError::Json(msg) } else { DeclartError::Parse(msg) }
}

fn schema_refusal_of(json: bool, kind: &str) -> (e: DeclartError)
    ensures
        e@ == schema_error(json, schema_message(kind@)),
{
    let mut m = owned("the fields do not match the schema of kind `");
    m.append(kind);
    m.append("`");
    schema_refusal(json, m)
}

/// Reads a parsed document as a declaration of the kind it names.
pub fn decode_declaration(doc: &DocValue, json: bool) -> (r: Result<Diagram, DeclartError>)
    ensures
        res(r) == declaration_value(*doc, json),
{
    let probe = match KindProbe::decode(doc) {
        Some(p) => p,
        None => return Err(schema_refusal(json, owned("`kind` is missing or not a string"))),
    };
    let k = probe.kind.as_str();
    if str_eq(k, "flow") {
        match RawFlowDiagram::decode(doc) {
            Some(raw) => validate_flow(raw),
            None => Err(schema_refusal_of(json, k)),
        }
    } else if str_eq(k, "tier") {
        match RawTierDiagram::decode(doc) {
            Some(raw) => validate_tier(raw),
            None => Err(schema_refusal_of(json, k)),
        }
    } else if str_eq(k, "sequence") {
        let hint = if json {
            "`sequence` was renamed to `flow` in v0.17 — update your diagram to `\"kind\": \"flow\"`"
        } else {
            "`sequence` was renamed to `flow` in v0.17 — update your diagram to `kind = \"flow\"`"
        };
        Err(invalid_value("kind", owned("sequence"), hint))
    } else if str_eq(k, "hierarchy") {
        match RawHierarchyDiagram::decode(doc) {
            Some(raw) => validate_hierarchy(raw),
            None => Err(schema_refusal_of(json, k)),
        }
    } else if str_eq(k, "matrix") {
        match RawMatrixDiagram::decode(doc) {
            Some(raw) => validate_matrix(raw),
            None => Err(schema_refusal_of(json, k)),
        }
    } else if str_eq(k, "hub_spoke") {
        match RawHubSpokeDiagram::decode(doc) {
            Some(raw) => validate_hub_spoke(raw),
            None => Err(schema_refusal_of(json, k)),
        }
    } else if str_eq(k, "venn") {
        match RawVennDiagram::decode(doc) {
            Some(raw) => validate_venn(raw),
            None => Err(schema_refusal_of(json, k)),
        }
    } else if str_eq(k, "timeline") {
        match RawTimelineDiagram::decode(doc) {
            Some(raw) => validate_timeline(raw),
            None => Err(schema_refusal_of(json, k)),
        }
    } else if str_eq(k, "comparison") {
        match RawComparisonDiagram::decode(doc) {
            Some(raw) => validate_comparison(raw),
            None => Err(schema_refusal_of(json, k)),
        }
    } else if str_eq(k, "state") {
        match RawStateDiagram::decode(doc) {
            Some(raw) => validate_state(raw),
            None => Err(schema_refusal_of(json, k)),
        }
    } else {
        Err(DeclartError::UnknownKind(owned(k)))
    }
}

/// Parses a TOML declaration into a validated [`Diagram`].
pub fn parse(input: &str) -> (r: Result<Diagram, DeclartError>)
    ensures
        res(r) == parse_value(input@),
{
    match read_toml(input) {
        Ok(doc) => decode_declaration(&doc, false),
        Err(m) => Err(DeclartError::Parse(m)),
    }
}

/// Parses a JSON declaration into a validated [`Diagram`].
pub fn parse_json(input: &str) -> (r: Result<Diagram, DeclartError>)
    ensures
        res(r) == parse_json_value(input@),
{
    match read_json(input) {
        Ok(doc) => decode_declaration(&doc, true),
        Err(m) => Err(DeclartError::Json(m)),
    }
}

fn first_is_brace(s: &str) -> (r: bool)
    ensures
        r == looks_like_json(s@),
{
    let c = char_seq(s);
    let mut i: usize = 0;
    while i < c.len()
        invariant
            i <= c@.len(),
            c@ == s@,
            forall|j: int| 0 <= j < i ==> #[trigger] is_white(c@[j]),
        decreases c@.len() - i,
    {
        let ch = c[i];
        let white = ch == ' ' || ch == '\t' || ch == '\n' || ch == '\u{b}' || ch == '\u{c}'
            || ch == '\r' || ch == '\u{85}' || ch == '\u{a0}' || ch == '\u{1680}'
            || ('\u{2000}' <= ch && ch <= '\u{200a}') || ch == '\u{2028}' || ch == '\u{2029}'
            || ch == '\u{202f}' || ch == '\u{205f}' || ch == '\u{3000}';
        if !white {
            assert(!is_white(c@[i as int]));
            if ch == '{' {
                return true;
            }
            assert(!looks_like_json(s@)) by {
                if looks_like_json(s@) {
                    let k = choose|k: int| 0 <= k < s@.len() && s@[k] == '{'
                        && forall|j: int| 0 <= j < k ==> #[trigger] is_white(s@[j]);
                    if k < i {
                        assert(is_white(c@[k]));
                    } else if k > i {
                        assert(is_white(s@[i as int]));
                    }
                }
            }
            return false;
        }
        i = i + 1;
    }
    assert(!looks_like_json(s@)) by {
        if looks_like_json(s@) {
            let k = choose|k: int| 0 <= k < s@.len() && s@[k] == '{'
                && forall|j: int| 0 <= j < k ==> #[trigger] is_white(s@[j]);
            assert(is_white(c@[k]));
        }
    }
    false
}

/// Auto-detects the input format and parses into a validated [`Diagram`].
///
/// If the input, after leading white space, starts with `{`, JSON parsing is used;
/// otherwise TOML.
pub fn parse_auto(input: &str) -> (r: Result<Diagram, DeclartError>)
    ensures
        res(r) == parse_auto_value(input@),
{
    if first_is_brace(input) { parse_json(input) } else { parse(input) }
}

} // verus!
