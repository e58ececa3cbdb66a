//! The schema of each declaration kind: the fields a kind admits and their
//! types, read from a parsed document. A field outside the schema, a missing
//! required field, or a value of the wrong type refuses the document.

use vstd::prelude::*;
use crate::doc::{
    check_keys, keys_within, list_field, opt_str_field, read_list, read_opt_str, read_str,
    str_field, DocEntry, DocValue,
};
use crate::model::{opt_str, strs};

verus! {

/// A type read from a document value, with the exact rule it is read by.
pub trait Decode: Sized + View {
    /// The value read from `v`, or `None` when `v` does not fit the schema.
    spec fn spec_decode(v: DocValue) -> Option<Self::V>;

    fn decode(v: &DocValue) -> (r: Option<Self>)
        ensures
            match r {
                Some(x) => Self::spec_decode(*v) == Some(x@),
                None => Self::spec_decode(*v) is None,
            };
}

/// Each value of `vs` read as a `T`, or `None` when one of them does not fit.
pub open spec fn decode_seq<T: Decode>(vs: Seq<DocValue>) -> Option<Seq<T::V>> {
    if forall|i: int| 0 <= i < vs.len() ==> (#[trigger] T::spec_decode(vs[i])) is Some {
        Some(vs.map_values(|v: DocValue| T::spec_decode(v).unwrap()))
    } else {
        None
    }
}

/// Reads each value of `vs` as a `T`.
pub fn decode_vec<T: Decode>(vs: &[DocValue]) -> (r: Option<Vec<T>>)
    ensures
        match r {
            Some(x) => decode_seq::<T>(vs@) == Some(x@.map_values(|t: T| t@)),
            None => decode_seq::<T>(vs@) is None,
        },
{
    let mut out: Vec<T> = Vec::new();
    let mut i: usize = 0;
    while i < vs.len()
        invariant
            i <= vs@.len(),
            out@.len() == i,
            forall|k: int| 0 <= k < i ==> (#[trigger] T::spec_decode(vs@[k])) == Some(out@[k]@),
        decreases vs@.len() - i,
    {
        match T::decode(&vs[i]) {
            Some(x) => {
                out.push(x);
            },
            None => {
                assert(T::spec_decode(vs@[i as int]) is None);
                return None;
            },
        }
        i = i + 1;
    }
    assert(out@.map_values(|t: T| t@) =~= vs@.map_values(|v: DocValue| T::spec_decode(v).unwrap()));
    Some(out)
}

impl Decode for String {
    open spec fn spec_decode(v: DocValue) -> Option<Seq<char>> {
        match v {
            DocValue::Str(s) => Some(s@),
            _ => None,
        }
    }

    fn decode(v: &DocValue) -> (r: Option<String>) {
        match v {
            DocValue::Str(s) => Some(s.clone()),
            _ => None,
        }
    }
}

/// A required list of strings: `None` when missing, not an array, or holding a non-string.
pub open spec fn str_list_field(entries: Seq<DocEntry>, key: Seq<char>) -> Option<Seq<Seq<char>>> {
    match crate::doc::lookup(entries, key) {
        Some(DocValue::Array(v)) => decode_seq::<String>(v@),
        _ => None,
    }
}

fn read_str_list(entries: &Vec<DocEntry>, key: &str) -> (r: Option<Vec<String>>)
    ensures
        match r {
            Some(x) => str_list_field(entries@, key@) == Some(strs(x)),
            None => str_list_field(entries@, key@) is None,
        },
{
    match crate::doc::get_field(entries, key) {
        Some(DocValue::Array(v)) => {
            let r = decode_vec::<String>(v.as_slice());
            match r {
                Some(x) => {
                    assert(x@.map_values(|t: String| t@) =~= strs(x));
                    Some(x)
                },
                None => None,
            }
        },
        _ => None,
    }
}

/// Minimal probe of the `kind` field; other fields are ignored.
#[derive(Debug)]
pub struct KindProbe {
    pub kind: String,
}

pub struct SpecKindProbe {
    pub kind: Seq<char>,
}

impl View for KindProbe {
    type V = SpecKindProbe;

    open spec fn view(&self) -> SpecKindProbe {
        SpecKindProbe {
            kind: self.kind@,
        }
    }
}

impl Decode for KindProbe {
    open spec fn spec_decode(v: DocValue) -> Option<SpecKindProbe> {
        match v {
            DocValue::Table(e) => {
                let es = e@;
                if (str_field(es, "kind"@)) is Some {
                    Some(SpecKindProbe {
                    kind: (str_field(es, "kind"@)).unwrap(),
                    })
                } else {
                    None
                }
            },
            _ => None,
        }
    }

    fn decode(v: &DocValue) -> (r: Option<KindProbe>) {
        let e = match v {
            DocValue::Table(e) => e,
            _ => return None,
        };
        let kind_v = match read_str(e, "kind") { Some(x) => x, None => return None };
        let r = KindProbe { kind: kind_v };
        assert(r@ == KindProbe::spec_decode(*v).unwrap());
        Some(r)
    }
}

/// An item of a `flow` declaration; `actor` is read by the swimlane view.
#[derive(Debug)]
pub struct RawFlowItem {
    pub label: String,
    pub emphasis: Option<String>,
    pub status: Option<String>,
    pub actor: Option<String>,
}

pub struct SpecRawFlowItem {
    pub label: Seq<char>,
    pub emphasis: Option<Seq<char>>,
    pub status: Option<Seq<char>>,
    pub actor: Option<Seq<char>>,
}

impl View for RawFlowItem {
    type V = SpecRawFlowItem;

    open spec fn view(&self) -> SpecRawFlowItem {
        SpecRawFlowItem {
            label: self.label@,
            emphasis: opt_str(self.emphasis),
            status: opt_str(self.status),
            actor: opt_str(self.actor),
        }
    }
}

/// The keys a `RawFlowItem` admits.
pub open spec fn raw_flow_item_keys() -> Seq<Seq<char>> {
    seq!["label"@, "emphasis"@, "status"@, "actor"@]
}

impl Decode for RawFlowItem {
    open spec fn spec_decode(v: DocValue) -> Option<SpecRawFlowItem> {
        match v {
            DocValue::Table(e) => {
                let es = e@;
                if keys_within(es, raw_flow_item_keys()) && (str_field(es, "label"@)) is Some && (opt_str_field(es, "emphasis"@)) is Some && (opt_str_field(es, "status"@)) is Some && (opt_str_field(es, "actor"@)) is Some {
                    Some(SpecRawFlowItem {
                    label: (str_field(es, "label"@)).unwrap(),
                    emphasis: (opt_str_field(es, "emphasis"@)).unwrap(),
                    status: (opt_str_field(es, "status"@)).unwrap(),
                    actor: (opt_str_field(es, "actor"@)).unwrap(),
                    })
                } else {
                    None
                }
            },
            _ => None,
        }
    }

    fn decode(v: &DocValue) -> (r: Option<RawFlowItem>) {
        let e = match v {
            DocValue::Table(e) => e,
            _ => return None,
        };
        let allowed: [&str; 4] = ["label", "emphasis", "status", "actor"];
        assert(allowed@.map_values(|s: &str| s@) =~= raw_flow_item_keys());
        if !check_keys(e, &allowed) {
            return None;
        }
        let label_v = match read_str(e, "label") { Some(x) => x, None => return None };
        let emphasis_v = match read_opt_str(e, "emphasis") { Some(x) => x, None => return None };
        let status_v = match read_opt_str(e, "status") { Some(x) => x, None => return None };
        let actor_v = match read_opt_str(e, "actor") { Some(x) => x, None => return None };
        let r = RawFlowItem { label: label_v, emphasis: emphasis_v, status: status_v, actor: actor_v };
        assert(r@ == RawFlowItem::spec_decode(*v).unwrap());
        Some(r)
    }
}

/// A `flow` declaration as written.
#[derive(Debug)]
pub struct RawFlowDiagram {
    pub kind: String,
    pub view: Option<String>,
    pub title: Option<String>,
    pub items: Vec<RawFlowItem>,
}

pub struct SpecRawFlowDiagram {
    pub kind: Seq<char>,
    pub view: Option<Seq<char>>,
    pub title: Option<Seq<char>>,
    pub items: Seq<SpecRawFlowItem>,
}

impl View for RawFlowDiagram {
    type V = SpecRawFlowDiagram;

    open spec fn view(&self) -> SpecRawFlowDiagram {
        SpecRawFlowDiagram {
            kind: self.kind@,
            view: opt_str(self.view),
            title: opt_str(self.title),
            items: self.items@.map_values(|x: RawFlowItem| x@),
        }
    }
}

/// The keys a `RawFlowDiagram` admits.
pub open spec fn raw_flow_diagram_keys() -> Seq<Seq<char>> {
    seq!["kind"@, "view"@, "title"@, "items"@]
}

impl Decode for RawFlowDiagram {
    open spec fn spec_decode(v: DocValue) -> Option<SpecRawFlowDiagram> {
        match v {
            DocValue::Table(e) => {
                let es = e@;
                if keys_within(es, raw_flow_diagram_keys()) && (str_field(es, "kind"@)) is Some && (opt_str_field(es, "view"@)) is Some && (opt_str_field(es, "title"@)) is Some && (match list_field(es, "items"@) { Some(l) => decode_seq::<RawFlowItem>(l), None => None }) is Some {
                    Some(SpecRawFlowDiagram {
                    kind: (str_field(es, "kind"@)).unwrap(),
                    view: (opt_str_field(es, "view"@)).unwrap(),
                    title: (opt_str_field(es, "title"@)).unwrap(),
                    items: (match list_field(es, "items"@) { Some(l) => decode_seq::<RawFlowItem>(l), None => None }).unwrap(),
                    })
                } else {
                    None
                }
            },
            _ => None,
        }
    }

    fn decode(v: &DocValue) -> (r: Option<RawFlowDiagram>) {
        let e = match v {
            DocValue::Table(e) => e,
            _ => return None,
        };
        let allowed: [&str; 4] = ["kind", "view", "title", "items"];
        assert(allowed@.map_values(|s: &str| s@) =~= raw_flow_diagram_keys());
        if !check_keys(e, &allowed) {
            return None;
        }
        let kind_v = match read_str(e, "kind") { Some(x) => x, None => return None };
        let view_v = match read_opt_str(e, "view") { Some(x) => x, None => return None };
        let title_v = match read_opt_str(e, "title") { Some(x) => x, None => return None };
        let items_l = match read_list(e, "items") { Some(x) => x, None => return None };
        let items_v = match decode_vec::<RawFlowItem>(items_l) { Some(x) => x, None => return None };
        let r = RawFlowDiagram { kind: kind_v, view: view_v, title: title_v, items: items_v };
        assert(r@ == RawFlowDiagram::spec_decode(*v).unwrap());
        Some(r)
    }
}

/// A `tier` declaration as written.
#[derive(Debug)]
pub struct RawTierDiagram {
    pub kind: String,
    pub view: Option<String>,
    pub title: Option<String>,
    pub items: Vec<RawItem>,
}

pub struct SpecRawTierDiagram {
    pub kind: Seq<char>,
    pub view: Option<Seq<char>>,
    pub title: Option<Seq<char>>,
    pub items: Seq<SpecRawItem>,
}

impl View for RawTierDiagram {
    type V = SpecRawTierDiagram;

    open spec fn view(&self) -> SpecRawTierDiagram {
        SpecRawTierDiagram {
            kind: self.kind@,
            view: opt_str(self.view),
            title: opt_str(self.title),
            items: self.items@.map_values(|x: RawItem| x@),
        }
    }
}

/// The keys a `RawTierDiagram` admits.
pub open spec fn raw_tier_diagram_keys() -> Seq<Seq<char>> {
    seq!["kind"@, "view"@, "title"@, "items"@]
}

impl Decode for RawTierDiagram {
    open spec fn spec_decode(v: DocValue) -> Option<SpecRawTierDiagram> {
        match v {
            DocValue::Table(e) => {
                let es = e@;
                if keys_within(es, raw_tier_diagram_keys()) && (str_field(es, "kind"@)) is Some && (opt_str_field(es, "view"@)) is Some && (opt_str_field(es, "title"@)) is Some && (match list_field(es, "items"@) { Some(l) => decode_seq::<RawItem>(l), None => None }) is Some {
                    Some(SpecRawTierDiagram {
                    kind: (str_field(es, "kind"@)).unwrap(),
                    view: (opt_str_field(es, "view"@)).unwrap(),
                    title: (opt_str_field(es, "title"@)).unwrap(),
                    items: (match list_field(es, "items"@) { Some(l) => decode_seq::<RawItem>(l), None => None }).unwrap(),
                    })
                } else {
                    None
                }
            },
            _ => None,
        }
    }

    fn decode(v: &DocValue) -> (r: Option<RawTierDiagram>) {
        let e = match v {
            DocValue::Table(e) => e,
            _ => return None,
        };
        let allowed: [&str; 4] = ["kind", "view", "title", "items"];
        assert(allowed@.map_values(|s: &str| s@) =~= raw_tier_diagram_keys());
        if !check_keys(e, &allowed) {
            return None;
        }
        let kind_v = match read_str(e, "kind") { Some(x) => x, None => return None };
        let view_v = match read_opt_str(e, "view") { Some(x) => x, None => return None };
        let title_v = match read_opt_str(e, "title") { Some(x) => x, None => return None };
        let items_l = match read_list(e, "items") { Some(x) => x, None => return None };
        let items_v = match decode_vec::<RawItem>(items_l) { Some(x) => x, None => return None };
        let r = RawTierDiagram { kind: kind_v, view: view_v, title: title_v, items: items_v };
        assert(r@ == RawTierDiagram::spec_decode(*v).unwrap());
        Some(r)
    }
}

/// A `matrix` declaration as written.
#[derive(Debug)]
pub struct RawMatrixDiagram {
    pub kind: String,
    pub title: Option<String>,
    pub x_axis: String,
    pub y_axis: String,
    pub quadrants: Vec<RawQuadrant>,
    pub items: Vec<RawMatrixItem>,
}

pub struct SpecRawMatrixDiagram {
    pub kind: Seq<char>,
    pub title: Option<Seq<char>>,
    pub x_axis: Seq<char>,
    pub y_axis: Seq<char>,
    pub quadrants: Seq<SpecRawQuadrant>,
    pub items: Seq<SpecRawMatrixItem>,
}

impl View for RawMatrixDiagram {
    type V = SpecRawMatrixDiagram;

    open spec fn view(&self) -> SpecRawMatrixDiagram {
        SpecRawMatrixDiagram {
            kind: self.kind@,
            title: opt_str(self.title),
            x_axis: self.x_axis@,
            y_axis: self.y_axis@,
            quadrants: self.quadrants@.map_values(|x: RawQuadrant| x@),
            items: self.items@.map_values(|x: RawMatrixItem| x@),
        }
    }
}

/// The keys a `RawMatrixDiagram` admits.
pub open spec fn raw_matrix_diagram_keys() -> Seq<Seq<char>> {
    seq!["kind"@, "title"@, "x_axis"@, "y_axis"@, "quadrants"@, "items"@]
}

impl Decode for RawMatrixDiagram {
    open spec fn spec_decode(v: DocValue) -> Option<SpecRawMatrixDiagram> {
        match v {
            DocValue::Table(e) => {
                let es = e@;
                if keys_within(es, raw_matrix_diagram_keys()) && (str_field(es, "kind"@)) is Some && (opt_str_field(es, "title"@)) is Some && (str_field(es, "x_axis"@)) is Some && (str_field(es, "y_axis"@)) is Some && (match list_field(es, "quadrants"@) { Some(l) => decode_seq::<RawQuadrant>(l), None => None }) is Some && (match list_field(es, "items"@) { Some(l) => decode_seq::<RawMatrixItem>(l), None => None }) is Some {
                    Some(SpecRawMatrixDiagram {
                    kind: (str_field(es, "kind"@)).unwrap(),
                    title: (opt_str_field(es, "title"@)).unwrap(),
                    x_axis: (str_field(es, "x_axis"@)).unwrap(),
                    y_axis: (str_field(es, "y_axis"@)).unwrap(),
                    quadrants: (match list_field(es, "quadrants"@) { Some(l) => decode_seq::<RawQuadrant>(l), None => None }).unwrap(),
                    items: (match list_field(es, "items"@) { Some(l) => decode_seq::<RawMatrixItem>(l), None => None }).unwrap(),
                    })
                } else {
                    None
                }
            },
            _ => None,
        }
    }

    fn decode(v: &DocValue) -> (r: Option<RawMatrixDiagram>) {
        let e = match v {
            DocValue::Table(e) => e,
            _ => return None,
        };
        let allowed: [&str; 6] = ["kind", "title", "x_axis", "y_axis", "quadrants", "items"];
        assert(allowed@.map_values(|s: &str| s@) =~= raw_matrix_diagram_keys());
        if !check_keys(e, &allowed) {
            return None;
        }
        let kind_v = match read_str(e, "kind") { Some(x) => x, None => return None };
        let title_v = match read_opt_str(e, "title") { Some(x) => x, None => return None };
        let x_axis_v = match read_str(e, "x_axis") { Some(x) => x, None => return None };
        let y_axis_v = match read_str(e, "y_axis") { Some(x) => x, None => return None };
        let quadrants_l = match read_list(e, "quadrants") { Some(x) => x, None => return None };
        let quadrants_v = match decode_vec::<RawQuadrant>(quadrants_l) { Some(x) => x, None => return None };
        let items_l = match read_list(e, "items") { Some(x) => x, None => return None };
        let items_v = match decode_vec::<RawMatrixItem>(items_l) { Some(x) => x, None => return None };
        let r = RawMatrixDiagram { kind: kind_v, title: title_v, x_axis: x_axis_v, y_axis: y_axis_v, quadrants: quadrants_v, items: items_v };
        assert(r@ == RawMatrixDiagram::spec_decode(*v).unwrap());
        Some(r)
    }
}

/// An item classified into a matrix quadrant by position name.
#[derive(Debug)]
pub struct RawMatrixItem {
    pub label: String,
    pub emphasis: Option<String>,
    pub status: Option<String>,
    pub quadrant: String,
}

pub struct SpecRawMatrixItem {
    pub label: Seq<char>,
    pub emphasis: Option<Seq<char>>,
    pub status: Option<Seq<char>>,
    pub quadrant: Seq<char>,
}

impl View for RawMatrixItem {
    type V = SpecRawMatrixItem;

    open spec fn view(&self) -> SpecRawMatrixItem {
        SpecRawMatrixItem {
            label: self.label@,
            emphasis: opt_str(self.emphasis),
            status: opt_str(self.status),
            quadrant: self.quadrant@,
        }
    }
}

/// The keys a `RawMatrixItem` admits.
pub open spec fn raw_matrix_item_keys() -> Seq<Seq<char>> {
    seq!["label"@, "emphasis"@, "status"@, "quadrant"@]
}

impl Decode for RawMatrixItem {
    open spec fn spec_decode(v: DocValue) -> Option<SpecRawMatrixItem> {
        match v {
            DocValue::Table(e) => {
                let es = e@;
                if keys_within(es, raw_matrix_item_keys()) && (str_field(es, "label"@)) is Some && (opt_str_field(es, "emphasis"@)) is Some && (opt_str_field(es, "status"@)) is Some && (str_field(es, "quadrant"@)) is Some {
                    Some(SpecRawMatrixItem {
                    label: (str_field(es, "label"@)).unwrap(),
                    emphasis: (opt_str_field(es, "emphasis"@)).unwrap(),
                    status: (opt_str_field(es, "status"@)).unwrap(),
                    quadrant: (str_field(es, "quadrant"@)).unwrap(),
                    })
                } else {
                    None
                }
            },
            _ => None,
        }
    }

    fn decode(v: &DocValue) -> (r: Option<RawMatrixItem>) {
        let e = match v {
            DocValue::Table(e) => e,
            _ => return None,
        };
        let allowed: [&str; 4] = ["label", "emphasis", "status", "quadrant"];
        assert(allowed@.map_values(|s: &str| s@) =~= raw_matrix_item_keys());
        if !check_keys(e, &allowed) {
            return None;
        }
        let label_v = match read_str(e, "label") { Some(x) => x, None => return None };
        let emphasis_v = match read_opt_str(e, "emphasis") { Some(x) => x, None => return None };
        let status_v = match read_opt_str(e, "status") { Some(x) => x, None => return None };
        let quadrant_v = match read_str(e, "quadrant") { Some(x) => x, None => return None };
        let r = RawMatrixItem { label: label_v, emphasis: emphasis_v, status: status_v, quadrant: quadrant_v };
        assert(r@ == RawMatrixItem::spec_decode(*v).unwrap());
        Some(r)
    }
}

/// A labeled item as written.
#[derive(Debug)]
pub struct RawItem {
    pub label: String,
    pub emphasis: Option<String>,
    pub status: Option<String>,
}

pub struct SpecRawItem {
    pub label: Seq<char>,
    pub emphasis: Option<Seq<char>>,
    pub status: Option<Seq<char>>,
}

impl View for RawItem {
    type V = SpecRawItem;

    open spec fn view(&self) -> SpecRawItem {
        SpecRawItem {
            label: self.label@,
            emphasis: opt_str(self.emphasis),
            status: opt_str(self.status),
        }
    }
}

/// The keys a `RawItem` admits.
pub open spec fn raw_item_keys() -> Seq<Seq<char>> {
    seq!["label"@, "emphasis"@, "status"@]
}

impl Decode for RawItem {
    open spec fn spec_decode(v: DocValue) -> Option<SpecRawItem> {
        match v {
            DocValue::Table(e) => {
                let es = e@;
                if keys_within(es, raw_item_keys()) && (str_field(es, "label"@)) is Some && (opt_str_field(es, "emphasis"@)) is Some && (opt_str_field(es, "status"@)) is Some {
                    Some(SpecRawItem {
                    label: (str_field(es, "label"@)).unwrap(),
                    emphasis: (opt_str_field(es, "emphasis"@)).unwrap(),
                    status: (opt_str_field(es, "status"@)).unwrap(),
                    })
                } else {
                    None
                }
            },
            _ => None,
        }
    }

    fn decode(v: &DocValue) -> (r: Option<RawItem>) {
        let e = match v {
            DocValue::Table(e) => e,
            _ => return None,
        };
        let allowed: [&str; 3] = ["label", "emphasis", "status"];
        assert(allowed@.map_values(|s: &str| s@) =~= raw_item_keys());
        if !check_keys(e, &allowed) {
            return None;
        }
        let label_v = match read_str(e, "label") { Some(x) => x, None => return None };
        let emphasis_v = match read_opt_str(e, "emphasis") { Some(x) => x, None => return None };
        let status_v = match read_opt_str(e, "status") { Some(x) => x, None => return None };
        let r = RawItem { label: label_v, emphasis: emphasis_v, status: status_v };
        assert(r@ == RawItem::spec_decode(*v).unwrap());
        Some(r)
    }
}

/// A matrix quadrant as written.
#[derive(Debug)]
pub struct RawQuadrant {
    pub label: String,
    pub emphasis: Option<String>,
    pub status: Option<String>,
    pub position: Option<String>,
}

pub struct SpecRawQuadrant {
    pub label: Seq<char>,
    pub emphasis: Option<Seq<char>>,
    pub status: Option<Seq<char>>,
    pub position: Option<Seq<char>>,
}

impl View for RawQuadrant {
    type V = SpecRawQuadrant;

    open spec fn view(&self) -> SpecRawQuadrant {
        SpecRawQuadrant {
            label: self.label@,
            emphasis: opt_str(self.emphasis),
            status: opt_str(self.status),
            position: opt_str(self.position),
        }
    }
}

/// The keys a `RawQuadrant` admits.
pub open spec fn raw_quadrant_keys() -> Seq<Seq<char>> {
    seq!["label"@, "emphasis"@, "status"@, "position"@]
}

impl Decode for RawQuadrant {
    open spec fn spec_decode(v: DocValue) -> Option<SpecRawQuadrant> {
        match v {
            DocValue::Table(e) => {
                let es = e@;
                if keys_within(es, raw_quadrant_keys()) && (str_field(es, "label"@)) is Some && (opt_str_field(es, "emphasis"@)) is Some && (opt_str_field(es, "status"@)) is Some && (opt_str_field(es, "position"@)) is Some {
                    Some(SpecRawQuadrant {
                    label: (str_field(es, "label"@)).unwrap(),
                    emphasis: (opt_str_field(es, "emphasis"@)).unwrap(),
                    status: (opt_str_field(es, "status"@)).unwrap(),
                    position: (opt_str_field(es, "position"@)).unwrap(),
                    })
                } else {
                    None
                }
            },
            _ => None,
        }
    }

    fn decode(v: &DocValue) -> (r: Option<RawQuadrant>) {
        let e = match v {
            DocValue::Table(e) => e,
            _ => return None,
        };
        let allowed: [&str; 4] = ["label", "emphasis", "status", "position"];
        assert(allowed@.map_values(|s: &str| s@) =~= raw_quadrant_keys());
        if !check_keys(e, &allowed) {
            return None;
        }
        let label_v = match read_str(e, "label") { Some(x) => x, None => return None };
        let emphasis_v = match read_opt_str(e, "emphasis") { Some(x) => x, None => return None };
        let status_v = match read_opt_str(e, "status") { Some(x) => x, None => return None };
        let position_v = match read_opt_str(e, "position") { Some(x) => x, None => return None };
        let r = RawQuadrant { label: label_v, emphasis: emphasis_v, status: status_v, position: position_v };
        assert(r@ == RawQuadrant::spec_decode(*v).unwrap());
        Some(r)
    }
}

/// A `hub_spoke` declaration as written.
#[derive(Debug)]
pub struct RawHubSpokeDiagram {
    pub kind: String,
    pub title: Option<String>,
    pub center: String,
    pub spokes: Vec<RawItem>,
}

pub struct SpecRawHubSpokeDiagram {
    pub kind: Seq<char>,
    pub title: Option<Seq<char>>,
    pub center: Seq<char>,
    pub spokes: Seq<SpecRawItem>,
}

impl View for RawHubSpokeDiagram {
    type V = SpecRawHubSpokeDiagram;

    open spec fn view(&self) -> SpecRawHubSpokeDiagram {
        SpecRawHubSpokeDiagram {
            kind: self.kind@,
            title: opt_str(self.title),
            center: self.center@,
            spokes: self.spokes@.map_values(|x: RawItem| x@),
        }
    }
}

/// The keys a `RawHubSpokeDiagram` admits.
pub open spec fn raw_hub_spoke_diagram_keys() -> Seq<Seq<char>> {
    seq!["kind"@, "title"@, "center"@, "spokes"@]
}

impl Decode for RawHubSpokeDiagram {
    open spec fn spec_decode(v: DocValue) -> Option<SpecRawHubSpokeDiagram> {
        match v {
            DocValue::Table(e) => {
                let es = e@;
                if keys_within(es, raw_hub_spoke_diagram_keys()) && (str_field(es, "kind"@)) is Some && (opt_str_field(es, "title"@)) is Some && (str_field(es, "center"@)) is Some && (match list_field(es, "spokes"@) { Some(l) => decode_seq::<RawItem>(l), None => None }) is Some {
                    Some(SpecRawHubSpokeDiagram {
                    kind: (str_field(es, "kind"@)).unwrap(),
                    title: (opt_str_field(es, "title"@)).unwrap(),
                    center: (str_field(es, "center"@)).unwrap(),
                    spokes: (match list_field(es, "spokes"@) { Some(l) => decode_seq::<RawItem>(l), None => None }).unwrap(),
                    })
                } else {
                    None
                }
            },
            _ => None,
        }
    }

    fn decode(v: &DocValue) -> (r: Option<RawHubSpokeDiagram>) {
        let e = match v {
            DocValue::Table(e) => e,
            _ => return None,
        };
        let allowed: [&str; 4] = ["kind", "title", "center", "spokes"];
        assert(allowed@.map_values(|s: &str| s@) =~= raw_hub_spoke_diagram_keys());
        if !check_keys(e, &allowed) {
            return None;
        }
        let kind_v = match read_str(e, "kind") { Some(x) => x, None => return None };
        let title_v = match read_opt_str(e, "title") { Some(x) => x, None => return None };
        let center_v = match read_str(e, "center") { Some(x) => x, None => return None };
        let spokes_l = match read_list(e, "spokes") { Some(x) => x, None => return None };
        let spokes_v = match decode_vec::<RawItem>(spokes_l) { Some(x) => x, None => return None };
        let r = RawHubSpokeDiagram { kind: kind_v, title: title_v, center: center_v, spokes: spokes_v };
        assert(r@ == RawHubSpokeDiagram::spec_decode(*v).unwrap());
        Some(r)
    }
}

/// A `venn` declaration as written.
#[derive(Debug)]
pub struct RawVennDiagram {
    pub kind: String,
    pub title: Option<String>,
    pub sets: Vec<RawVennSet>,
    pub intersections: Vec<RawVennIntersection>,
}

pub struct SpecRawVennDiagram {
    pub kind: Seq<char>,
    pub title: Option<Seq<char>>,
    pub sets: Seq<SpecRawVennSet>,
    pub intersections: Seq<SpecRawVennIntersection>,
}

impl View for RawVennDiagram {
    type V = SpecRawVennDiagram;

    open spec fn view(&self) -> SpecRawVennDiagram {
        SpecRawVennDiagram {
            kind: self.kind@,
            title: opt_str(self.title),
            sets: self.sets@.map_values(|x: RawVennSet| x@),
            intersections: self.intersections@.map_values(|x: RawVennIntersection| x@),
        }
    }
}

/// The keys a `RawVennDiagram` admits.
pub open spec fn raw_venn_diagram_keys() -> Seq<Seq<char>> {
    seq!["kind"@, "title"@, "sets"@, "intersections"@]
}

impl Decode for RawVennDiagram {
    open spec fn spec_decode(v: DocValue) -> Option<SpecRawVennDiagram> {
        match v {
            DocValue::Table(e) => {
                let es = e@;
                if keys_within(es, raw_venn_diagram_keys()) && (str_field(es, "kind"@)) is Some && (opt_str_field(es, "title"@)) is Some && (match list_field(es, "sets"@) { Some(l) => decode_seq::<RawVennSet>(l), None => None }) is Some && (match list_field(es, "intersections"@) { Some(l) => decode_seq::<RawVennIntersection>(l), None => None }) is Some {
                    Some(SpecRawVennDiagram {
                    kind: (str_field(es, "kind"@)).unwrap(),
                    title: (opt_str_field(es, "title"@)).unwrap(),
                    sets: (match list_field(es, "sets"@) { Some(l) => decode_seq::<RawVennSet>(l), None => None }).unwrap(),
                    intersections: (match list_field(es, "intersections"@) { Some(l) => decode_seq::<RawVennIntersection>(l), None => None }).unwrap(),
                    })
                } else {
                    None
                }
            },
            _ => None,
        }
    }

    fn decode(v: &DocValue) -> (r: Option<RawVennDiagram>) {
        let e = match v {
            DocValue::Table(e) => e,
            _ => return None,
        };
        let allowed: [&str; 4] = ["kind", "title", "sets", "intersections"];
        assert(allowed@.map_values(|s: &str| s@) =~= raw_venn_diagram_keys());
        if !check_keys(e, &allowed) {
            return None;
        }
        let kind_v = match read_str(e, "kind") { Some(x) => x, None => return None };
        let title_v = match read_opt_str(e, "title") { Some(x) => x, None => return None };
        let sets_l = match read_list(e, "sets") { Some(x) => x, None => return None };
        let sets_v = match decode_vec::<RawVennSet>(sets_l) { Some(x) => x, None => return None };
        let intersections_l = match read_list(e, "intersections") { Some(x) => x, None => return None };
        let intersections_v = match decode_vec::<RawVennIntersection>(intersections_l) { Some(x) => x, None => return None };
        let r = RawVennDiagram { kind: kind_v, title: title_v, sets: sets_v, intersections: intersections_v };
        assert(r@ == RawVennDiagram::spec_decode(*v).unwrap());
        Some(r)
    }
}

/// A Venn set as written.
#[derive(Debug)]
pub struct RawVennSet {
    pub label: String,
}

pub struct SpecRawVennSet {
    pub label: Seq<char>,
}

impl View for RawVennSet {
    type V = SpecRawVennSet;

    open spec fn view(&self) -> SpecRawVennSet {
        SpecRawVennSet {
            label: self.label@,
        }
    }
}

/// The keys a `RawVennSet` admits.
pub open spec fn raw_venn_set_keys() -> Seq<Seq<char>> {
    seq!["label"@]
}

impl Decode for RawVennSet {
    open spec fn spec_decode(v: DocValue) -> Option<SpecRawVennSet> {
        match v {
            DocValue::Table(e) => {
                let es = e@;
                if keys_within(es, raw_venn_set_keys()) && (str_field(es, "label"@)) is Some {
                    Some(SpecRawVennSet {
                    label: (str_field(es, "label"@)).unwrap(),
                    })
                } else {
                    None
                }
            },
            _ => None,
        }
    }

    fn decode(v: &DocValue) -> (r: Option<RawVennSet>) {
        let e = match v {
            DocValue::Table(e) => e,
            _ => return None,
        };
        let allowed: [&str; 1] = ["label"];
        assert(allowed@.map_values(|s: &str| s@) =~= raw_venn_set_keys());
        if !check_keys(e, &allowed) {
            return None;
        }
        let label_v = match read_str(e, "label") { Some(x) => x, None => return None };
        let r = RawVennSet { label: label_v };
        assert(r@ == RawVennSet::spec_decode(*v).unwrap());
        Some(r)
    }
}

/// A Venn intersection as written.
#[derive(Debug)]
pub struct RawVennIntersection {
    pub sets: Vec<String>,
    pub label: String,
}

pub struct SpecRawVennIntersection {
    pub sets: Seq<Seq<char>>,
    pub label: Seq<char>,
}

impl View for RawVennIntersection {
    type V = SpecRawVennIntersection;

    open spec fn view(&self) -> SpecRawVennIntersection {
        SpecRawVennIntersection {
            sets: strs(self.sets),
            label: self.label@,
        }
    }
}

/// The keys a `RawVennIntersection` admits.
pub open spec fn raw_venn_intersection_keys() -> Seq<Seq<char>> {
    seq!["sets"@, "label"@]
}

impl Decode for RawVennIntersection {
    open spec fn spec_decode(v: DocValue) -> Option<SpecRawVennIntersection> {
        match v {
            DocValue::Table(e) => {
                let es = e@;
                if keys_within(es, raw_venn_intersection_keys()) && (str_list_field(es, "sets"@)) is Some && (str_field(es, "label"@)) is Some {
                    Some(SpecRawVennIntersection {
                    sets: (str_list_field(es, "sets"@)).unwrap(),
                    label: (str_field(es, "label"@)).unwrap(),
                    })
                } else {
                    None
                }
            },
            _ => None,
        }
    }

    fn decode(v: &DocValue) -> (r: Option<RawVennIntersection>) {
        let e = match v {
            DocValue::Table(e) => e,
            _ => return None,
        };
        let allowed: [&str; 2] = ["sets", "label"];
        assert(allowed@.map_values(|s: &str| s@) =~= raw_venn_intersection_keys());
        if !check_keys(e, &allowed) {
            return None;
        }
        let sets_v = match read_str_list(e, "sets") { Some(x) => x, None => return None };
        let label_v = match read_str(e, "label") { Some(x) => x, None => return None };
        let r = RawVennIntersection { sets: sets_v, label: label_v };
        assert(r@ == RawVennIntersection::spec_decode(*v).unwrap());
        Some(r)
    }
}

/// A `timeline` declaration as written.
#[derive(Debug)]
pub struct RawTimelineDiagram {
    pub kind: String,
    pub title: Option<String>,
    pub events: Vec<RawTimelineEvent>,
}

pub struct SpecRawTimelineDiagram {
    pub kind: Seq<char>,
    pub title: Option<Seq<char>>,
    pub events: Seq<SpecRawTimelineEvent>,
}

impl View for RawTimelineDiagram {
    type V = SpecRawTimelineDiagram;

    open spec fn view(&self) -> SpecRawTimelineDiagram {
        SpecRawTimelineDiagram {
            kind: self.kind@,
            title: opt_str(self.title),
            events: self.events@.map_values(|x: RawTimelineEvent| x@),
        }
    }
}

/// The keys a `RawTimelineDiagram` admits.
pub open spec fn raw_timeline_diagram_keys() -> Seq<Seq<char>> {
    seq!["kind"@, "title"@, "events"@]
}

impl Decode for RawTimelineDiagram {
    open spec fn spec_decode(v: DocValue) -> Option<SpecRawTimelineDiagram> {
        match v {
            DocValue::Table(e) => {
                let es = e@;
                if keys_within(es, raw_timeline_diagram_keys()) && (str_field(es, "kind"@)) is Some && (opt_str_field(es, "title"@)) is Some && (match list_field(es, "events"@) { Some(l) => decode_seq::<RawTimelineEvent>(l), None => None }) is Some {
                    Some(SpecRawTimelineDiagram {
                    kind: (str_field(es, "kind"@)).unwrap(),
                    title: (opt_str_field(es, "title"@)).unwrap(),
                    events: (match list_field(es, "events"@) { Some(l) => decode_seq::<RawTimelineEvent>(l), None => None }).unwrap(),
                    })
                } else {
                    None
                }
            },
            _ => None,
        }
    }

    fn decode(v: &DocValue) -> (r: Option<RawTimelineDiagram>) {
        let e = match v {
            DocValue::Table(e) => e,
            _ => return None,
        };
        let allowed: [&str; 3] = ["kind", "title", "events"];
        assert(allowed@.map_values(|s: &str| s@) =~= raw_timeline_diagram_keys());
        if !check_keys(e, &allowed) {
            return None;
        }
        let kind_v = match read_str(e, "kind") { Some(x) => x, None => return None };
        let title_v = match read_opt_str(e, "title") { Some(x) => x, None => return None };
        let events_l = match read_list(e, "events") { Some(x) => x, None => return None };
        let events_v = match decode_vec::<RawTimelineEvent>(events_l) { Some(x) => x, None => return None };
        let r = RawTimelineDiagram { kind: kind_v, title: title_v, events: events_v };
        assert(r@ == RawTimelineDiagram::spec_decode(*v).unwrap());
        Some(r)
    }
}

/// A timeline event as written.
#[derive(Debug)]
pub struct RawTimelineEvent {
    pub date: String,
    pub label: String,
}

pub struct SpecRawTimelineEvent {
    pub date: Seq<char>,
    pub label: Seq<char>,
}

impl View for RawTimelineEvent {
    type V = SpecRawTimelineEvent;

    open spec fn view(&self) -> SpecRawTimelineEvent {
        SpecRawTimelineEvent {
            date: self.date@,
            label: self.label@,
        }
    }
}

/// The keys a `RawTimelineEvent` admits.
pub open spec fn raw_timeline_event_keys() -> Seq<Seq<char>> {
    seq!["date"@, "label"@]
}

impl Decode for RawTimelineEvent {
    open spec fn spec_decode(v: DocValue) -> Option<SpecRawTimelineEvent> {
        match v {
            DocValue::Table(e) => {
                let es = e@;
                if keys_within(es, raw_timeline_event_keys()) && (str_field(es, "date"@)) is Some && (str_field(es, "label"@)) is Some {
                    Some(SpecRawTimelineEvent {
                    date: (str_field(es, "date"@)).unwrap(),
                    label: (str_field(es, "label"@)).unwrap(),
                    })
                } else {
                    None
                }
            },
            _ => None,
        }
    }

    fn decode(v: &DocValue) -> (r: Option<RawTimelineEvent>) {
        let e = match v {
            DocValue::Table(e) => e,
            _ => return None,
        };
        let allowed: [&str; 2] = ["date", "label"];
        assert(allowed@.map_values(|s: &str| s@) =~= raw_timeline_event_keys());
        if !check_keys(e, &allowed) {
            return None;
        }
        let date_v = match read_str(e, "date") { Some(x) => x, None => return None };
        let label_v = match read_str(e, "label") { Some(x) => x, None => return None };
        let r = RawTimelineEvent { date: date_v, label: label_v };
        assert(r@ == RawTimelineEvent::spec_decode(*v).unwrap());
        Some(r)
    }
}

/// A `hierarchy` declaration as written.
#[derive(Debug)]
pub struct RawHierarchyDiagram {
    pub kind: String,
    pub view: Option<String>,
    pub title: Option<String>,
    pub effect: Option<String>,
    pub nodes: Vec<RawHierarchyNode>,
}

pub struct SpecRawHierarchyDiagram {
    pub kind: Seq<char>,
    pub view: Option<Seq<char>>,
    pub title: Option<Seq<char>>,
    pub effect: Option<Seq<char>>,
    pub nodes: Seq<SpecRawHierarchyNode>,
}

impl View for RawHierarchyDiagram {
    type V = SpecRawHierarchyDiagram;

    open spec fn view(&self) -> SpecRawHierarchyDiagram {
        SpecRawHierarchyDiagram {
            kind: self.kind@,
            view: opt_str(self.view),
            title: opt_str(self.title),
            effect: opt_str(self.effect),
            nodes: self.nodes@.map_values(|x: RawHierarchyNode| x@),
        }
    }
}

/// The keys a `RawHierarchyDiagram` admits.
pub open spec fn raw_hierarchy_diagram_keys() -> Seq<Seq<char>> {
    seq!["kind"@, "view"@, "title"@, "effect"@, "nodes"@]
}

impl Decode for RawHierarchyDiagram {
    open spec fn spec_decode(v: DocValue) -> Option<SpecRawHierarchyDiagram> {
        match v {
            DocValue::Table(e) => {
                let es = e@;
                if keys_within(es, raw_hierarchy_diagram_keys()) && (str_field(es, "kind"@)) is Some && (opt_str_field(es, "view"@)) is Some && (opt_str_field(es, "title"@)) is Some && (opt_str_field(es, "effect"@)) is Some && (match list_field(es, "nodes"@) { Some(l) => decode_seq::<RawHierarchyNode>(l), None => None }) is Some {
                    Some(SpecRawHierarchyDiagram {
                    kind: (str_field(es, "kind"@)).unwrap(),
                    view: (opt_str_field(es, "view"@)).unwrap(),
                    title: (opt_str_field(es, "title"@)).unwrap(),
                    effect: (opt_str_field(es, "effect"@)).unwrap(),
                    nodes: (match list_field(es, "nodes"@) { Some(l) => decode_seq::<RawHierarchyNode>(l), None => None }).unwrap(),
                    })
                } else {
                    None
                }
            },
            _ => None,
        }
    }

    fn decode(v: &DocValue) -> (r: Option<RawHierarchyDiagram>) {
        let e = match v {
            DocValue::Table(e) => e,
            _ => return None,
        };
        let allowed: [&str; 5] = ["kind", "view", "title", "effect", "nodes"];
        assert(allowed@.map_values(|s: &str| s@) =~= raw_hierarchy_diagram_keys());
        if !check_keys(e, &allowed) {
            return None;
        }
        let kind_v = match read_str(e, "kind") { Some(x) => x, None => return None };
        let view_v = match read_opt_str(e, "view") { Some(x) => x, None => return None };
        let title_v = match read_opt_str(e, "title") { Some(x) => x, None => return None };
        let effect_v = match read_opt_str(e, "effect") { Some(x) => x, None => return None };
        let nodes_l = match read_list(e, "nodes") { Some(x) => x, None => return None };
        let nodes_v = match decode_vec::<RawHierarchyNode>(nodes_l) { Some(x) => x, None => return None };
        let r = RawHierarchyDiagram { kind: kind_v, view: view_v, title: title_v, effect: effect_v, nodes: nodes_v };
        assert(r@ == RawHierarchyDiagram::spec_decode(*v).unwrap());
        Some(r)
    }
}

/// A hierarchy node as written.
#[derive(Debug)]
pub struct RawHierarchyNode {
    pub label: String,
    pub id: Option<String>,
    pub parent: Option<String>,
}

pub struct SpecRawHierarchyNode {
    pub label: Seq<char>,
    pub id: Option<Seq<char>>,
    pub parent: Option<Seq<char>>,
}

impl View for RawHierarchyNode {
    type V = SpecRawHierarchyNode;

    open spec fn view(&self) -> SpecRawHierarchyNode {
        SpecRawHierarchyNode {
            label: self.label@,
            id: opt_str(self.id),
            parent: opt_str(self.parent),
        }
    }
}

/// The keys a `RawHierarchyNode` admits.
pub open spec fn raw_hierarchy_node_keys() -> Seq<Seq<char>> {
    seq!["label"@, "id"@, "parent"@]
}

impl Decode for RawHierarchyNode {
    open spec fn spec_decode(v: DocValue) -> Option<SpecRawHierarchyNode> {
        match v {
            DocValue::Table(e) => {
                let es = e@;
                if keys_within(es, raw_hierarchy_node_keys()) && (str_field(es, "label"@)) is Some && (opt_str_field(es, "id"@)) is Some && (opt_str_field(es, "parent"@)) is Some {
                    Some(SpecRawHierarchyNode {
                    label: (str_field(es, "label"@)).unwrap(),
                    id: (opt_str_field(es, "id"@)).unwrap(),
                    parent: (opt_str_field(es, "parent"@)).unwrap(),
                    })
                } else {
                    None
                }
            },
            _ => None,
        }
    }

    fn decode(v: &DocValue) -> (r: Option<RawHierarchyNode>) {
        let e = match v {
            DocValue::Table(e) => e,
            _ => return None,
        };
        let allowed: [&str; 3] = ["label", "id", "parent"];
        assert(allowed@.map_values(|s: &str| s@) =~= raw_hierarchy_node_keys());
        if !check_keys(e, &allowed) {
            return None;
        }
        let label_v = match read_str(e, "label") { Some(x) => x, None => return None };
        let id_v = match read_opt_str(e, "id") { Some(x) => x, None => return None };
        let parent_v = match read_opt_str(e, "parent") { Some(x) => x, None => return None };
        let r = RawHierarchyNode { label: label_v, id: id_v, parent: parent_v };
        assert(r@ == RawHierarchyNode::spec_decode(*v).unwrap());
        Some(r)
    }
}

/// A `comparison` declaration as written.
#[derive(Debug)]
pub struct RawComparisonDiagram {
    pub kind: String,
    pub title: Option<String>,
    pub rows: Vec<RawComparisonRow>,
    pub columns: Vec<RawComparisonColumn>,
}

pub struct SpecRawComparisonDiagram {
    pub kind: Seq<char>,
    pub title: Option<Seq<char>>,
    pub rows: Seq<SpecRawComparisonRow>,
    pub columns: Seq<SpecRawComparisonColumn>,
}

impl View for RawComparisonDiagram {
    type V = SpecRawComparisonDiagram;

    open spec fn view(&self) -> SpecRawComparisonDiagram {
        SpecRawComparisonDiagram {
            kind: self.kind@,
            title: opt_str(self.title),
            rows: self.rows@.map_values(|x: RawComparisonRow| x@),
            columns: self.columns@.map_values(|x: RawComparisonColumn| x@),
        }
    }
}

/// The keys a `RawComparisonDiagram` admits.
pub open spec fn raw_comparison_diagram_keys() -> Seq<Seq<char>> {
    seq!["kind"@, "title"@, "rows"@, "columns"@]
}

impl Decode for RawComparisonDiagram {
    open spec fn spec_decode(v: DocValue) -> Option<SpecRawComparisonDiagram> {
        match v {
            DocValue::Table(e) => {
                let es = e@;
                if keys_within(es, raw_comparison_diagram_keys()) && (str_field(es, "kind"@)) is Some && (opt_str_field(es, "title"@)) is Some && (match list_field(es, "rows"@) { Some(l) => decode_seq::<RawComparisonRow>(l), None => None }) is Some && (match list_field(es, "columns"@) { Some(l) => decode_seq::<RawComparisonColumn>(l), None => None }) is Some {
                    Some(SpecRawComparisonDiagram {
                    kind: (str_field(es, "kind"@)).unwrap(),
                    title: (opt_str_field(es, "title"@)).unwrap(),
                    rows: (match list_field(es, "rows"@) { Some(l) => decode_seq::<RawComparisonRow>(l), None => None }).unwrap(),
                    columns: (match list_field(es, "columns"@) { Some(l) => decode_seq::<RawComparisonColumn>(l), None => None }).unwrap(),
                    })
                } else {
                    None
                }
            },
            _ => None,
        }
    }

    fn decode(v: &DocValue) -> (r: Option<RawComparisonDiagram>) {
        let e = match v {
            DocValue::Table(e) => e,
            _ => return None,
        };
        let allowed: [&str; 4] = ["kind", "title", "rows", "columns"];
        assert(allowed@.map_values(|s: &str| s@) =~= raw_comparison_diagram_keys());
        if !check_keys(e, &allowed) {
            return None;
        }
        let kind_v = match read_str(e, "kind") { Some(x) => x, None => return None };
        let title_v = match read_opt_str(e, "title") { Some(x) => x, None => return None };
        let rows_l = match read_list(e, "rows") { Some(x) => x, None => return None };
        let rows_v = match decode_vec::<RawComparisonRow>(rows_l) { Some(x) => x, None => return None };
        let columns_l = match read_list(e, "columns") { Some(x) => x, None => return None };
        let columns_v = match decode_vec::<RawComparisonColumn>(columns_l) { Some(x) => x, None => return None };
        let r = RawComparisonDiagram { kind: kind_v, title: title_v, rows: rows_v, columns: columns_v };
        assert(r@ == RawComparisonDiagram::spec_decode(*v).unwrap());
        Some(r)
    }
}

/// A row of a comparison table: `label` names the row and every other key is the
/// value of the cell in the column of that name, in document order.
#[derive(Debug)]
pub struct RawComparisonRow {
    pub label: String,
    pub cells: Vec<(String, String)>,
}

pub struct SpecRawComparisonRow {
    pub label: Seq<char>,
    pub cells: Seq<(Seq<char>, Seq<char>)>,
}

pub open spec fn cell_pairs(v: Vec<(String, String)>) -> Seq<(Seq<char>, Seq<char>)> {
    v@.map_values(|p: (String, String)| (p.0@, p.1@))
}

impl View for RawComparisonRow {
    type V = SpecRawComparisonRow;

    open spec fn view(&self) -> SpecRawComparisonRow {
        SpecRawComparisonRow { label: self.label@, cells: cell_pairs(self.cells) }
    }
}

/// The entries of a row other than `label`, each of which must be a string.
pub open spec fn row_cells(es: Seq<DocEntry>) -> Option<Seq<(Seq<char>, Seq<char>)>>
    decreases es.len(),
{
    if es.len() == 0 {
        Some(Seq::empty())
    } else {
        match row_cells(es.drop_first()) {
            None => None,
            Some(rest) => if es[0].key@ == "label"@ {
                Some(rest)
            } else {
                match es[0].value {
                    DocValue::Str(s) => Some(seq![(es[0].key@, s@)] + rest),
                    _ => None,
                }
            },
        }
    }
}

fn read_row_cells(es: &Vec<DocEntry>) -> (r: Option<Vec<(String, String)>>)
    ensures
        match r {
            Some(x) => row_cells(es@) == Some(cell_pairs(x)),
            None => row_cells(es@) is None,
        },
{
    let mut i: usize = 0;
    let mut acc: Vec<(String, String)> = Vec::new();
    assert(es@.skip(0) =~= es@);
    assert(cell_pairs(acc) =~= Seq::<(Seq<char>, Seq<char>)>::empty());
    while i < es.len()
        invariant
            i <= es@.len(),
            row_cells(es@) == (match row_cells(es@.skip(i as int)) {
                Some(r) => Some(cell_pairs(acc) + r),
                None => None,
            }),
        decreases es@.len() - i,
    {
        assert(es@.skip(i as int).drop_first() =~= es@.skip(i as int + 1));
        let e = &es[i];
        if !crate::text::str_eq(e.key.as_str(), "label") {
            match &e.value {
                DocValue::Str(s) => {
                    let ghost before = cell_pairs(acc);
                    acc.push((e.key.clone(), s.clone()));
                    assert(cell_pairs(acc) =~= before.push((e.key@, s@)));
                    assert forall|r: Seq<(Seq<char>, Seq<char>)>|
                        before + (seq![(e.key@, s@)] + r) == #[trigger] (cell_pairs(acc) + r) by {
                        assert(before + (seq![(e.key@, s@)] + r) =~= cell_pairs(acc) + r);
                    }
                },
                _ => {
                    return None;
                },
            }
        }
        i = i + 1;
    }
    assert(es@.skip(es@.len() as int) =~= Seq::<DocEntry>::empty());
    assert(cell_pairs(acc) + Seq::<(Seq<char>, Seq<char>)>::empty() =~= cell_pairs(acc));
    Some(acc)
}

impl Decode for RawComparisonRow {
    open spec fn spec_decode(v: DocValue) -> Option<SpecRawComparisonRow> {
        match v {
            DocValue::Table(e) => match (str_field(e@, "label"@), row_cells(e@)) {
                (Some(l), Some(c)) => Some(SpecRawComparisonRow { label: l, cells: c }),
                _ => None,
            },
            _ => None,
        }
    }

    fn decode(v: &DocValue) -> (r: Option<RawComparisonRow>) {
        let e = match v {
            DocValue::Table(e) => e,
            _ => return None,
        };
        let label = match read_str(e, "label") { Some(x) => x, None => return None };
        let cells = match read_row_cells(e) { Some(x) => x, None => return None };
        Some(RawComparisonRow { label, cells })
    }
}

/// A comparison column as written.
#[derive(Debug)]
pub struct RawComparisonColumn {
    pub label: String,
}

pub struct SpecRawComparisonColumn {
    pub label: Seq<char>,
}

impl View for RawComparisonColumn {
    type V = SpecRawComparisonColumn;

    open spec fn view(&self) -> SpecRawComparisonColumn {
        SpecRawComparisonColumn {
            label: self.label@,
        }
    }
}

/// The keys a `RawComparisonColumn` admits.
pub open spec fn raw_comparison_column_keys() -> Seq<Seq<char>> {
    seq!["label"@]
}

impl Decode for RawComparisonColumn {
    open spec fn spec_decode(v: DocValue) -> Option<SpecRawComparisonColumn> {
        match v {
            DocValue::Table(e) => {
                let es = e@;
                if keys_within(es, raw_comparison_column_keys()) && (str_field(es, "label"@)) is Some {
                    Some(SpecRawComparisonColumn {
                    label: (str_field(es, "label"@)).unwrap(),
                    })
                } else {
                    None
                }
            },
            _ => None,
        }
    }

    fn decode(v: &DocValue) -> (r: Option<RawComparisonColumn>) {
        let e = match v {
            DocValue::Table(e) => e,
            _ => return None,
        };
        let allowed: [&str; 1] = ["label"];
        assert(allowed@.map_values(|s: &str| s@) =~= raw_comparison_column_keys());
        if !check_keys(e, &allowed) {
            return None;
        }
        let label_v = match read_str(e, "label") { Some(x) => x, None => return None };
        let r = RawComparisonColumn { label: label_v };
        assert(r@ == RawComparisonColumn::spec_decode(*v).unwrap());
        Some(r)
    }
}

/// A `state` declaration as written.
#[derive(Debug)]
pub struct RawStateDiagram {
    pub kind: String,
    pub title: Option<String>,
    pub states: Vec<RawStateNode>,
    pub transitions: Vec<RawStateTransition>,
}

pub struct SpecRawStateDiagram {
    pub kind: Seq<char>,
    pub title: Option<Seq<char>>,
    pub states: Seq<SpecRawStateNode>,
    pub transitions: Seq<SpecRawStateTransition>,
}

impl View for RawStateDiagram {
    type V = SpecRawStateDiagram;

    open spec fn view(&self) -> SpecRawStateDiagram {
        SpecRawStateDiagram {
            kind: self.kind@,
            title: opt_str(self.title),
            states: self.states@.map_values(|x: RawStateNode| x@),
            transitions: self.transitions@.map_values(|x: RawStateTransition| x@),
        }
    }
}

/// The keys a `RawStateDiagram` admits.
pub open spec fn raw_state_diagram_keys() -> Seq<Seq<char>> {
    seq!["kind"@, "title"@, "states"@, "transitions"@]
}

impl Decode for RawStateDiagram {
    open spec fn spec_decode(v: DocValue) -> Option<SpecRawStateDiagram> {
        match v {
            DocValue::Table(e) => {
                let es = e@;
                if keys_within(es, raw_state_diagram_keys()) && (str_field(es, "kind"@)) is Some && (opt_str_field(es, "title"@)) is Some && (match list_field(es, "states"@) { Some(l) => decode_seq::<RawStateNode>(l), None => None }) is Some && (match list_field(es, "transitions"@) { Some(l) => decode_seq::<RawStateTransition>(l), None => None }) is Some {
                    Some(SpecRawStateDiagram {
                    kind: (str_field(es, "kind"@)).unwrap(),
                    title: (opt_str_field(es, "title"@)).unwrap(),
                    states: (match list_field(es, "states"@) { Some(l) => decode_seq::<RawStateNode>(l), None => None }).unwrap(),
                    transitions: (match list_field(es, "transitions"@) { Some(l) => decode_seq::<RawStateTransition>(l), None => None }).unwrap(),
                    })
                } else {
                    None
                }
            },
            _ => None,
        }
    }

    fn decode(v: &DocValue) -> (r: Option<RawStateDiagram>) {
        let e = match v {
            DocValue::Table(e) => e,
            _ => return None,
        };
        let allowed: [&str; 4] = ["kind", "title", "states", "transitions"];
        assert(allowed@.map_values(|s: &str| s@) =~= raw_state_diagram_keys());
        if !check_keys(e, &allowed) {
            return None;
        }
        let kind_v = match read_str(e, "kind") { Some(x) => x, None => return None };
        let title_v = match read_opt_str(e, "title") { Some(x) => x, None => return None };
        let states_l = match read_list(e, "states") { Some(x) => x, None => return None };
        let states_v = match decode_vec::<RawStateNode>(states_l) { Some(x) => x, None => return None };
        let transitions_l = match read_list(e, "transitions") { Some(x) => x, None => return None };
        let transitions_v = match decode_vec::<RawStateTransition>(transitions_l) { Some(x) => x, None => return None };
        let r = RawStateDiagram { kind: kind_v, title: title_v, states: states_v, transitions: transitions_v };
        assert(r@ == RawStateDiagram::spec_decode(*v).unwrap());
        Some(r)
    }
}

/// A state as written.
#[derive(Debug)]
pub struct RawStateNode {
    pub label: String,
    pub id: Option<String>,
    pub role: Option<String>,
}

pub struct SpecRawStateNode {
    pub label: Seq<char>,
    pub id: Option<Seq<char>>,
    pub role: Option<Seq<char>>,
}

impl View for RawStateNode {
    type V = SpecRawStateNode;

    open spec fn view(&self) -> SpecRawStateNode {
        SpecRawStateNode {
            label: self.label@,
            id: opt_str(self.id),
            role: opt_str(self.role),
        }
    }
}

/// The keys a `RawStateNode` admits.
pub open spec fn raw_state_node_keys() -> Seq<Seq<char>> {
    seq!["label"@, "id"@, "role"@]
}

impl Decode for RawStateNode {
    open spec fn spec_decode(v: DocValue) -> Option<SpecRawStateNode> {
        match v {
            DocValue::Table(e) => {
                let es = e@;
                if keys_within(es, raw_state_node_keys()) && (str_field(es, "label"@)) is Some && (opt_str_field(es, "id"@)) is Some && (opt_str_field(es, "role"@)) is Some {
                    Some(SpecRawStateNode {
                    label: (str_field(es, "label"@)).unwrap(),
                    id: (opt_str_field(es, "id"@)).unwrap(),
                    role: (opt_str_field(es, "role"@)).unwrap(),
                    })
                } else {
                    None
                }
            },
            _ => None,
        }
    }

    fn decode(v: &DocValue) -> (r: Option<RawStateNode>) {
        let e = match v {
            DocValue::Table(e) => e,
            _ => return None,
        };
        let allowed: [&str; 3] = ["label", "id", "role"];
        assert(allowed@.map_values(|s: &str| s@) =~= raw_state_node_keys());
        if !check_keys(e, &allowed) {
            return None;
        }
        let label_v = match read_str(e, "label") { Some(x) => x, None => return None };
        let id_v = match read_opt_str(e, "id") { Some(x) => x, None => return None };
        let role_v = match read_opt_str(e, "role") { Some(x) => x, None => return None };
        let r = RawStateNode { label: label_v, id: id_v, role: role_v };
        assert(r@ == RawStateNode::spec_decode(*v).unwrap());
        Some(r)
    }
}

/// A transition as written; `kind` is read from the key `type`.
#[derive(Debug)]
pub struct RawStateTransition {
    pub from: String,
    pub to: String,
    pub trigger: Option<String>,
    pub kind: Option<String>,
}

pub struct SpecRawStateTransition {
    pub from: Seq<char>,
    pub to: Seq<char>,
    pub trigger: Option<Seq<char>>,
    pub kind: Option<Seq<char>>,
}

impl View for RawStateTransition {
    type V = SpecRawStateTransition;

    open spec fn view(&self) -> SpecRawStateTransition {
        SpecRawStateTransition {
            from: self.from@,
            to: self.to@,
            trigger: opt_str(self.trigger),
            kind: opt_str(self.kind),
        }
    }
}

/// The keys a `RawStateTransition` admits.
pub open spec fn raw_state_transition_keys() -> Seq<Seq<char>> {
    seq!["from"@, "to"@, "trigger"@, "type"@]
}

impl Decode for RawStateTransition {
    open spec fn spec_decode(v: DocValue) -> Option<SpecRawStateTransition> {
        match v {
            DocValue::Table(e) => {
                let es = e@;
                if keys_within(es, raw_state_transition_keys()) && (str_field(es, "from"@)) is Some && (str_field(es, "to"@)) is Some && (opt_str_field(es, "trigger"@)) is Some && (opt_str_field(es, "type"@)) is Some {
                    Some(SpecRawStateTransition {
                    from: (str_field(es, "from"@)).unwrap(),
                    to: (str_field(es, "to"@)).unwrap(),
                    trigger: (opt_str_field(es, "trigger"@)).unwrap(),
                    kind: (opt_str_field(es, "type"@)).unwrap(),
                    })
                } else {
                    None
                }
            },
            _ => None,
        }
    }

    fn decode(v: &DocValue) -> (r: Option<RawStateTransition>) {
        let e = match v {
            DocValue::Table(e) => e,
            _ => return None,
        };
        let allowed: [&str; 4] = ["from", "to", "trigger", "type"];
        assert(allowed@.map_values(|s: &str| s@) =~= raw_state_transition_keys());
        if !check_keys(e, &allowed) {
            return None;
        }
        let from_v = match read_str(e, "from") { Some(x) => x, None => return None };
        let to_v = match read_str(e, "to") { Some(x) => x, None => return None };
        let trigger_v = match read_opt_str(e, "trigger") { Some(x) => x, None => return None };
        let kind_v = match read_opt_str(e, "type") { Some(x) => x, None => return None };
        let r = RawStateTransition { from: from_v, to: to_v, trigger: trigger_v, kind: kind_v };
        assert(r@ == RawStateTransition::spec_decode(*v).unwrap());
        Some(r)
    }
}

} // verus!
