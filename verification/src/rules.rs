//! Rules shared by the kinds: reading `emphasis` and `status`, and turning a
//! sequence of raw entries into model entries, stopping at the first refusal.

use vstd::prelude::*;
use crate::error::{DeclartError, SpecError};
use crate::model::{Emphasis, FlowItem, Item, SpecFlowItem, SpecItem, Status};
use crate::raw::{RawFlowItem, RawItem, SpecRawFlowItem, SpecRawItem};
use crate::text::{owned, str_eq};

verus! {

/// An `InvalidValue` error.
pub open spec fn invalid(field: Seq<char>, value: Seq<char>, hint: Seq<char>) -> SpecError {
    SpecError::InvalidValue { field, value, hint }
}

/// Builds an `InvalidValue` error from its three texts.
pub fn invalid_value(field: &str, value: String, hint: &str) -> (e: DeclartError)
    ensures
        e@ == invalid(field@, value@, hint@),
{
    DeclartError::InvalidValue { field: owned(field), value, hint: owned(hint) }
}

/// The view of a result that carries a vector.
pub open spec fn vec_res<T: View>(r: Result<Vec<T>, DeclartError>) -> Result<Seq<T::V>, SpecError> {
    match r {
        Ok(v) => Ok(v@.map_values(|x: T| x@)),
        Err(e) => Err(e@),
    }
}

/// The view of a result.
pub open spec fn res<T: View>(r: Result<T, DeclartError>) -> Result<T::V, SpecError> {
    match r {
        Ok(v) => Ok(v@),
        Err(e) => Err(e@),
    }
}

/// Applies `f` to each element in order; the first refusal is the result.
pub open spec fn all_ok<A, B>(s: Seq<A>, f: spec_fn(A) -> Result<B, SpecError>) -> Result<Seq<B>, SpecError>
    decreases s.len(),
{
    if s.len() == 0 {
        Ok(Seq::empty())
    } else {
        match f(s[0]) {
            Err(e) => Err(e),
            Ok(b) => match all_ok(s.drop_first(), f) {
                Err(e) => Err(e),
                Ok(bs) => Ok(seq![b] + bs),
            },
        }
    }
}

/// Splitting off a processed prefix: what `all_ok` gives on `s` from what it gives
/// on the part from `i` on, when every element before `i` was accepted as `done`.
pub open spec fn all_ok_resume<A, B>(
    s: Seq<A>,
    f: spec_fn(A) -> Result<B, SpecError>,
    i: int,
    done: Seq<B>,
) -> bool {
    all_ok(s, f) == match all_ok(s.skip(i), f) {
        Ok(bs) => Ok(done + bs),
        Err(e) => Err::<Seq<B>, SpecError>(e),
    }
}

/// One step of a front-to-back scan that `all_ok` describes.
pub proof fn lemma_all_ok_step<A, B>(
    s: Seq<A>,
    f: spec_fn(A) -> Result<B, SpecError>,
    i: int,
    done: Seq<B>,
)
    requires
        0 <= i < s.len(),
        all_ok_resume(s, f, i, done),
    ensures
        f(s[i]) is Err ==> all_ok(s, f) == Err::<Seq<B>, SpecError>(f(s[i])->Err_0),
        f(s[i]) is Ok ==> all_ok_resume(s, f, i + 1, done.push(f(s[i])->Ok_0)),
{
    assert(s.skip(i).drop_first() =~= s.skip(i + 1));
    assert(s.skip(i)[0] == s[i]);
    if f(s[i]) is Ok {
        let b = f(s[i])->Ok_0;
        match all_ok(s.skip(i + 1), f) {
            Ok(bs) => {
                assert(done + (seq![b] + bs) =~= done.push(b) + bs);
            },
            Err(e) => {},
        }
    }
}

/// The start and the end of a front-to-back scan.
pub proof fn lemma_all_ok_ends<A, B>(s: Seq<A>, f: spec_fn(A) -> Result<B, SpecError>, done: Seq<B>)
    ensures
        all_ok_resume(s, f, 0, Seq::empty()),
        all_ok_resume(s, f, s.len() as int, done) ==> all_ok(s, f) == Ok::<Seq<B>, SpecError>(done),
{
    assert(s.skip(0) =~= s);
    assert(Seq::<B>::empty() + Seq::<B>::empty() =~= Seq::<B>::empty());
    match all_ok(s, f) {
        Ok(bs) => {
            assert(Seq::<B>::empty() + bs =~= bs);
        },
        Err(_) => {},
    }
    assert(s.skip(s.len() as int) =~= Seq::<A>::empty());
    assert(done + Seq::<B>::empty() =~= done);
}

/// The emphasis a value names; `None` when absent.
pub open spec fn emphasis_value(s: Option<Seq<char>>) -> Result<Option<Emphasis>, SpecError> {
    match s {
        None => Ok(None),
        Some(x) => if x == "primary"@ {
            Ok(Some(Emphasis::Primary))
        } else if x == "secondary"@ {
            Ok(Some(Emphasis::Secondary))
        } else {
            Err(invalid("emphasis"@, x, "Valid values are: primary, secondary"@))
        },
    }
}

/// The status a value names; `None` when absent.
pub open spec fn status_value(s: Option<Seq<char>>) -> Result<Option<Status>, SpecError> {
    match s {
        None => Ok(None),
        Some(x) => if x == "success"@ {
            Ok(Some(Status::Success))
        } else if x == "normal"@ {
            Ok(Some(Status::Normal))
        } else if x == "warning"@ {
            Ok(Some(Status::Warning))
        } else if x == "critical"@ {
            Ok(Some(Status::Critical))
        } else {
            Err(invalid("status"@, x, "Valid values are: success, normal, warning, critical"@))
        },
    }
}

pub fn parse_emphasis(s: &Option<String>) -> (r: Result<Option<Emphasis>, DeclartError>)
    ensures
        match r {
            Ok(v) => emphasis_value(crate::model::opt_str(*s)) == Ok::<Option<Emphasis>, SpecError>(v),
            Err(e) => emphasis_value(crate::model::opt_str(*s)) == Err::<Option<Emphasis>, SpecError>(e@),
        },
{
    match s {
        None => Ok(None),
        Some(x) => if str_eq(x.as_str(), "primary") {
            Ok(Some(Emphasis::Primary))
        } else if str_eq(x.as_str(), "secondary") {
            Ok(Some(Emphasis::Secondary))
        } else {
            Err(invalid_value("emphasis", x.clone(), "Valid values are: primary, secondary"))
        },
    }
}

pub fn parse_status(s: &Option<String>) -> (r: Result<Option<Status>, DeclartError>)
    ensures
        match r {
            Ok(v) => status_value(crate::model::opt_str(*s)) == Ok::<Option<Status>, SpecError>(v),
            Err(e) => status_value(crate::model::opt_str(*s)) == Err::<Option<Status>, SpecError>(e@),
        },
{
    match s {
        None => Ok(None),
        Some(x) => if str_eq(x.as_str(), "success") {
            Ok(Some(Status::Success))
        } else if str_eq(x.as_str(), "normal") {
            Ok(Some(Status::Normal))
        } else if str_eq(x.as_str(), "warning") {
            Ok(Some(Status::Warning))
        } else if str_eq(x.as_str(), "critical") {
            Ok(Some(Status::Critical))
        } else {
            Err(invalid_value("status", x.clone(), "Valid values are: success, normal, warning, critical"))
        },
    }
}

/// An item from its raw form: emphasis is checked before status.
pub open spec fn item_value(r: SpecRawItem) -> Result<SpecItem, SpecError> {
    match emphasis_value(r.emphasis) {
        Err(e) => Err(e),
        Ok(em) => match status_value(r.status) {
            Err(e) => Err(e),
            Ok(st) => Ok(SpecItem { label: r.label, emphasis: em, status: st }),
        },
    }
}

/// A flow item from its raw form.
pub open spec fn flow_item_value(r: SpecRawFlowItem) -> Result<SpecFlowItem, SpecError> {
    match emphasis_value(r.emphasis) {
        Err(e) => Err(e),
        Ok(em) => match status_value(r.status) {
            Err(e) => Err(e),
            Ok(st) => Ok(SpecFlowItem { label: r.label, emphasis: em, status: st, actor: r.actor }),
        },
    }
}

/// Reads the emphasis and status of each item, in order.
pub fn parse_items(raw: &Vec<RawItem>) -> (r: Result<Vec<Item>, DeclartError>)
    ensures
        vec_res(r) == all_ok(raw@.map_values(|x: RawItem| x@), |x: SpecRawItem| item_value(x)),
{
    let ghost s = raw@.map_values(|x: RawItem| x@);
    let ghost f = |x: SpecRawItem| item_value(x);
    let mut out: Vec<Item> = Vec::new();
    proof { lemma_all_ok_ends(s, f, Seq::empty()); }
    assert(out@.map_values(|x: Item| x@) =~= Seq::<SpecItem>::empty());
    let mut i: usize = 0;
    while i < raw.len()
        invariant
            i <= raw@.len(),
            s == raw@.map_values(|x: RawItem| x@),
            f == (|x: SpecRawItem| item_value(x)),
            all_ok_resume(s, f, i as int, out@.map_values(|x: Item| x@)),
        decreases raw@.len() - i,
    {
        let ghost done = out@.map_values(|x: Item| x@);
        proof { lemma_all_ok_step(s, f, i as int, done); }
        let it = &raw[i];
        let emphasis = match parse_emphasis(&it.emphasis) {
            Ok(v) => v,
            Err(e) => return Err(e),
        };
        let status = match parse_status(&it.status) {
            Ok(v) => v,
            Err(e) => return Err(e),
        };
        out.push(Item { label: it.label.clone(), emphasis, status });
        assert(out@.map_values(|x: Item| x@) =~= done.push(f(s[i as int])->Ok_0));
        i = i + 1;
    }
    proof { lemma_all_ok_ends(s, f, out@.map_values(|x: Item| x@)); }
    Ok(out)
}

/// Reads the emphasis and status of each flow item, in order.
pub fn parse_flow_items(raw: &Vec<RawFlowItem>) -> (r: Result<Vec<FlowItem>, DeclartError>)
    ensures
        vec_res(r) == all_ok(raw@.map_values(|x: RawFlowItem| x@), |x: SpecRawFlowItem| flow_item_value(x)),
{
    let ghost s = raw@.map_values(|x: RawFlowItem| x@);
    let ghost f = |x: SpecRawFlowItem| flow_item_value(x);
    let mut out: Vec<FlowItem> = Vec::new();
    proof { lemma_all_ok_ends(s, f, Seq::empty()); }
    assert(out@.map_values(|x: FlowItem| x@) =~= Seq::<SpecFlowItem>::empty());
    let mut i: usize = 0;
    while i < raw.len()
        invariant
            i <= raw@.len(),
            s == raw@.map_values(|x: RawFlowItem| x@),
            f == (|x: SpecRawFlowItem| flow_item_value(x)),
            all_ok_resume(s, f, i as int, out@.map_values(|x: FlowItem| x@)),
        decreases raw@.len() - i,
    {
        let ghost done = out@.map_values(|x: FlowItem| x@);
        proof { lemma_all_ok_step(s, f, i as int, done); }
        let it = &raw[i];
        let emphasis = match parse_emphasis(&it.emphasis) {
            Ok(v) => v,
            Err(e) => return Err(e),
        };
        let status = match parse_status(&it.status) {
            Ok(v) => v,
            Err(e) => return Err(e),
        };
        out.push(FlowItem { label: it.label.clone(), emphasis, status, actor: it.actor.clone() });
        assert(out@.map_values(|x: FlowItem| x@) =~= done.push(f(s[i as int])->Ok_0));
        i = i + 1;
    }
    proof { lemma_all_ok_ends(s, f, out@.map_values(|x: FlowItem| x@)); }
    Ok(out)
}

} // verus!

verus! {

/// Whether two optional strings are equal.
pub fn opt_str_eq(a: &Option<String>, b: &Option<String>) -> (r: bool)
    ensures
        r == (crate::model::opt_str(*a) == crate::model::opt_str(*b)),
{
    match (a, b) {
        (Some(x), Some(y)) => str_eq(x.as_str(), y.as_str()),
        (None, None) => true,
        _ => false,
    }
}

/// Whether an optional string is present and equal to `b`.
pub fn opt_is(a: &Option<String>, b: &str) -> (r: bool)
    ensures
        r == (crate::model::opt_str(*a) == Some(b@)),
{
    match a {
        Some(x) => str_eq(x.as_str(), b),
        None => false,
    }
}

} // verus!
