//! Escaping text for SVG and HTML.

use vstd::prelude::*;
use crate::text::{char_seq, decimal, decimal_string};
use crate::book::{find, find_from, push_range, tail};

verus! {

/// What a character becomes in escaped text: the markup characters turn into their
/// entities (the apostrophe only when `apostrophe` is set), any other stays as it is.
pub open spec fn entity(c: char, apostrophe: bool) -> Seq<char> {
    if c == '&' {
        "&amp;"@
    } else if c == '<' {
        "&lt;"@
    } else if c == '>' {
        "&gt;"@
    } else if c == '"' {
        "&quot;"@
    } else if c == '\'' && apostrophe {
        "&#39;"@
    } else {
        seq![c]
    }
}

/// `s` with each character replaced by its [`entity`].
pub open spec fn escaped(s: Seq<char>, apostrophe: bool) -> Seq<char>
    decreases s.len(),
{
    if s.len() == 0 {
        Seq::empty()
    } else {
        escaped(s.drop_last(), apostrophe) + entity(s.last(), apostrophe)
    }
}

/// A character that markup gives a meaning to.
pub open spec fn markup_char(c: char, apostrophe: bool) -> bool {
    c == '<' || c == '>' || c == '"' || (apostrophe && c == '\'')
}

fn push_entity(out: &mut String, c: char, apostrophe: bool)
    ensures
        final(out)@ == old(out)@ + entity(c, apostrophe),
{
    if c == '&' {
        out.append("&amp;");
        proof { reveal_strlit("&amp;"); }
    } else if c == '<' {
        out.append("&lt;");
        proof { reveal_strlit("&lt;"); }
    } else if c == '>' {
        out.append("&gt;");
        proof { reveal_strlit("&gt;"); }
    } else if c == '"' {
        out.append("&quot;");
        proof { reveal_strlit("&quot;"); }
    } else if c == '\'' && apostrophe {
        out.append("&#39;");
        proof { reveal_strlit("&#39;"); }
    } else {
        crate::text::push_char(out, c);
    }
}

fn escape_with(s: &str, apostrophe: bool) -> (r: String)
    ensures
        r@ == escaped(s@, apostrophe),
{
    let c = char_seq(s);
    let mut out = String::new();
    let mut i: usize = 0;
    while i < c.len()
        invariant
            i <= c@.len(),
            out@ == escaped(c@.take(i as int), apostrophe),
        decreases c@.len() - i,
    {
        assert(c@.take(i as int + 1).drop_last() =~= c@.take(i as int));
        push_entity(&mut out, c[i], apostrophe);
        i = i + 1;
    }
    assert(c@.take(c@.len() as int) =~= c@);
    out
}

/// Escapes text for SVG content and attribute values: `&`, `<`, `>`, `"` and `'`.
pub fn escape_xml(s: &str) -> (r: String)
    ensures
        r@ == escaped(s@, true),
{
    escape_with(s, true)
}

/// Escapes text for HTML content: `&`, `<`, `>` and `"`.
pub fn html_escape(s: &str) -> (r: String)
    ensures
        r@ == escaped(s@, false),
{
    escape_with(s, false)
}

/// `svg` with the value of its first `prefix` attribute (the text from after `prefix` up
/// to the next `"`) replaced by `v` in decimal; unchanged when there is no such attribute.
pub open spec fn with_attr(svg: Seq<char>, prefix: Seq<char>, v: nat) -> Seq<char> {
    match find_from(svg, prefix, 0) {
        None => svg,
        Some(s) => {
            let a = s + prefix.len();
            match find_from(svg.skip(a), seq!['"'], 0) {
                None => svg,
                Some(e) => svg.take(a) + decimal(v) + svg.skip(a + e),
            }
        },
    }
}

/// Replaces the value of the first attribute that starts with `prefix` (which includes the
/// opening quote, as in `width="`) by `new_val`.
pub fn replace_first_attr(svg: String, prefix: &str, new_val: u32) -> (r: String)
    ensures
        r@ == with_attr(svg@, prefix@, new_val as nat),
{
    let c = char_seq(svg.as_str());
    let p = char_seq(prefix);
    let n = c.len();
    let start = match find(&c, &p) {
        None => return svg,
        Some(s) => s,
    };
    proof {
        crate::book::lemma_find_bounds(c@, p@, 0);
    }
    let after = start + p.len();
    let rest = tail(&c, after);
    let rn = rest.len();
    let quote = vec!['"'];
    assert(quote@ == seq!['"']);
    let end = match find(&rest, &quote) {
        None => return svg,
        Some(e) => e,
    };
    proof {
        crate::book::lemma_find_bounds(rest@, quote@, 0);
    }
    let mut out = String::new();
    push_range(&mut out, &c, 0, after);
    let digits = decimal_string(new_val as usize);
    out.append(digits.as_str());
    push_range(&mut out, &c, after + end, c.len());
    assert(c@.subrange(0, after as int) =~= c@.take(after as int));
    assert(c@.subrange((after + end) as int, c@.len() as int) =~= c@.skip((after + end) as int));
    out
}

/// Escaped text holds no markup character.
pub proof fn lemma_escaped_is_inert(s: Seq<char>, apostrophe: bool)
    ensures
        forall|i: int| 0 <= i < escaped(s, apostrophe).len()
            ==> !markup_char(#[trigger] escaped(s, apostrophe)[i], apostrophe),
    decreases s.len(),
{
    if s.len() > 0 {
        lemma_escaped_is_inert(s.drop_last(), apostrophe);
        let e = entity(s.last(), apostrophe);
        reveal_strlit("&amp;");
        reveal_strlit("&lt;");
        reveal_strlit("&gt;");
        reveal_strlit("&quot;");
        reveal_strlit("&#39;");
        let p = escaped(s.drop_last(), apostrophe);
        assert forall|i: int| 0 <= i < escaped(s, apostrophe).len()
            implies !markup_char(#[trigger] escaped(s, apostrophe)[i], apostrophe) by {
            if i < p.len() {
                assert(escaped(s, apostrophe)[i] == p[i]);
            } else {
                assert(escaped(s, apostrophe)[i] == e[i - p.len()]);
            }
        }
    }
}

/// Text without any character that escaping changes comes back unchanged.
pub proof fn lemma_plain_text_unchanged(s: Seq<char>, apostrophe: bool)
    requires
        forall|i: int| 0 <= i < s.len() ==> !markup_char(#[trigger] s[i], apostrophe) && s[i] != '&',
    ensures
        escaped(s, apostrophe) == s,
    decreases s.len(),
{
    if s.len() > 0 {
        assert forall|i: int| 0 <= i < s.drop_last().len() implies
            !markup_char(#[trigger] s.drop_last()[i], apostrophe) && s.drop_last()[i] != '&' by {
            assert(s.drop_last()[i] == s[i]);
        }
        lemma_plain_text_unchanged(s.drop_last(), apostrophe);
        assert(!markup_char(s[s.len() - 1], apostrophe) && s[s.len() - 1] != '&');
        assert(s.drop_last() + seq![s.last()] =~= s);
    }
}

} // verus!
