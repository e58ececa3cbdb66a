//! Book chapters: each fenced `declart` block in a Markdown chapter is replaced by the
//! figure drawn from it, or by an error box when it does not parse or draw.

use vstd::prelude::*;
use crate::error::{error_message, DeclartError, SpecError};
use crate::markup::{escaped, html_escape};
use crate::model::Diagram;
use crate::parse::{parse_auto, parse_auto_value};
use crate::rules::res;
use crate::text::push_char;

verus! {

/// The line that opens a diagram block.
pub open spec fn fence_open() -> Seq<char> {
    "```declart\n"@
}

/// The line break and fence that close a diagram block.
pub open spec fn fence_close() -> Seq<char> {
    "\n```"@
}

/// The first position at or after `from` where `needle` occurs in `hay`.
pub open spec fn find_from(hay: Seq<char>, needle: Seq<char>, from: int) -> Option<int>
    decreases hay.len() + 1 - from,
{
    if from < 0 || from + needle.len() > hay.len() {
        None
    } else if hay.subrange(from, from + needle.len()) == needle {
        Some(from)
    } else {
        find_from(hay, needle, from + 1)
    }
}

/// What follows a closing fence, without the line break that ends the fence's line.
pub open spec fn after_fence(rest: Seq<char>) -> Seq<char> {
    if rest.len() > 0 && rest[0] == '\n' { rest.drop_first() } else { rest }
}

/// The sources of the closed diagram blocks of `text`, in order.
pub open spec fn blocks(text: Seq<char>) -> Seq<Seq<char>>
    decreases text.len(),
{
    match find_from(text, fence_open(), 0) {
        None => Seq::empty(),
        Some(s) => {
            let body = text.skip(s + 11);
            match find_from(body, fence_close(), 0) {
                None => Seq::empty(),
                Some(e) => {
                    if 0 <= s && s + 11 <= text.len() && 0 <= e && e + 4 <= body.len() {
                        seq![body.take(e)] + blocks(after_fence(body.skip(e + 4)))
                    } else {
                        Seq::empty()
                    }
                },
            }
        },
    }
}

/// The HTML that stands for a block: the figure around the drawing, or the error box.
pub open spec fn block_html(outcome: Result<Seq<char>, SpecError>) -> Seq<char> {
    match outcome {
        Ok(svg) => "<figure class=\"declart\">\n"@ + svg + "\n</figure>\n"@,
        Err(e) => "<div class=\"declart-error\"><pre>"@ + escaped(error_message(e), false)
            + "</pre></div>\n"@,
    }
}

/// The chapter text with the `i`-th closed block replaced by the HTML of `outcomes[i]`.
/// An unclosed block, and everything after it, stays as it is.
pub open spec fn rewritten(text: Seq<char>, outcomes: Seq<Result<Seq<char>, SpecError>>) -> Seq<char>
    decreases text.len(),
{
    match find_from(text, fence_open(), 0) {
        None => text,
        Some(s) => {
            let body = text.skip(s + 11);
            match find_from(body, fence_close(), 0) {
                None => text,
                Some(e) => {
                    if 0 <= s && s + 11 <= text.len() && 0 <= e && e + 4 <= body.len() {
                        text.take(s) + block_html(outcomes[0]) + rewritten(
                            after_fence(body.skip(e + 4)),
                            outcomes.drop_first(),
                        )
                    } else {
                        text
                    }
                },
            }
        },
    }
}

/// `outcome` is what a block with source `src` comes to: the parse error, or what `draw`
/// gave for the parsed diagram.
pub open spec fn block_outcome<F: Fn(&Diagram) -> Result<String, DeclartError>>(
    draw: F,
    src: Seq<char>,
    outcome: Result<Seq<char>, SpecError>,
) -> bool {
    match parse_auto_value(src) {
        Err(e) => outcome == Err::<Seq<char>, SpecError>(e),
        Ok(dv) => exists|d: Diagram, r: Result<String, DeclartError>|
            #![trigger call_ensures(draw, (&d,), r)]
            d@ == dv && call_ensures(draw, (&d,), r) && outcome == res(r),
    }
}

pub(crate) proof fn lemma_find_bounds(hay: Seq<char>, needle: Seq<char>, from: int)
    ensures
        match find_from(hay, needle, from) {
            Some(i) => from <= i && i + needle.len() <= hay.len() && 0 <= i
                && hay.subrange(i, i + needle.len()) == needle,
            None => true,
        },
    decreases hay.len() + 1 - from,
{
    if !(from < 0 || from + needle.len() > hay.len()) && hay.subrange(from, from + needle.len())
        != needle {
        lemma_find_bounds(hay, needle, from + 1);
    }
}

/// Whether `needle` occurs in `hay` at position `i`.
fn occurs_at(hay: &Vec<char>, needle: &Vec<char>, i: usize) -> (r: bool)
    requires
        i + needle@.len() <= hay@.len(),
    ensures
        r == (hay@.subrange(i as int, i + needle@.len()) == needle@),
{
    let n = needle.len();
    let mut j: usize = 0;
    while j < n
        invariant
            n == needle@.len(),
            i + n <= hay.len(),
            j <= n,
            forall|k: int| 0 <= k < j ==> hay@[i + k] == needle@[k],
        decreases n - j,
    {
        if hay[i + j] != needle[j] {
            assert(hay@.subrange(i as int, i + n)[j as int] != needle@[j as int]);
            return false;
        }
        j = j + 1;
    }
    assert(hay@.subrange(i as int, i + n) =~= needle@);
    true
}

/// The first position where `needle` occurs in `hay`.
pub(crate) fn find(hay: &Vec<char>, needle: &Vec<char>) -> (r: Option<usize>)
    ensures
        match r {
            Some(i) => find_from(hay@, needle@, 0) == Some(i as int),
            None => find_from(hay@, needle@, 0) is None,
        },
{
    let n = needle.len();
    if n > hay.len() {
        return None;
    }
    if n == 0 {
        assert(hay@.subrange(0, 0) =~= needle@);
        return Some(0);
    }
    let last = hay.len() - n;
    let mut i: usize = 0;
    while i <= last
        invariant
            n == needle@.len(),
            n > 0,
            last + n == hay.len(),
            i <= last + 1,
            find_from(hay@, needle@, 0) == find_from(hay@, needle@, i as int),
        decreases last + 1 - i,
    {
        if occurs_at(hay, needle, i) {
            return Some(i);
        }
        i = i + 1;
    }
    None
}

/// The characters of `c` from `lo` on.
pub(crate) fn tail(c: &Vec<char>, lo: usize) -> (r: Vec<char>)
    requires
        lo <= c@.len(),
    ensures
        r@ == c@.skip(lo as int),
{
    let mut r: Vec<char> = Vec::new();
    let mut i = lo;
    while i < c.len()
        invariant
            lo <= i <= c@.len(),
            r@ == c@.subrange(lo as int, i as int),
        decreases c@.len() - i,
    {
        r.push(c[i]);
        i = i + 1;
    }
    r
}

/// Appends the characters of `c` from `lo` up to `hi` to `out`.
pub(crate) fn push_range(out: &mut String, c: &Vec<char>, lo: usize, hi: usize)
    requires
        lo <= hi <= c@.len(),
    ensures
        final(out)@ == old(out)@ + c@.subrange(lo as int, hi as int),
{
    let mut i = lo;
    while i < hi
        invariant
            lo <= i <= hi <= c@.len(),
            out@ == old(out)@ + c@.subrange(lo as int, i as int),
        decreases hi - i,
    {
        push_char(out, c[i]);
        i = i + 1;
    }
}

fn string_of(c: &Vec<char>, lo: usize, hi: usize) -> (s: String)
    requires
        lo <= hi <= c@.len(),
    ensures
        s@ == c@.subrange(lo as int, hi as int),
{
    let mut s = String::new();
    push_range(&mut s, c, lo, hi);
    s
}

fn chars_of(s: &str) -> (v: Vec<char>)
    ensures
        v@ == s@,
{
    crate::text::char_seq(s)
}

/// Parses a block's source and hands the diagram to `draw`; a parse error is the result
/// without any drawing.
pub fn render_diagram<F: Fn(&Diagram) -> Result<String, DeclartError>>(src: &str, draw: &F) -> (r: Result<String, DeclartError>)
    requires
        forall|d: &Diagram| call_requires(*draw, (d,)),
    ensures
        block_outcome(*draw, src@, res(r)),
{
    match parse_auto(src) {
        Err(e) => Err(e),
        Ok(d) => {
            let r = draw(&d);
            assert(block_outcome(*draw, src@, res(r)));
            r
        },
    }
}

/// The HTML for one block: parses it and hands the diagram to `draw`.
fn render_block<F: Fn(&Diagram) -> Result<String, DeclartError>>(draw: &F, src: &str) -> (h: String)
    requires
        forall|d: &Diagram| call_requires(*draw, (d,)),
    ensures
        exists|o: Result<Seq<char>, SpecError>| block_outcome(*draw, src@, o) && h@ == block_html(o),
{
    let outcome = render_diagram(src, draw);
    let mut h = String::new();
    match &outcome {
        Ok(svg) => {
            h.append("<figure class=\"declart\">\n");
            h.append(svg.as_str());
            h.append("\n</figure>\n");
        },
        Err(e) => {
            h.append("<div class=\"declart-error\"><pre>");
            let m = e.message();
            let esc = html_escape(m.as_str());
            h.append(esc.as_str());
            h.append("</pre></div>\n");
        },
    }
    assert(block_outcome(*draw, src@, res(outcome)));
    assert(h@ == block_html(res(outcome)));
    h
}

/// The next closed block of `rem`: the text before it, its source and what follows it.
fn next_block(rem: &Vec<char>, open: &Vec<char>, close: &Vec<char>) -> (r: Option<(usize, String, Vec<char>)>)
    requires
        open@ == fence_open(),
        close@ == fence_close(),
    ensures
        match r {
            None => blocks(rem@).len() == 0
                && forall|rest: Seq<Result<Seq<char>, SpecError>>| #[trigger] rewritten(rem@, rest) == rem@,
            Some((s, src, after)) => {
                &&& s <= rem@.len()
                &&& after@.len() < rem@.len()
                &&& blocks(rem@) == seq![src@] + blocks(after@)
                &&& forall|o: Result<Seq<char>, SpecError>, rest: Seq<Result<Seq<char>, SpecError>>|
                    #[trigger] rewritten(rem@, seq![o] + rest) == rem@.take(s as int) + block_html(o)
                        + rewritten(after@, rest)
            },
        },
{
    let len = rem.len();
    let s = match find(rem, open) {
        None => return None,
        Some(s) => s,
    };
    proof {
        lemma_find_bounds(rem@, fence_open(), 0);
        reveal_strlit("```declart\n");
        reveal_strlit("\n```");
    }
    let body = tail(rem, s + 11);
    let blen = body.len();
    let e = match find(&body, close) {
        None => return None,
        Some(e) => e,
    };
    proof {
        lemma_find_bounds(body@, fence_close(), 0);
    }
    let src = string_of(&body, 0, e);
    let mut next = e + 4;
    if next < body.len() && body[next] == '\n' {
        next = next + 1;
    }
    let after = tail(&body, next);
    assert(after@ == after_fence(body@.skip(e + 4))) by {
        if e + 4 < body@.len() && body@[e + 4] == '\n' {
            assert(body@.skip(e + 4).drop_first() =~= body@.skip(e + 5));
        }
    }
    assert(src@ =~= body@.take(e as int));
    assert forall|o: Result<Seq<char>, SpecError>, rest: Seq<Result<Seq<char>, SpecError>>|
        #[trigger] rewritten(rem@, seq![o] + rest) == rem@.take(s as int) + block_html(o)
            + rewritten(after@, rest) by {
        assert((seq![o] + rest)[0] == o);
        assert((seq![o] + rest).drop_first() =~= rest);
    }
    Some((s, src, after))
}

/// Replaces each closed ```` ```declart ```` block of a Markdown chapter by the figure that
/// `draw` makes of it, or by an error box with the escaped message when the block does not
/// parse or `draw` fails. A block that is never closed, and all that follows it, is kept as
/// it is.
pub fn process_content<F: Fn(&Diagram) -> Result<String, DeclartError>>(content: &str, draw: F) -> (out: String)
    requires
        forall|d: &Diagram| call_requires(draw, (d,)),
    ensures
        exists|outcomes: Seq<Result<Seq<char>, SpecError>>|
            outcomes.len() == blocks(content@).len()
            && (forall|i: int| 0 <= i < outcomes.len()
                ==> block_outcome(draw, blocks(content@)[i], #[trigger] outcomes[i]))
            && out@ == rewritten(content@, outcomes),
{
    let open = chars_of("```declart\n");
    let close = chars_of("\n```");
    let mut rem = chars_of(content);
    let mut result = String::new();
    let ghost mut done: Seq<Result<Seq<char>, SpecError>> = Seq::empty();
    assert(blocks(content@).take(0) + blocks(rem@) =~= blocks(content@));
    assert forall|rest: Seq<Result<Seq<char>, SpecError>>|
        #[trigger] rewritten(content@, done + rest) == result@ + rewritten(rem@, rest) by {
        assert(done + rest =~= rest);
        assert(result@ + rewritten(rem@, rest) =~= rewritten(rem@, rest));
    }
    loop
        invariant
            open@ == fence_open(),
            close@ == fence_close(),
            forall|d: &Diagram| call_requires(draw, (d,)),
            blocks(content@) == blocks(content@).take(done.len() as int) + blocks(rem@),
            done.len() <= blocks(content@).len(),
            forall|i: int| 0 <= i < done.len()
                ==> block_outcome(draw, blocks(content@)[i], #[trigger] done[i]),
            forall|rest: Seq<Result<Seq<char>, SpecError>>|
                #[trigger] rewritten(content@, done + rest) == result@ + rewritten(rem@, rest),
        ensures
            blocks(rem@).len() == 0,
            forall|rest: Seq<Result<Seq<char>, SpecError>>| #[trigger] rewritten(rem@, rest) == rem@,
        decreases rem@.len(),
    {
        let (s, src, after) = match next_block(&rem, &open, &close) {
            None => break,
            Some(t) => t,
        };
        let h = render_block(&draw, src.as_str());
        let ghost o = choose|o: Result<Seq<char>, SpecError>| block_outcome(draw, src@, o)
            && h@ == block_html(o);
        let ghost old_result = result@;
        let ghost old_done = done;
        push_range(&mut result, &rem, 0, s);
        result.append(h.as_str());
        proof {
            done = done.push(o);
            lemma_advance(content@, rem@, after@, src@, old_done, o, old_result, result@, s as int, h@);
        }
        rem = after;
    }
    push_range(&mut result, &rem, 0, rem.len());
    proof {
        assert(rem@.subrange(0, rem@.len() as int) =~= rem@);
        assert(rewritten(rem@, Seq::<Result<Seq<char>, SpecError>>::empty()) == rem@);
        assert(rewritten(content@, done + Seq::<Result<Seq<char>, SpecError>>::empty())
            == result@);
        assert(blocks(content@).take(done.len() as int) =~= blocks(content@));
        assert(done + Seq::<Result<Seq<char>, SpecError>>::empty() =~= done);
    }
    result
}

proof fn lemma_advance(
    content: Seq<char>,
    rem: Seq<char>,
    after: Seq<char>,
    src: Seq<char>,
    done: Seq<Result<Seq<char>, SpecError>>,
    o: Result<Seq<char>, SpecError>,
    old_result: Seq<char>,
    result: Seq<char>,
    s: int,
    h: Seq<char>,
)
    requires
        0 <= s <= rem.len(),
        done.len() <= blocks(content).len(),
        blocks(rem) == seq![src] + blocks(after),
        forall|o2: Result<Seq<char>, SpecError>, rest: Seq<Result<Seq<char>, SpecError>>|
            #[trigger] rewritten(rem, seq![o2] + rest) == rem.take(s) + block_html(o2)
                + rewritten(after, rest),
        blocks(content) == blocks(content).take(done.len() as int) + blocks(rem),
        forall|rest: Seq<Result<Seq<char>, SpecError>>|
            #[trigger] rewritten(content, done + rest) == old_result + rewritten(rem, rest),
        h == block_html(o),
        result == old_result + rem.subrange(0, s) + h,
    ensures
        blocks(content) == blocks(content).take(done.len() as int + 1) + blocks(after),
        blocks(content)[done.len() as int] == src,
        forall|rest: Seq<Result<Seq<char>, SpecError>>|
            #[trigger] rewritten(content, done.push(o) + rest) == result + rewritten(after, rest),
{
    assert(blocks(content)[done.len() as int] == blocks(rem)[0]);
    assert(blocks(content) =~= blocks(content).take(done.len() as int + 1) + blocks(after));
    assert forall|rest: Seq<Result<Seq<char>, SpecError>>|
        #[trigger] rewritten(content, done.push(o) + rest) == result + rewritten(after, rest) by {
        assert(done.push(o) + rest =~= done + (seq![o] + rest));
        assert(rewritten(content, done + (seq![o] + rest)) == old_result + rewritten(rem, seq![o] + rest));
        assert(rem.take(s) =~= rem.subrange(0, s));
    }
}

} // verus!
