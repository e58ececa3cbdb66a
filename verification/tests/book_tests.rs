use declart_core::{html_escape, process_content, render_diagram, DeclartError, Diagram};

fn stub_draw(d: &Diagram) -> Result<String, DeclartError> {
    let name = match d {
        Diagram::Flow(_) => "flow",
        Diagram::Tier(_) => "tier",
        Diagram::Hierarchy(_) => "hierarchy",
        Diagram::Matrix(_) => "matrix",
        Diagram::HubSpoke(_) => "hub_spoke",
        Diagram::Venn(_) => "venn",
        Diagram::Timeline(_) => "timeline",
        Diagram::Comparison(_) => "comparison",
        Diagram::State(_) => "state",
    };
    Ok(format!("<svg data-kind=\"{name}\"></svg>"))
}

#[test]
fn passthrough_no_declart_block() {
    let input = "# Hello\n\n```rust\nfn main() {}\n```\n";
    assert_eq!(process_content(input, stub_draw), input);
}

#[test]
fn renders_error_block_for_invalid_kind() {
    let input = "```declart\nkind = \"nonexistent\"\n```\n";
    let out = process_content(input, stub_draw);
    assert!(out.contains("declart-error"), "should render error div");
}

#[test]
fn handles_unclosed_fence_gracefully() {
    let input = "```declart\nkind = \"pyramid\"\n";
    let out = process_content(input, stub_draw);
    // Unclosed block → kept as written
    assert!(out.contains("```declart\n"));
}

#[test]
fn html_escape_special_chars() {
    assert_eq!(html_escape("<div>&\"</div>"), "&lt;div&gt;&amp;&quot;&lt;/div&gt;");
}

#[test]
fn html_escape_keeps_apostrophes() {
    assert_eq!(html_escape("it's"), "it's");
}

#[test]
fn valid_block_becomes_a_figure() {
    let input = "Before\n\n```declart\nkind = \"tier\"\n[[items]]\nlabel = \"Top\"\n[[items]]\nlabel = \"Base\"\n```\n\nAfter\n";
    let out = process_content(input, stub_draw);
    assert_eq!(
        out,
        "Before\n\n<figure class=\"declart\">\n<svg data-kind=\"tier\"></svg>\n</figure>\n\nAfter\n"
    );
}

#[test]
fn error_block_shows_escaped_message() {
    let input = "```declart\nkind = \"<b>\"\n```";
    let out = process_content(input, stub_draw);
    assert_eq!(
        out,
        "<div class=\"declart-error\"><pre>unknown diagram kind: `&lt;b&gt;`\n  = hint: Valid kinds are: flow, tier, hierarchy, timeline, matrix, hub_spoke, venn, comparison, state</pre></div>\n"
    );
}

#[test]
fn drawing_failure_becomes_an_error_box() {
    let input = "x\n```declart\nkind = \"tier\"\n[[items]]\nlabel = \"A\"\n```\ny";
    let out = process_content(input, |_d: &Diagram| Err(DeclartError::EmptyItems));
    assert_eq!(
        out,
        "x\n<div class=\"declart-error\"><pre>empty items: at least one [[items]] entry is required</pre></div>\ny"
    );
}

#[test]
fn several_blocks_each_replaced_in_order() {
    let block = "```declart\n{\"kind\":\"flow\",\"items\":[{\"label\":\"A\"}]}\n```\n";
    let input = format!("one\n{block}two\n{block}three");
    let out = process_content(&input, stub_draw);
    let fig = "<figure class=\"declart\">\n<svg data-kind=\"flow\"></svg>\n</figure>\n";
    assert_eq!(out, format!("one\n{fig}two\n{fig}three"));
}

#[test]
fn unclosed_block_after_closed_one_is_kept() {
    let input = "```declart\nkind = \"tier\"\n[[items]]\nlabel = \"A\"\n```\nrest\n```declart\nkind = \"x\"\n";
    let out = process_content(input, stub_draw);
    assert_eq!(
        out,
        "<figure class=\"declart\">\n<svg data-kind=\"tier\"></svg>\n</figure>\nrest\n```declart\nkind = \"x\"\n"
    );
}

#[test]
fn render_diagram_reports_parse_errors_without_drawing() {
    let r = render_diagram("kind = \"nope\"", &|_d: &Diagram| -> Result<String, DeclartError> {
        panic!("must not draw")
    });
    assert!(matches!(r, Err(DeclartError::UnknownKind(k)) if k == "nope"));
}

#[test]
fn render_diagram_hands_the_diagram_to_the_drawing() {
    let r = render_diagram("kind = \"tier\"\n[[items]]\nlabel = \"A\"\n", &stub_draw).unwrap();
    assert_eq!(r, "<svg data-kind=\"tier\"></svg>");
}
