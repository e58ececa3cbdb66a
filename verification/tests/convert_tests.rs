use declart_core::{
    marker_shape, output_extension, output_format, replace_first_attr, theme_source, MarkerShape, OutputFormat,
    ThemeName, ThemeSource,
    child_lists, compute_max_depth, count_leaves, escape_xml, fishbone_of, flow_as_items, init_template, parse,
    resolve_idx, resolve_nodes, subtree_is_finite, tier_as_items, Diagram, Emphasis, FlowDiagram, FlowItem,
    FlowView, HierarchyDiagram, HierarchyNode, HierarchyView, Item, OrgChartDiagram, OrgChartNode, StateDiagram,
    StateNode, Status, TierDiagram, TierView,
};

fn node(label: &str, id: Option<&str>, parent: Option<&str>) -> HierarchyNode {
    HierarchyNode { label: label.to_string(), id: id.map(String::from), parent: parent.map(String::from) }
}

fn chart(nodes: &[(&str, Option<&str>)]) -> OrgChartDiagram {
    OrgChartDiagram {
        title: None,
        nodes: nodes
            .iter()
            .map(|(l, p)| OrgChartNode { label: l.to_string(), parent: p.map(String::from) })
            .collect(),
    }
}

#[test]
fn flow_as_items_drops_actors_and_keeps_order() {
    let d = FlowDiagram {
        title: Some("T".to_string()),
        view: FlowView::Swimlane,
        items: vec![
            FlowItem { label: "A".to_string(), emphasis: Some(Emphasis::Primary), status: None, actor: Some("x".to_string()) },
            FlowItem { label: "B".to_string(), emphasis: None, status: Some(Status::Warning), actor: Some("y".to_string()) },
        ],
    };
    let r = flow_as_items(&d);
    assert_eq!(r.title.as_deref(), Some("T"));
    assert_eq!(r.items.len(), 2);
    assert_eq!(r.items[0].label, "A");
    assert_eq!(r.items[0].emphasis, Some(Emphasis::Primary));
    assert_eq!(r.items[1].status, Some(Status::Warning));
}

#[test]
fn tier_as_items_keeps_layers() {
    let d = TierDiagram {
        title: None,
        view: TierView::Concentric,
        items: vec![Item { label: "Core".to_string(), emphasis: None, status: Some(Status::Success) }],
    };
    let r = tier_as_items(&d);
    assert_eq!(r.title, None);
    assert_eq!(r.items.len(), 1);
    assert_eq!(r.items[0].label, "Core");
    assert_eq!(r.items[0].status, Some(Status::Success));
}

#[test]
fn resolve_nodes_turns_parent_ids_into_labels() {
    let d = HierarchyDiagram {
        title: Some("Org".to_string()),
        effect: None,
        view: HierarchyView::OrgChart,
        nodes: vec![
            node("Chief Executive", Some("ceo"), None),
            node("CTO", None, Some("ceo")),
            node("Dev", None, Some("CTO")),
        ],
    };
    let r = resolve_nodes(&d);
    assert_eq!(r.title.as_deref(), Some("Org"));
    assert_eq!(r.nodes[0].parent, None);
    assert_eq!(r.nodes[1].parent.as_deref(), Some("Chief Executive"));
    assert_eq!(r.nodes[2].parent.as_deref(), Some("CTO"));
}

#[test]
fn fishbone_of_groups_nodes_under_their_roots() {
    let d = HierarchyDiagram {
        title: Some("Title".to_string()),
        effect: Some("Slow API".to_string()),
        view: HierarchyView::Fishbone,
        nodes: vec![
            node("People", Some("p"), None),
            node("Process", None, None),
            node("Training", None, Some("p")),
            node("Reviews", None, Some("Process")),
            node("Hiring", None, Some("People")),
        ],
    };
    let f = fishbone_of(&d);
    assert_eq!(f.title, None);
    assert_eq!(f.effect, "Slow API");
    assert_eq!(f.causes.len(), 2);
    assert_eq!(f.causes[0].label, "People");
    let people: Vec<&str> = f.causes[0].items.iter().map(|i| i.label.as_str()).collect();
    assert_eq!(people, vec!["Training", "Hiring"]);
    let process: Vec<&str> = f.causes[1].items.iter().map(|i| i.label.as_str()).collect();
    assert_eq!(process, vec!["Reviews"]);
}

#[test]
fn fishbone_effect_falls_back_to_title_then_empty() {
    let mut d = HierarchyDiagram {
        title: Some("Title".to_string()),
        effect: None,
        view: HierarchyView::Fishbone,
        nodes: vec![node("A", None, None), node("B", None, None)],
    };
    assert_eq!(fishbone_of(&d).effect, "Title");
    d.title = None;
    assert_eq!(fishbone_of(&d).effect, "");
}

#[test]
fn resolve_idx_prefers_ids_over_labels() {
    let d = StateDiagram {
        title: None,
        states: vec![
            StateNode { label: "b".to_string(), id: None, role: None },
            StateNode { label: "Other".to_string(), id: Some("b".to_string()), role: None },
        ],
        transitions: vec![],
    };
    assert_eq!(resolve_idx(&d, "b"), Some(1));
    assert_eq!(resolve_idx(&d, "Other"), Some(1));
    assert_eq!(resolve_idx(&d, "missing"), None);
}

#[test]
fn transitions_of_a_parsed_state_diagram_resolve() {
    let input = r#"
kind = "state"
[[states]]
label = "Pending"
id = "p"
role = "initial"
[[states]]
label = "Done"
[[transitions]]
from = "p"
to = "Done"
"#;
    let Diagram::State(d) = parse(input).unwrap() else { panic!("expected State") };
    assert_eq!(resolve_idx(&d, &d.transitions[0].from), Some(0));
    assert_eq!(resolve_idx(&d, &d.transitions[0].to), Some(1));
}

#[test]
fn child_lists_follow_parent_labels() {
    let c = chart(&[("Root", None), ("A", Some("Root")), ("B", Some("Root")), ("A1", Some("A"))]);
    let kids = child_lists(&c);
    assert_eq!(kids, vec![vec![1, 2], vec![3], vec![], vec![]]);
}

#[test]
fn count_leaves_and_depth_of_a_tree() {
    let c = chart(&[("Root", None), ("A", Some("Root")), ("B", Some("Root")), ("A1", Some("A")), ("A2", Some("A"))]);
    let kids = child_lists(&c);
    assert!(subtree_is_finite(0, &kids));
    assert_eq!(count_leaves(0, &kids), 3);
    assert_eq!(compute_max_depth(0, &kids), 2);
    assert_eq!(count_leaves(2, &kids), 1);
    assert_eq!(compute_max_depth(2, &kids), 0);
}

#[test]
fn a_cycle_below_a_node_is_detected() {
    let c = chart(&[("Root", None), ("A", Some("B")), ("B", Some("A"))]);
    let kids = child_lists(&c);
    assert!(subtree_is_finite(0, &kids));
    assert!(!subtree_is_finite(1, &kids));
    assert_eq!(count_leaves(0, &kids), 1);
}

#[test]
fn init_template_knows_every_kind() {
    for kind in ["flow", "tier", "hierarchy", "timeline", "matrix", "hub_spoke", "venn", "comparison", "state"] {
        let t = init_template(kind).unwrap();
        assert!(t.starts_with(&format!("kind = \"{kind}\"")));
    }
    assert!(init_template("sequence").is_none());
    assert!(init_template("pyramid").is_none());
    assert!(init_template("").is_none());
}

#[test]
fn every_starter_declaration_parses() {
    for kind in ["flow", "tier", "hierarchy", "timeline", "matrix", "hub_spoke", "venn", "comparison", "state"] {
        let t = init_template(kind).unwrap();
        assert!(parse(t).is_ok(), "starter for {kind} should parse: {:?}", parse(t).err().map(|e| e.message()));
    }
}

#[test]
fn escape_xml_escapes_markup_and_apostrophes() {
    assert_eq!(escape_xml("a<b & 'c' \"d\">"), "a&lt;b &amp; &#39;c&#39; &quot;d&quot;&gt;");
    assert_eq!(escape_xml("plain"), "plain");
}

#[test]
fn replace_first_attr_sets_the_first_value() {
    let svg = "<svg width=\"600\" height=\"400\" viewBox=\"0 0 600 400\"><rect width=\"100%\"/></svg>".to_string();
    let svg = replace_first_attr(svg, "width=\"", 300);
    let svg = replace_first_attr(svg, "height=\"", 200);
    assert_eq!(svg, "<svg width=\"300\" height=\"200\" viewBox=\"0 0 600 400\"><rect width=\"100%\"/></svg>");
}

#[test]
fn replace_first_attr_leaves_text_without_the_attribute() {
    assert_eq!(replace_first_attr("<svg>".to_string(), "width=\"", 10), "<svg>");
    assert_eq!(replace_first_attr("<svg width=\"12".to_string(), "width=\"", 10), "<svg width=\"12");
}

#[test]
fn theme_names_and_lookup() {
    assert_eq!(ThemeName::names(), vec!["default", "monochrome", "accessible", "warm"]);
    assert_eq!(ThemeName::by_name("warm"), ThemeName::Warm);
    assert_eq!(ThemeName::by_name("accessible"), ThemeName::Accessible);
    assert_eq!(ThemeName::by_name("nonexistent"), ThemeName::Default);
    assert_eq!(ThemeName::Monochrome.name(), "monochrome");
}

#[test]
fn theme_source_tells_files_names_and_unknowns_apart() {
    assert_eq!(theme_source("themes/brand.toml"), ThemeSource::File);
    assert_eq!(theme_source("brand.toml"), ThemeSource::File);
    assert_eq!(theme_source("C:\\themes\\x"), ThemeSource::File);
    assert_eq!(theme_source("warm"), ThemeSource::BuiltIn(ThemeName::Warm));
    assert_eq!(theme_source("default"), ThemeSource::BuiltIn(ThemeName::Default));
    assert_eq!(theme_source("neon"), ThemeSource::Unknown);
    assert_eq!(theme_source(".tom"), ThemeSource::Unknown);
}

#[test]
fn status_markers_have_distinct_shapes() {
    assert_eq!(marker_shape(Some(Status::Success)), Some(MarkerShape::Circle));
    assert_eq!(marker_shape(Some(Status::Warning)), Some(MarkerShape::Triangle));
    assert_eq!(marker_shape(Some(Status::Critical)), Some(MarkerShape::Diamond));
    assert_eq!(marker_shape(Some(Status::Normal)), None);
    assert_eq!(marker_shape(None), None);
}

#[test]
fn output_formats_and_extensions() {
    assert_eq!(output_format("svg"), Some(OutputFormat::Svg));
    assert_eq!(output_format("png"), Some(OutputFormat::Png));
    assert_eq!(output_format("pdf"), None);
    assert_eq!(output_extension("png"), "png");
    assert_eq!(output_extension("svg"), "svg");
    assert_eq!(output_extension("pdf"), "svg");
}

#[test]
fn count_leaves_of_the_mind_map_example() {
    let c = chart(&[("Center", None), ("Branch1", Some("Center")), ("Branch2", Some("Center")), ("Leaf", Some("Branch1"))]);
    let kids = child_lists(&c);
    assert_eq!(kids, vec![vec![1, 2], vec![3], vec![], vec![]]);
    assert_eq!(count_leaves(0, &kids), 2);
    assert_eq!(count_leaves(2, &kids), 1);
}
