use declart_core::{parse, parse_auto, parse_json, Diagram, Emphasis, FlowView, HierarchyView, StateRole, Status, TierView};

// --- flow tests ---

#[test]
fn parse_flow_defaults_to_process_view() {
    let input = "kind = \"flow\"\n\n[[items]]\nlabel = \"Plan\"\n\n[[items]]\nlabel = \"Do\"\n";
    let diagram = parse(input).unwrap();
    let Diagram::Flow(d) = diagram else { panic!("expected Flow") };
    assert_eq!(d.view, FlowView::Process);
    assert_eq!(d.items.len(), 2);
}

#[test]
fn parse_flow_explicit_view_cycle() {
    let input = "kind = \"flow\"\nview = \"cycle\"\n\n[[items]]\nlabel = \"A\"\n\n[[items]]\nlabel = \"B\"\n";
    let diagram = parse(input).unwrap();
    let Diagram::Flow(d) = diagram else { panic!() };
    assert_eq!(d.view, FlowView::Cycle);
}

#[test]
fn parse_flow_explicit_view_funnel() {
    let input = "kind = \"flow\"\nview = \"funnel\"\n\n[[items]]\nlabel = \"A\"\n\n[[items]]\nlabel = \"B\"\n";
    let diagram = parse(input).unwrap();
    let Diagram::Flow(d) = diagram else { panic!() };
    assert_eq!(d.view, FlowView::Funnel);
}

#[test]
fn parse_flow_pyramid_view_gives_migration_hint() {
    let input = "kind = \"flow\"\nview = \"pyramid\"\n\n[[items]]\nlabel = \"Top\"\n";
    let err = parse(input).unwrap_err();
    assert!(err.message().contains("tier"), "error should mention tier kind");
}

#[test]
fn parse_tier_defaults_to_pyramid_view() {
    let input = "kind = \"tier\"\n\n[[items]]\nlabel = \"Top\"\n\n[[items]]\nlabel = \"Bottom\"\n";
    let diagram = parse(input).unwrap();
    let Diagram::Tier(d) = diagram else { panic!("expected Tier") };
    assert_eq!(d.view, TierView::Pyramid);
    assert_eq!(d.items.len(), 2);
}

#[test]
fn parse_tier_explicit_view_pyramid() {
    let input = "kind = \"tier\"\nview = \"pyramid\"\n\n[[items]]\nlabel = \"A\"\n";
    let diagram = parse(input).unwrap();
    let Diagram::Tier(d) = diagram else { panic!() };
    assert_eq!(d.view, TierView::Pyramid);
}

#[test]
fn parse_tier_explicit_view_concentric() {
    let input = "kind = \"tier\"\nview = \"concentric\"\n\n[[items]]\nlabel = \"Core\"\n\n[[items]]\nlabel = \"Outer\"\n";
    let diagram = parse(input).unwrap();
    let Diagram::Tier(d) = diagram else { panic!("expected Tier") };
    assert_eq!(d.view, TierView::Concentric);
    assert_eq!(d.items.len(), 2);
}

#[test]
fn parse_tier_rejects_invalid_view() {
    let input = "kind = \"tier\"\nview = \"cycle\"\n\n[[items]]\nlabel = \"A\"\n";
    let err = parse(input).unwrap_err();
    // Hint should mention both supported views so the migration path is clear.
    assert!(err.message().contains("concentric"), "invalid-view hint should list concentric");
}

#[test]
fn parse_flow_rejects_invalid_view() {
    let input = "kind = \"flow\"\nview = \"unknown\"\n\n[[items]]\nlabel = \"A\"\n";
    assert!(parse(input).is_err());
}

#[test]
fn parse_flow_cycle_requires_two_items() {
    let input = "kind = \"flow\"\nview = \"cycle\"\n\n[[items]]\nlabel = \"Only\"\n";
    assert!(parse(input).is_err());
}

#[test]
fn parse_flow_funnel_requires_two_items() {
    let input = "kind = \"flow\"\nview = \"funnel\"\n\n[[items]]\nlabel = \"Only\"\n";
    assert!(parse(input).is_err());
}

#[test]
fn parse_sequence_gives_deprecation_hint() {
    let input = "kind = \"sequence\"\n\n[[items]]\nlabel = \"A\"\n";
    let err = parse(input).unwrap_err();
    assert!(err.message().contains("renamed to `flow`"), "error should mention renamed to flow");
}

#[test]
fn parse_rejects_old_flow_kind_names() {
    for kind in &["process", "cycle", "funnel", "pyramid"] {
        let input = format!("kind = \"{kind}\"\n\n[[items]]\nlabel = \"A\"\n");
        assert!(parse(&input).is_err(), "kind '{kind}' should be rejected");
    }
}

#[test]
fn parse_flow_item_status_values() {
    let input = r#"
kind = "flow"

[[items]]
label = "Build"
status = "success"

[[items]]
label = "Deploy"
status = "critical"

[[items]]
label = "Review"
status = "warning"

[[items]]
label = "Idle"
status = "normal"

[[items]]
label = "Untracked"
"#;
    let diagram = parse(input).unwrap();
    let Diagram::Flow(d) = diagram else { panic!("expected Flow") };
    assert_eq!(d.items[0].status, Some(Status::Success));
    assert_eq!(d.items[1].status, Some(Status::Critical));
    assert_eq!(d.items[2].status, Some(Status::Warning));
    assert_eq!(d.items[3].status, Some(Status::Normal));
    assert_eq!(d.items[4].status, None);
}

#[test]
fn parse_flow_status_orthogonal_to_emphasis() {
    let input = r#"
kind = "flow"

[[items]]
label = "Critical Path"
emphasis = "primary"
status = "critical"

[[items]]
label = "Other"
"#;
    let diagram = parse(input).unwrap();
    let Diagram::Flow(d) = diagram else { panic!() };
    assert_eq!(d.items[0].emphasis, Some(Emphasis::Primary));
    assert_eq!(d.items[0].status, Some(Status::Critical));
}

#[test]
fn parse_flow_rejects_invalid_status() {
    let input = "kind = \"flow\"\n\n[[items]]\nlabel = \"A\"\nstatus = \"green\"\n\n[[items]]\nlabel = \"B\"\n";
    let err = parse(input).unwrap_err();
    assert!(err.message().contains("status"), "error should mention status");
}

#[test]
fn parse_tier_item_status() {
    let input = "kind = \"tier\"\n\n[[items]]\nlabel = \"Top\"\nstatus = \"critical\"\n\n[[items]]\nlabel = \"Base\"\n";
    let diagram = parse(input).unwrap();
    let Diagram::Tier(d) = diagram else { panic!("expected Tier") };
    assert_eq!(d.items[0].status, Some(Status::Critical));
    assert_eq!(d.items[1].status, None);
}

#[test]
fn parse_hub_spoke_spoke_status() {
    let input = "kind = \"hub_spoke\"\ncenter = \"Core\"\n\n[[spokes]]\nlabel = \"Auth\"\nstatus = \"warning\"\n\n[[spokes]]\nlabel = \"DB\"\nstatus = \"success\"\n";
    let diagram = parse(input).unwrap();
    let Diagram::HubSpoke(d) = diagram else { panic!("expected HubSpoke") };
    assert_eq!(d.spokes[0].status, Some(Status::Warning));
    assert_eq!(d.spokes[1].status, Some(Status::Success));
}

#[test]
fn parse_matrix_quadrant_status() {
    let input = r#"
kind = "matrix"
x_axis = "Likelihood"
y_axis = "Impact"

[[quadrants]]
label = "Critical Risk"
position = "top-right"
status = "critical"

[[quadrants]]
label = "Monitor"
position = "top-left"

[[quadrants]]
label = "Low"
position = "bottom-left"
status = "success"

[[quadrants]]
label = "Watch"
position = "bottom-right"
status = "warning"
"#;
    let diagram = parse(input).unwrap();
    let Diagram::Matrix(d) = diagram else { panic!("expected Matrix") };
    // position reorders to [top-left, top-right, bottom-left, bottom-right]
    assert_eq!(d.quadrants[0].status, None);                    // Monitor (top-left)
    assert_eq!(d.quadrants[1].status, Some(Status::Critical));  // Critical Risk (top-right)
    assert_eq!(d.quadrants[2].status, Some(Status::Success));   // Low (bottom-left)
    assert_eq!(d.quadrants[3].status, Some(Status::Warning));   // Watch (bottom-right)
}

#[test]
fn parse_tier_rejects_invalid_status() {
    let input = "kind = \"tier\"\n\n[[items]]\nlabel = \"Top\"\nstatus = \"bogus\"\n";
    assert!(parse(input).is_err(), "invalid status value should be rejected");
}

#[test]
fn parse_flow_swimlane_basic() {
    let input = r#"
kind = "flow"
view = "swimlane"

[[items]]
actor = "A"
label = "Step 1"

[[items]]
actor = "B"
label = "Step 2"
"#;
    let diagram = parse(input).unwrap();
    let Diagram::Flow(d) = diagram else { panic!("expected Flow") };
    assert_eq!(d.view, FlowView::Swimlane);
    assert_eq!(d.items[0].actor.as_deref(), Some("A"));
    assert_eq!(d.items[1].actor.as_deref(), Some("B"));
}

#[test]
fn parse_flow_swimlane_rejects_missing_actor() {
    let input = r#"
kind = "flow"
view = "swimlane"
[[items]]
actor = "A"
label = "First"
[[items]]
label = "No actor"
"#;
    assert!(parse(input).is_err());
}

#[test]
fn parse_flow_swimlane_rejects_single_actor() {
    let input = r#"
kind = "flow"
view = "swimlane"
[[items]]
actor = "A"
label = "Step 1"
[[items]]
actor = "A"
label = "Step 2"
"#;
    assert!(parse(input).is_err());
}

#[test]
fn parse_flow_swimlane_hint_in_valid_view_error() {
    let input = "kind = \"flow\"\nview = \"unknown\"\n\n[[items]]\nlabel = \"A\"\n";
    let err = parse(input).unwrap_err();
    assert!(err.message().contains("swimlane"), "error hint should list swimlane");
}

// --- hierarchy tests ---

#[test]
fn parse_hierarchy_auto_selects_org_chart_for_single_root() {
    let input = "kind = \"hierarchy\"\n\n[[nodes]]\nlabel = \"CEO\"\n\n[[nodes]]\nlabel = \"CTO\"\nparent = \"CEO\"\n";
    let diagram = parse(input).unwrap();
    let Diagram::Hierarchy(d) = diagram else { panic!() };
    assert_eq!(d.view, HierarchyView::OrgChart);
    assert_eq!(d.nodes.len(), 2);
}

#[test]
fn parse_hierarchy_auto_selects_fishbone_for_multiple_roots() {
    let input = "kind = \"hierarchy\"\ntitle = \"Issues\"\n\n[[nodes]]\nlabel = \"Materials\"\n\n[[nodes]]\nlabel = \"Methods\"\n\n[[nodes]]\nlabel = \"Bad input\"\nparent = \"Materials\"\n";
    let diagram = parse(input).unwrap();
    let Diagram::Hierarchy(d) = diagram else { panic!() };
    assert_eq!(d.view, HierarchyView::Fishbone);
}

#[test]
fn parse_hierarchy_explicit_view_org_chart() {
    let input = "kind = \"hierarchy\"\nview = \"org_chart\"\n\n[[nodes]]\nlabel = \"Root\"\n\n[[nodes]]\nlabel = \"Child\"\nparent = \"Root\"\n";
    let diagram = parse(input).unwrap();
    let Diagram::Hierarchy(d) = diagram else { panic!() };
    assert_eq!(d.view, HierarchyView::OrgChart);
}

#[test]
fn parse_hierarchy_explicit_view_fishbone() {
    let input = "kind = \"hierarchy\"\nview = \"fishbone\"\ntitle = \"Effect\"\n\n[[nodes]]\nlabel = \"Cause A\"\n\n[[nodes]]\nlabel = \"Cause B\"\n";
    let diagram = parse(input).unwrap();
    let Diagram::Hierarchy(d) = diagram else { panic!() };
    assert_eq!(d.view, HierarchyView::Fishbone);
}

#[test]
fn parse_hierarchy_org_chart_rejects_multiple_roots() {
    let input = "kind = \"hierarchy\"\nview = \"org_chart\"\n\n[[nodes]]\nlabel = \"Root A\"\n\n[[nodes]]\nlabel = \"Root B\"\n";
    assert!(parse(input).is_err());
}

#[test]
fn parse_hierarchy_fishbone_requires_two_root_nodes() {
    let input = "kind = \"hierarchy\"\nview = \"fishbone\"\ntitle = \"Effect\"\n\n[[nodes]]\nlabel = \"Only Cause\"\n";
    assert!(parse(input).is_err());
}

#[test]
fn parse_rejects_old_hierarchy_kind_names() {
    let org = "kind = \"org_chart\"\n\n[[nodes]]\nlabel = \"Root\"\n";
    assert!(parse(org).is_err());
    let fish = "kind = \"fishbone\"\neffect = \"E\"\n\n[[causes]]\nlabel = \"C1\"\n\n[[causes]]\nlabel = \"C2\"\n";
    assert!(parse(fish).is_err());
}

#[test]
fn parse_hierarchy_node_id_allows_parent_by_id() {
    let input = r#"
kind = "hierarchy"

[[nodes]]
id = "ceo"
label = "Chief Executive Officer"

[[nodes]]
label = "CTO"
parent = "ceo"
"#;
    let diagram = parse(input).unwrap();
    let Diagram::Hierarchy(d) = diagram else { panic!() };
    assert_eq!(d.nodes.len(), 2);
    assert_eq!(d.nodes[0].id.as_deref(), Some("ceo"));
    assert_eq!(d.nodes[1].parent.as_deref(), Some("ceo"));
}

#[test]
fn parse_hierarchy_rejects_duplicate_id() {
    let input = r#"
kind = "hierarchy"

[[nodes]]
id = "dup"
label = "Node A"

[[nodes]]
id = "dup"
label = "Node B"
"#;
    assert!(parse(input).is_err(), "duplicate id should be rejected");
}

#[test]
fn parse_hierarchy_label_parent_still_works_without_id() {
    let input = "kind = \"hierarchy\"\n\n[[nodes]]\nlabel = \"CEO\"\n\n[[nodes]]\nlabel = \"CTO\"\nparent = \"CEO\"\n";
    assert!(parse(input).is_ok(), "existing label-based parent reference must still work");
}

#[test]
fn parse_hierarchy_effect_field_separate_from_title() {
    let input = r#"
kind = "hierarchy"
view = "fishbone"
title = "API Performance"
effect = "Slow API Response"

[[nodes]]
label = "Materials"

[[nodes]]
label = "Methods"
"#;
    let diagram = parse(input).unwrap();
    let Diagram::Hierarchy(d) = diagram else { panic!() };
    assert_eq!(d.title.as_deref(), Some("API Performance"));
    assert_eq!(d.effect.as_deref(), Some("Slow API Response"));
}

#[test]
fn parse_hierarchy_effect_defaults_to_none() {
    let input = "kind = \"hierarchy\"\nview = \"fishbone\"\ntitle = \"Issues\"\n\n[[nodes]]\nlabel = \"Materials\"\n\n[[nodes]]\nlabel = \"Methods\"\n";
    let diagram = parse(input).unwrap();
    let Diagram::Hierarchy(d) = diagram else { panic!() };
    assert!(d.effect.is_none());
}

// --- smoke tests for unchanged kinds ---

#[test]
fn parse_matrix_smoke() {
    let input = "kind = \"matrix\"\nx_axis = \"X\"\ny_axis = \"Y\"\n\n[[quadrants]]\nlabel = \"Q1\"\n\n[[quadrants]]\nlabel = \"Q2\"\n\n[[quadrants]]\nlabel = \"Q3\"\n\n[[quadrants]]\nlabel = \"Q4\"\n";
    assert!(parse(input).is_ok());
}

#[test]
fn parse_timeline_smoke() {
    let input = "kind = \"timeline\"\n\n[[events]]\ndate = \"2024\"\nlabel = \"A\"\n\n[[events]]\ndate = \"2025\"\nlabel = \"B\"\n";
    assert!(parse(input).is_ok());
}

#[test]
fn parse_auto_dispatches_json_flow() {
    let input = r#"{"kind":"flow","view":"cycle","items":[{"label":"A"},{"label":"B"}]}"#;
    let diagram = parse_auto(input).unwrap();
    let Diagram::Flow(d) = diagram else { panic!() };
    assert_eq!(d.view, FlowView::Cycle);
}

#[test]
fn parse_json_hierarchy() {
    let input = r#"{"kind":"hierarchy","nodes":[{"label":"CEO"},{"label":"CTO","parent":"CEO"}]}"#;
    let diagram = parse_json(input).unwrap();
    assert!(matches!(diagram, Diagram::Hierarchy(_)));
}

// --- existing tests preserved (matrix) ---

#[test]
fn parse_matrix_requires_four_quadrants() {
    let input = r#"
kind = "matrix"
x_axis = "Effort"
y_axis = "Impact"

[[quadrants]]
label = "Q1"

[[quadrants]]
label = "Q2"
"#;
    assert!(parse(input).is_err());
}

#[test]
fn parse_matrix_with_position_reorders_quadrants() {
    let input = r#"
kind = "matrix"
x_axis = "X"
y_axis = "Y"

[[quadrants]]
label = "Bottom-Right"
position = "bottom-right"

[[quadrants]]
label = "Top-Left"
position = "top-left"

[[quadrants]]
label = "Top-Right"
position = "top-right"

[[quadrants]]
label = "Bottom-Left"
position = "bottom-left"
"#;
    let diagram = parse(input).unwrap();
    let Diagram::Matrix(d) = diagram else { panic!("expected Matrix") };
    assert_eq!(d.quadrants[0].label, "Top-Left");
    assert_eq!(d.quadrants[1].label, "Top-Right");
    assert_eq!(d.quadrants[2].label, "Bottom-Left");
    assert_eq!(d.quadrants[3].label, "Bottom-Right");
}

#[test]
fn parse_matrix_position_rejects_duplicate() {
    let input = r#"
kind = "matrix"
x_axis = "X"
y_axis = "Y"

[[quadrants]]
label = "A"
position = "top-left"

[[quadrants]]
label = "B"
position = "top-left"

[[quadrants]]
label = "C"
position = "top-right"

[[quadrants]]
label = "D"
position = "bottom-left"
"#;
    assert!(parse(input).is_err(), "duplicate position should be rejected");
}

#[test]
fn parse_matrix_position_rejects_missing_on_some() {
    let input = r#"
kind = "matrix"
x_axis = "X"
y_axis = "Y"

[[quadrants]]
label = "A"
position = "top-left"

[[quadrants]]
label = "B"

[[quadrants]]
label = "C"
position = "top-right"

[[quadrants]]
label = "D"
position = "bottom-left"
"#;
    assert!(parse(input).is_err(), "mixed position/no-position should be rejected");
}

#[test]
fn parse_matrix_items_placed_into_quadrants() {
    let input = r#"
kind = "matrix"
x_axis = "Market Share"
y_axis = "Growth"

[[quadrants]]
label = "Stars"
position = "top-right"

[[quadrants]]
label = "Question Marks"
position = "top-left"

[[quadrants]]
label = "Cash Cows"
position = "bottom-right"

[[quadrants]]
label = "Dogs"
position = "bottom-left"

[[items]]
label = "Product A"
quadrant = "top-right"
status = "success"

[[items]]
label = "Product B"
quadrant = "top-right"
emphasis = "primary"

[[items]]
label = "Product C"
quadrant = "bottom-left"
status = "critical"
"#;
    let diagram = parse(input).unwrap();
    let Diagram::Matrix(d) = diagram else { panic!("expected Matrix") };
    assert_eq!(d.items.len(), 3);
    // top-right = slot 1, bottom-left = slot 2
    assert_eq!(d.items[0].quadrant, 1);
    assert_eq!(d.items[0].status, Some(Status::Success));
    assert_eq!(d.items[2].quadrant, 2);
    assert_eq!(d.items[2].status, Some(Status::Critical));
}

#[test]
fn parse_matrix_item_rejects_bad_quadrant() {
    let input = r#"
kind = "matrix"
x_axis = "X"
y_axis = "Y"

[[quadrants]]
label = "A"
[[quadrants]]
label = "B"
[[quadrants]]
label = "C"
[[quadrants]]
label = "D"

[[items]]
label = "X"
quadrant = "middle"
"#;
    assert!(parse(input).is_err(), "invalid quadrant position should be rejected");
}

#[test]
fn parse_matrix_item_requires_quadrant_field() {
    // An item without `quadrant` is rejected (deny_unknown_fields + required field).
    let input = r#"
kind = "matrix"
x_axis = "X"
y_axis = "Y"

[[quadrants]]
label = "A"
[[quadrants]]
label = "B"
[[quadrants]]
label = "C"
[[quadrants]]
label = "D"

[[items]]
label = "orphan"
"#;
    assert!(parse(input).is_err(), "matrix item must declare a quadrant");
}

#[test]
fn parse_matrix_rejects_too_many_items_per_quadrant() {
    let mut input = String::from("kind = \"matrix\"\nx_axis = \"X\"\ny_axis = \"Y\"\n");
    for label in ["A", "B", "C", "D"] {
        input.push_str(&format!("[[quadrants]]\nlabel = \"{label}\"\n"));
    }
    for i in 0..7 {
        input.push_str(&format!("[[items]]\nlabel = \"I{i}\"\nquadrant = \"top-left\"\n"));
    }
    assert!(parse(&input).is_err(), "more than 6 items in one quadrant should be rejected");
}

#[test]
fn parse_matrix_without_items_still_works() {
    // Backward compatibility: label-only quadrants, no items.
    let input = "kind = \"matrix\"\nx_axis = \"X\"\ny_axis = \"Y\"\n\n[[quadrants]]\nlabel = \"Q1\"\n\n[[quadrants]]\nlabel = \"Q2\"\n\n[[quadrants]]\nlabel = \"Q3\"\n\n[[quadrants]]\nlabel = \"Q4\"\n";
    let diagram = parse(input).unwrap();
    let Diagram::Matrix(d) = diagram else { panic!() };
    assert!(d.items.is_empty());
}

#[test]
fn parse_flow_funnel_rejects_more_than_10_items() {
    let mut input = "kind = \"flow\"\nview = \"funnel\"\n".to_string();
    for i in 0..11 {
        input.push_str(&format!("[[items]]\nlabel = \"Stage {}\"\n", i));
    }
    let err = parse(&input).unwrap_err();
    assert!(err.message().contains("items"), "error should mention 'items'");
}

#[test]
fn parse_flow_funnel_accepts_exactly_10_items() {
    let mut input = "kind = \"flow\"\nview = \"funnel\"\n".to_string();
    for i in 0..10 {
        input.push_str(&format!("[[items]]\nlabel = \"Stage {}\"\n", i));
    }
    assert!(parse(&input).is_ok(), "10 funnel stages should be accepted");
}

// --- JSON parsing ---

#[test]
fn parse_json_rejects_unknown_kind() {
    let input = r#"{"kind": "foobar", "items": []}"#;
    assert!(parse_json(input).is_err());
}

#[test]
fn parse_json_valid_flow_process() {
    let input = r#"{"kind": "flow", "items": [{"label": "Plan"}, {"label": "Do"}]}"#;
    let diagram = parse_json(input).unwrap();
    let Diagram::Flow(d) = diagram else { panic!() };
    assert_eq!(d.view, FlowView::Process);
}

#[test]
fn parse_json_sequence_gives_deprecation_hint() {
    let input = r#"{"kind": "sequence", "items": [{"label": "A"}]}"#;
    let err = parse_json(input).unwrap_err();
    assert!(err.message().contains("renamed to `flow`"));
}

#[test]
fn parse_auto_dispatches_toml_flow() {
    let input = "kind = \"flow\"\n\n[[items]]\nlabel = \"A\"\n\n[[items]]\nlabel = \"B\"\n";
    let diagram = parse_auto(input).unwrap();
    assert!(matches!(diagram, Diagram::Flow(_)));
}

#[test]
fn parse_auto_json_with_leading_whitespace() {
    let input = "  \n{\"kind\":\"flow\",\"items\":[{\"label\":\"A\"},{\"label\":\"B\"}]}";
    let diagram = parse_auto(input).unwrap();
    assert!(matches!(diagram, Diagram::Flow(_)));
}

// --- Timeline partial dates ---

#[test]
fn parse_timeline_accepts_year_only() {
    let input = r#"
kind = "timeline"

[[events]]
date = "2023"
label = "Start"

[[events]]
date = "2024"
label = "End"
"#;
    let diagram = parse(input).unwrap();
    let Diagram::Timeline(d) = diagram else { panic!("expected Timeline") };
    assert_eq!(d.events.len(), 2);
    assert_eq!(d.events[0].date, "2023");
}

#[test]
fn parse_timeline_accepts_year_month() {
    let input = r#"
kind = "timeline"

[[events]]
date = "2024-01"
label = "Q1"

[[events]]
date = "2024-06"
label = "Q2"
"#;
    let diagram = parse(input).unwrap();
    assert!(matches!(diagram, Diagram::Timeline(_)));
}

#[test]
fn parse_timeline_mixed_formats_sort_correctly() {
    let input = r#"
kind = "timeline"

[[events]]
date = "2025"
label = "Later"

[[events]]
date = "2023-06"
label = "Middle"

[[events]]
date = "2022-01-01"
label = "First"
"#;
    let diagram = parse(input).unwrap();
    let Diagram::Timeline(d) = diagram else { panic!() };
    assert_eq!(d.events[0].date, "2022-01-01");
    assert_eq!(d.events[1].date, "2023-06");
    assert_eq!(d.events[2].date, "2025");
}

#[test]
fn parse_timeline_rejects_invalid_format() {
    let input = r#"
kind = "timeline"

[[events]]
date = "January 2024"
label = "Bad"

[[events]]
date = "2024-01-01"
label = "Good"
"#;
    assert!(parse(input).is_err());
}

// --- Comparison table ---

const VALID_COMPARISON: &str = r#"
kind = "comparison"
title = "Framework Comparison"

[[columns]]
label = "Performance"

[[columns]]
label = "Ecosystem"

[[rows]]
label = "React"
Performance = "★★★★"
Ecosystem = "★★★★★"

[[rows]]
label = "Vue"
Ecosystem = "★★★"
"#;

#[test]
fn parse_valid_comparison() {
    let diagram = parse(VALID_COMPARISON).unwrap();
    let Diagram::Comparison(d) = diagram else { panic!("expected Comparison") };
    assert_eq!(d.rows.len(), 2);
    assert_eq!(d.columns.len(), 2);
    assert_eq!(d.cells.len(), 3); // React has 2 cells, Vue has 1
}

#[test]
fn parse_comparison_rejects_unknown_column_key() {
    let input = r#"
kind = "comparison"
[[columns]]
label = "X"
[[rows]]
label = "A"
Y = "val"
"#;
    assert!(parse(input).is_err());
}

#[test]
fn parse_comparison_rejects_empty_rows() {
    let input = r#"
kind = "comparison"
[[columns]]
label = "X"
"#;
    assert!(parse(input).is_err());
}

#[test]
fn parse_comparison_rejects_too_many_columns() {
    let mut input = "kind = \"comparison\"\n[[rows]]\nlabel = \"A\"\n".to_string();
    for i in 0..9 {
        input.push_str(&format!("[[columns]]\nlabel = \"Col{}\"\n", i));
    }
    assert!(parse(&input).is_err());
}

#[test]
fn parse_comparison_empty_cells_allowed() {
    let input = r#"
kind = "comparison"
[[columns]]
label = "Speed"
[[rows]]
label = "A"
"#;
    let diagram = parse(input).unwrap();
    let Diagram::Comparison(d) = diagram else { panic!() };
    assert_eq!(d.cells.len(), 0);
}

#[test]
fn parse_json_valid_comparison() {
    let input = r#"{
  "kind": "comparison",
  "columns": [{"label": "Speed"}],
  "rows": [{"label": "React", "Speed": "Fast"}, {"label": "Vue"}]
}"#;
    let diagram = parse_json(input).unwrap();
    let Diagram::Comparison(d) = diagram else { panic!() };
    assert_eq!(d.cells.len(), 1);
    assert_eq!(d.cells[0].value, "Fast");
}

#[test]
fn parse_rejects_unknown_kind() {
    let input = "kind = \"diagram\"\n\n[[items]]\nlabel = \"Item\"\n";
    assert!(parse(input).is_err());
}

// --- state tests ---

#[test]
fn parse_state_basic() {
    let input = r#"
kind = "state"

[[states]]
id = "idle"
label = "Idle"
role = "initial"

[[states]]
id = "done"
label = "Done"
role = "terminal"

[[transitions]]
from = "idle"
to = "done"
trigger = "finish"
"#;
    let diagram = parse(input).unwrap();
    let Diagram::State(d) = diagram else { panic!("expected State") };
    assert_eq!(d.states.len(), 2);
    assert_eq!(d.transitions[0].trigger.as_deref(), Some("finish"));
    assert!(matches!(d.states[0].role, Some(StateRole::Initial)));
}

#[test]
fn parse_state_rejects_single_state() {
    let input = "kind = \"state\"\n\n[[states]]\nlabel = \"Only\"\n";
    assert!(parse(input).is_err());
}

#[test]
fn parse_state_rejects_multiple_initial() {
    let input = r#"
kind = "state"
[[states]]
label = "A"
role = "initial"
[[states]]
label = "B"
role = "initial"
"#;
    assert!(parse(input).is_err());
}

#[test]
fn parse_state_rejects_unknown_transition_ref() {
    let input = r#"
kind = "state"
[[states]]
label = "A"
[[states]]
label = "B"
[[transitions]]
from = "A"
to = "NONEXISTENT"
"#;
    assert!(parse(input).is_err());
}

#[test]
fn parse_state_allows_multiple_terminal() {
    let input = r#"
kind = "state"
[[states]]
label = "Done"
role = "terminal"
[[states]]
label = "Cancelled"
role = "terminal"
"#;
    assert!(parse(input).is_ok());
}

#[test]
fn parse_state_self_loop_valid() {
    let input = r#"
kind = "state"
[[states]]
id = "s1"
label = "Retrying"
[[states]]
label = "Done"
[[transitions]]
from = "s1"
to = "s1"
trigger = "retry"
[[transitions]]
from = "s1"
to = "Done"
trigger = "success"
"#;
    assert!(parse(input).is_ok());
}

#[test]
fn parse_state_no_transitions_valid() {
    let input = r#"
kind = "state"
[[states]]
label = "Pending"
[[states]]
label = "Active"
"#;
    assert!(parse(input).is_ok());
}

#[test]
fn parse_state_rejects_duplicate_label() {
    let input = r#"
kind = "state"
[[states]]
label = "Ready"
[[states]]
label = "Ready"
"#;
    assert!(parse(input).is_err());
}

#[test]
fn unknown_kind_hint_includes_state() {
    let err = parse("kind = \"unknown\"\n").unwrap_err();
    assert!(err.message().contains("state"), "hint should list 'state'");
}
