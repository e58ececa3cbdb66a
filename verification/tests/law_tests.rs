use declart_core::{parse, parse_auto, parse_json, Diagram, DeclartError};

#[test]
fn toml_and_json_give_the_same_diagram() {
    let toml = "kind = \"flow\"\nview = \"cycle\"\n[[items]]\nlabel = \"A\"\n[[items]]\nlabel = \"B\"\n";
    let json = "{\"kind\":\"flow\",\"view\":\"cycle\",\"items\":[{\"label\":\"A\"},{\"label\":\"B\"}]}";
    let (Diagram::Flow(a), Diagram::Flow(b)) = (parse(toml).unwrap(), parse_json(json).unwrap()) else {
        panic!("expected Flow")
    };
    assert_eq!(a.view, b.view);
    let la: Vec<&str> = a.items.iter().map(|i| i.label.as_str()).collect();
    let lb: Vec<&str> = b.items.iter().map(|i| i.label.as_str()).collect();
    assert_eq!(la, lb);
}

#[test]
fn toml_and_json_refuse_the_same_rule_break() {
    let toml = "kind = \"venn\"\n[[sets]]\nlabel = \"A\"\n";
    let json = "{\"kind\":\"venn\",\"sets\":[{\"label\":\"A\"}]}";
    let (a, b) = (parse(toml).unwrap_err(), parse_json(json).unwrap_err());
    assert_eq!(a.message(), b.message());
}

#[test]
fn unknown_top_level_fields_are_refused() {
    for field in ["color", "x", "width", "style"] {
        let input = format!("kind = \"tier\"\n{field} = \"1\"\n[[items]]\nlabel = \"A\"\n");
        assert!(matches!(parse(&input), Err(DeclartError::Parse(_))), "{field} should be refused");
    }
}

#[test]
fn accepted_timeline_is_in_date_order() {
    let input = "kind = \"timeline\"\n[[events]]\ndate = \"2025\"\nlabel = \"C\"\n[[events]]\ndate = \"2023-06\"\nlabel = \"B\"\n[[events]]\ndate = \"2022-01-01\"\nlabel = \"A\"\n[[events]]\ndate = \"2023-06-01\"\nlabel = \"B2\"\n";
    let Diagram::Timeline(d) = parse_auto(input).unwrap() else { panic!("expected Timeline") };
    let labels: Vec<&str> = d.events.iter().map(|e| e.label.as_str()).collect();
    assert_eq!(labels, vec!["A", "B", "B2", "C"]);
    assert_eq!(d.events[1].date, "2023-06");
}

#[test]
fn accepted_matrix_has_four_quadrants_and_items_inside_them() {
    let mut input = String::from("kind = \"matrix\"\nx_axis = \"X\"\ny_axis = \"Y\"\n");
    for q in ["A", "B", "C", "D"] {
        input.push_str(&format!("[[quadrants]]\nlabel = \"{q}\"\n"));
    }
    for (i, q) in ["top-left", "bottom-right", "top-left"].iter().enumerate() {
        input.push_str(&format!("[[items]]\nlabel = \"I{i}\"\nquadrant = \"{q}\"\n"));
    }
    let Diagram::Matrix(d) = parse(&input).unwrap() else { panic!("expected Matrix") };
    assert_eq!(d.quadrants.len(), 4);
    let qs: Vec<usize> = d.items.iter().map(|i| i.quadrant).collect();
    assert_eq!(qs, vec![0, 3, 0]);
}

#[test]
fn accepted_hierarchy_mind_map_has_one_root() {
    let input = "kind = \"hierarchy\"\nview = \"mind_map\"\n[[nodes]]\nlabel = \"R\"\n[[nodes]]\nlabel = \"S\"\n";
    assert!(parse(input).is_err());
}

#[test]
fn accepted_comparison_cells_name_declared_rows_and_columns() {
    let input = "kind = \"comparison\"\n[[columns]]\nlabel = \"Speed\"\n[[rows]]\nlabel = \"A\"\nSpeed = \"Fast\"\n";
    let Diagram::Comparison(d) = parse(input).unwrap() else { panic!("expected Comparison") };
    assert_eq!(d.cells.len(), 1);
    assert_eq!(d.cells[0].row, "A");
    assert_eq!(d.cells[0].column, "Speed");
    assert_eq!(d.cells[0].value, "Fast");
}

#[test]
fn states_with_ids_may_share_a_label() {
    let input = "kind = \"state\"\n[[states]]\nlabel = \"Ready\"\nid = \"r1\"\n[[states]]\nlabel = \"Ready\"\nid = \"r2\"\n[[transitions]]\nfrom = \"r1\"\nto = \"r2\"\n";
    let Diagram::State(d) = parse(input).unwrap() else { panic!("expected State") };
    assert_eq!(d.states.len(), 2);
    assert_eq!(d.transitions.len(), 1);
}

#[test]
fn states_without_ids_may_not_share_a_label() {
    let input = "kind = \"state\"\n[[states]]\nlabel = \"Ready\"\n[[states]]\nlabel = \"Ready\"\nid = \"r2\"\n[[states]]\nlabel = \"Ready\"\n";
    match parse(input) {
        Err(DeclartError::InvalidValue { field, .. }) => assert_eq!(field, "label"),
        other => panic!("unexpected: {other:?}"),
    }
    let one_with_id = "kind = \"state\"\n[[states]]\nlabel = \"Ready\"\n[[states]]\nlabel = \"Ready\"\nid = \"r2\"\n";
    match parse(one_with_id) {
        Err(DeclartError::InvalidValue { field, .. }) => assert_eq!(field, "label"),
        other => panic!("unexpected: {other:?}"),
    }
}

#[test]
fn comparison_refuses_repeated_column_labels() {
    let input = "kind = \"comparison\"\n[[columns]]\nlabel = \"X\"\n[[columns]]\nlabel = \"X\"\n[[rows]]\nlabel = \"A\"\n";
    match parse(input) {
        Err(DeclartError::InvalidValue { field, .. }) => assert_eq!(field, "column label"),
        other => panic!("unexpected: {other:?}"),
    }
}

#[test]
fn comparison_refuses_repeated_row_labels() {
    let input = "kind = \"comparison\"\n[[columns]]\nlabel = \"X\"\n[[rows]]\nlabel = \"A\"\n[[rows]]\nlabel = \"A\"\n";
    match parse(input) {
        Err(DeclartError::InvalidValue { field, .. }) => assert_eq!(field, "row label"),
        other => panic!("unexpected: {other:?}"),
    }
}

fn matrix_with_positions(positions: [&str; 4]) -> String {
    let mut input = String::from("kind = \"matrix\"\nx_axis = \"X\"\ny_axis = \"Y\"\n");
    for (q, p) in ["A", "B", "C", "D"].iter().zip(positions) {
        input.push_str(&format!("[[quadrants]]\nlabel = \"{q}\"\nposition = \"{p}\"\n"));
    }
    input
}

#[test]
fn matrix_quadrants_stand_in_the_slots_their_positions_name() {
    let input = matrix_with_positions(["bottom-right", "top-left", "bottom-left", "top-right"]);
    let Diagram::Matrix(d) = parse(&input).unwrap() else { panic!("expected Matrix") };
    let labels: Vec<&str> = d.quadrants.iter().map(|q| q.label.as_str()).collect();
    assert_eq!(labels, vec!["B", "D", "C", "A"]);
}

#[test]
fn matrix_refuses_two_quadrants_in_one_position() {
    let input = matrix_with_positions(["top-left", "top-left", "bottom-left", "top-right"]);
    match parse(&input) {
        Err(DeclartError::InvalidValue { field, hint, .. }) => {
            assert_eq!(field, "position");
            assert_eq!(hint, "Duplicate quadrant position");
        }
        other => panic!("unexpected: {other:?}"),
    }
}

#[test]
fn matrix_refuses_seven_items_in_one_quadrant() {
    let mut input = matrix_with_positions(["top-left", "top-right", "bottom-left", "bottom-right"]);
    for i in 0..7 {
        input.push_str(&format!("[[items]]\nlabel = \"I{i}\"\nquadrant = \"top-right\"\n"));
    }
    match parse(&input) {
        Err(DeclartError::InvalidValue { field, value, .. }) => {
            assert_eq!(field, "items");
            assert_eq!(value, "7 items in one quadrant");
        }
        other => panic!("unexpected: {other:?}"),
    }
}

#[test]
fn matrix_refuses_three_quadrants() {
    let input = "kind = \"matrix\"\nx_axis = \"X\"\ny_axis = \"Y\"\n[[quadrants]]\nlabel = \"A\"\n[[quadrants]]\nlabel = \"B\"\n[[quadrants]]\nlabel = \"C\"\n";
    assert!(matches!(parse(input), Err(DeclartError::InvalidQuadrantCount(3))));
}

#[test]
fn timeline_refuses_the_first_event_of_invalid_date() {
    let input = "kind = \"timeline\"\n[[events]]\ndate = \"2020\"\nlabel = \"A\"\n[[events]]\ndate = \"20x1\"\nlabel = \"B\"\n[[events]]\ndate = \"bad\"\nlabel = \"C\"\n";
    match parse(input) {
        Err(DeclartError::InvalidValue { field, value, .. }) => {
            assert_eq!(field, "date");
            assert_eq!(value, "20x1");
        }
        other => panic!("unexpected: {other:?}"),
    }
}

#[test]
fn timeline_refuses_a_single_event() {
    let input = "kind = \"timeline\"\n[[events]]\ndate = \"2020\"\nlabel = \"A\"\n";
    match parse(input) {
        Err(DeclartError::TooFewItems { kind, min, got }) => {
            assert_eq!(kind, "timeline");
            assert_eq!((min, got), (2, 1));
        }
        other => panic!("unexpected: {other:?}"),
    }
}

#[test]
fn comparison_refuses_a_cell_that_names_no_column() {
    let input = "kind = \"comparison\"\n[[columns]]\nlabel = \"Speed\"\n[[rows]]\nlabel = \"A\"\nCost = \"Low\"\n";
    match parse(input) {
        Err(DeclartError::InvalidValue { field, value, .. }) => {
            assert_eq!(field, "row cell key");
            assert_eq!(value, "Cost");
        }
        other => panic!("unexpected: {other:?}"),
    }
}

#[test]
fn state_model_keeps_ids_roles_and_transition_types() {
    let input = "kind = \"state\"\n[[states]]\nlabel = \"Ready\"\nid = \"r1\"\nrole = \"initial\"\n[[states]]\nlabel = \"Ready\"\nid = \"r2\"\nrole = \"terminal\"\n[[transitions]]\nfrom = \"r1\"\nto = \"r2\"\ntype = \"exception\"\n";
    let Diagram::State(d) = parse(input).unwrap() else { panic!("expected State") };
    assert_eq!(d.states[0].id.as_deref(), Some("r1"));
    assert_eq!(d.states[1].id.as_deref(), Some("r2"));
    assert!(matches!(d.states[0].role, Some(declart_core::StateRole::Initial)));
    assert!(matches!(d.states[1].role, Some(declart_core::StateRole::Terminal)));
    assert!(matches!(d.transitions[0].kind, declart_core::TransitionKind::Exception));
}
