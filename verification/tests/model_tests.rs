use declart_core::{Emphasis, Item, ItemsDiagram, MatrixDiagram};

#[test]
fn items_diagram_holds_items() {
    let d = ItemsDiagram {
        title: Some("Test".to_string()),
        items: vec![
            Item { label: "Top".to_string(), emphasis: None, status: None },
            Item { label: "Bottom".to_string(), emphasis: Some(Emphasis::Primary), status: None },
        ],
    };
    assert_eq!(d.items.len(), 2);
    assert_eq!(d.items[0].label, "Top");
    assert_eq!(d.items[1].emphasis, Some(Emphasis::Primary));
}

#[test]
fn matrix_diagram_holds_quadrants() {
    let d = MatrixDiagram {
        title: None,
        x_axis: "Effort".to_string(),
        y_axis: "Impact".to_string(),
        quadrants: (0..4)
            .map(|i| Item { label: format!("Q{}", i + 1), emphasis: None, status: None })
            .collect(),
        items: vec![],
    };
    assert_eq!(d.quadrants.len(), 4);
    assert_eq!(d.x_axis, "Effort");
}
