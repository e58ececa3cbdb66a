//! Starter declarations, one for each kind, to begin a new diagram from.

use vstd::prelude::*;
use crate::text::str_eq;

verus! {

/// The starter declaration for `flow`.
pub const FLOW_TEMPLATE: &'static str = r#"kind = "flow"
title = "My Process"

[[items]]
label = "Step 1"

[[items]]
label = "Step 2"

[[items]]
label = "Step 3"
"#;

/// The starter declaration for `tier`.
pub const TIER_TEMPLATE: &'static str = r#"kind = "tier"
title = "My Pyramid"

[[items]]
label = "Vision"

[[items]]
label = "Strategy"

[[items]]
label = "Tactics"
"#;

/// The starter declaration for `hierarchy`.
pub const HIERARCHY_TEMPLATE: &'static str = r#"kind = "hierarchy"
title = "My Org Chart"

[[nodes]]
label = "CEO"

[[nodes]]
label = "CTO"
parent = "CEO"

[[nodes]]
label = "CFO"
parent = "CEO"
"#;

/// The starter declaration for `timeline`.
pub const TIMELINE_TEMPLATE: &'static str = r#"kind = "timeline"
title = "My Timeline"

[[events]]
date = "2024-01-01"
label = "Start"

[[events]]
date = "2024-06-01"
label = "Milestone"

[[events]]
date = "2024-12-31"
label = "End"
"#;

/// The starter declaration for `matrix`.
pub const MATRIX_TEMPLATE: &'static str = r#"kind = "matrix"
title = "My Matrix"
x_axis = "Importance"
y_axis = "Urgency"

[[quadrants]]
label = "Do First"

[[quadrants]]
label = "Schedule"

[[quadrants]]
label = "Delegate"

[[quadrants]]
label = "Eliminate"
"#;

/// The starter declaration for `hub_spoke`.
pub const HUB_SPOKE_TEMPLATE: &'static str = r#"kind = "hub_spoke"
title = "My Hub"

center = "Central Concept"

[[spokes]]
label = "Topic A"

[[spokes]]
label = "Topic B"

[[spokes]]
label = "Topic C"
"#;

/// The starter declaration for `venn`.
pub const VENN_TEMPLATE: &'static str = r#"kind = "venn"
title = "My Venn"

[[sets]]
label = "Group A"

[[sets]]
label = "Group B"

[[intersections]]
sets = ["Group A", "Group B"]
label = "Both"
"#;

/// The starter declaration for `comparison`.
pub const COMPARISON_TEMPLATE: &'static str = r#"kind = "comparison"
title = "My Comparison"

[[columns]]
label = "Criterion 1"

[[columns]]
label = "Criterion 2"

[[rows]]
label = "Option A"
"Criterion 1" = "★★★"
"Criterion 2" = "★★"

[[rows]]
label = "Option B"
"Criterion 1" = "★★"
"Criterion 2" = "★★★★"
"#;

/// The starter declaration for `state`.
pub const STATE_TEMPLATE: &'static str = r#"kind = "state"
title = "My Lifecycle"

[[states]]
id = "draft"
label = "Draft"
role = "initial"

[[states]]
id = "review"
label = "In Review"

[[states]]
id = "published"
label = "Published"
role = "terminal"

[[transitions]]
from = "draft"
to = "review"
trigger = "submit"

[[transitions]]
from = "review"
to = "published"
trigger = "approve"

[[transitions]]
from = "review"
to = "draft"
trigger = "reject"
type = "exception"
"#;

/// The starter declaration for a kind name; `None` for a name that is no kind.
pub open spec fn template_for(kind: Seq<char>) -> Option<Seq<char>> {
    if kind == "flow"@ {
        Some(FLOW_TEMPLATE@)
    } else if kind == "tier"@ {
        Some(TIER_TEMPLATE@)
    } else if kind == "hierarchy"@ {
        Some(HIERARCHY_TEMPLATE@)
    } else if kind == "timeline"@ {
        Some(TIMELINE_TEMPLATE@)
    } else if kind == "matrix"@ {
        Some(MATRIX_TEMPLATE@)
    } else if kind == "hub_spoke"@ {
        Some(HUB_SPOKE_TEMPLATE@)
    } else if kind == "venn"@ {
        Some(VENN_TEMPLATE@)
    } else if kind == "comparison"@ {
        Some(COMPARISON_TEMPLATE@)
    } else if kind == "state"@ {
        Some(STATE_TEMPLATE@)
    } else {
        None
    }
}

/// The starter declaration that `init` prints for a kind, if it is one.
pub fn init_template(kind: &str) -> (r: Option<&'static str>)
    ensures
        match r {
            Some(t) => template_for(kind@) == Some(t@),
            None => template_for(kind@) is None,
        },
{
    if str_eq(kind, "flow") {
        Some(FLOW_TEMPLATE)
    } else if str_eq(kind, "tier") {
        Some(TIER_TEMPLATE)
    } else if str_eq(kind, "hierarchy") {
        Some(HIERARCHY_TEMPLATE)
    } else if str_eq(kind, "timeline") {
        Some(TIMELINE_TEMPLATE)
    } else if str_eq(kind, "matrix") {
        Some(MATRIX_TEMPLATE)
    } else if str_eq(kind, "hub_spoke") {
        Some(HUB_SPOKE_TEMPLATE)
    } else if str_eq(kind, "venn") {
        Some(VENN_TEMPLATE)
    } else if str_eq(kind, "comparison") {
        Some(COMPARISON_TEMPLATE)
    } else if str_eq(kind, "state") {
        Some(STATE_TEMPLATE)
    } else {
        None
    }
}

} // verus!
