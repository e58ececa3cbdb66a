//! The validated model of a diagram declaration, and its mathematical view.

use vstd::prelude::*;

verus! {

/// Optional importance hint of an item.
#[derive(Debug, Clone, Copy, PartialEq, Eq, Structural)]
pub enum Emphasis {
    /// Most important item.
    Primary,
    /// Secondary importance.
    Secondary,
}

/// Optional health signal of an item, orthogonal to [`Emphasis`].
#[derive(Debug, Clone, Copy, PartialEq, Eq, Structural)]
pub enum Status {
    Success,
    Normal,
    Warning,
    Critical,
}

/// How a flow is meant to be read.
#[derive(Debug, Clone, Copy, PartialEq, Eq, Structural)]
pub enum FlowView {
    Process,
    Cycle,
    Funnel,
    Swimlane,
}

/// How a tier diagram is meant to be read.
#[derive(Debug, Clone, Copy, PartialEq, Eq, Structural)]
pub enum TierView {
    Pyramid,
    Concentric,
}

/// How a hierarchy is meant to be read.
#[derive(Debug, Clone, Copy, PartialEq, Eq, Structural)]
pub enum HierarchyView {
    OrgChart,
    Fishbone,
    MindMap,
}

/// Role of a state in its lifecycle.
#[derive(Debug, Clone, Copy, PartialEq, Eq, Structural)]
pub enum StateRole {
    Initial,
    Terminal,
}

/// Semantic type of a state transition.
#[derive(Debug, Clone, Copy, PartialEq, Eq, Structural)]
pub enum TransitionKind {
    Normal,
    Exception,
}

/// A labeled item with optional emphasis and status.
#[derive(Debug, Clone)]
pub struct Item {
    pub label: String,
    pub emphasis: Option<Emphasis>,
    pub status: Option<Status>,
}

/// A flat list of items, the shape shared by pyramid, process, cycle, funnel and concentric views.
#[derive(Debug, Clone)]
pub struct ItemsDiagram {
    pub title: Option<String>,
    pub items: Vec<Item>,
}

/// An item of a flow; `actor` names its lane in the swimlane view.
#[derive(Debug, Clone)]
pub struct FlowItem {
    pub label: String,
    pub emphasis: Option<Emphasis>,
    pub status: Option<Status>,
    pub actor: Option<String>,
}

/// Model of the `flow` kind.
#[derive(Debug, Clone)]
pub struct FlowDiagram {
    pub title: Option<String>,
    pub view: FlowView,
    pub items: Vec<FlowItem>,
}

/// Model of the `tier` kind.
#[derive(Debug, Clone)]
pub struct TierDiagram {
    pub title: Option<String>,
    pub view: TierView,
    pub items: Vec<Item>,
}

/// A node of a hierarchy; `parent` names the parent's id or label.
#[derive(Debug, Clone)]
pub struct HierarchyNode {
    pub label: String,
    pub id: Option<String>,
    pub parent: Option<String>,
}

/// Model of the `hierarchy` kind.
#[derive(Debug, Clone)]
pub struct HierarchyDiagram {
    pub title: Option<String>,
    pub effect: Option<String>,
    pub view: HierarchyView,
    pub nodes: Vec<HierarchyNode>,
}

/// An item placed in a matrix quadrant; `quadrant` is the slot 0..4 (TL, TR, BL, BR).
#[derive(Debug, Clone)]
pub struct MatrixItem {
    pub label: String,
    pub emphasis: Option<Emphasis>,
    pub status: Option<Status>,
    pub quadrant: usize,
}

/// Model of the `matrix` kind: quadrants in slot order [top-left, top-right, bottom-left, bottom-right].
#[derive(Debug, Clone)]
pub struct MatrixDiagram {
    pub title: Option<String>,
    pub x_axis: String,
    pub y_axis: String,
    pub quadrants: Vec<Item>,
    pub items: Vec<MatrixItem>,
}

/// Model of the `hub_spoke` kind.
#[derive(Debug, Clone)]
pub struct HubSpokeDiagram {
    pub title: Option<String>,
    pub center: String,
    pub spokes: Vec<Item>,
}

/// A set of a Venn diagram.
#[derive(Debug, Clone)]
pub struct VennSet {
    pub label: String,
}

/// A labeled overlap region of a Venn diagram.
#[derive(Debug, Clone)]
pub struct VennIntersection {
    pub sets: Vec<String>,
    pub label: String,
}

/// Model of the `venn` kind (two or three sets).
#[derive(Debug, Clone)]
pub struct VennDiagram {
    pub title: Option<String>,
    pub sets: Vec<VennSet>,
    pub intersections: Vec<VennIntersection>,
}

/// An event of a timeline.
#[derive(Debug, Clone)]
pub struct TimelineEvent {
    pub date: String,
    pub label: String,
}

/// Model of the `timeline` kind; events are in date order.
#[derive(Debug, Clone)]
pub struct TimelineDiagram {
    pub title: Option<String>,
    pub events: Vec<TimelineEvent>,
}

/// A cause branch of a fishbone diagram with its sub-causes.
#[derive(Debug, Clone)]
pub struct FishboneCause {
    pub label: String,
    pub items: Vec<Item>,
}

/// The fishbone (cause and effect) shape of a hierarchy.
#[derive(Debug, Clone)]
pub struct FishboneDiagram {
    pub title: Option<String>,
    pub effect: String,
    pub causes: Vec<FishboneCause>,
}

/// A node of an org chart; `parent` is the parent's label.
#[derive(Debug, Clone)]
pub struct OrgChartNode {
    pub label: String,
    pub parent: Option<String>,
}

/// The tree shape of a hierarchy, as drawn by the org chart and mind map views.
#[derive(Debug, Clone)]
pub struct OrgChartDiagram {
    pub title: Option<String>,
    pub nodes: Vec<OrgChartNode>,
}

/// A cell of a comparison table.
#[derive(Debug, Clone)]
pub struct ComparisonCell {
    pub row: String,
    pub column: String,
    pub value: String,
}

/// Model of the `comparison` kind.
#[derive(Debug, Clone)]
pub struct ComparisonDiagram {
    pub title: Option<String>,
    pub rows: Vec<String>,
    pub columns: Vec<String>,
    pub cells: Vec<ComparisonCell>,
}

/// A state of a state diagram.
#[derive(Debug, Clone)]
pub struct StateNode {
    pub label: String,
    pub id: Option<String>,
    pub role: Option<StateRole>,
}

/// A directed transition; `from` and `to` name a state's id or label.
#[derive(Debug, Clone)]
pub struct StateTransition {
    pub from: String,
    pub to: String,
    pub trigger: Option<String>,
    pub kind: TransitionKind,
}

/// Model of the `state` kind.
#[derive(Debug, Clone)]
pub struct StateDiagram {
    pub title: Option<String>,
    pub states: Vec<StateNode>,
    pub transitions: Vec<StateTransition>,
}

/// A parsed and validated diagram declaration.
#[derive(Debug, Clone)]
pub enum Diagram {
    Flow(FlowDiagram),
    Tier(TierDiagram),
    Hierarchy(HierarchyDiagram),
    Matrix(MatrixDiagram),
    HubSpoke(HubSpokeDiagram),
    Venn(VennDiagram),
    Timeline(TimelineDiagram),
    Comparison(ComparisonDiagram),
    State(StateDiagram),
}

// ---------------------------------------------------------------------------
// Mathematical views
// ---------------------------------------------------------------------------

/// The characters of an optional string.
pub open spec fn opt_str(o: Option<String>) -> Option<Seq<char>> {
    match o {
        Some(s) => Some(s@),
        None => None,
    }
}

/// The characters of each string of a vector.
pub open spec fn strs(v: Vec<String>) -> Seq<Seq<char>> {
    v@.map_values(|s: String| s@)
}

pub struct SpecItem {
    pub label: Seq<char>,
    pub emphasis: Option<Emphasis>,
    pub status: Option<Status>,
}

impl View for Item {
    type V = SpecItem;

    open spec fn view(&self) -> SpecItem {
        SpecItem { label: self.label@, emphasis: self.emphasis, status: self.status }
    }
}

pub open spec fn items_view(v: Vec<Item>) -> Seq<SpecItem> {
    v@.map_values(|i: Item| i@)
}

pub struct SpecItemsDiagram {
    pub title: Option<Seq<char>>,
    pub items: Seq<SpecItem>,
}

impl View for ItemsDiagram {
    type V = SpecItemsDiagram;

    open spec fn view(&self) -> SpecItemsDiagram {
        SpecItemsDiagram { title: opt_str(self.title), items: items_view(self.items) }
    }
}

pub struct SpecFlowItem {
    pub label: Seq<char>,
    pub emphasis: Option<Emphasis>,
    pub status: Option<Status>,
    pub actor: Option<Seq<char>>,
}

impl View for FlowItem {
    type V = SpecFlowItem;

    open spec fn view(&self) -> SpecFlowItem {
        SpecFlowItem {
            label: self.label@,
            emphasis: self.emphasis,
            status: self.status,
            actor: opt_str(self.actor),
        }
    }
}

pub struct SpecFlowDiagram {
    pub title: Option<Seq<char>>,
    pub view: FlowView,
    pub items: Seq<SpecFlowItem>,
}

impl View for FlowDiagram {
    type V = SpecFlowDiagram;

    open spec fn view(&self) -> SpecFlowDiagram {
        SpecFlowDiagram {
            title: opt_str(self.title),
            view: self.view,
            items: self.items@.map_values(|i: FlowItem| i@),
        }
    }
}

pub struct SpecTierDiagram {
    pub title: Option<Seq<char>>,
    pub view: TierView,
    pub items: Seq<SpecItem>,
}

impl View for TierDiagram {
    type V = SpecTierDiagram;

    open spec fn view(&self) -> SpecTierDiagram {
        SpecTierDiagram { title: opt_str(self.title), view: self.view, items: items_view(self.items) }
    }
}

pub struct SpecHierarchyNode {
    pub label: Seq<char>,
    pub id: Option<Seq<char>>,
    pub parent: Option<Seq<char>>,
}

impl View for HierarchyNode {
    type V = SpecHierarchyNode;

    open spec fn view(&self) -> SpecHierarchyNode {
        SpecHierarchyNode { label: self.label@, id: opt_str(self.id), parent: opt_str(self.parent) }
    }
}

pub struct SpecHierarchyDiagram {
    pub title: Option<Seq<char>>,
    pub effect: Option<Seq<char>>,
    pub view: HierarchyView,
    pub nodes: Seq<SpecHierarchyNode>,
}

impl View for HierarchyDiagram {
    type V = SpecHierarchyDiagram;

    open spec fn view(&self) -> SpecHierarchyDiagram {
        SpecHierarchyDiagram {
            title: opt_str(self.title),
            effect: opt_str(self.effect),
            view: self.view,
            nodes: self.nodes@.map_values(|n: HierarchyNode| n@),
        }
    }
}

pub struct SpecMatrixItem {
    pub label: Seq<char>,
    pub emphasis: Option<Emphasis>,
    pub status: Option<Status>,
    pub quadrant: nat,
}

impl View for MatrixItem {
    type V = SpecMatrixItem;

    open spec fn view(&self) -> SpecMatrixItem {
        SpecMatrixItem {
            label: self.label@,
            emphasis: self.emphasis,
            status: self.status,
            quadrant: self.quadrant as nat,
        }
    }
}

pub struct SpecMatrixDiagram {
    pub title: Option<Seq<char>>,
    pub x_axis: Seq<char>,
    pub y_axis: Seq<char>,
    pub quadrants: Seq<SpecItem>,
    pub items: Seq<SpecMatrixItem>,
}

impl View for MatrixDiagram {
    type V = SpecMatrixDiagram;

    open spec fn view(&self) -> SpecMatrixDiagram {
        SpecMatrixDiagram {
            title: opt_str(self.title),
            x_axis: self.x_axis@,
            y_axis: self.y_axis@,
            quadrants: items_view(self.quadrants),
            items: self.items@.map_values(|i: MatrixItem| i@),
        }
    }
}

pub struct SpecHubSpokeDiagram {
    pub title: Option<Seq<char>>,
    pub center: Seq<char>,
    pub spokes: Seq<SpecItem>,
}

impl View for HubSpokeDiagram {
    type V = SpecHubSpokeDiagram;

    open spec fn view(&self) -> SpecHubSpokeDiagram {
        SpecHubSpokeDiagram {
            title: opt_str(self.title),
            center: self.center@,
            spokes: items_view(self.spokes),
        }
    }
}

pub struct SpecVennIntersection {
    pub sets: Seq<Seq<char>>,
    pub label: Seq<char>,
}

impl View for VennIntersection {
    type V = SpecVennIntersection;

    open spec fn view(&self) -> SpecVennIntersection {
        SpecVennIntersection { sets: strs(self.sets), label: self.label@ }
    }
}

pub struct SpecVennDiagram {
    pub title: Option<Seq<char>>,
    pub sets: Seq<Seq<char>>,
    pub intersections: Seq<SpecVennIntersection>,
}

impl View for VennDiagram {
    type V = SpecVennDiagram;

    open spec fn view(&self) -> SpecVennDiagram {
        SpecVennDiagram {
            title: opt_str(self.title),
            sets: self.sets@.map_values(|s: VennSet| s.label@),
            intersections: self.intersections@.map_values(|i: VennIntersection| i@),
        }
    }
}

pub struct SpecTimelineEvent {
    pub date: Seq<char>,
    pub label: Seq<char>,
}

impl View for TimelineEvent {
    type V = SpecTimelineEvent;

    open spec fn view(&self) -> SpecTimelineEvent {
        SpecTimelineEvent { date: self.date@, label: self.label@ }
    }
}

pub struct SpecTimelineDiagram {
    pub title: Option<Seq<char>>,
    pub events: Seq<SpecTimelineEvent>,
}

impl View for TimelineDiagram {
    type V = SpecTimelineDiagram;

    open spec fn view(&self) -> SpecTimelineDiagram {
        SpecTimelineDiagram {
            title: opt_str(self.title),
            events: self.events@.map_values(|e: TimelineEvent| e@),
        }
    }
}

pub struct SpecFishboneCause {
    pub label: Seq<char>,
    pub items: Seq<SpecItem>,
}

impl View for FishboneCause {
    type V = SpecFishboneCause;

    open spec fn view(&self) -> SpecFishboneCause {
        SpecFishboneCause { label: self.label@, items: items_view(self.items) }
    }
}

pub struct SpecFishboneDiagram {
    pub title: Option<Seq<char>>,
    pub effect: Seq<char>,
    pub causes: Seq<SpecFishboneCause>,
}

impl View for FishboneDiagram {
    type V = SpecFishboneDiagram;

    open spec fn view(&self) -> SpecFishboneDiagram {
        SpecFishboneDiagram {
            title: opt_str(self.title),
            effect: self.effect@,
            causes: self.causes@.map_values(|c: FishboneCause| c@),
        }
    }
}

pub struct SpecOrgChartNode {
    pub label: Seq<char>,
    pub parent: Option<Seq<char>>,
}

impl View for OrgChartNode {
    type V = SpecOrgChartNode;

    open spec fn view(&self) -> SpecOrgChartNode {
        SpecOrgChartNode { label: self.label@, parent: opt_str(self.parent) }
    }
}

pub struct SpecOrgChartDiagram {
    pub title: Option<Seq<char>>,
    pub nodes: Seq<SpecOrgChartNode>,
}

impl View for OrgChartDiagram {
    type V = SpecOrgChartDiagram;

    open spec fn view(&self) -> SpecOrgChartDiagram {
        SpecOrgChartDiagram {
            title: opt_str(self.title),
            nodes: self.nodes@.map_values(|n: OrgChartNode| n@),
        }
    }
}

pub struct SpecComparisonCell {
    pub row: Seq<char>,
    pub column: Seq<char>,
    pub value: Seq<char>,
}

impl View for ComparisonCell {
    type V = SpecComparisonCell;

    open spec fn view(&self) -> SpecComparisonCell {
        SpecComparisonCell { row: self.row@, column: self.column@, value: self.value@ }
    }
}

pub struct SpecComparisonDiagram {
    pub title: Option<Seq<char>>,
    pub rows: Seq<Seq<char>>,
    pub columns: Seq<Seq<char>>,
    pub cells: Seq<SpecComparisonCell>,
}

impl View for ComparisonDiagram {
    type V = SpecComparisonDiagram;

    open spec fn view(&self) -> SpecComparisonDiagram {
        SpecComparisonDiagram {
            title: opt_str(self.title),
            rows: strs(self.rows),
            columns: strs(self.columns),
            cells: self.cells@.map_values(|c: ComparisonCell| c@),
        }
    }
}

pub struct SpecStateNode {
    pub label: Seq<char>,
    pub id: Option<Seq<char>>,
    pub role: Option<StateRole>,
}

impl View for StateNode {
    type V = SpecStateNode;

    open spec fn view(&self) -> SpecStateNode {
        SpecStateNode { label: self.label@, id: opt_str(self.id), role: self.role }
    }
}

pub struct SpecStateTransition {
    pub from: Seq<char>,
    pub to: Seq<char>,
    pub trigger: Option<Seq<char>>,
    pub kind: TransitionKind,
}

impl View for StateTransition {
    type V = SpecStateTransition;

    open spec fn view(&self) -> SpecStateTransition {
        SpecStateTransition {
            from: self.from@,
            to: self.to@,
            trigger: opt_str(self.trigger),
            kind: self.kind,
        }
    }
}

pub struct SpecStateDiagram {
    pub title: Option<Seq<char>>,
    pub states: Seq<SpecStateNode>,
    pub transitions: Seq<SpecStateTransition>,
}

impl View for StateDiagram {
    type V = SpecStateDiagram;

    open spec fn view(&self) -> SpecStateDiagram {
        SpecStateDiagram {
            title: opt_str(self.title),
            states: self.states@.map_values(|s: StateNode| s@),
            transitions: self.transitions@.map_values(|t: StateTransition| t@),
        }
    }
}

pub enum SpecDiagram {
    Flow(SpecFlowDiagram),
    Tier(SpecTierDiagram),
    Hierarchy(SpecHierarchyDiagram),
    Matrix(SpecMatrixDiagram),
    HubSpoke(SpecHubSpokeDiagram),
    Venn(SpecVennDiagram),
    Timeline(SpecTimelineDiagram),
    Comparison(SpecComparisonDiagram),
    State(SpecStateDiagram),
}

impl View for Diagram {
    type V = SpecDiagram;

    open spec fn view(&self) -> SpecDiagram {
        match self {
            Diagram::Flow(d) => SpecDiagram::Flow(d@),
            Diagram::Tier(d) => SpecDiagram::Tier(d@),
            Diagram::Hierarchy(d) => SpecDiagram::Hierarchy(d@),
            Diagram::Matrix(d) => SpecDiagram::Matrix(d@),
            Diagram::HubSpoke(d) => SpecDiagram::HubSpoke(d@),
            Diagram::Venn(d) => SpecDiagram::Venn(d@),
            Diagram::Timeline(d) => SpecDiagram::Timeline(d@),
            Diagram::Comparison(d) => SpecDiagram::Comparison(d@),
            Diagram::State(d) => SpecDiagram::State(d@),
        }
    }
}

} // verus!
