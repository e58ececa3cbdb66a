//! Declart core library: declarations of prose diagrams, read from TOML or
//! JSON text and checked against the schema and the rules of each kind.

mod book;
mod cli;
mod color;
mod comparison;
mod convert;
mod doc;
mod error;
mod hierarchy;
mod kind_laws;
mod kinds;
mod laws;
mod markup;
mod matrix;
mod matrix_laws;
mod model;
mod naming_laws;
mod parse;
mod raw;
mod rules;
mod state;
mod templates;
mod text;
mod themes;
mod timeline;
mod tree;

pub use book::{after_fence, block_html, block_outcome, blocks, fence_close, fence_open, find_from, process_content, render_diagram, rewritten};
pub use cli::{OutputFormat, extension_of, format_named, output_extension, output_format};
pub use color::{Color, ThemeColors, byte_hex, color_fields, colors_from_texts, colors_seq, dark, hex_body, hex_color, hex_digit, hex_pair, hex_text, hex_value, parse_hex, rounds_under, size_ok, theme_color_texts, theme_colors_from_toml, theme_colors_value, theme_schema_message, views};
pub use comparison::{cell_key_check, column_labels, comparison_value, distinct, row_check, row_labels_of, row_model_cells, validate_comparison};
pub use convert::{bone, bone_items, chart_node, fishbone_chart, fishbone_of, flow_as_items, flow_step_item, hangs_from, id_of_label, index_by_id, index_by_label, label_for_id, parent_label, resolve_idx, resolve_nodes, resolved_chart, root_labels, state_index, tier_as_items};
pub use doc::{DocEntry, DocValue, ExJsonValue, ExTomlValue, check_keys, get_field, json_document, keys_within, list_field, lookup, opt_str_field, read_list, read_opt_str, read_str, str_field, toml_document};
pub use error::{DeclartError, SpecError, error_message, valid_kinds_hint};
pub use hierarchy::{count_roots, hierarchy_value, hierarchy_view_value, ids_unique, labels_unique, names_node, node_value, parent_check, validate_hierarchy};
pub use kind_laws::{cells_name_columns, known_role, known_transition_type, lemma_all_ok_accepts, lemma_all_ok_refuses, lemma_comparison_accepted_iff, lemma_state_model, lemma_state_refusals, lemma_timeline_refusals, role_named};
pub use kinds::{actors_present, flow_value, flow_view_value, has_actor, hub_spoke_value, one_actor, pyramid_moved_hint, tier_value, tier_view_value, validate_flow, validate_hub_spoke, validate_tier, validate_venn, venn_value};
pub use laws::{attr_value, calendar_date, date_sorted, day_of_year, days_in_month, declared_events, earlier, in_quadrant, initial_states, is_leap, known_fields, lemma_accepted_comparison, lemma_accepted_flow, lemma_accepted_hierarchy, lemma_accepted_hub_spoke, lemma_accepted_matrix, lemma_accepted_state, lemma_accepted_tier, lemma_accepted_timeline, lemma_accepted_venn, lemma_all_ok_each, lemma_attr_read_after_write, lemma_chart_parents_found, lemma_day_numbers_follow_dates, lemma_formats_agree, lemma_hex_round_trip, lemma_leaves_positive, lemma_normalized_date_stable, lemma_plain_chapter_unchanged, lemma_theme_refusal, lemma_unknown_field_refused, node_named, roots_of, table_cells, window, with_key, year_days};
pub use markup::{entity, escape_xml, escaped, html_escape, lemma_escaped_is_inert, lemma_plain_text_unchanged, markup_char, replace_first_attr, with_attr};
pub use matrix::{MAX_ITEMS_PER_QUADRANT, counts_view, empty_slots, filled, has_positions, matrix_value, place_item, place_items, place_quadrant, place_quadrants, position_slot, positions_hint, quadrant_item, quadrant_order, slot_of, slots_view, validate_matrix};
pub use matrix_laws::{items_naming, lemma_matrix_model, lemma_matrix_refusals, quadrant_slot};
pub use model::{ComparisonCell, ComparisonDiagram, Diagram, Emphasis, FishboneCause, FishboneDiagram, FlowDiagram, FlowItem, FlowView, HierarchyDiagram, HierarchyNode, HierarchyView, HubSpokeDiagram, Item, ItemsDiagram, MatrixDiagram, MatrixItem, OrgChartDiagram, OrgChartNode, SpecComparisonCell, SpecComparisonDiagram, SpecDiagram, SpecFishboneCause, SpecFishboneDiagram, SpecFlowDiagram, SpecFlowItem, SpecHierarchyDiagram, SpecHierarchyNode, SpecHubSpokeDiagram, SpecItem, SpecItemsDiagram, SpecMatrixDiagram, SpecMatrixItem, SpecOrgChartDiagram, SpecOrgChartNode, SpecStateDiagram, SpecStateNode, SpecStateTransition, SpecTierDiagram, SpecTimelineDiagram, SpecTimelineEvent, SpecVennDiagram, SpecVennIntersection, StateDiagram, StateNode, StateRole, StateTransition, Status, TierDiagram, TierView, TimelineDiagram, TimelineEvent, TransitionKind, VennDiagram, VennIntersection, VennSet, items_view, opt_str, strs};
pub use naming_laws::{char_order_le, color_field_is, emphasis_named, lemma_emphasis_names, lemma_flow_item_named, lemma_flow_items_named, lemma_hierarchy_view_named, lemma_hub_spoke_items_named, lemma_item_named, lemma_lex_le_is_char_order, lemma_status_names, lemma_theme_fields, lemma_tier_items_named, lemma_timeline_in_date_order, lemma_venn_model, status_named, theme_color_text};
pub use parse::{by_schema, declaration_value, decode_declaration, is_white, kind_missing_message, looks_like_json, parse, parse_auto, parse_auto_value, parse_json, parse_json_value, parse_value, schema_error, schema_message, sequence_hint};
pub use raw::{Decode, KindProbe, RawComparisonColumn, RawComparisonDiagram, RawComparisonRow, RawFlowDiagram, RawFlowItem, RawHierarchyDiagram, RawHierarchyNode, RawHubSpokeDiagram, RawItem, RawMatrixDiagram, RawMatrixItem, RawQuadrant, RawStateDiagram, RawStateNode, RawStateTransition, RawTierDiagram, RawTimelineDiagram, RawTimelineEvent, RawVennDiagram, RawVennIntersection, RawVennSet, SpecKindProbe, SpecRawComparisonColumn, SpecRawComparisonDiagram, SpecRawComparisonRow, SpecRawFlowDiagram, SpecRawFlowItem, SpecRawHierarchyDiagram, SpecRawHierarchyNode, SpecRawHubSpokeDiagram, SpecRawItem, SpecRawMatrixDiagram, SpecRawMatrixItem, SpecRawQuadrant, SpecRawStateDiagram, SpecRawStateNode, SpecRawStateTransition, SpecRawTierDiagram, SpecRawTimelineDiagram, SpecRawTimelineEvent, SpecRawVennDiagram, SpecRawVennIntersection, SpecRawVennSet, cell_pairs, decode_seq, decode_vec, raw_comparison_column_keys, raw_comparison_diagram_keys, raw_flow_diagram_keys, raw_flow_item_keys, raw_hierarchy_diagram_keys, raw_hierarchy_node_keys, raw_hub_spoke_diagram_keys, raw_item_keys, raw_matrix_diagram_keys, raw_matrix_item_keys, raw_quadrant_keys, raw_state_diagram_keys, raw_state_node_keys, raw_state_transition_keys, raw_tier_diagram_keys, raw_timeline_diagram_keys, raw_timeline_event_keys, raw_venn_diagram_keys, raw_venn_intersection_keys, raw_venn_set_keys, row_cells, str_list_field};
pub use rules::{all_ok, all_ok_resume, emphasis_value, flow_item_value, invalid, invalid_value, item_value, lemma_all_ok_ends, lemma_all_ok_step, opt_is, opt_str_eq, parse_emphasis, parse_flow_items, parse_items, parse_status, res, status_value, vec_res};
pub use state::{count_initial, has_name, names_state, role_value, state_ids_unique, state_labels_unique, state_node_value, state_value, transition_kind_value, transition_value, validate_state};
pub use templates::{COMPARISON_TEMPLATE, FLOW_TEMPLATE, HIERARCHY_TEMPLATE, HUB_SPOKE_TEMPLATE, MATRIX_TEMPLATE, STATE_TEMPLATE, TIER_TEMPLATE, TIMELINE_TEMPLATE, VENN_TEMPLATE, init_template, template_for};
pub use text::{char_seq, decimal, decimal_string, digit_char, owned};
pub use themes::{MarkerShape, ThemeName, ThemeSource, builtin_names, lemma_markers_distinct, looks_like_path, marker_of, marker_shape, theme_named, theme_source, theme_source_of};
pub use timeline::{date_days, date_to_days, dates_valid, days_input, digit_value, digits, event_key, figures, first_bad_date, insert_event, is_digit, julian_day, lex_le, normalize_date, normalized_date, number_at, quot, repunit, sort_events, timeline_value, validate_timeline};
pub use tree::{child_lists, children_spec, children_upto, compute_max_depth, count_leaves, depth_below, depth_from, finite_below, is_child, leaves, leaves_from, lists, subtree_is_finite};

use vstd::prelude::*;

verus! {

} // verus!
