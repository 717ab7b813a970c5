use daw_reaper::fx::FxNodeId;
use daw_reaper::fx_ops::{
    channel_config_value, config_u32, container_display_name, container_placement, is_container_fx,
    move_into_plan, parse_channel_config, probe_step_count, resolve_fx_index, resolve_node_to_raw_index, shuffle_position,
    verify_container_child_count, verify_moved_out, FxRef, CONTAINER_BASE,
};
use daw_reaper::fx_tree::FxTreeNode;

fn plugin(raw: u32, guid: &str) -> FxTreeNode {
    FxTreeNode::Plugin { raw, guid: Some(guid.to_string()) }
}

fn container(raw: u32, children: Vec<(u32, FxTreeNode)>) -> FxTreeNode {
    FxTreeNode::Container {
        raw,
        guid: Some(format!("C{}", raw)),
        name: "Box".to_string(),
        routing_mode: 0,
        child_count: children.len() as u32,
        children,
    }
}

/// EQ, then a container holding Comp and a nested container holding Gate.
fn chain() -> Vec<FxTreeNode> {
    vec![
        plugin(0, "{EQ}"),
        container(
            1,
            vec![
                (0, plugin(0x2000012, "{COMP}")),
                (1, container(0x2000022, vec![(0, plugin(0x2000099, "{GATE}"))])),
            ],
        ),
    ]
}

fn names() -> Vec<Option<String>> {
    vec![Some("ReaEQ".to_string()), None]
}

#[test]
fn fx_ref_by_index_is_bounded_by_count() {
    let top = chain();
    assert_eq!(resolve_fx_index(&FxRef::Index(1), 2, &top, &names()), Some(1));
    assert_eq!(resolve_fx_index(&FxRef::Index(2), 2, &top, &names()), None);
}

#[test]
fn fx_ref_by_guid_finds_nested_plugins() {
    let top = chain();
    assert_eq!(resolve_fx_index(&FxRef::Guid("{EQ}".to_string()), 2, &top, &names()), Some(0));
    assert_eq!(resolve_fx_index(&FxRef::Guid("{GATE}".to_string()), 2, &top, &names()), Some(0x2000099));
    assert_eq!(resolve_fx_index(&FxRef::Guid("{NONE}".to_string()), 2, &top, &names()), None);
}

#[test]
fn fx_ref_by_name_takes_first_top_level_match() {
    let top = chain();
    let list = vec![Some("A".to_string()), None, Some("B".to_string()), Some("B".to_string())];
    assert_eq!(resolve_fx_index(&FxRef::Name("B".to_string()), 4, &top, &list), Some(2));
    assert_eq!(resolve_fx_index(&FxRef::Name("ReaEQ".to_string()), 2, &top, &names()), Some(0));
    assert_eq!(resolve_fx_index(&FxRef::Name("Missing".to_string()), 2, &top, &names()), None);
}

#[test]
fn node_ids_resolve_to_raw_indices() {
    let top = chain();
    assert_eq!(resolve_node_to_raw_index(&top, &FxNodeId::container("1")), Some(1));
    assert_eq!(resolve_node_to_raw_index(&top, &FxNodeId::container("1:1")), Some(0x2000022));
    assert_eq!(resolve_node_to_raw_index(&top, &FxNodeId::container("1:1:0")), Some(0x2000099));
    assert_eq!(resolve_node_to_raw_index(&top, &FxNodeId::from_guid("{COMP}")), Some(0x2000012));
}

#[test]
fn bad_node_ids_resolve_to_nothing() {
    let top = chain();
    // Top-level index out of range.
    assert_eq!(resolve_node_to_raw_index(&top, &FxNodeId::container("2")), None);
    // No such child position.
    assert_eq!(resolve_node_to_raw_index(&top, &FxNodeId::container("1:5")), None);
    // Walking below a plugin.
    assert_eq!(resolve_node_to_raw_index(&top, &FxNodeId::container("1:0:0")), None);
    // No numeric segment at all.
    assert_eq!(resolve_node_to_raw_index(&top, &FxNodeId::container("x")), None);
    assert_eq!(resolve_node_to_raw_index(&top, &FxNodeId::from_guid("{NONE}")), None);
}

#[test]
fn new_container_moves_only_to_a_valid_other_index() {
    assert_eq!(container_placement(3, 1, 4), (true, 1));
    assert_eq!(container_placement(3, 3, 4), (false, 3));
    assert_eq!(container_placement(3, 9, 4), (false, 3));
}

#[test]
fn move_into_non_empty_container_targets_first_child() {
    assert_eq!(move_into_plan(5, 2, Some(0x2000012), 1, 2), Ok((0x2000012, 2)));
    assert_eq!(move_into_plan(1, 2, Some(0x2000012), 1, 2), Ok((0x2000012, 1)));
    assert_eq!(move_into_plan(0, 2, None, 1, 2), Err("container_item.0 not found".to_string()));
}

#[test]
fn move_into_empty_container_uses_the_stride_slot() {
    assert_eq!(CONTAINER_BASE, 0x2000000);
    assert_eq!(move_into_plan(4, 0, None, 1, 3), Ok((0x2000000 + 1 + 3 + 1, 0)));
}

#[test]
fn shuffle_stays_within_children() {
    assert_eq!(shuffle_position(1, 3), 1);
    assert_eq!(shuffle_position(5, 3), 2);
    assert_eq!(shuffle_position(0, 1), 0);
}

#[test]
fn child_count_check_reports_both_counts() {
    assert_eq!(verify_container_child_count(2, 3, 3), Ok(()));
    assert_eq!(
        verify_container_child_count(2, 1, 3),
        Err("container at index 2 has 1 children, expected 3".to_string())
    );
}

#[test]
fn moved_out_check_expects_one_more_fx() {
    assert_eq!(verify_moved_out(4, 5), Ok(()));
    assert_eq!(
        verify_moved_out(4, 4),
        Err("move_from_container: top-level FX count 4 -> 4 (expected 5)".to_string())
    );
}

#[test]
fn container_names_fall_back() {
    assert_eq!(container_display_name(Some("Drums"), Some("Container")), "Drums");
    assert_eq!(container_display_name(Some(""), Some("VST: Thing")), "VST: Thing");
    assert_eq!(container_display_name(None, None), "Container");
}

#[test]
fn config_counts_default_to_zero() {
    assert_eq!(config_u32(Some("12")), 12);
    assert_eq!(config_u32(Some("abc")), 0);
    assert_eq!(config_u32(None), 0);
}

#[test]
fn containers_are_recognised_three_ways() {
    assert!(is_container_fx(Some("Container"), None, None));
    assert!(is_container_fx(Some("VST"), Some("0"), None));
    assert!(is_container_fx(None, Some("abc"), Some("Container")));
    assert!(!is_container_fx(Some("VST"), Some("abc"), Some("VST")));
    assert!(!is_container_fx(None, None, None));
}

#[test]
fn channel_config_text_is_parsed_word_by_word() {
    assert_eq!(parse_channel_config(Some("2 0 7")), (2, 0, 7));
    assert_eq!(parse_channel_config(Some("  4\t1  ")), (4, 1, 0));
    assert_eq!(parse_channel_config(Some("x 3")), (0, 3, 0));
    assert_eq!(parse_channel_config(Some("")), (0, 0, 0));
    assert_eq!(parse_channel_config(None), (0, 0, 0));
}

#[test]
fn channel_config_value_joins_count_and_mode() {
    assert_eq!(channel_config_value(2, 1), "2 1");
    assert_eq!(channel_config_value(64, 0), "64 0");
}

fn labels(v: &[Option<&str>]) -> Vec<Option<String>> {
    v.iter().map(|o| o.map(|s| s.to_string())).collect()
}

#[test]
fn probe_counts_label_changes() {
    let l = labels(&[Some("Off"), Some("Off"), None, Some("On"), Some("On")]);
    assert_eq!(probe_step_count(&l), Some(2));
    let l = labels(&[Some("A"), Some("B"), Some("A")]);
    assert_eq!(probe_step_count(&l), Some(3));
}

#[test]
fn probe_needs_at_least_two_steps() {
    assert_eq!(probe_step_count(&labels(&[Some("x"), Some("x")])), None);
    assert_eq!(probe_step_count(&labels(&[Some(""), Some("")])), None);
    assert_eq!(probe_step_count(&labels(&[None, None])), None);
}
