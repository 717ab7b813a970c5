use daw_reaper::fx::{
    container_path_segments, enclose_nodes, find_container_to_explode, fx_location,
    insert_children, match_enclose_nodes, parse_fx_type, pins_to_save, plan_container_path,
    restore_pin_plan, silence_scan_pins, ChainNode, ContainerPathPlan, ExplodeError, FxLocation,
    FxNodeId, FxType, ReaperFx, SECOND_PIN_BANK,
};

#[test]
fn fx_types_from_sub_type() {
    assert_eq!(parse_fx_type("VST"), FxType::Vst2);
    assert_eq!(parse_fx_type("VSTi"), FxType::Vst2);
    assert_eq!(parse_fx_type("VST3i"), FxType::Vst3);
    assert_eq!(parse_fx_type("AU"), FxType::Au);
    assert_eq!(parse_fx_type("JS"), FxType::Js);
    assert_eq!(parse_fx_type("CLAPi"), FxType::Clap);
    assert_eq!(parse_fx_type("LV2"), FxType::Unknown);
    assert_eq!(parse_fx_type("vst"), FxType::Unknown);
}

#[test]
fn fx_locations() {
    let _ = ReaperFx::new();
    assert_eq!(fx_location(3, true), FxLocation::InputFxChain(3));
    assert_eq!(fx_location(3, false), FxLocation::NormalFxChain(3));
}

#[test]
fn node_ids() {
    let c = FxNodeId::container("2:1");
    assert_eq!(c.as_str(), "container:2:1");
    assert!(c.is_container());
    let p = FxNodeId::from_guid("{ABC}");
    assert_eq!(p.as_str(), "{ABC}");
    assert!(!p.is_container());
}

#[test]
fn container_paths_parse_numeric_segments() {
    assert_eq!(container_path_segments(&FxNodeId::container("2:1")), Some(vec![2, 1]));
    assert_eq!(container_path_segments(&FxNodeId::container("4:x:0")), Some(vec![4, 0]));
    assert_eq!(container_path_segments(&FxNodeId::from_guid("{A}")), None);
}

#[test]
fn container_path_plans() {
    assert!(matches!(plan_container_path(&[], 3), ContainerPathPlan::Unresolvable));
    assert!(matches!(plan_container_path(&[3], 3), ContainerPathPlan::Unresolvable));
    assert!(matches!(plan_container_path(&[2], 3), ContainerPathPlan::TopLevel(2)));
    match plan_container_path(&[1, 0, 4], 3) {
        ContainerPathPlan::Walk { top, child_positions } => {
            assert_eq!(top, 1);
            assert_eq!(child_positions, vec![0, 4]);
        }
        _ => panic!("expected a walk"),
    }
}

fn node(is_container: bool, fxid: Option<&str>) -> ChainNode {
    ChainNode { is_container, fxid: fxid.map(|s| s.to_string()) }
}

#[test]
fn enclose_matches_plugin_guids_case_insensitively() {
    let nodes = vec![
        node(false, Some("{AAAA}")),
        node(false, Some("{BBBB}")),
        node(true, Some("{CCCC}")),
        node(false, Some("{DDDD}")),
    ];
    let ids = vec![
        FxNodeId::from_guid("dddd"),
        FxNodeId::container("2"),
        FxNodeId::from_guid("BBBB"),
    ];
    assert_eq!(match_enclose_nodes(&nodes, &ids), vec![1, 3]);
}

#[test]
fn enclose_splits_nodes_and_places_container_at_first() {
    let nodes = vec!["a", "b", "c", "d"];
    let (rest, children, at) = enclose_nodes(nodes, &[1, 3]).unwrap();
    assert_eq!(rest, vec!["a", "c"]);
    assert_eq!(children, vec!["b", "d"]);
    assert_eq!(at, 1);
    assert!(enclose_nodes(vec!["x"], &[]).is_none());
}

#[test]
fn inserting_children_back() {
    assert_eq!(insert_children(vec![1, 2, 3], 1, vec![9, 8]), vec![1, 9, 8, 2, 3]);
    assert_eq!(insert_children(vec![1], 1, vec![5]), vec![1, 5]);
}

#[test]
fn explode_finds_container_by_fxid_or_path() {
    let nodes = vec![node(false, Some("{P}")), node(true, Some("{C1}")), node(true, None)];
    assert_eq!(find_container_to_explode(&FxNodeId::container("1"), &nodes), Ok(1));
    assert_eq!(find_container_to_explode(&FxNodeId::container("2"), &nodes), Ok(2));
    assert_eq!(find_container_to_explode(&FxNodeId::from_guid("c1"), &nodes), Ok(1));
    assert_eq!(find_container_to_explode(&FxNodeId::container("0"), &nodes), Err(ExplodeError::ContainerNotFound));
    assert_eq!(find_container_to_explode(&FxNodeId::container("x"), &nodes), Err(ExplodeError::InvalidContainerPath));
    assert_eq!(find_container_to_explode(&FxNodeId::from_guid("{P}"), &nodes), Err(ExplodeError::ContainerNotFound));
}

#[test]
fn pin_scan_covers_both_banks() {
    let pins = silence_scan_pins();
    assert_eq!(pins.len(), 128);
    assert_eq!(pins[0], 0);
    assert_eq!(pins[63], 63);
    assert_eq!(pins[64], SECOND_PIN_BANK);
    assert_eq!(pins[127], SECOND_PIN_BANK + 63);
}

#[test]
fn saving_and_restoring_pins() {
    let readings = vec![(0, 1, 0), (1, 0, 0), (2, 0, 4)];
    assert_eq!(pins_to_save(&readings), vec![(0, 1, 0), (2, 0, 4)]);
    assert_eq!(restore_pin_plan(&[]), vec![(0, 1, 0), (1, 2, 0)]);
    assert_eq!(restore_pin_plan(&[(2, 0, 4)]), vec![(2, 0, 4)]);
}

#[test]
fn explode_after_enclose_restores_the_chain() {
    let chain = vec!["A", "B", "C", "D", "E"];
    let (rest, children, at) = enclose_nodes(chain.clone(), &[1, 2, 3]).unwrap();
    assert_eq!(rest, vec!["A", "E"]);
    assert_eq!(children, vec!["B", "C", "D"]);
    assert_eq!(at, 1);
    assert_eq!(insert_children(rest, at, children), chain);
}

#[test]
fn explode_after_enclosing_a_gap_regroups() {
    let chain = vec!["A", "B", "C"];
    let (rest, children, at) = enclose_nodes(chain, &[0, 2]).unwrap();
    assert_eq!(insert_children(rest, at, children), vec!["A", "C", "B"]);
}
