use std::hash::{Hash, Hasher};
use daw_reaper::fx::FxType;
use daw_reaper::fx_events::{diff_chain, ChainSnapshot, ContainerSnapshot, FxEvent, FxSnapshot};
use daw_reaper::fx_state::{plan_chunk_targets, project_guid_string, ChainFx, ChunkOrigin};

fn fx(guid: &str, name: &str, index: u32, enabled: bool) -> FxSnapshot {
    FxSnapshot { guid: guid.to_string(), name: name.to_string(), index, enabled, param_count: 4 }
}

fn container(path: &str, name: &str, mode: u32, children: &[&str]) -> ContainerSnapshot {
    ContainerSnapshot {
        node_id: format!("container:{}", path),
        name: name.to_string(),
        routing_mode: mode,
        child_count: children.len() as u32,
        child_ids: children.iter().map(|c| c.to_string()).collect(),
    }
}

#[test]
fn unchanged_chain_only_compares_parameters() {
    let s = ChainSnapshot {
        fx_states: vec![fx("a", "EQ", 0, true), fx("b", "Comp", 1, true)],
        containers: vec![container("2", "Box", 0, &["c"])],
    };
    let events = diff_chain(&s, &s);
    assert_eq!(events.len(), 2);
    assert!(matches!(&events[0], FxEvent::CompareParameters { fx_guid, prev_position: 0, curr_position: 0 } if fx_guid == "a"));
    assert!(matches!(&events[1], FxEvent::CompareParameters { fx_guid, prev_position: 1, curr_position: 1 } if fx_guid == "b"));
}

#[test]
fn fx_added_removed_moved_and_bypassed() {
    let prev = ChainSnapshot {
        fx_states: vec![fx("a", "EQ", 0, true), fx("b", "Comp", 1, true), fx("c", "Gate", 2, true)],
        containers: vec![],
    };
    let curr = ChainSnapshot {
        fx_states: vec![fx("b", "Comp", 0, false), fx("a", "EQ", 1, true), fx("d", "Verb", 2, true)],
        containers: vec![],
    };
    let events = diff_chain(&prev, &curr);
    assert_eq!(events.len(), 7);
    assert!(matches!(&events[0], FxEvent::Removed { fx_guid } if fx_guid == "c"));
    assert!(matches!(&events[1], FxEvent::Added { guid, index: 2, name, plugin_name, plugin_type: FxType::Unknown, enabled: true, parameter_count: 4 } if guid == "d" && name == "Verb" && plugin_name == "Verb"));
    assert!(matches!(&events[2], FxEvent::EnabledChanged { fx_guid, enabled: false } if fx_guid == "b"));
    assert!(matches!(&events[3], FxEvent::Moved { fx_guid, old_index: 1, new_index: 0 } if fx_guid == "b"));
    assert!(matches!(&events[4], FxEvent::CompareParameters { prev_position: 1, curr_position: 0, .. }));
    assert!(matches!(&events[5], FxEvent::Moved { fx_guid, old_index: 0, new_index: 1 } if fx_guid == "a"));
    assert!(matches!(&events[6], FxEvent::CompareParameters { prev_position: 0, curr_position: 1, .. }));
}

#[test]
fn container_events() {
    let prev = ChainSnapshot {
        fx_states: vec![],
        containers: vec![
            container("0", "Drums", 0, &["k"]),
            container("1", "Old", 0, &[]),
            container("3", "Keep", 0, &["p", "c:3:1"]),
        ],
    };
    let curr = ChainSnapshot {
        fx_states: vec![],
        containers: vec![
            container("0", "Drums Bus", 1, &["k", "p"]),
            container("3", "Keep", 0, &["p", "c:3:1"]),
            container("5", "New", 0, &[]),
        ],
    };
    let events = diff_chain(&prev, &curr);
    assert_eq!(events.len(), 6);
    assert!(matches!(&events[0], FxEvent::ContainerCreated { container_id, name } if container_id.as_str() == "container:5" && name == "New"));
    assert!(matches!(&events[1], FxEvent::ContainerRemoved { container_id } if container_id.as_str() == "container:1"));
    assert!(matches!(&events[2], FxEvent::RoutingModeChanged { container_id, routing_mode: 1 } if container_id.as_str() == "container:0"));
    assert!(matches!(&events[3], FxEvent::ContainerRenamed { name, .. } if name == "Drums Bus"));
    match &events[4] {
        FxEvent::MovedToContainer { node_id, source_container, dest_container } => {
            assert_eq!(node_id.as_str(), "p");
            assert_eq!(source_container.as_ref().map(|s| s.as_str()), Some("container:3"));
            assert_eq!(dest_container.as_str(), "container:0");
        }
        _ => panic!("expected a move into a container"),
    }
    assert!(matches!(&events[5], FxEvent::TreeStructureChanged));
}

#[test]
fn chunks_match_by_guid_then_by_name_in_order() {
    let fxs = vec![
        ChainFx { guid: Some("g1".to_string()), name: "ReaEQ".to_string(), index: 0 },
        ChainFx { guid: Some("g2".to_string()), name: "ReaComp".to_string(), index: 1 },
        ChainFx { guid: None, name: "ReaComp".to_string(), index: 2 },
    ];
    let chunks = vec![
        ChunkOrigin { fx_guid: "other1".to_string(), plugin_name: "ReaComp".to_string() },
        ChunkOrigin { fx_guid: "g1".to_string(), plugin_name: "Whatever".to_string() },
        ChunkOrigin { fx_guid: "other2".to_string(), plugin_name: "ReaComp".to_string() },
        ChunkOrigin { fx_guid: "other3".to_string(), plugin_name: "ReaComp".to_string() },
        ChunkOrigin { fx_guid: "other4".to_string(), plugin_name: "Missing".to_string() },
    ];
    assert_eq!(plan_chunk_targets(&fxs, &chunks), vec![Some(1), Some(0), Some(2), None, None]);
}

#[test]
fn project_cache_key_is_hex_hash_of_path() {
    let mut h = std::collections::hash_map::DefaultHasher::new();
    "/songs/a.rpp".hash(&mut h);
    assert_eq!(project_guid_string("/songs/a.rpp"), format!("{:x}", h.finish()));
    assert_ne!(project_guid_string("/songs/a.rpp"), project_guid_string("/songs/b.rpp"));
}
