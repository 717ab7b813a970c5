use daw_reaper::action_registry::ReaperActionRegistry;
use daw_reaper::fx_events::{ChainSnapshot, FxChainCache, FxEvent, FxSnapshot};
use daw_reaper::fx_tree::{raw_index_to_node_id, read_container_states, resolve_plugin_guid, FxTreeNode};
use daw_reaper::menu_layout::{group_actions, menu_groups, menu_layout, name_less};

fn registry() -> ReaperActionRegistry {
    let mut reg = ReaperActionRegistry::new();
    let actions = [
        ("FTS_TRANSPORT_STOP", "Stop", 1),
        ("FTS_SESSION_B", "beta", 2),
        ("FTS_TRANSPORT_PLAY", "Play", 3),
        ("FTS_SESSION_A", "Alpha", 4),
        ("FTS_TRANSPORT_PLAY2", "Play", 5),
    ];
    for (name, desc, id) in actions {
        reg.begin_registration(name, false);
        reg.finish_registration(name, desc, true, Some(id));
    }
    reg
}

#[test]
fn names_order_by_code_point() {
    assert!(name_less("Alpha", "beta"));
    assert!(!name_less("beta", "Alpha"));
    assert!(name_less("Play", "Player"));
    assert!(!name_less("Play", "Play"));
    assert!(name_less("", "a"));
}

#[test]
fn menu_is_grouped_and_sorted() {
    let reg = registry();
    let menu = reg.menu_actions();
    assert_eq!(menu_groups(menu), vec!["Session".to_string(), "Transport".to_string()]);
    let transport_actions = group_actions(menu, "Transport");
    let transport: Vec<&str> = transport_actions.iter().map(|a| a.command_name.as_str()).collect();
    assert_eq!(transport, vec!["FTS_TRANSPORT_PLAY", "FTS_TRANSPORT_PLAY2", "FTS_TRANSPORT_STOP"]);
    let layout = menu_layout(menu);
    assert_eq!(layout.len(), 2);
    assert_eq!(layout[0].name, "Session");
    let session: Vec<&str> = layout[0].actions.iter().map(|a| a.display_name.as_str()).collect();
    assert_eq!(session, vec!["Alpha", "beta"]);
    assert_eq!(layout[1].actions.len(), 3);
}

fn plugin(raw: u32, guid: Option<&str>) -> FxTreeNode {
    FxTreeNode::Plugin { raw, guid: guid.map(|g| g.to_string()) }
}

fn container(raw: u32, name: &str, children: Vec<(u32, FxTreeNode)>) -> FxTreeNode {
    FxTreeNode::Container {
        raw,
        guid: Some(format!("C{}", raw)),
        name: name.to_string(),
        routing_mode: 0,
        child_count: children.len() as u32,
        children,
    }
}

fn chain() -> Vec<FxTreeNode> {
    vec![
        plugin(0, Some("top-a")),
        container(1, "Outer", vec![
            (0, plugin(0x2000010, Some("inner-a"))),
            (1, container(0x2000020, "Inner", vec![(0, plugin(0x2000030, Some("deep")))])),
            (2, plugin(0x2000040, None)),
        ]),
        plugin(2, Some("top-b")),
    ]
}

#[test]
fn plugins_found_by_guid_top_level_first() {
    let top = chain();
    assert_eq!(resolve_plugin_guid(&top, "top-b"), Some(2));
    assert_eq!(resolve_plugin_guid(&top, "C1"), Some(1));
    assert_eq!(resolve_plugin_guid(&top, "deep"), Some(0x2000030));
    assert_eq!(resolve_plugin_guid(&top, "inner-a"), Some(0x2000010));
    assert_eq!(resolve_plugin_guid(&top, "missing"), None);
}

#[test]
fn raw_indices_map_to_node_ids() {
    let top = chain();
    let id = |raw: u32| raw_index_to_node_id(&top, raw).map(|n| n.as_str().to_string());
    assert_eq!(id(0), Some("top-a".to_string()));
    assert_eq!(id(1), Some("container:1".to_string()));
    assert_eq!(id(0x2000020), Some("container:1:1".to_string()));
    assert_eq!(id(0x2000030), Some("deep".to_string()));
    assert_eq!(id(0x2000040), None);
    assert_eq!(id(99), None);
}

#[test]
fn container_snapshots_inner_first() {
    let snaps = read_container_states(&chain());
    assert_eq!(snaps.len(), 2);
    assert_eq!(snaps[0].node_id, "container:1:1");
    assert_eq!(snaps[0].child_ids, vec!["deep".to_string()]);
    assert_eq!(snaps[1].node_id, "container:1");
    assert_eq!(snaps[1].name, "Outer");
    assert_eq!(
        snaps[1].child_ids,
        vec!["inner-a".to_string(), "c:1:1".to_string(), String::new()]
    );
}

fn snapshot(enabled: bool) -> ChainSnapshot {
    ChainSnapshot {
        fx_states: vec![FxSnapshot { guid: "a".to_string(), name: "EQ".to_string(), index: 0, enabled, param_count: 1 }],
        containers: read_container_states(&chain()),
    }
}

#[test]
fn cache_reports_changes_from_second_poll_on() {
    let mut cache = FxChainCache::new();
    assert!(cache.poll("proj/track", snapshot(true)).is_empty());
    let events = cache.poll("proj/track", snapshot(false));
    assert_eq!(events.len(), 2);
    assert!(events.iter().all(|e| e.context == "proj/track"));
    assert!(matches!(&events[0].event, FxEvent::EnabledChanged { enabled: false, .. }));
    assert!(matches!(&events[1].event, FxEvent::CompareParameters { .. }));
    assert!(cache.poll("other", snapshot(false)).is_empty());
    let again = cache.poll("proj/track", snapshot(false));
    assert_eq!(again.len(), 1);
}

#[test]
fn ascii_title_case_keeps_empty_words() {
    assert_eq!(daw_reaper::menu::titlecase_underscored("A__b_cD"), "A  B Cd");
    assert_eq!(daw_reaper::menu::titlecase_underscored(""), "");
    assert_eq!(daw_reaper::menu::titlecase_underscored("_x"), " X");
}
