use std::hash::{Hash, Hasher};
use daw_reaper::project::{
    convert_undo_scope, find_new_tab, find_tab_by_guid, guid_from_parts, is_routing_project,
    name_from_stem, project_guid, project_info, project_name, tab_switch, undo_flags_or_all,
    visible_projects, NewTab, ProjectInfo, ProjectPart, ReaperProject, TabSwitch, UndoFlags,
    UndoLabelStash, UndoScope, MAX_PROJECT_TABS, SERVICE_TAB_SCAN,
};

fn default_hash(s: &str) -> u64 {
    let mut h = std::collections::hash_map::DefaultHasher::new();
    s.hash(&mut h);
    h.finish()
}

#[test]
fn project_names() {
    let _ = ReaperProject::new();
    assert_eq!(project_name(""), "Untitled");
    assert_eq!(project_name("/home/me/songs/Demo.rpp"), "Demo");
    assert_eq!(name_from_stem("/x/y.rpp", Some("y".to_string())), "y");
    assert_eq!(name_from_stem("/x/", None), "Untitled");
    assert_eq!(name_from_stem("", Some("ignored".to_string())), "Untitled");
}

#[test]
fn guid_prefers_native_then_path_hash_then_address() {
    assert_eq!(guid_from_parts(Some("{NATIVE}"), "/a.rpp", 0xabc, 16), "{NATIVE}");
    assert_eq!(guid_from_parts(Some(""), "/a.rpp", 0xabc, 16), "abc");
    assert_eq!(guid_from_parts(None, "", 0xabc, 255), "reaper-ptr-ff");
    assert_eq!(guid_from_parts(None, "", 0, 0), "reaper-ptr-0");
    assert_eq!(project_guid(None, "/a.rpp", 1), format!("{:x}", default_hash("/a.rpp")));
    assert_eq!(project_guid(Some("{G}"), "/a.rpp", 1), "{G}");
}

#[test]
fn project_info_fields() {
    let info = project_info(None, "/songs/Live Set.rpp", 0x10);
    assert_eq!(info.name, "Live Set");
    assert_eq!(info.path, "/songs/Live Set.rpp");
    assert_eq!(info.guid, format!("{:x}", default_hash("/songs/Live Set.rpp")));
    let unsaved = project_info(None, "", 0x10);
    assert_eq!(unsaved.name, "Untitled");
    assert_eq!(unsaved.guid, "reaper-ptr-10");
}

fn info(guid: &str, name: &str) -> ProjectInfo {
    ProjectInfo { guid: guid.to_string(), name: name.to_string(), path: String::new() }
}

#[test]
fn routing_projects_are_not_listed() {
    assert!(is_routing_project("my fts-routing rig"));
    assert!(is_routing_project("FTS-ROUTING"));
    assert!(!is_routing_project("FTS ROUTING"));
    let listed = visible_projects(vec![info("1", "Song"), info("2", "fts-Routing"), info("3", "Other")]);
    let guids: Vec<&str> = listed.iter().map(|p| p.guid.as_str()).collect();
    assert_eq!(guids, vec!["1", "3"]);
}

#[test]
fn tab_lookup_respects_limit() {
    let tabs = vec!["a".to_string(), "b".to_string(), "b".to_string()];
    assert_eq!(find_tab_by_guid(&tabs, "b", MAX_PROJECT_TABS), Some(1));
    assert_eq!(find_tab_by_guid(&tabs, "b", 1), None);
    assert_eq!(find_tab_by_guid(&tabs, "z", SERVICE_TAB_SCAN), None);
}

#[test]
fn tab_switch_takes_the_shorter_way() {
    assert_eq!(tab_switch(2, 2, 5), TabSwitch::Stay);
    assert_eq!(tab_switch(0, 1, 5), TabSwitch::Forward(1));
    assert_eq!(tab_switch(0, 4, 5), TabSwitch::Backward(1));
    assert_eq!(tab_switch(4, 0, 5), TabSwitch::Forward(1));
    assert_eq!(tab_switch(0, 2, 4), TabSwitch::Forward(2));
    assert_eq!(tab_switch(3, 1, 4), TabSwitch::Forward(2));
    assert_eq!(tab_switch(1, 4, 6), TabSwitch::Forward(3));
    assert_eq!(tab_switch(1, 5, 6), TabSwitch::Backward(2));
}

#[test]
fn new_tab_is_the_first_unknown_project() {
    assert_eq!(find_new_tab(&[10, 20], &[10, 30, 20]), NewTab::Found(1));
    assert_eq!(find_new_tab(&[10, 20, 10], &[10, 20]), NewTab::Fallback(2));
    assert_eq!(find_new_tab(&[], &[]), NewTab::Fallback(0));
}

#[test]
fn undo_label_stash() {
    let mut stash = UndoLabelStash::new();
    stash.begin("Rename track".to_string());
    assert_eq!(stash.end(String::new()), "Rename track");
    assert_eq!(stash.end(String::new()), "FTS action");
    stash.begin("Kept".to_string());
    assert_eq!(stash.end("Explicit".to_string()), "Explicit");
    assert_eq!(stash.end(String::new()), "Kept");
}

#[test]
fn undo_scope_flags() {
    assert_eq!(convert_undo_scope(&UndoScope::All), UndoFlags::All);
    assert_eq!(
        convert_undo_scope(&UndoScope::Scoped(vec![ProjectPart::Fx, ProjectPart::Items, ProjectPart::Fx])),
        UndoFlags::Scoped(6)
    );
    assert_eq!(
        convert_undo_scope(&UndoScope::Scoped(vec![
            ProjectPart::Freeze,
            ProjectPart::TrackCfg,
            ProjectPart::MiscCfg
        ])),
        UndoFlags::Scoped(25)
    );
    assert_eq!(convert_undo_scope(&UndoScope::Scoped(vec![])), UndoFlags::Scoped(0));
    assert_eq!(undo_flags_or_all(&None), UndoFlags::All);
}
