use daw_reaper::accessor::ReaperAudioAccessor;
use daw_reaper::main_thread::{MainThreadQueue, TimerCallbacks};
use daw_reaper::plugins::{
    derive_plugin_name, has_plugin_extension, is_plugin_extension, library_error,
    missing_entry_error, not_found_error, plugin_name_from_stem, LoadedPlugins,
    PluginLoadResult, ReaperPluginLoader,
};
use daw_reaper::routing::RoutedHandler;
use daw_reaper::services::{
    c_string_ok, choose_sample_rate, ext_state_request_ok, ext_state_write_ok, find_by_id,
    in_lane, ini_path_or_default, input_channel_label, marker_color, reported_measure,
    resource_path_or_default, stuff_midi_mode, MeasureMode, ReaperAudioEngine, ReaperExtState,
    ReaperHealth, ReaperLiveMidi, ReaperMarker, ReaperPeak, ReaperPositionConversion,
    ReaperRegion, ReaperResource, StuffMidiTarget,
};

#[test]
fn services_construct() {
    let _ = (
        ReaperAudioEngine::new(),
        ReaperExtState::new(),
        ReaperLiveMidi::new(),
        ReaperMarker::new(),
        ReaperRegion::new(),
        ReaperPeak::new(),
        ReaperPositionConversion::new(),
        ReaperResource::new(),
        ReaperPluginLoader::new(),
    );
    assert!(ReaperHealth::new().ping());
}

#[test]
fn ext_state_strings_without_nul_only() {
    assert!(c_string_ok("section"));
    assert!(!c_string_ok("bad\0key"));
    assert!(ext_state_request_ok("s", "k"));
    assert!(!ext_state_request_ok("s", "k\0"));
    assert!(ext_state_write_ok("s", "k", ""));
    assert!(!ext_state_write_ok("s", "k", "\0"));
}

#[test]
fn midi_injection_modes() {
    assert_eq!(stuff_midi_mode(StuffMidiTarget::VirtualMidiKeyboard), 0);
    assert_eq!(stuff_midi_mode(StuffMidiTarget::ControlInput), 1);
    assert_eq!(stuff_midi_mode(StuffMidiTarget::VirtualMidiKeyboardCurrentChannel), 2);
}

#[test]
fn markers() {
    assert_eq!(marker_color(0), None);
    assert_eq!(marker_color(0x1000000), Some(0x1000000));
    assert_eq!(marker_color(-1), Some(u32::MAX));
    let ids = [Some(3), None, Some(7), Some(7)];
    assert_eq!(find_by_id(&ids, 7), Some(2));
    assert_eq!(find_by_id(&ids, 4), None);
    assert_eq!(in_lane(&[Some(1), None, Some(1), Some(2)], 1), vec![0, 2]);
}

#[test]
fn sample_rate_choice() {
    assert_eq!(choose_sample_rate(Some("48000"), Some(96000)), 48000);
    assert_eq!(choose_sample_rate(Some("0"), Some(96000)), 96000);
    assert_eq!(choose_sample_rate(Some("fast"), None), 44100);
    assert_eq!(choose_sample_rate(None, None), 44100);
    assert_eq!(input_channel_label(0), "Input 1");
    assert_eq!(input_channel_label(9), "Input 10");
}

#[test]
fn measures_and_paths() {
    assert_eq!(reported_measure(MeasureMode::IgnoreMeasure, 5), 0);
    assert_eq!(reported_measure(MeasureMode::FromMeasureAtIndex(2), 5), -3);
    assert_eq!(resource_path_or_default(None), ".");
    assert_eq!(resource_path_or_default(Some("/r".to_string())), "/r");
    assert_eq!(ini_path_or_default(None), "reaper.ini");
}

#[test]
fn accessor_ids_are_handed_out_in_order() {
    let mut acc = ReaperAudioAccessor::new();
    assert_eq!(acc.store(0), None);
    assert_eq!(acc.store(0x1000), Some("aa-1".to_string()));
    assert_eq!(acc.store(0x2000), Some("aa-2".to_string()));
    assert_eq!(acc.get_ptr("aa-1"), Some(0x1000));
    assert_eq!(acc.remove_ptr("aa-1"), Some(0x1000));
    assert_eq!(acc.get_ptr("aa-1"), None);
    assert_eq!(acc.remove_ptr("aa-1"), None);
    assert_eq!(acc.store(0x3000), Some("aa-3".to_string()));
    assert_eq!(acc.get_ptr("aa-2"), Some(0x2000));
}

#[test]
fn plugin_names_and_extensions() {
    assert_eq!(derive_plugin_name("/plugins/FX/fts-tuner.clap"), "fts-tuner");
    assert_eq!(derive_plugin_name(""), "unknown");
    assert_eq!(plugin_name_from_stem(None), "unknown");
    assert!(is_plugin_extension("clap"));
    assert!(is_plugin_extension("so"));
    assert!(is_plugin_extension("dylib"));
    assert!(!is_plugin_extension("vst3"));
    assert!(has_plugin_extension("/x/y.so"));
    assert!(!has_plugin_extension("/x/y.txt"));
}

fn answer(r: &PluginLoadResult) -> String {
    match r {
        PluginLoadResult::Loaded => "loaded".to_string(),
        PluginLoadResult::AlreadyLoaded => "already".to_string(),
        PluginLoadResult::Error(m) => m.clone(),
    }
}

#[test]
fn plugin_load_steps() {
    let mut loaded = LoadedPlugins::new();
    assert_eq!(
        answer(&loaded.precheck("/p/a.clap", false, true).unwrap()),
        "Plugin context not initialized — set_plugin_context() not called"
    );
    assert_eq!(answer(&loaded.precheck("/p/a.clap", true, false).unwrap()), "Plugin not found: /p/a.clap");
    assert!(loaded.precheck("/p/a.clap", true, true).is_none());
    assert_eq!(answer(&loaded.finish_load("/p/a.clap", 0)), "ReaperPluginEntry returned 0");
    assert!(!loaded.is_loaded("/p/a.clap"));
    assert_eq!(answer(&loaded.finish_load("/p/a.clap", 1)), "loaded");
    assert!(loaded.is_loaded("/p/a.clap"));
    assert_eq!(answer(&loaded.precheck("/p/a.clap", true, true).unwrap()), "already");
    let list = loaded.list_loaded();
    assert_eq!(list, vec![("/p/a.clap".to_string(), "a".to_string())]);
    assert_eq!(answer(&library_error("no such file")), "Failed to load library: no such file");
    assert_eq!(answer(&missing_entry_error("undefined")), "ReaperPluginEntry symbol not found: undefined");
    assert_eq!(answer(&not_found_error("/q")), "Plugin not found: /q");
}

#[test]
fn eager_loading_skips_loaded_and_foreign_files() {
    let mut loaded = LoadedPlugins::new();
    assert!(loaded.eager_candidate("clap", "/fx/a.clap"));
    assert!(!loaded.eager_candidate("vst3", "/fx/b.vst3"));
    assert!(!loaded.finish_eager_load("/fx/a.clap", 0));
    assert!(loaded.finish_eager_load("/fx/a.clap", 1));
    assert!(!loaded.eager_candidate("clap", "/fx/a.clap"));
}

#[test]
fn routing_later_registration_wins() {
    let router: RoutedHandler<&str> = RoutedHandler::new();
    assert_eq!(router.route(1), None);
    let router = router.with(&[1, 2], "project").with(&[2, 3], "track");
    assert_eq!(router.route(1), Some(0));
    assert_eq!(router.route(2), Some(1));
    assert_eq!(router.route(3), Some(1));
    assert_eq!(router.route(4), None);
    assert_eq!(*router.handler(1), "track");
}

#[test]
fn main_thread_queue_keeps_order_and_drops_without_support() {
    let mut q: MainThreadQueue<u32> = MainThreadQueue::new();
    assert!(!q.can_query());
    q.run(1);
    assert!(q.take_pending().is_empty());
    q.set_task_support();
    q.run(2);
    q.run(3);
    assert!(q.can_query());
    assert_eq!(q.take_pending(), vec![2, 3]);
    assert!(q.take_pending().is_empty());
}

#[test]
fn timer_callbacks_fire_in_registration_order() {
    let mut t: TimerCallbacks<&str> = TimerCallbacks::new();
    t.register_internal_timer("first");
    t.register_internal_timer("second");
    assert_eq!(t.callbacks(), &["first", "second"]);
}

#[test]
fn plain_paths_give_their_stem_and_extension() {
    assert_eq!(derive_plugin_name("/u/FX/fts-guide.clap"), "fts-guide");
    assert_eq!(derive_plugin_name("/"), "unknown");
    assert_eq!(derive_plugin_name("lib/a.tar.so"), "a.tar");
    assert_eq!(derive_plugin_name("/x/.hidden"), ".hidden");
    assert_eq!(derive_plugin_name("/x/y/.."), "unknown");
    assert!(has_plugin_extension("lib/a.tar.so"));
    assert!(has_plugin_extension("/u/FX/fts-guide.clap/"));
    assert!(!has_plugin_extension("/x/.so"));
    assert!(!has_plugin_extension("/x.so/readme"));
}

#[test]
fn loaded_plugin_is_recorded_under_its_stem() {
    let mut loaded = LoadedPlugins::new();
    assert_eq!(answer(&loaded.finish_load("/u/FX/fts-guide.clap", 1)), "loaded");
    assert!(loaded.finish_eager_load("/u/FX/other.so", 1));
    assert_eq!(
        loaded.list_loaded(),
        vec![
            ("/u/FX/fts-guide.clap".to_string(), "fts-guide".to_string()),
            ("/u/FX/other.so".to_string(), "other".to_string()),
        ]
    );
}
