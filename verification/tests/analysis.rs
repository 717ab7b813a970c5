use daw_reaper::analysis::{
    chart_markers, find_track_by_tag, import_notes, no_midi_take_error, no_track_error,
    prepare_chart_source, source_fingerprint, track_display_name, ImportNote, ReaperMidiAnalysis,
    SourceNote,
    MIN_CHORD_DURATION_PPQ, REAPER_PPQ,
};

fn names(v: &[Option<&str>]) -> Vec<Option<String>> {
    v.iter().map(|n| n.map(|s| s.to_string())).collect()
}

#[test]
fn track_by_tag() {
    let _ = ReaperMidiAnalysis::new();
    let tracks = names(&[Some("Drums"), Some("Keys (Guide)"), Some("Bass")]);
    assert_eq!(find_track_by_tag(&tracks, Some("guide")), Some(1));
    assert_eq!(find_track_by_tag(&tracks, Some("BASS")), Some(2));
    assert_eq!(find_track_by_tag(&tracks, None), Some(0));
    assert_eq!(find_track_by_tag(&tracks, Some("vox")), None);
    let unnamed_first = names(&[None, Some("Guide")]);
    assert_eq!(find_track_by_tag(&unnamed_first, Some("guide")), None);
}

#[test]
fn notes_in_absolute_ticks() {
    assert_eq!(REAPER_PPQ, 960);
    assert_eq!(MIN_CHORD_DURATION_PPQ, 120);
    let notes = vec![
        SourceNote { pitch: 60, start_ppq: 0, end_ppq: 480, channel: 0, velocity: 100 },
        SourceNote { pitch: 64, start_ppq: -10, end_ppq: 240, channel: 1, velocity: 90 },
        SourceNote { pitch: 67, start_ppq: 500, end_ppq: 400, channel: 2, velocity: 80 },
    ];
    let out = import_notes(&notes, 1000);
    assert_eq!(
        out,
        vec![
            ImportNote { pitch: 60, velocity: 100, start_tick: 1000, duration_ticks: 480, channel: 0 },
            ImportNote { pitch: 64, velocity: 90, start_tick: 1000, duration_ticks: 240, channel: 1 },
            ImportNote { pitch: 67, velocity: 80, start_tick: 1500, duration_ticks: 0, channel: 2 },
        ]
    );
}

#[test]
fn chart_markers_are_named_and_stably_sorted() {
    let raw = vec![
        (960, Some("Chorus".to_string())),
        (0, Some("Intro".to_string())),
        (960, Some("Hit".to_string())),
        (10, None),
        (20, Some(String::new())),
    ];
    let out = chart_markers(raw);
    let seen: Vec<(u32, &str)> = out.iter().map(|m| (m.tick, m.text.as_str())).collect();
    assert_eq!(seen, vec![(0, "Intro"), (960, "Chorus"), (960, "Hit")]);
}

#[test]
fn analysis_texts() {
    assert_eq!(track_display_name(None), "Unnamed Track");
    assert_eq!(track_display_name(Some("Keys")), "Keys");
    assert_eq!(no_track_error(None), "No track matched tag '<none>'");
    assert_eq!(no_track_error(Some("gtr")), "No track matched tag 'gtr'");
    assert_eq!(no_midi_take_error("Keys"), "Track 'Keys' has no MIDI take");
}

#[test]
fn fingerprint_follows_the_source() {
    let notes = vec![ImportNote { pitch: 60, velocity: 100, start_tick: 0, duration_ticks: 480, channel: 0 }];
    let a = source_fingerprint("Keys", &notes, &[]);
    let b = source_fingerprint("Keys", &notes, &[]);
    let c = source_fingerprint("Bass", &notes, &[]);
    assert_eq!(a, b);
    assert_ne!(a, c);
    assert!(a.chars().all(|ch| ch.is_ascii_hexdigit() && !ch.is_ascii_uppercase()));
}

#[test]
fn fingerprint_follows_every_field_and_their_order() {
    let note = ImportNote { pitch: 60, velocity: 100, start_tick: 0, duration_ticks: 480, channel: 0 };
    let swapped = ImportNote { pitch: 100, velocity: 60, ..note };
    let base = source_fingerprint("Keys", &[note], &[]);
    assert_ne!(base, source_fingerprint("Keys", &[swapped], &[]));
    let other = ImportNote { start_tick: 960, ..note };
    assert_ne!(
        source_fingerprint("Keys", &[note, other], &[]),
        source_fingerprint("Keys", &[other, note], &[])
    );
    let markers = chart_markers(vec![(0, Some("Verse".to_string()))]);
    assert_ne!(base, source_fingerprint("Keys", &[note], &markers));
}

#[test]
fn chart_source_needs_notes() {
    match prepare_chart_source("Keys", &[], 0, vec![]) {
        Err(m) => assert_eq!(m, "No MIDI notes found"),
        Ok(_) => panic!("expected an error"),
    }
    let notes = [SourceNote { pitch: 60, start_ppq: 10, end_ppq: 490, channel: 1, velocity: 90 }];
    let raw = vec![(960, Some("B".to_string())), (0, None), (480, Some("A".to_string()))];
    let source = prepare_chart_source("Keys", &notes, 100, raw).ok().unwrap();
    assert_eq!(
        source.notes,
        vec![ImportNote { pitch: 60, velocity: 90, start_tick: 110, duration_ticks: 480, channel: 1 }]
    );
    let texts: Vec<&str> = source.markers.iter().map(|m| m.text.as_str()).collect();
    assert_eq!(texts, vec!["A", "B"]);
    let markers = chart_markers(vec![(960, Some("B".to_string())), (480, Some("A".to_string()))]);
    assert_eq!(source.fingerprint, source_fingerprint("Keys", &source.notes, &markers));
}
