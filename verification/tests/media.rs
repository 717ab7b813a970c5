use daw_reaper::media::{
    active_take_index, beat_attach_timebase, find_item_by_guid, group_id_to_raw,
    item_color_from_raw, item_color_to_raw, item_lookup, midi_item_lookup, midi_take_lookup,
    new_note_indices, normalize_note_fields, proto_fade_to_reaper, reaper_fade_to_proto,
    BeatAttachMode, FadeShape, ItemLookup, ItemRef, ReaperItem, ReaperMidi, ReaperTake,
    TakeLookup, TakeRef,
};

#[test]
fn fade_shapes_round_trip() {
    let shapes = [
        FadeShape::Linear,
        FadeShape::FastStart,
        FadeShape::FastEnd,
        FadeShape::FastStartSteep,
        FadeShape::FastEndSteep,
        FadeShape::SlowStartEnd,
        FadeShape::SlowStartEndSteep,
    ];
    for (i, s) in shapes.iter().enumerate() {
        assert_eq!(proto_fade_to_reaper(*s), i as i32);
        assert_eq!(reaper_fade_to_proto(i as u8), *s);
    }
    assert_eq!(reaper_fade_to_proto(9), FadeShape::Linear);
}

#[test]
fn item_colors_and_groups() {
    let _ = (ReaperItem::new(), ReaperTake::new());
    assert_eq!(item_color_from_raw(0x01ff0000), Some(0x01ff0000));
    assert_eq!(item_color_from_raw(0), None);
    assert_eq!(item_color_from_raw(-5), None);
    assert_eq!(item_color_to_raw(Some(0x01ff0000)), 0x01ff0000);
    assert_eq!(item_color_to_raw(None), 0);
    assert_eq!(item_color_to_raw(Some(u32::MAX)), -1);
    assert_eq!(group_id_to_raw(Some(3)), 3);
    assert_eq!(group_id_to_raw(None), 0);
    assert_eq!(beat_attach_timebase(BeatAttachMode::Time), 0);
    assert_eq!(beat_attach_timebase(BeatAttachMode::Beats), 1);
    assert_eq!(beat_attach_timebase(BeatAttachMode::BeatsPositionOnly), 2);
}

#[test]
fn item_and_take_lookups() {
    assert_eq!(item_lookup(&ItemRef::Guid("x".to_string())), ItemLookup::Unsupported);
    assert_eq!(item_lookup(&ItemRef::Index(2)), ItemLookup::FirstTrackItem(2));
    assert_eq!(item_lookup(&ItemRef::ProjectIndex(5)), ItemLookup::ProjectItem(5));
    assert_eq!(midi_item_lookup(&ItemRef::Index(2)), Some(2));
    assert_eq!(midi_item_lookup(&ItemRef::Guid("x".to_string())), None);
    assert_eq!(midi_take_lookup(&TakeRef::Index(1)), TakeLookup::Index(1));
    assert_eq!(midi_take_lookup(&TakeRef::Guid("g".to_string())), TakeLookup::Active);
    assert_eq!(midi_take_lookup(&TakeRef::Active), TakeLookup::Active);
}

#[test]
fn items_found_by_chunk_guid() {
    let chunks = vec![
        None,
        Some("<ITEM\nGUID {A}\n>".to_string()),
        Some("<ITEM\nGUID {B}\n>".to_string()),
    ];
    assert_eq!(find_item_by_guid(&chunks, "{B}"), Some(2));
    assert_eq!(find_item_by_guid(&chunks, "{C}"), None);
}

#[test]
fn active_take_position() {
    assert_eq!(active_take_index(&[10, 20, 30], Some(20)), 1);
    assert_eq!(active_take_index(&[10, 20, 30], Some(99)), 0);
    assert_eq!(active_take_index(&[10, 20, 30], None), 0);
}

#[test]
fn notes_are_brought_into_midi_range() {
    assert_eq!(normalize_note_fields(20, -3, 0), (15, 0, 1));
    assert_eq!(normalize_note_fields(2, 60, 100), (2, 60, 100));
    assert_eq!(normalize_note_fields(-1, 200, 300), (0, 127, 127));
    assert_eq!(new_note_indices(5, 3), vec![5, 6, 7]);
    assert!(new_note_indices(5, 0).is_empty());
}

#[test]
fn read_only_warning_text() {
    let _ = ReaperMidi::new();
    assert_eq!(
        ReaperMidi::readonly_warn("add_cc"),
        "ReaperMidi::add_cc is read-only in this pass; skipping mutation"
    );
}
