//! Media items, takes and MIDI: how references to items and takes are
//! looked up, how item properties are encoded for the host (fade shapes,
//! colors, group ids, timebase), which take is active, and how MIDI notes
//! read from the host are normalised.
use vstd::prelude::*;

use crate::chunk::{chunk_guid_spec, extract_guid_from_chunk};
use crate::text::{chars_of, string_of, append_chars};

verus! {

/// The item service.
#[derive(Clone, Copy, Debug)]
pub struct ReaperItem;

impl ReaperItem {
    /// The item service.
    pub fn new() -> (r: Self)
        ensures
            r == ReaperItem,
    {
        ReaperItem
    }
}

/// The take service.
#[derive(Clone, Copy, Debug)]
pub struct ReaperTake;

impl ReaperTake {
    /// The take service.
    pub fn new() -> (r: Self)
        ensures
            r == ReaperTake,
    {
        ReaperTake
    }
}

/// The MIDI service.
#[derive(Clone, Copy, Debug)]
pub struct ReaperMidi;

// ---------------------------------------------------------------------------
// Fade shapes
// ---------------------------------------------------------------------------

/// The shape of a fade.
#[derive(PartialEq, Eq, Structural, Clone, Copy, Debug)]
pub enum FadeShape {
    Linear,
    FastStart,
    FastEnd,
    FastStartSteep,
    FastEndSteep,
    SlowStartEnd,
    SlowStartEndSteep,
}

/// The host's number for a fade shape.
pub open spec fn fade_code(shape: FadeShape) -> i32 {
    match shape {
        FadeShape::Linear => 0,
        FadeShape::FastStart => 1,
        FadeShape::FastEnd => 2,
        FadeShape::FastStartSteep => 3,
        FadeShape::FastEndSteep => 4,
        FadeShape::SlowStartEnd => 5,
        FadeShape::SlowStartEndSteep => 6,
    }
}

/// The fade shape the host's number stands for; unknown numbers are linear.
pub open spec fn fade_from_code(code: u8) -> FadeShape {
    if code == 1 { FadeShape::FastStart }
    else if code == 2 { FadeShape::FastEnd }
    else if code == 3 { FadeShape::FastStartSteep }
    else if code == 4 { FadeShape::FastEndSteep }
    else if code == 5 { FadeShape::SlowStartEnd }
    else if code == 6 { FadeShape::SlowStartEndSteep }
    else { FadeShape::Linear }
}

/// The host's number for a fade shape.
pub fn proto_fade_to_reaper(shape: FadeShape) -> (r: i32)
    ensures
        r == fade_code(shape),
{
    match shape {
        FadeShape::Linear => 0,
        FadeShape::FastStart => 1,
        FadeShape::FastEnd => 2,
        FadeShape::FastStartSteep => 3,
        FadeShape::FastEndSteep => 4,
        FadeShape::SlowStartEnd => 5,
        FadeShape::SlowStartEndSteep => 6,
    }
}

/// The fade shape for the host's number; unknown numbers read as linear.
pub fn reaper_fade_to_proto(code: u8) -> (r: FadeShape)
    ensures
        r == fade_from_code(code),
{
    match code {
        1 => FadeShape::FastStart,
        2 => FadeShape::FastEnd,
        3 => FadeShape::FastStartSteep,
        4 => FadeShape::FastEndSteep,
        5 => FadeShape::SlowStartEnd,
        6 => FadeShape::SlowStartEndSteep,
        _ => FadeShape::Linear,
    }
}

/// A fade shape written to the host reads back as the same shape, and a
/// host number of a known shape (0 to 6) reads back as the same number.
pub proof fn lemma_fade_round_trip(shape: FadeShape, code: u8)
    ensures
        fade_from_code(fade_code(shape) as u8) == shape,
        code <= 6 ==> fade_code(fade_from_code(code)) == code as i32,
{
}

// ---------------------------------------------------------------------------
// Item properties
// ---------------------------------------------------------------------------

/// An item's custom color as read from the host: a positive value is a
/// color, anything else is none.
pub open spec fn item_color_spec(raw: i32) -> Option<u32> {
    if raw > 0 { Some(raw as u32) } else { None }
}

/// An item's custom color as read from the host.
pub fn item_color_from_raw(raw: i32) -> (r: Option<u32>)
    ensures
        r == item_color_spec(raw),
{
    if raw > 0 { Some(raw as u32) } else { None }
}

/// The host value for an optional item color or group id: the value as a
/// signed 32-bit number (wrapping), or 0 for none.
pub open spec fn optional_raw_spec(v: Option<u32>) -> i32 {
    match v {
        Some(c) => c as i32,
        None => 0,
    }
}

/// The host value for an optional item color.
pub fn item_color_to_raw(color: Option<u32>) -> (r: i32)
    ensures
        r == optional_raw_spec(color),
{
    match color {
        Some(c) => c as i32,
        None => 0,
    }
}

/// The host value for an optional item group id.
pub fn group_id_to_raw(group_id: Option<u32>) -> (r: i32)
    ensures
        r == optional_raw_spec(group_id),
{
    match group_id {
        Some(g) => g as i32,
        None => 0,
    }
}

/// A color from 1 to `i32::MAX` written to an item reads back unchanged;
/// no color (and color 0) reads back as none.
pub proof fn lemma_item_color_round_trip(color: Option<u32>)
    requires
        color matches Some(c) ==> c <= i32::MAX,
    ensures
        color matches Some(c) && c > 0 ==> item_color_spec(optional_raw_spec(color)) == color,
        (color is None || color == Some(0u32)) ==> item_color_spec(optional_raw_spec(color)) is None,
{
}

/// How an item's position follows the tempo.
#[derive(PartialEq, Eq, Structural, Clone, Copy, Debug)]
pub enum BeatAttachMode {
    /// Position, length and rate in time.
    Time,
    /// Position, length and rate in beats.
    Beats,
    /// Position only in beats.
    BeatsPositionOnly,
}

/// The host's timebase number for a beat-attach mode.
pub fn beat_attach_timebase(mode: BeatAttachMode) -> (r: u8)
    ensures
        r == match mode {
            BeatAttachMode::Time => 0u8,
            BeatAttachMode::Beats => 1u8,
            BeatAttachMode::BeatsPositionOnly => 2u8,
        },
{
    match mode {
        BeatAttachMode::Time => 0,
        BeatAttachMode::Beats => 1,
        BeatAttachMode::BeatsPositionOnly => 2,
    }
}

// ---------------------------------------------------------------------------
// Looking up items and takes
// ---------------------------------------------------------------------------

/// How a caller names an item.
pub enum ItemRef {
    /// By GUID.
    Guid(String),
    /// By index on the first track.
    Index(u32),
    /// By index among all items of the project.
    ProjectIndex(u32),
}

/// How a caller names a take.
pub enum TakeRef {
    Guid(String),
    Index(u32),
    Active,
}

/// Where the item service looks for an item.
#[derive(PartialEq, Eq, Structural, Clone, Copy, Debug)]
pub enum ItemLookup {
    /// Not supported: the service does not look items up by GUID.
    Unsupported,
    /// The item at this index on the project's first track.
    FirstTrackItem(u32),
    /// The item at this index among the project's items.
    ProjectItem(u32),
}

/// Where the item service looks for an item it is given.
pub fn item_lookup(item: &ItemRef) -> (r: ItemLookup)
    ensures
        r == match item {
            ItemRef::Guid(_) => ItemLookup::Unsupported,
            ItemRef::Index(i) => ItemLookup::FirstTrackItem(*i),
            ItemRef::ProjectIndex(i) => ItemLookup::ProjectItem(*i),
        },
{
    match item {
        ItemRef::Guid(_) => ItemLookup::Unsupported,
        ItemRef::Index(i) => ItemLookup::FirstTrackItem(*i),
        ItemRef::ProjectIndex(i) => ItemLookup::ProjectItem(*i),
    }
}

/// Where the MIDI service looks for an item: both kinds of index are
/// indices among the project's items; a GUID is searched among them.
pub fn midi_item_lookup(item: &ItemRef) -> (r: Option<u32>)
    ensures
        r == match item {
            ItemRef::Guid(_) => None::<u32>,
            ItemRef::Index(i) => Some(*i),
            ItemRef::ProjectIndex(i) => Some(*i),
        },
{
    match item {
        ItemRef::Guid(_) => None,
        ItemRef::Index(i) => Some(*i),
        ItemRef::ProjectIndex(i) => Some(*i),
    }
}

/// The position of the first item whose state chunk (when the host gave
/// one) holds the GUID `guid`.
pub open spec fn first_chunk_with_guid(chunks: Seq<Option<Seq<char>>>, guid: Seq<char>, i: int) -> Option<int>
    decreases chunks.len() - i,
{
    if i < 0 || i >= chunks.len() {
        None
    } else if chunks[i] matches Some(c) && chunk_guid_spec(c) == Some(guid) {
        Some(i)
    } else {
        first_chunk_with_guid(chunks, guid, i + 1)
    }
}

/// The characters of each optional chunk.
pub open spec fn opt_chunks_view(v: Seq<Option<String>>) -> Seq<Option<Seq<char>>> {
    v.map_values(|o: Option<String>| match o {
        Some(s) => Some(s@),
        None => None,
    })
}

/// Find the item with GUID `guid` from the items' state chunks, in project order.
pub fn find_item_by_guid(chunks: &[Option<String>], guid: &str) -> (r: Option<usize>)
    ensures
        match r {
            Some(i) => i < chunks@.len() && first_chunk_with_guid(opt_chunks_view(chunks@), guid@, 0) == Some(i as int),
            None => first_chunk_with_guid(opt_chunks_view(chunks@), guid@, 0) is None,
        },
{
    let ghost cv = opt_chunks_view(chunks@);
    let mut i: usize = 0;
    while i < chunks.len()
        invariant
            i <= chunks.len(),
            cv == opt_chunks_view(chunks@),
            first_chunk_with_guid(cv, guid@, 0) == first_chunk_with_guid(cv, guid@, i as int),
        decreases chunks.len() - i,
    {
        match &chunks[i] {
            Some(c) => {
                match extract_guid_from_chunk(c.as_str()) {
                    Some(g) => {
                        if crate::strmap::str_eq(g.as_str(), guid) {
                            return Some(i);
                        }
                    },
                    None => {},
                }
            },
            None => {},
        }
        i = i + 1;
    }
    None
}

/// Which take the MIDI service uses.
#[derive(PartialEq, Eq, Structural, Clone, Copy, Debug)]
pub enum TakeLookup {
    /// The item's active take.
    Active,
    /// The take at this index.
    Index(u32),
}

/// Which take the MIDI service uses for a take reference: the indexed
/// take, or the active take (also for a GUID, which it does not search).
pub fn midi_take_lookup(take: &TakeRef) -> (r: TakeLookup)
    ensures
        r == match take {
            TakeRef::Index(i) => TakeLookup::Index(*i),
            _ => TakeLookup::Active,
        },
{
    match take {
        TakeRef::Index(i) => TakeLookup::Index(*i),
        _ => TakeLookup::Active,
    }
}

/// The index of the active take among an item's takes: the first take
/// that is the active one, or 0 when there is no active take or none matches.
pub fn active_take_index(takes: &[usize], active: Option<usize>) -> (r: u32)
    requires
        takes@.len() <= u32::MAX,
    ensures
        match active {
            None => r == 0,
            Some(a) => {
                ||| (r < takes@.len() && takes@[r as int] == a && forall|j: int| 0 <= j < r ==> takes@[j] != a)
                ||| (r == 0 && forall|j: int| 0 <= j < takes@.len() ==> takes@[j] != a)
            },
        },
{
    match active {
        None => 0,
        Some(a) => {
            let mut i: usize = 0;
            while i < takes.len()
                invariant
                    i <= takes@.len() <= u32::MAX,
                    active == Some(a),
                    forall|j: int| 0 <= j < i ==> takes@[j] != a,
                decreases takes.len() - i,
            {
                if takes[i] == a {
                    return i as u32;
                }
                i = i + 1;
            }
            0
        },
    }
}

// ---------------------------------------------------------------------------
// MIDI notes
// ---------------------------------------------------------------------------

/// `v` limited to `lo..=hi`.
pub open spec fn clamp_spec(v: int, lo: int, hi: int) -> int {
    if v < lo { lo } else if v > hi { hi } else { v }
}

fn clamp_to(v: i32, lo: i32, hi: i32) -> (r: i32)
    requires
        lo <= hi,
    ensures
        r == clamp_spec(v as int, lo as int, hi as int),
{
    if v < lo { lo } else if v > hi { hi } else { v }
}

/// A note's channel, pitch and velocity as read from the host, brought into
/// MIDI range: channel 0..=15, pitch 0..=127, velocity 1..=127.
pub fn normalize_note_fields(channel: i32, pitch: i32, velocity: i32) -> (r: (u8, u8, u8))
    ensures
        r.0 as int == clamp_spec(channel as int, 0, 15),
        r.1 as int == clamp_spec(pitch as int, 0, 127),
        r.2 as int == clamp_spec(velocity as int, 1, 127),
{
    let c = clamp_to(channel, 0, 15);
    let p = clamp_to(pitch, 0, 127);
    let v = clamp_to(velocity, 1, 127);
    (c as u8, p as u8, v as u8)
}

/// The indices reported for `added` notes inserted into a take that held
/// `count_before` notes: the positions after the existing notes, in
/// insertion order. The host sorts the take after inserting, which may
/// move notes; these are the positions they were appended at.
pub fn new_note_indices(count_before: u32, added: usize) -> (r: Vec<u32>)
    requires
        count_before + added <= u32::MAX,
    ensures
        r@.len() == added,
        forall|i: int| 0 <= i < added ==> #[trigger] r@[i] == count_before + i,
{
    let mut r: Vec<u32> = Vec::new();
    let mut i: usize = 0;
    while i < added
        invariant
            i <= added,
            count_before + added <= u32::MAX,
            r@.len() == i,
            forall|k: int| 0 <= k < i ==> #[trigger] r@[k] == count_before + k,
        decreases added - i,
    {
        r.push(count_before + i as u32);
        i = i + 1;
    }
    r
}

impl ReaperMidi {
    /// The MIDI service.
    pub fn new() -> (r: Self)
        ensures
            r == ReaperMidi,
    {
        ReaperMidi
    }

    /// The GUID in an item's state chunk (see [`extract_guid_from_chunk`]).
    pub fn extract_guid_from_chunk(chunk: &str) -> (r: Option<String>)
        ensures
            match r {
                Some(g) => chunk_guid_spec(chunk@) == Some(g@),
                None => chunk_guid_spec(chunk@) is None,
            },
    {
        extract_guid_from_chunk(chunk)
    }

    /// The warning given when a MIDI mutation that this service does not
    /// perform is requested: `ReaperMidi::<method> is read-only in this
    /// pass; skipping mutation`.
    pub fn readonly_warn(method: &str) -> (r: String)
        ensures
            r@ == "ReaperMidi::"@ + method@ + " is read-only in this pass; skipping mutation"@,
    {
        let mut v = chars_of("ReaperMidi::");
        append_chars(&mut v, &chars_of(method));
        let tail = chars_of(" is read-only in this pass; skipping mutation");
        let ghost before = v@;
        append_chars(&mut v, &tail);
        string_of(&v)
    }
}

} // verus!
