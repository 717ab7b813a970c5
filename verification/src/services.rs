//! The smaller services: health, ext state, live MIDI injection, markers
//! and regions, the audio engine, position conversion, peaks and resource
//! paths. Each holds no state of its own; what they decide is here.
use vstd::prelude::*;

use crate::text::{chars_of, decimal, decimal_chars, parse_u32, parse_u32_spec, string_of, append_chars};

verus! {

/// The health service.
#[derive(Clone, Copy, Debug)]
pub struct ReaperHealth;

impl ReaperHealth {
    /// The health service.
    pub fn new() -> (r: Self)
        ensures
            r == ReaperHealth,
    {
        ReaperHealth
    }

    /// Answer a health check: the answer is always `true`; what matters is
    /// that the round trip succeeds.
    pub fn ping(&self) -> (r: bool)
        ensures
            r,
    {
        true
    }
}

// ---------------------------------------------------------------------------
// Ext state
// ---------------------------------------------------------------------------

/// The ext state service.
#[derive(Clone, Copy, Debug)]
pub struct ReaperExtState;

impl ReaperExtState {
    /// The ext state service.
    pub fn new() -> (r: Self)
        ensures
            r == ReaperExtState,
    {
        ReaperExtState
    }
}

/// Whether a string can be handed to the host as a C string: it holds no NUL.
pub open spec fn c_string_ok_spec(s: Seq<char>) -> bool {
    forall|i: int| 0 <= i < s.len() ==> s[i] != '\0'
}

/// Whether a string can be handed to the host as a C string. Ext state
/// requests with a section, key or value that cannot are not made: a
/// read gives nothing, a write does nothing.
pub fn c_string_ok(s: &str) -> (r: bool)
    ensures
        r == c_string_ok_spec(s@),
{
    let v = chars_of(s);
    let mut i: usize = 0;
    while i < v.len()
        invariant
            i <= v.len(),
            v@ == s@,
            forall|k: int| 0 <= k < i ==> v@[k] != '\0',
        decreases v.len() - i,
    {
        if v[i] == '\0' {
            return false;
        }
        i = i + 1;
    }
    true
}

/// Whether an ext state request with this section and key is made.
pub fn ext_state_request_ok(section: &str, key: &str) -> (r: bool)
    ensures
        r == (c_string_ok_spec(section@) && c_string_ok_spec(key@)),
{
    c_string_ok(section) && c_string_ok(key)
}

/// Whether an ext state write with this section, key and value is made.
pub fn ext_state_write_ok(section: &str, key: &str, value: &str) -> (r: bool)
    ensures
        r == (c_string_ok_spec(section@) && c_string_ok_spec(key@) && c_string_ok_spec(value@)),
{
    c_string_ok(section) && c_string_ok(key) && c_string_ok(value)
}

// ---------------------------------------------------------------------------
// Live MIDI
// ---------------------------------------------------------------------------

/// The live MIDI service.
#[derive(Clone, Copy, Debug)]
pub struct ReaperLiveMidi;

impl ReaperLiveMidi {
    /// The live MIDI service.
    pub fn new() -> (r: Self)
        ensures
            r == ReaperLiveMidi,
    {
        ReaperLiveMidi
    }
}

/// Where an injected MIDI message goes.
#[derive(PartialEq, Eq, Structural, Clone, Copy, Debug)]
pub enum StuffMidiTarget {
    VirtualMidiKeyboard,
    ControlInput,
    VirtualMidiKeyboardCurrentChannel,
}

/// The host's mode number for an injection target.
pub fn stuff_midi_mode(target: StuffMidiTarget) -> (r: i32)
    ensures
        r == match target {
            StuffMidiTarget::VirtualMidiKeyboard => 0i32,
            StuffMidiTarget::ControlInput => 1i32,
            StuffMidiTarget::VirtualMidiKeyboardCurrentChannel => 2i32,
        },
{
    match target {
        StuffMidiTarget::VirtualMidiKeyboard => 0,
        StuffMidiTarget::ControlInput => 1,
        StuffMidiTarget::VirtualMidiKeyboardCurrentChannel => 2,
    }
}

// ---------------------------------------------------------------------------
// Markers and regions
// ---------------------------------------------------------------------------

/// The marker service.
#[derive(Clone, Copy, Debug)]
pub struct ReaperMarker;

impl ReaperMarker {
    /// The marker service.
    pub fn new() -> (r: Self)
        ensures
            r == ReaperMarker,
    {
        ReaperMarker
    }
}

/// The region service.
#[derive(Clone, Copy, Debug)]
pub struct ReaperRegion;

impl ReaperRegion {
    /// The region service.
    pub fn new() -> (r: Self)
        ensures
            r == ReaperRegion,
    {
        ReaperRegion
    }
}

/// A marker's or region's color as read from the host: 0 is none, any
/// other value is the color (its bits as unsigned).
pub open spec fn marker_color_spec(raw: i32) -> Option<u32> {
    if raw != 0 { Some(raw as u32) } else { None }
}

/// A marker's or region's color as read from the host.
pub fn marker_color(raw: i32) -> (r: Option<u32>)
    ensures
        r == marker_color_spec(raw),
{
    if raw != 0 { Some(raw as u32) } else { None }
}

/// The position of the first marker (or region) with id `id`.
pub fn find_by_id(ids: &[Option<u32>], id: u32) -> (r: Option<usize>)
    ensures
        match r {
            Some(i) => i < ids@.len() && ids@[i as int] == Some(id) && forall|j: int| 0 <= j < i ==> ids@[j] != Some(id),
            None => forall|j: int| 0 <= j < ids@.len() ==> ids@[j] != Some(id),
        },
{
    let mut i: usize = 0;
    while i < ids.len()
        invariant
            i <= ids.len(),
            forall|j: int| 0 <= j < i ==> ids@[j] != Some(id),
        decreases ids.len() - i,
    {
        if ids[i] == Some(id) {
            return Some(i);
        }
        i = i + 1;
    }
    None
}

/// The positions of the markers in lane `lane`, in order.
pub fn in_lane(lanes: &[Option<u32>], lane: u32) -> (r: Vec<usize>)
    ensures
        forall|k: int| 0 <= k < r@.len() ==> #[trigger] r@[k] < lanes@.len() && lanes@[r@[k] as int] == Some(lane),
        forall|k: int, l: int| 0 <= k < l < r@.len() ==> r@[k] < r@[l],
        forall|j: int| 0 <= j < lanes@.len() && lanes@[j] == Some(lane) ==> r@.contains(j as usize),
{
    let mut r: Vec<usize> = Vec::new();
    let mut i: usize = 0;
    while i < lanes.len()
        invariant
            i <= lanes.len(),
            forall|k: int| 0 <= k < r@.len() ==> #[trigger] r@[k] < i && lanes@[r@[k] as int] == Some(lane),
            forall|k: int, l: int| 0 <= k < l < r@.len() ==> r@[k] < r@[l],
            forall|j: int| 0 <= j < i && lanes@[j] == Some(lane) ==> r@.contains(j as usize),
        decreases lanes.len() - i,
    {
        if lanes[i] == Some(lane) {
            let ghost before = r@;
            r.push(i);
            assert(r@[r@.len() - 1] == i);
            assert forall|j: int| 0 <= j < i + 1 && lanes@[j] == Some(lane) implies r@.contains(j as usize) by {
                if j < i {
                    let k = choose|k: int| 0 <= k < before.len() && before[k] == j as usize;
                    assert(r@[k] == j as usize);
                } else {
                    assert(r@[r@.len() - 1] == j as usize);
                }
            }
        }
        i = i + 1;
    }
    r
}

// ---------------------------------------------------------------------------
// Audio engine
// ---------------------------------------------------------------------------

/// The audio engine service.
#[derive(Clone, Copy, Debug)]
pub struct ReaperAudioEngine;

impl ReaperAudioEngine {
    /// The audio engine service.
    pub fn new() -> (r: Self)
        ensures
            r == ReaperAudioEngine,
    {
        ReaperAudioEngine
    }
}

/// The sample rate used when neither the device nor the project gives one.
pub const DEFAULT_SAMPLE_RATE: u32 = 44100;

/// The sample rate: the audio device's rate when its text is a positive
/// number; else the project's own rate, when it sets one; else 44100.
pub open spec fn sample_rate_spec(device_rate: Option<Seq<char>>, project_rate: Option<u32>) -> u32 {
    match device_rate {
        Some(t) if parse_u32_spec(t) matches Some(r) && r > 0 => parse_u32_spec(t)->0,
        _ => match project_rate {
            Some(r) => r,
            None => 44100,
        },
    }
}

/// The device's rate wins when it is a positive number; when it is not
/// (missing, not a number, or 0), the project's rate is used whenever the
/// project sets one, and 44100 only when neither gives a rate.
pub proof fn lemma_sample_rate_fallbacks(device_rate: Option<Seq<char>>, project_rate: Option<u32>)
    ensures
        (device_rate matches Some(t) && parse_u32_spec(t) matches Some(r) && r > 0) ==> sample_rate_spec(
            device_rate,
            project_rate,
        ) == parse_u32_spec(device_rate->0)->0,
        !(device_rate matches Some(t) && parse_u32_spec(t) matches Some(r) && r > 0) ==> match project_rate {
            Some(p) => sample_rate_spec(device_rate, project_rate) == p,
            None => sample_rate_spec(device_rate, project_rate) == 44100,
        },
        sample_rate_spec(device_rate, project_rate) == 44100 ==> (project_rate == Some(44100u32)
            || (device_rate matches Some(t) && parse_u32_spec(t) == Some(44100u32)) || project_rate is None),
{
}

/// The sample rate, from the device's rate as text (if the host gave it)
/// and the project's own rate (if the project sets a positive one).
pub fn choose_sample_rate(device_rate: Option<&str>, project_rate: Option<u32>) -> (r: u32)
    ensures
        r == sample_rate_spec(
            match device_rate { Some(t) => Some(t@), None => None },
            project_rate,
        ),
{
    if let Some(t) = device_rate {
        if let Some(rate) = parse_u32(&chars_of(t)) {
            if rate > 0 {
                return rate;
            }
        }
    }
    match project_rate {
        Some(r) => r,
        None => DEFAULT_SAMPLE_RATE,
    }
}

/// The name given to audio input channel `index` when the host has none:
/// `Input ` and the channel's number, counting from 1.
pub fn input_channel_label(index: u32) -> (r: String)
    requires
        index < u32::MAX,
    ensures
        r@ == "Input "@ + decimal(index as nat + 1),
{
    let mut v = chars_of("Input ");
    let n = decimal_chars(index as u64 + 1);
    append_chars(&mut v, &n);
    string_of(&v)
}

// ---------------------------------------------------------------------------
// Position conversion, peaks, resources
// ---------------------------------------------------------------------------

/// The position conversion service.
#[derive(Clone, Copy, Debug)]
pub struct ReaperPositionConversion;

impl ReaperPositionConversion {
    /// The position conversion service.
    pub fn new() -> (r: Self)
        ensures
            r == ReaperPositionConversion,
    {
        ReaperPositionConversion
    }
}

/// How measures are counted in a conversion.
#[derive(PartialEq, Eq, Structural, Clone, Copy, Debug)]
pub enum MeasureMode {
    /// Measures are not counted (reported as 0).
    IgnoreMeasure,
    /// Measures are counted relative to the measure with this index.
    FromMeasureAtIndex(i32),
}

/// The measure index reported for a position in measure `measure_index`:
/// 0 when measures are ignored, else the given index minus it.
pub fn reported_measure(mode: MeasureMode, measure_index: i32) -> (r: i32)
    requires
        mode matches MeasureMode::FromMeasureAtIndex(idx) ==> i32::MIN <= idx - measure_index <= i32::MAX,
    ensures
        r == match mode {
            MeasureMode::IgnoreMeasure => 0,
            MeasureMode::FromMeasureAtIndex(idx) => idx - measure_index,
        },
{
    match mode {
        MeasureMode::IgnoreMeasure => 0,
        MeasureMode::FromMeasureAtIndex(idx) => idx - measure_index,
    }
}

/// The peak meter service.
#[derive(Clone, Copy, Debug)]
pub struct ReaperPeak;

impl ReaperPeak {
    /// The peak meter service.
    pub fn new() -> (r: Self)
        ensures
            r == ReaperPeak,
    {
        ReaperPeak
    }
}

/// The resource path service.
#[derive(Clone, Copy, Debug)]
pub struct ReaperResource;

impl ReaperResource {
    /// The resource path service.
    pub fn new() -> (r: Self)
        ensures
            r == ReaperResource,
    {
        ReaperResource
    }
}

/// The host's resource path, or `.` when the host gave none.
pub fn resource_path_or_default(path: Option<String>) -> (r: String)
    ensures
        r@ == match path { Some(p) => p@, None => "."@ },
{
    match path {
        Some(p) => p,
        None => string_of(&chars_of(".")),
    }
}

/// The host's ini file path, or `reaper.ini` when the host gave none.
pub fn ini_path_or_default(path: Option<String>) -> (r: String)
    ensures
        r@ == match path { Some(p) => p@, None => "reaper.ini"@ },
{
    match path {
        Some(p) => p,
        None => string_of(&chars_of("reaper.ini")),
    }
}

} // verus!
