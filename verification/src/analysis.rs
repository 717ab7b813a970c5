//! Project-level MIDI analysis: which track a request's tag names, how the
//! notes of its first MIDI take become absolute ticks, which project
//! markers go into the chart (by tick, in a stable order), the error
//! texts, and the fingerprint of the source material.
use std::collections::hash_map::DefaultHasher;
use std::hash::Hasher;
use vstd::std_specs::hash::DefaultHasherAdditionalSpecFns;

use crate::project::feed_str;
use vstd::prelude::*;

use crate::text::{
    append_chars, ascii_lower_chars, ascii_lower_seq, chars_of, contains_chars, contains_seq, hex,
    hex_chars, string_of,
};

verus! {

/// The MIDI analysis service.
#[derive(Clone, Copy, Debug)]
pub struct ReaperMidiAnalysis;

impl ReaperMidiAnalysis {
    /// The MIDI analysis service.
    pub fn new() -> (r: Self)
        ensures
            r == ReaperMidiAnalysis,
    {
        ReaperMidiAnalysis
    }
}

/// Ticks per quarter note of the host's MIDI.
pub const REAPER_PPQ: u32 = 960;

/// The shortest chord the chord detection reports, in ticks.
pub const MIN_CHORD_DURATION_PPQ: i64 = 120;

// ---------------------------------------------------------------------------
// Choosing the source track
// ---------------------------------------------------------------------------

/// The track a tag names, scanning from track `i` on: a track without a
/// name ends the search with none; without a tag the first track is taken;
/// with one, the first track whose name contains the tag, ignoring ASCII case.
pub open spec fn track_by_tag_from(names: Seq<Option<Seq<char>>>, tag: Option<Seq<char>>, i: int) -> Option<int>
    decreases names.len() - i,
{
    if i < 0 || i >= names.len() {
        None
    } else {
        match names[i] {
            None => None,
            Some(n) => match tag {
                None => Some(i),
                Some(t) => if contains_seq(ascii_lower_seq(n), ascii_lower_seq(t)) {
                    Some(i)
                } else {
                    track_by_tag_from(names, tag, i + 1)
                },
            },
        }
    }
}

/// The characters of each optional name.
pub open spec fn opt_names_view(v: Seq<Option<String>>) -> Seq<Option<Seq<char>>> {
    v.map_values(|o: Option<String>| match o {
        Some(s) => Some(s@),
        None => None,
    })
}

/// The position of the track that a request's tag names, from the names
/// of the project's tracks in order (`None` for a track without a name).
pub fn find_track_by_tag(names: &[Option<String>], tag: Option<&str>) -> (r: Option<usize>)
    ensures
        match r {
            Some(i) => i < names@.len() && track_by_tag_from(
                opt_names_view(names@),
                match tag { Some(t) => Some(t@), None => None },
                0,
            ) == Some(i as int),
            None => track_by_tag_from(
                opt_names_view(names@),
                match tag { Some(t) => Some(t@), None => None },
                0,
            ) is None,
        },
{
    let ghost nv = opt_names_view(names@);
    let ghost tv = match tag { Some(t) => Some(t@), None => None };
    let needle: Option<Vec<char>> = match tag {
        Some(t) => Some(ascii_lower_chars(&chars_of(t))),
        None => None,
    };
    let mut i: usize = 0;
    while i < names.len()
        invariant
            i <= names.len(),
            nv == opt_names_view(names@),
            tv == match tag { Some(t) => Some(t@), None => None::<Seq<char>> },
            match needle { Some(nd) => tv matches Some(t) && nd@ == ascii_lower_seq(t), None => tv is None },
            track_by_tag_from(nv, tv, 0) == track_by_tag_from(nv, tv, i as int),
        decreases names.len() - i,
    {
        match &names[i] {
            None => {
                return None;
            },
            Some(n) => match &needle {
                None => {
                    return Some(i);
                },
                Some(nd) => {
                    let lower = ascii_lower_chars(&chars_of(n.as_str()));
                    if contains_chars(&lower, nd) {
                        return Some(i);
                    }
                },
            },
        }
        i = i + 1;
    }
    None
}

// ---------------------------------------------------------------------------
// Notes
// ---------------------------------------------------------------------------

/// A note of the source take, in ticks relative to the take.
#[derive(PartialEq, Eq, Structural, Clone, Copy, Debug)]
pub struct SourceNote {
    pub pitch: u8,
    pub start_ppq: i64,
    pub end_ppq: i64,
    pub channel: u8,
    pub velocity: u8,
}

/// A note for the chart, in absolute ticks.
#[derive(PartialEq, Eq, Structural, Clone, Copy, Debug)]
pub struct ImportNote {
    pub pitch: u8,
    pub velocity: u8,
    pub start_tick: u32,
    pub duration_ticks: u32,
    pub channel: u8,
}

/// A tick offset: a negative one counts as 0, and it is taken as an
/// unsigned 32-bit number (wrapping).
pub open spec fn tick_offset(ppq: i64) -> u32 {
    (if ppq < 0 { 0i64 } else { ppq }) as u32
}

/// The chart note for a source note of an item starting at `item_start_tick`.
pub open spec fn import_note_spec(n: SourceNote, item_start_tick: u32) -> ImportNote {
    let s = item_start_tick + tick_offset(n.start_ppq);
    let e = item_start_tick + tick_offset(n.end_ppq);
    ImportNote {
        pitch: n.pitch,
        velocity: n.velocity,
        start_tick: s as u32,
        duration_ticks: if e >= s { (e - s) as u32 } else { 0u32 },
        channel: n.channel,
    }
}

/// Whether the absolute ticks of a note fit in 32 bits.
pub open spec fn note_fits(n: SourceNote, item_start_tick: u32) -> bool {
    item_start_tick + tick_offset(n.start_ppq) <= u32::MAX && item_start_tick + tick_offset(n.end_ppq) <= u32::MAX
}

fn offset_of(ppq: i64) -> (r: u32)
    ensures
        r == tick_offset(ppq),
{
    let v: i64 = if ppq < 0 { 0 } else { ppq };
    #[verifier::truncate] (v as u32)
}

/// The chart notes for the notes of a take whose item starts at
/// `item_start_tick`: each note at that tick plus its (non-negative)
/// offset, lasting until its end (0 when it ends before it starts).
pub fn import_notes(notes: &[SourceNote], item_start_tick: u32) -> (r: Vec<ImportNote>)
    requires
        forall|i: int| 0 <= i < notes@.len() ==> note_fits(#[trigger] notes@[i], item_start_tick),
    ensures
        r@.len() == notes@.len(),
        forall|i: int| 0 <= i < notes@.len() ==> #[trigger] r@[i] == import_note_spec(notes@[i], item_start_tick),
{
    let mut r: Vec<ImportNote> = Vec::new();
    let mut i: usize = 0;
    while i < notes.len()
        invariant
            i <= notes@.len(),
            forall|k: int| 0 <= k < notes@.len() ==> note_fits(#[trigger] notes@[k], item_start_tick),
            r@.len() == i,
            forall|k: int| 0 <= k < i ==> #[trigger] r@[k] == import_note_spec(notes@[k], item_start_tick),
        decreases notes.len() - i,
    {
        let n = notes[i];
        assert(note_fits(notes@[i as int], item_start_tick));
        let s = item_start_tick + offset_of(n.start_ppq);
        let e = item_start_tick + offset_of(n.end_ppq);
        let d = if e >= s { e - s } else { 0 };
        r.push(ImportNote { pitch: n.pitch, velocity: n.velocity, start_tick: s, duration_ticks: d, channel: n.channel });
        i = i + 1;
    }
    r
}

// ---------------------------------------------------------------------------
// Markers
// ---------------------------------------------------------------------------

/// A project marker for the chart: its tick and text.
pub struct MarkerEvent {
    pub tick: u32,
    pub text: String,
}

/// A chart marker as a value.
pub open spec fn marker_view(m: MarkerEvent) -> (u32, Seq<char>) {
    (m.tick, m.text@)
}

/// Insert `m` into the tick-sorted `sorted`, after every marker with a tick
/// at most its own (so markers with equal ticks keep their order).
pub open spec fn insert_by_tick(sorted: Seq<(u32, Seq<char>)>, m: (u32, Seq<char>)) -> Seq<(u32, Seq<char>)>
    decreases sorted.len(),
{
    if sorted.len() == 0 {
        seq![m]
    } else if sorted.last().0 <= m.0 {
        sorted.push(m)
    } else {
        insert_by_tick(sorted.drop_last(), m).push(sorted.last())
    }
}

/// The markers sorted by tick, markers with equal ticks in their original order.
pub open spec fn stable_sort_by_tick(ms: Seq<(u32, Seq<char>)>) -> Seq<(u32, Seq<char>)>
    decreases ms.len(),
{
    if ms.len() == 0 {
        Seq::empty()
    } else {
        insert_by_tick(stable_sort_by_tick(ms.drop_last()), ms.last())
    }
}

/// Whether markers are in tick order.
pub open spec fn tick_sorted(s: Seq<(u32, Seq<char>)>) -> bool {
    forall|i: int, j: int| 0 <= i < j < s.len() ==> s[i].0 <= s[j].0
}

proof fn lemma_insert_by_tick(s: Seq<(u32, Seq<char>)>, m: (u32, Seq<char>))
    requires
        tick_sorted(s),
    ensures
        tick_sorted(insert_by_tick(s, m)),
        insert_by_tick(s, m).len() == s.len() + 1,
        forall|i: int| 0 <= i < insert_by_tick(s, m).len() ==> #[trigger] insert_by_tick(s, m)[i] == m
            || s.contains(insert_by_tick(s, m)[i]),
    decreases s.len(),
{
    if s.len() > 0 && s.last().0 > m.0 {
        let d = s.drop_last();
        assert forall|i: int, j: int| 0 <= i < j < d.len() implies d[i].0 <= d[j].0 by {
            assert(d[i] == s[i] && d[j] == s[j]);
        }
        lemma_insert_by_tick(d, m);
        let t = insert_by_tick(d, m);
        let r = insert_by_tick(s, m);
        assert(r == t.push(s.last()));
        assert forall|i: int| 0 <= i < t.len() implies #[trigger] t[i].0 <= s.last().0 by {
            if t[i] != m {
                assert(d.contains(t[i]));
                let k = choose|k: int| 0 <= k < d.len() && d[k] == t[i];
                assert(d[k] == s[k]);
                assert(s[k].0 <= s[s.len() - 1].0);
            }
        }
        assert forall|i: int| 0 <= i < r.len() implies #[trigger] r[i] == m || s.contains(r[i]) by {
            if i < t.len() {
                assert(r[i] == t[i]);
                if t[i] != m {
                    let k = choose|k: int| 0 <= k < d.len() && d[k] == t[i];
                    assert(s[k] == d[k]);
                }
            } else {
                assert(r[i] == s[s.len() - 1]);
            }
        }
    } else if s.len() > 0 {
        let r = insert_by_tick(s, m);
        assert(r == s.push(m));
        assert forall|i: int| 0 <= i < r.len() implies #[trigger] r[i] == m || s.contains(r[i]) by {
            if i < s.len() {
                assert(r[i] == s[i]);
            }
        }
    }
}

/// Sorting the chart markers puts them in tick order and keeps their number.
pub proof fn lemma_stable_sort_sorted(ms: Seq<(u32, Seq<char>)>)
    ensures
        tick_sorted(stable_sort_by_tick(ms)),
        stable_sort_by_tick(ms).len() == ms.len(),
    decreases ms.len(),
{
    if ms.len() > 0 {
        lemma_stable_sort_sorted(ms.drop_last());
        lemma_insert_by_tick(stable_sort_by_tick(ms.drop_last()), ms.last());
    }
}

/// The project markers that go into the chart, in project order: those
/// with a non-empty name.
pub open spec fn named_markers(raw: Seq<(u32, Option<Seq<char>>)>) -> Seq<(u32, Seq<char>)>
    decreases raw.len(),
{
    if raw.len() == 0 {
        Seq::empty()
    } else {
        named_markers(raw.drop_last()) + match raw.last().1 {
            Some(t) => if t.len() > 0 { seq![(raw.last().0, t)] } else { Seq::empty() },
            None => Seq::empty(),
        }
    }
}

/// The raw markers as values.
pub open spec fn raw_markers_view(v: Seq<(u32, Option<String>)>) -> Seq<(u32, Option<Seq<char>>)> {
    v.map_values(|m: (u32, Option<String>)| (m.0, match m.1 {
        Some(s) => Some(s@),
        None => None,
    }))
}

fn insert_marker(sorted: &mut Vec<MarkerEvent>, m: MarkerEvent)
    ensures
        final(sorted)@.map_values(|x: MarkerEvent| marker_view(x)) == insert_by_tick(
            old(sorted)@.map_values(|x: MarkerEvent| marker_view(x)),
            marker_view(m),
        ),
    decreases old(sorted)@.len(),
{
    let ghost before = sorted@.map_values(|x: MarkerEvent| marker_view(x));
    if sorted.len() == 0 {
        sorted.push(m);
        assert(sorted@.map_values(|x: MarkerEvent| marker_view(x)) =~= seq![marker_view(m)]);
        return;
    }
    let last_tick = sorted[sorted.len() - 1].tick;
    if last_tick <= m.tick {
        sorted.push(m);
        assert(sorted@.map_values(|x: MarkerEvent| marker_view(x)) =~= before.push(marker_view(m)));
        return;
    }
    let last = sorted.pop().unwrap();
    assert(sorted@.map_values(|x: MarkerEvent| marker_view(x)) =~= before.drop_last());
    insert_marker(sorted, m);
    let ghost mid = sorted@.map_values(|x: MarkerEvent| marker_view(x));
    sorted.push(last);
    assert(sorted@.map_values(|x: MarkerEvent| marker_view(x)) =~= mid.push(marker_view(last)));
}

/// The chart's markers from the project's markers in order (tick, and the
/// name when the host gave one): the named ones, sorted by tick, markers
/// with equal ticks in project order.
pub fn chart_markers(raw: Vec<(u32, Option<String>)>) -> (r: Vec<MarkerEvent>)
    ensures
        r@.map_values(|x: MarkerEvent| marker_view(x)) == stable_sort_by_tick(named_markers(raw_markers_view(raw@))),
{
    let ghost rv = raw_markers_view(raw@);
    let mut sorted: Vec<MarkerEvent> = Vec::new();
    let mut rest = raw;
    let ghost total = rv.len();
    let n0 = rest.len();
    assert(total == n0);
    proof {
        assert(rv.take(0) =~= Seq::<(u32, Option<Seq<char>>)>::empty());
    }
    let mut i: usize = 0;
    while rest.len() > 0
        invariant
            total == rv.len(),
            total <= usize::MAX,
            rest@.len() + i == total,
            forall|j: int| 0 <= j < rest@.len() ==> #[trigger] raw_markers_view(rest@)[j] == rv[i + j],
            sorted@.map_values(|x: MarkerEvent| marker_view(x)) == stable_sort_by_tick(named_markers(rv.take(i as int))),
        decreases rest.len(),
    {
        let ghost rest_before = rest@;
        let (tick, name) = rest.remove(0);
        assert(raw_markers_view(rest_before)[0] == rv[i as int]);
        assert forall|j: int| 0 <= j < rest@.len() implies #[trigger] raw_markers_view(rest@)[j] == rv[i + 1 + j] by {
            assert(rest@[j] == rest_before[j + 1]);
            assert(raw_markers_view(rest_before)[j + 1] == rv[i + (j + 1)]);
        }
        proof {
            let t = rv.take(i + 1);
            assert(t.drop_last() =~= rv.take(i as int));
            assert(t.last() == rv[i as int]);
        }
        match name {
            Some(text) => {
                if !text.as_str().is_empty() {
                    let ghost before = sorted@.map_values(|x: MarkerEvent| marker_view(x));
                    proof {
                        assert(named_markers(rv.take(i + 1)) =~= named_markers(rv.take(i as int)).push((tick, text@)));
                    }
                    insert_marker(&mut sorted, MarkerEvent { tick, text });
                    proof {
                        let nm = named_markers(rv.take(i + 1));
                        assert(nm.drop_last() =~= named_markers(rv.take(i as int)));
                    }
                } else {
                    proof {
                        assert(named_markers(rv.take(i + 1)) =~= named_markers(rv.take(i as int)));
                    }
                }
            },
            None => {
                proof {
                    assert(named_markers(rv.take(i + 1)) =~= named_markers(rv.take(i as int)));
                }
            },
        }
        i = i + 1;
    }
    assert(rv.take(total as int) =~= rv);
    sorted
}

// ---------------------------------------------------------------------------
// Texts
// ---------------------------------------------------------------------------

/// The name shown for the source track: its name, or `Unnamed Track`.
pub fn track_display_name(name: Option<&str>) -> (r: String)
    ensures
        r@ == match name { Some(n) => n@, None => "Unnamed Track"@ },
{
    match name {
        Some(n) => string_of(&chars_of(n)),
        None => string_of(&chars_of("Unnamed Track")),
    }
}

fn quoted(prefix: &str, inner: &str, suffix: &str) -> (r: String)
    ensures
        r@ == prefix@ + inner@ + suffix@,
{
    let mut v = chars_of(prefix);
    append_chars(&mut v, &chars_of(inner));
    append_chars(&mut v, &chars_of(suffix));
    string_of(&v)
}

/// The error when no track matches the tag: `No track matched tag '<tag>'`,
/// with `<none>` when the request has no tag.
pub fn no_track_error(tag: Option<&str>) -> (r: String)
    ensures
        r@ == "No track matched tag '"@ + match tag { Some(t) => t@, None => "<none>"@ } + "'"@,
{
    match tag {
        Some(t) => quoted("No track matched tag '", t, "'"),
        None => quoted("No track matched tag '", "<none>", "'"),
    }
}

/// The error when the source track has no MIDI take.
pub fn no_midi_take_error(track_name: &str) -> (r: String)
    ensures
        r@ == "Track '"@ + track_name@ + "' has no MIDI take"@,
{
    quoted("Track '", track_name, "' has no MIDI take")
}

// ---------------------------------------------------------------------------
// Fingerprint
// ---------------------------------------------------------------------------

/// The `n` bytes of `v`, least significant first.
pub open spec fn le_bytes(v: nat, n: nat) -> Seq<u8>
    decreases n,
{
    if n == 0 {
        Seq::empty()
    } else {
        seq![(v % 256) as u8] + le_bytes(v / 256, (n - 1) as nat)
    }
}

/// Whether `b` is `v` as `n` bytes in the machine's byte order: least
/// significant first (little-endian) or most significant first (big-endian).
pub open spec fn native_bytes(b: Seq<u8>, v: nat, n: nat) -> bool {
    b == le_bytes(v, n) || b == le_bytes(v, n).reverse()
}

/// `Hash::hash` of a `usize` into the hasher (std): one write of the
/// value's native bytes (4 or 8 of them, in the machine's byte order; which
/// depends on the machine and is not stated).
#[verifier::external_body]
fn feed_usize(h: &mut std::collections::hash_map::DefaultHasher, v: usize)
    ensures
        final(h)@.len() == old(h)@.len() + 1,
        final(h)@.drop_last() == old(h)@,
        count_bytes(final(h)@.last(), v as nat),
{
    std::hash::Hash::hash(&v, h)
}

/// `Hash::hash` of a `u8` into the hasher (std): one write of that byte.
#[verifier::external_body]
fn feed_u8(h: &mut std::collections::hash_map::DefaultHasher, v: u8)
    ensures
        final(h)@ == old(h)@.push(seq![v]),
{
    std::hash::Hash::hash(&v, h)
}

/// `Hash::hash` of a `u32` into the hasher (std): one write of the value's
/// 4 native bytes (in the machine's byte order, which is not stated).
#[verifier::external_body]
fn feed_u32(h: &mut std::collections::hash_map::DefaultHasher, v: u32)
    ensures
        final(h)@.len() == old(h)@.len() + 1,
        final(h)@.drop_last() == old(h)@,
        native_bytes(final(h)@.last(), v as nat, 4),
{
    std::hash::Hash::hash(&v, h)
}

/// Whether `b` is a count's native bytes (a `usize`, of 4 or 8 bytes).
pub open spec fn count_bytes(b: Seq<u8>, v: nat) -> bool {
    native_bytes(b, v, 4) || native_bytes(b, v, 8)
}

/// Whether `ws` are the hasher writes of the notes `notes`, in order: for
/// each note its pitch, velocity, start tick, duration and channel.
pub open spec fn note_writes(ws: Seq<Seq<u8>>, notes: Seq<ImportNote>) -> bool
    decreases notes.len(),
{
    if notes.len() == 0 {
        ws.len() == 0
    } else {
        let k = ws.len() - 5;
        let n = notes.last();
        &&& k >= 0
        &&& note_writes(ws.take(k), notes.drop_last())
        &&& ws[k] == seq![n.pitch]
        &&& ws[k + 1] == seq![n.velocity]
        &&& native_bytes(ws[k + 2], n.start_tick as nat, 4)
        &&& native_bytes(ws[k + 3], n.duration_ticks as nat, 4)
        &&& ws[k + 4] == seq![n.channel]
    }
}

/// Whether `ws` are the hasher writes of the markers `ms` (tick, text), in
/// order: for each its tick, then the writes of its text.
pub open spec fn marker_writes(ws: Seq<Seq<u8>>, ms: Seq<(u32, Seq<char>)>) -> bool
    decreases ms.len(),
{
    if ms.len() == 0 {
        ws.len() == 0
    } else {
        let m = ms.last();
        let k = ws.len() - 1 - crate::project::str_hash_writes(m.1).len();
        &&& k >= 0
        &&& marker_writes(ws.take(k), ms.drop_last())
        &&& native_bytes(ws[k], m.0 as nat, 4)
        &&& ws.skip(k + 1) == crate::project::str_hash_writes(m.1)
    }
}

/// Whether `w` are the hasher writes of the fingerprinted source: the
/// track name, the number of notes, the notes, the number of markers and
/// the markers, in that order.
pub open spec fn fingerprint_writes(
    w: Seq<Seq<u8>>,
    track_name: Seq<char>,
    notes: Seq<ImportNote>,
    ms: Seq<(u32, Seq<char>)>,
) -> bool {
    exists|c1: Seq<u8>, nw: Seq<Seq<u8>>, c2: Seq<u8>, mw: Seq<Seq<u8>>|
        #![trigger count_bytes(c1, notes.len()), count_bytes(c2, ms.len()), note_writes(nw, notes), marker_writes(mw, ms)]
        w == crate::project::str_hash_writes(track_name) + seq![c1] + nw + seq![c2] + mw
            && count_bytes(c1, notes.len()) && note_writes(nw, notes) && count_bytes(c2, ms.len())
            && marker_writes(mw, ms)
}

/// The chart markers as values.
pub open spec fn marker_views(v: Seq<MarkerEvent>) -> Seq<(u32, Seq<char>)> {
    v.map_values(|m: MarkerEvent| marker_view(m))
}

/// The fingerprint of the source material: the lower-case hex of the hash
/// (`DefaultHasher::finish`) of the track name, the number of notes and
/// each note's pitch, velocity, start, duration and channel, then the
/// number of markers and each marker's tick and text, in that order.
/// Multi-byte numbers are hashed in the machine's byte order.
pub fn source_fingerprint(track_name: &str, notes: &[ImportNote], markers: &[MarkerEvent]) -> (r: String)
    ensures
        exists|w: Seq<Seq<u8>>|
            fingerprint_writes(w, track_name@, notes@, marker_views(markers@))
                && r@ == hex(DefaultHasher::spec_finish(w) as nat),
{
    let mut h = DefaultHasher::new();
    feed_str(&mut h, track_name);
    let ghost base = h@;
    feed_usize(&mut h, notes.len());
    let ghost c1 = h@.last();
    assert(h@ =~= base.push(c1));
    let ghost after_c1 = h@;
    let mut i: usize = 0;
    proof {
        assert(h@.skip(after_c1.len() as int) =~= Seq::<Seq<u8>>::empty());
        assert(notes@.take(0) =~= Seq::<ImportNote>::empty());
    }
    while i < notes.len()
        invariant
            i <= notes@.len(),
            after_c1.len() <= h@.len(),
            h@.take(after_c1.len() as int) == after_c1,
            note_writes(h@.skip(after_c1.len() as int), notes@.take(i as int)),
        decreases notes.len() - i,
    {
        let n = notes[i];
        let ghost before = h@;
        feed_u8(&mut h, n.pitch);
        let ghost h1 = h@;
        feed_u8(&mut h, n.velocity);
        let ghost h2 = h@;
        feed_u32(&mut h, n.start_tick);
        let ghost h3 = h@;
        feed_u32(&mut h, n.duration_ticks);
        let ghost h4 = h@;
        feed_u8(&mut h, n.channel);
        proof {
            let a = after_c1.len() as int;
            assert(h1 =~= before.push(h1.last()));
            assert(h2 =~= h1.push(h2.last()));
            assert(h3 =~= h2.push(h3.last()));
            assert(h4 =~= h3.push(h4.last()));
            assert(h@ =~= h4.push(h@.last()));
            let five = seq![h1.last(), h2.last(), h3.last(), h4.last(), h@.last()];
            assert(h@ =~= before + five);
            let ws = h@.skip(a);
            let prev = before.skip(a);
            assert(ws =~= prev + five);
            let nt = notes@.take(i + 1);
            assert(nt.drop_last() =~= notes@.take(i as int));
            assert(nt.last() == n);
            assert(ws.take(ws.len() - 5) =~= prev);
            assert(h@.take(a) =~= before.take(a));
        }
        i = i + 1;
    }
    proof {
        assert(notes@.take(notes@.len() as int) =~= notes@);
    }
    let ghost nw = h@.skip(after_c1.len() as int);
    assert(h@ =~= after_c1 + nw);
    feed_usize(&mut h, markers.len());
    let ghost c2 = h@.last();
    let ghost after_c2 = h@;
    assert(h@ =~= (after_c1 + nw).push(c2));
    let mut j: usize = 0;
    proof {
        assert(h@.skip(after_c2.len() as int) =~= Seq::<Seq<u8>>::empty());
        assert(marker_views(markers@).take(0) =~= Seq::<(u32, Seq<char>)>::empty());
    }
    while j < markers.len()
        invariant
            j <= markers@.len(),
            after_c2.len() <= h@.len(),
            h@.take(after_c2.len() as int) == after_c2,
            marker_writes(h@.skip(after_c2.len() as int), marker_views(markers@).take(j as int)),
        decreases markers.len() - j,
    {
        let ghost before = h@;
        feed_u32(&mut h, markers[j].tick);
        let ghost mid = h@;
        assert(mid =~= before.push(mid.last()));
        feed_str(&mut h, markers[j].text.as_str());
        proof {
            let a = after_c2.len() as int;
            let ws = h@.skip(a);
            let prev = before.skip(a);
            let mv = marker_views(markers@);
            let mt = mv.take(j + 1);
            let sw = crate::project::str_hash_writes(markers@[j as int].text@);
            assert(mt.drop_last() =~= mv.take(j as int));
            assert(mt.last() == marker_view(markers@[j as int]));
            assert(h@ == before.push(mid.last()) + sw);
            let k = ws.len() - 1 - sw.len();
            assert(k == prev.len());
            assert(ws.take(k) =~= prev);
            assert(ws[k] == mid.last());
            assert(ws.skip(k + 1) =~= sw);
            assert(ws =~= prev + seq![mid.last()] + sw);
            assert(h@.take(a) =~= before.take(a));
        }
        j = j + 1;
    }
    proof {
        assert(marker_views(markers@).take(markers@.len() as int) =~= marker_views(markers@));
        let mw = h@.skip(after_c2.len() as int);
        assert(h@ =~= after_c2 + mw);
        assert(base == Seq::<Seq<u8>>::empty() + crate::project::str_hash_writes(track_name@));
        assert(h@ =~= crate::project::str_hash_writes(track_name@) + seq![c1] + nw + seq![c2] + mw);
        assert(count_bytes(c1, notes@.len()));
        assert(count_bytes(c2, marker_views(markers@).len()));
        assert(fingerprint_writes(h@, track_name@, notes@, marker_views(markers@)));
    }
    let v = h.finish();
    string_of(&hex_chars(v))
}

// ---------------------------------------------------------------------------
// The source of a chart
// ---------------------------------------------------------------------------

/// What a chart is built from: its notes, its markers and the fingerprint
/// of both and the source track's name.
pub struct ChartSource {
    pub notes: Vec<ImportNote>,
    pub markers: Vec<MarkerEvent>,
    pub fingerprint: String,
}

/// The source of a chart from the notes of the source take (whose item
/// starts at `item_start_tick`) and the project's markers: no notes is an
/// error (`No MIDI notes found`); otherwise the notes in absolute ticks,
/// the chart markers, and their fingerprint with the track name.
pub fn prepare_chart_source(
    track_name: &str,
    notes: &[SourceNote],
    item_start_tick: u32,
    raw_markers: Vec<(u32, Option<String>)>,
) -> (r: Result<ChartSource, String>)
    requires
        forall|i: int| 0 <= i < notes@.len() ==> note_fits(#[trigger] notes@[i], item_start_tick),
    ensures
        notes@.len() == 0 ==> (r matches Err(m) && m@ == "No MIDI notes found"@),
        notes@.len() > 0 ==> (r matches Ok(c) && {
            &&& c.notes@.len() == notes@.len()
            &&& forall|i: int| 0 <= i < notes@.len() ==> #[trigger] c.notes@[i] == import_note_spec(notes@[i], item_start_tick)
            &&& marker_views(c.markers@) == stable_sort_by_tick(named_markers(raw_markers_view(raw_markers@)))
            &&& exists|w: Seq<Seq<u8>>|
                fingerprint_writes(w, track_name@, c.notes@, marker_views(c.markers@))
                    && c.fingerprint@ == hex(DefaultHasher::spec_finish(w) as nat)
        }),
{
    if notes.len() == 0 {
        return Err(string_of(&chars_of("No MIDI notes found")));
    }
    let imported = import_notes(notes, item_start_tick);
    let markers = chart_markers(raw_markers);
    assert(marker_views(markers@) =~= markers@.map_values(|x: MarkerEvent| marker_view(x)));
    let fingerprint = source_fingerprint(track_name, &imported, &markers);
    Ok(ChartSource { notes: imported, markers, fingerprint })
}

} // verus!
