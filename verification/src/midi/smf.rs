//! Standard MIDI File (SMF) parsing.
//!
//! [`Smf::parse`] turns the raw bytes of a `.mid`/`.midi` file into a
//! structured [`Smf`]: a header (format + time division) and a list of
//! [`Track`]s. Each track is a flat list of [`TrackEvent`]s carrying their
//! original delta-times (in ticks) alongside the decoded
//! [`MidiEvent`]/[`MetaEvent`]/system-exclusive payload.
//!
//! The grammar of the format is written out as spec functions over the byte
//! sequence (`smf_spec`, `track_spec`, `event_spec`, ...); every parsing
//! function is proved to compute exactly what they describe.

use vstd::prelude::*;

use crate::midi::error::MidiError;
use crate::midi::event::MidiEvent;
use crate::midi::program::MidiProgram;
use crate::text::{lossy_text, utf8_lossy};

verus! {

// ----- the grammar, as spec functions -------------------------------------

/// A big-endian 16-bit value.
pub open spec fn be16(a: u8, b: u8) -> int {
    a * 256 + b
}

/// A big-endian 32-bit value.
pub open spec fn be32(a: u8, b: u8, c: u8, d: u8) -> int {
    a * 16777216 + b * 65536 + c * 256 + d
}

/// One byte at `pos`, and the position after it.
pub open spec fn u8_spec(data: Seq<u8>, pos: int) -> Result<(u8, int), MidiError> {
    if 0 <= pos < data.len() {
        Ok((data[pos], pos + 1))
    } else {
        Err(MidiError::UnexpectedEof)
    }
}

/// A big-endian `u16` at `pos`.
pub open spec fn u16_spec(data: Seq<u8>, pos: int) -> Result<(u16, int), MidiError> {
    if 0 <= pos && pos + 2 <= data.len() {
        Ok((be16(data[pos], data[pos + 1]) as u16, pos + 2))
    } else {
        Err(MidiError::UnexpectedEof)
    }
}

/// A big-endian `u32` at `pos`.
pub open spec fn u32_spec(data: Seq<u8>, pos: int) -> Result<(u32, int), MidiError> {
    if 0 <= pos && pos + 4 <= data.len() {
        Ok(
            (
                be32(data[pos], data[pos + 1], data[pos + 2], data[pos + 3]) as u32,
                pos + 4,
            ),
        )
    } else {
        Err(MidiError::UnexpectedEof)
    }
}

/// `n` raw bytes at `pos`.
pub open spec fn bytes_spec(data: Seq<u8>, pos: int, n: int) -> Result<(Seq<u8>, int), MidiError> {
    if 0 <= pos <= data.len() && 0 <= n <= data.len() - pos {
        Ok((data.subrange(pos, pos + n), pos + n))
    } else {
        Err(MidiError::UnexpectedEof)
    }
}

/// The rest of a variable-length quantity whose first `k` bytes (starting at
/// `pos`) have accumulated to `acc`: seven bits per byte, the top bit set on
/// every byte but the last, and at most four bytes.
pub open spec fn vlq_rest(data: Seq<u8>, pos: int, acc: int, k: int) -> Result<
    (u32, int),
    MidiError,
>
    decreases 4 - k,
{
    if k >= 4 {
        Err(MidiError::InvalidVarLen)
    } else if !(0 <= pos + k < data.len()) {
        Err(MidiError::UnexpectedEof)
    } else {
        let b = data[pos + k];
        let acc2 = acc * 128 + b % 128;
        if b < 128 {
            Ok((acc2 as u32, pos + k + 1))
        } else {
            vlq_rest(data, pos, acc2, k + 1)
        }
    }
}

/// A variable-length quantity at `pos`.
pub open spec fn vlq_spec(data: Seq<u8>, pos: int) -> Result<(u32, int), MidiError> {
    vlq_rest(data, pos, 0, 0)
}

/// The SMF format number decoded.
pub open spec fn format_spec(value: u16) -> Result<Format, MidiError> {
    if value == 0 {
        Ok(Format::Single)
    } else if value == 1 {
        Ok(Format::Parallel)
    } else if value == 2 {
        Ok(Format::Sequential)
    } else {
        Err(MidiError::UnsupportedFormat(value))
    }
}

/// The header's time-division word decoded: with the top bit set, the high
/// byte is a negated (two's complement) frame rate and the low byte the
/// ticks per frame; otherwise it counts ticks per quarter note.
pub open spec fn division_spec(raw: u16) -> Division {
    if raw >= 0x8000 {
        Division::Smpte { fps: (256 - raw / 256) as u8, ticks_per_frame: (raw % 256) as u8 }
    } else {
        Division::TicksPerQuarter(raw)
    }
}

/// The channel message with status byte `status` whose first data byte is
/// `first` when running status supplied it, or is read at `pos` otherwise.
pub open spec fn channel_spec(data: Seq<u8>, pos: int, status: u8, first: Option<u8>) -> Result<
    (MidiEvent, int),
    MidiError,
> {
    let channel = status & 0x0f;
    let d1r: Result<(u8, int), MidiError> = match first {
        Some(b) => Ok((b, pos)),
        None => u8_spec(data, pos),
    };
    match d1r {
        Err(e) => Err(e),
        Ok((d1, p)) => {
            let kind = status & 0xf0;
            if kind == 0xC0 {
                Ok((MidiEvent::ProgramChange { channel, program: MidiProgram(d1) }, p))
            } else if kind == 0xD0 {
                Ok((MidiEvent::ChannelPressure { channel, value: d1 }, p))
            } else if kind == 0x80 || kind == 0x90 || kind == 0xA0 || kind == 0xB0 || kind
                == 0xE0 {
                match u8_spec(data, p) {
                    Err(e) => Err(e),
                    Ok((d2, p2)) => Ok((two_byte_event(channel, kind, d1, d2), p2)),
                }
            } else {
                Err(MidiError::BadValue)
            }
        },
    }
}

/// The event of a channel message with two data bytes. Controllers 120 and
/// 123 are the channel-mode messages all-sound-off and all-notes-off.
pub open spec fn two_byte_event(channel: u8, kind: u8, d1: u8, d2: u8) -> MidiEvent {
    if kind == 0x80 {
        MidiEvent::NoteOff { channel, key: d1, vel: d2 }
    } else if kind == 0x90 {
        MidiEvent::NoteOn { channel, key: d1, vel: d2 }
    } else if kind == 0xA0 {
        MidiEvent::PolyphonicKeyPressure { channel, key: d1, value: d2 }
    } else if kind == 0xB0 {
        if d1 == 120 {
            MidiEvent::AllSoundOff { channel }
        } else if d1 == 123 {
            MidiEvent::AllNotesOff { channel }
        } else {
            MidiEvent::ControlChange { channel, ctrl: d1, value: d2 }
        }
    } else {
        MidiEvent::PitchBend { channel, value: (d1 as u16) | ((d2 as u16) << 7u16) }
    }
}

/// A note message names its key in the byte right after the status and its
/// velocity in the byte after that, for a note-off as for a note-on; under
/// running status the key is the byte already read. The channel is the low
/// nibble of the status, and the message takes two bytes.
pub proof fn lemma_note_messages(data: Seq<u8>, pos: int, status: u8)
    requires
        0 <= pos,
        pos + 1 < data.len(),
        status & 0xf0 == 0x80 || status & 0xf0 == 0x90,
    ensures
        ({
            let ev = channel_spec(data, pos, status, None);
            &&& ev is Ok
            &&& ev->Ok_0.1 == pos + 2
            &&& match ev->Ok_0.0 {
                MidiEvent::NoteOff { channel, key, vel } => status & 0xf0 == 0x80 && channel
                    == status % 16 && key == data[pos] && vel == data[pos + 1],
                MidiEvent::NoteOn { channel, key, vel } => status & 0xf0 == 0x90 && channel
                    == status % 16 && key == data[pos] && vel == data[pos + 1],
                _ => false,
            }
        }),
        ({
            let ev = channel_spec(data, pos + 1, status, Some(data[pos]));
            &&& ev is Ok
            &&& ev->Ok_0.1 == pos + 2
            &&& match ev->Ok_0.0 {
                MidiEvent::NoteOff { channel, key, vel } => status & 0xf0 == 0x80 && channel
                    == status % 16 && key == data[pos] && vel == data[pos + 1],
                MidiEvent::NoteOn { channel, key, vel } => status & 0xf0 == 0x90 && channel
                    == status % 16 && key == data[pos] && vel == data[pos + 1],
                _ => false,
            }
        }),
{
    assert(status & 0x0f == status % 16) by (bit_vector);
    assert(status & 0xf0 != 0xC0 && status & 0xf0 != 0xD0) by (bit_vector)
        requires
            status & 0xf0 == 0x80 || status & 0xf0 == 0x90,
    ;
}

/// A meta event as a value of the model.
pub ghost enum MetaModel {
    Text(Seq<char>),
    TrackName(Seq<char>),
    Tempo(u32),
    TimeSignature {
        numerator: u8,
        denominator: u8,
        clocks_per_click: u8,
        thirty_seconds_per_quarter: u8,
    },
    KeySignature { sharps: i8, minor: bool },
    EndOfTrack,
    Other { meta_type: u8, data: Seq<u8> },
}

/// The payload of a track event as a value of the model.
pub ghost enum EventKindModel {
    Midi(MidiEvent),
    Meta(MetaModel),
    SysEx(Seq<u8>),
}

/// A track event as a value of the model.
pub ghost struct EventModel {
    pub delta: u32,
    pub kind: EventKindModel,
}

/// A whole file as a value of the model.
pub ghost struct SmfModel {
    pub format: Format,
    pub division: Division,
    pub tracks: Seq<Seq<EventModel>>,
}

/// `2^e` for a time-signature denominator exponent below 8, else `0`
/// (the shift would leave the byte).
pub open spec fn denominator_spec(e: u8) -> u8 {
    if e == 0 {
        1
    } else if e == 1 {
        2
    } else if e == 2 {
        4
    } else if e == 3 {
        8
    } else if e == 4 {
        16
    } else if e == 5 {
        32
    } else if e == 6 {
        64
    } else if e == 7 {
        128
    } else {
        0
    }
}

/// The meta event with type byte `t` and payload `d`.
pub open spec fn meta_value(t: u8, d: Seq<u8>) -> MetaModel {
    if t == 0x01 {
        MetaModel::Text(lossy_text(d))
    } else if t == 0x03 {
        MetaModel::TrackName(lossy_text(d))
    } else if t == 0x2F {
        MetaModel::EndOfTrack
    } else if t == 0x51 && d.len() == 3 {
        MetaModel::Tempo((d[0] * 65536 + d[1] * 256 + d[2]) as u32)
    } else if t == 0x58 && d.len() == 4 {
        MetaModel::TimeSignature {
            numerator: d[0],
            denominator: denominator_spec(d[1]),
            clocks_per_click: d[2],
            thirty_seconds_per_quarter: d[3],
        }
    } else if t == 0x59 && d.len() == 2 {
        MetaModel::KeySignature { sharps: d[0] as i8, minor: d[1] != 0 }
    } else {
        MetaModel::Other { meta_type: t, data: d }
    }
}

/// A meta event body (after the `FF` byte): type byte, length, payload.
pub open spec fn meta_spec(data: Seq<u8>, pos: int) -> Result<(MetaModel, int), MidiError> {
    match u8_spec(data, pos) {
        Err(e) => Err(e),
        Ok((t, p1)) => match vlq_spec(data, p1) {
            Err(e) => Err(e),
            Ok((len, p2)) => match bytes_spec(data, p2, len as int) {
                Err(e) => Err(e),
                Ok((d, p3)) => Ok((meta_value(t, d), p3)),
            },
        },
    }
}

/// One track event at `pos` under running status `running`: the event, the
/// position after it and the running status that follows it.
pub open spec fn event_spec(data: Seq<u8>, pos: int, running: Option<u8>) -> Result<
    (EventModel, int, Option<u8>),
    MidiError,
> {
    match vlq_spec(data, pos) {
        Err(e) => Err(e),
        Ok((delta, p1)) => match u8_spec(data, p1) {
            Err(e) => Err(e),
            Ok((byte, p2)) => if byte == 0xFF {
                match meta_spec(data, p2) {
                    Err(e) => Err(e),
                    Ok((m, p3)) => Ok(
                        (EventModel { delta, kind: EventKindModel::Meta(m) }, p3, None),
                    ),
                }
            } else if byte == 0xF0 || byte == 0xF7 {
                match vlq_spec(data, p2) {
                    Err(e) => Err(e),
                    Ok((len, p3)) => match bytes_spec(data, p3, len as int) {
                        Err(e) => Err(e),
                        Ok((d, p4)) => Ok(
                            (EventModel { delta, kind: EventKindModel::SysEx(d) }, p4, None),
                        ),
                    },
                }
            } else if byte >= 0x80 {
                match channel_spec(data, p2, byte, None) {
                    Err(e) => Err(e),
                    Ok((ev, p3)) => Ok(
                        (EventModel { delta, kind: EventKindModel::Midi(ev) }, p3, Some(byte)),
                    ),
                }
            } else {
                match running {
                    None => Err(MidiError::RunningStatus),
                    Some(status) => match channel_spec(data, p2, status, Some(byte)) {
                        Err(e) => Err(e),
                        Ok((ev, p3)) => Ok(
                            (EventModel { delta, kind: EventKindModel::Midi(ev) }, p3, running),
                        ),
                    },
                }
            },
        },
    }
}

/// The events of a track body from `pos` to its end.
pub open spec fn track_from(data: Seq<u8>, pos: int, running: Option<u8>) -> Result<
    Seq<EventModel>,
    MidiError,
>
    decreases data.len() - pos,
{
    if pos < 0 || pos >= data.len() {
        Ok(seq![])
    } else {
        match event_spec(data, pos, running) {
            Err(e) => Err(e),
            Ok((ev, p, r)) => {
                proof {
                    lemma_event_advances(data, pos, running);
                }
                match track_from(data, p, r) {
                    Err(e) => Err(e),
                    Ok(rest) => Ok(seq![ev] + rest),
                }
            },
        }
    }
}

/// The events of a whole `MTrk` body.
pub open spec fn track_spec(data: Seq<u8>) -> Result<Seq<EventModel>, MidiError> {
    track_from(data, 0, None)
}

/// One chunk at `pos`: its tag, its body and the position after it.
pub open spec fn chunk_spec(data: Seq<u8>, pos: int) -> Result<(Seq<u8>, Seq<u8>, int), MidiError> {
    match bytes_spec(data, pos, 4) {
        Err(e) => Err(e),
        Ok((tag, p1)) => match u32_spec(data, p1) {
            Err(e) => Err(e),
            Ok((len, p2)) => match bytes_spec(data, p2, len as int) {
                Err(e) => Err(e),
                Ok((body, p3)) => Ok((tag, body, p3)),
            },
        },
    }
}

/// `n` chunks from `pos`: the bodies of `MTrk` chunks parse as tracks and
/// any other chunk is skipped.
pub open spec fn chunks_spec(data: Seq<u8>, pos: int, n: nat) -> Result<
    Seq<Seq<EventModel>>,
    MidiError,
>
    decreases n,
{
    if n == 0 {
        Ok(seq![])
    } else {
        match chunk_spec(data, pos) {
            Err(e) => Err(e),
            Ok((tag, body, p)) => if tag == mtrk() {
                match track_spec(body) {
                    Err(e) => Err(e),
                    Ok(t) => match chunks_spec(data, p, (n - 1) as nat) {
                        Err(e) => Err(e),
                        Ok(rest) => Ok(seq![t] + rest),
                    },
                }
            } else {
                chunks_spec(data, p, (n - 1) as nat)
            },
        }
    }
}

/// The tag `MThd`.
pub open spec fn mthd() -> Seq<u8> {
    seq![0x4Du8, 0x54u8, 0x68u8, 0x64u8]
}

/// The tag `MTrk`.
pub open spec fn mtrk() -> Seq<u8> {
    seq![0x4Du8, 0x54u8, 0x72u8, 0x6Bu8]
}

/// A whole Standard MIDI File: the `MThd` header (length at least 6;
/// format, track count, division; any longer header skipped) and then as
/// many chunks as the header counts tracks.
pub open spec fn smf_spec(data: Seq<u8>) -> Result<SmfModel, MidiError> {
    match bytes_spec(data, 0, 4) {
        Err(e) => Err(e),
        Ok((tag, p1)) => if tag != mthd() {
            Err(MidiError::InvalidHeader)
        } else {
            match u32_spec(data, p1) {
                Err(e) => Err(e),
                Ok((hlen, p2)) => if hlen < 6 {
                    Err(MidiError::InvalidHeader)
                } else {
                    match u16_spec(data, p2) {
                        Err(e) => Err(e),
                        Ok((fmt, p3)) => match format_spec(fmt) {
                            Err(e) => Err(e),
                            Ok(format) => match u16_spec(data, p3) {
                                Err(e) => Err(e),
                                Ok((ntracks, p4)) => match u16_spec(data, p4) {
                                    Err(e) => Err(e),
                                    Ok((div, p5)) => match bytes_spec(data, p5, hlen - 6) {
                                        Err(e) => Err(e),
                                        Ok((_, p6)) => match chunks_spec(data, p6, ntracks as nat) {
                                            Err(e) => Err(e),
                                            Ok(tracks) => Ok(
                                                SmfModel {
                                                    format,
                                                    division: division_spec(div),
                                                    tracks,
                                                },
                                            ),
                                        },
                                    },
                                },
                            },
                        },
                    }
                },
            }
        },
    }
}

/// Every successful variable-length quantity consumes at least one byte.
pub proof fn lemma_vlq_advances(data: Seq<u8>, pos: int, acc: int, k: int)
    requires
        0 <= k,
    ensures
        vlq_rest(data, pos, acc, k) matches Ok((_, p)) ==> p > pos + k,
    decreases 4 - k,
{
    if k < 4 && 0 <= pos + k < data.len() && data[pos + k] >= 128 {
        lemma_vlq_advances(data, pos, acc * 128 + data[pos + k] % 128, k + 1);
    }
}

/// Every successfully parsed track event consumes at least two bytes.
pub proof fn lemma_event_advances(data: Seq<u8>, pos: int, running: Option<u8>)
    ensures
        event_spec(data, pos, running) matches Ok((_, p, _)) ==> p > pos,
{
    lemma_vlq_advances(data, pos, 0, 0);
    if let Ok((_, p1)) = vlq_spec(data, pos) {
        lemma_vlq_advances(data, p1 + 1, 0, 0);
        lemma_vlq_advances(data, p1 + 2, 0, 0);
    }
}


// ----- the parsed model ------------------------------------------------------

/// SMF format, from the header `format` field.
#[derive(Debug, Clone, Copy, PartialEq, Eq, Structural)]
pub enum Format {
    /// A single multi-channel track (format 0).
    Single,
    /// One or more tracks played simultaneously (format 1).
    Parallel,
    /// One or more independent single-track patterns (format 2).
    Sequential,
}

impl Format {
    /// Decodes the header's format number.
    pub fn from_u16(value: u16) -> (r: Result<Format, MidiError>)
        ensures
            r == format_spec(value),
    {
        if value == 0 {
            Ok(Format::Single)
        } else if value == 1 {
            Ok(Format::Parallel)
        } else if value == 2 {
            Ok(Format::Sequential)
        } else {
            Err(MidiError::UnsupportedFormat(value))
        }
    }
}

/// Time division from the header: how a tick relates to wall-clock time.
#[derive(Debug, Clone, Copy, PartialEq, Eq, Structural)]
pub enum Division {
    /// Metrical timing: ticks per quarter note.
    TicksPerQuarter(u16),
    /// SMPTE timing: frames per second and ticks per frame.
    Smpte {
        /// Frames per second (commonly 24, 25, 29 or 30).
        fps: u8,
        /// Subdivisions of a frame.
        ticks_per_frame: u8,
    },
}

impl Division {
    /// Decodes the header's division word.
    pub fn from_raw(raw: u16) -> (d: Division)
        ensures
            d == division_spec(raw),
    {
        if raw & 0x8000 != 0 {
            assert(raw & 0x8000 != 0 ==> raw >= 0x8000) by (bit_vector);
            let hb: u16 = raw >> 8u16;
            assert(raw >> 8u16 == raw / 256) by (bit_vector);
            let fps = (256 - hb) as u8;
            let ticks_per_frame = (raw & 0x00ff) as u8;
            assert(raw & 0x00ff == raw % 256) by (bit_vector);
            Division::Smpte { fps, ticks_per_frame }
        } else {
            assert(raw & 0x8000 == 0 ==> raw < 0x8000) by (bit_vector);
            Division::TicksPerQuarter(raw)
        }
    }
}

/// A meta event (`FF` in a track).
#[derive(Debug, Clone, PartialEq, Eq)]
pub enum MetaEvent {
    /// Free text (meta type `0x01`).
    Text(String),
    /// Track or sequence name (meta type `0x03`).
    TrackName(String),
    /// Tempo, in microseconds per quarter note (meta type `0x51`).
    Tempo(u32),
    /// Time signature (meta type `0x58`).
    TimeSignature {
        /// Beats per bar.
        numerator: u8,
        /// Note value of one beat, as the actual denominator (e.g. `8`, not 3).
        denominator: u8,
        /// MIDI clocks per metronome click.
        clocks_per_click: u8,
        /// Number of notated 32nd-notes per quarter note.
        thirty_seconds_per_quarter: u8,
    },
    /// Key signature (meta type `0x59`).
    KeySignature {
        /// Number of sharps (positive) or flats (negative).
        sharps: i8,
        /// `true` for a minor key, `false` for major.
        minor: bool,
    },
    /// End of track (meta type `0x2F`).
    EndOfTrack,
    /// Any other meta event: its type byte and raw data.
    Other {
        /// Meta type byte.
        meta_type: u8,
        /// Raw, undecoded payload.
        data: Vec<u8>,
    },
}

impl View for MetaEvent {
    type V = MetaModel;

    open spec fn view(&self) -> MetaModel {
        match self {
            MetaEvent::Text(s) => MetaModel::Text(s@),
            MetaEvent::TrackName(s) => MetaModel::TrackName(s@),
            MetaEvent::Tempo(t) => MetaModel::Tempo(*t),
            MetaEvent::TimeSignature {
                numerator,
                denominator,
                clocks_per_click,
                thirty_seconds_per_quarter,
            } => MetaModel::TimeSignature {
                numerator: *numerator,
                denominator: *denominator,
                clocks_per_click: *clocks_per_click,
                thirty_seconds_per_quarter: *thirty_seconds_per_quarter,
            },
            MetaEvent::KeySignature { sharps, minor } => MetaModel::KeySignature {
                sharps: *sharps,
                minor: *minor,
            },
            MetaEvent::EndOfTrack => MetaModel::EndOfTrack,
            MetaEvent::Other { meta_type, data } => MetaModel::Other {
                meta_type: *meta_type,
                data: data@,
            },
        }
    }
}

/// The payload of a [`TrackEvent`].
#[derive(Debug, Clone, PartialEq, Eq)]
pub enum TrackEventKind {
    /// A channel voice/mode message.
    Midi(MidiEvent),
    /// A meta event (tempo, track name, end-of-track, ...).
    Meta(MetaEvent),
    /// System-exclusive data, without the leading `F0`/`F7` or length.
    SysEx(Vec<u8>),
}

impl View for TrackEventKind {
    type V = EventKindModel;

    open spec fn view(&self) -> EventKindModel {
        match self {
            TrackEventKind::Midi(m) => EventKindModel::Midi(*m),
            TrackEventKind::Meta(m) => EventKindModel::Meta(m@),
            TrackEventKind::SysEx(d) => EventKindModel::SysEx(d@),
        }
    }
}

/// A single event within a track, with its delta-time.
#[derive(Debug, Clone, PartialEq, Eq)]
pub struct TrackEvent {
    /// Delta-time in ticks since the previous event in this track.
    pub delta: u32,
    /// The decoded event.
    pub kind: TrackEventKind,
}

impl View for TrackEvent {
    type V = EventModel;

    open spec fn view(&self) -> EventModel {
        EventModel { delta: self.delta, kind: self.kind@ }
    }
}

/// The model of a list of events.
pub open spec fn events_model(events: Seq<TrackEvent>) -> Seq<EventModel> {
    events.map_values(|e: TrackEvent| e@)
}

/// A single track: a flat, ordered list of timed events.
#[derive(Debug, Clone, PartialEq, Eq)]
pub struct Track {
    /// The events of the track, in file order.
    pub events: Vec<TrackEvent>,
}

/// The sum of the delta-times of `events`.
pub open spec fn total_delta(events: Seq<EventModel>) -> int
    decreases events.len(),
{
    if events.len() == 0 {
        0
    } else {
        total_delta(events.drop_last()) + events.last().delta
    }
}

/// The channel events of `events` with their absolute ticks (running sums
/// of the delta-times), meta and system-exclusive events left out.
pub open spec fn midi_events_spec(events: Seq<EventModel>) -> Seq<(u64, MidiEvent)>
    decreases events.len(),
{
    if events.len() == 0 {
        seq![]
    } else {
        let rest = midi_events_spec(events.drop_last());
        match events.last().kind {
            EventKindModel::Midi(m) => rest.push((total_delta(events) as u64, m)),
            _ => rest,
        }
    }
}

impl Track {
    /// The track's [`MidiEvent`]s tagged with their absolute tick (summing
    /// delta-times), skipping meta and system-exclusive events.
    pub fn midi_events(&self) -> (r: Vec<(u64, MidiEvent)>)
        requires
            total_delta(events_model(self.events@)) <= u64::MAX,
        ensures
            r@ == midi_events_spec(events_model(self.events@)),
    {
        let ghost evs = events_model(self.events@);
        let mut out: Vec<(u64, MidiEvent)> = Vec::new();
        let mut tick: u64 = 0;
        let mut i: usize = 0;
        while i < self.events.len()
            invariant
                i <= self.events@.len(),
                evs == events_model(self.events@),
                total_delta(evs) <= u64::MAX,
                tick == total_delta(evs.take(i as int)),
                out@ == midi_events_spec(evs.take(i as int)),
            decreases self.events@.len() - i,
        {
            proof {
                lemma_total_delta_prefix(evs, i as int + 1);
                assert(evs.take(i as int + 1).drop_last() =~= evs.take(i as int));
            }
            let ev = &self.events[i];
            tick = tick + ev.delta as u64;
            match ev.kind {
                TrackEventKind::Midi(m) => {
                    out.push((tick, m));
                },
                _ => {},
            }
            i = i + 1;
        }
        proof {
            assert(evs.take(i as int) =~= evs);
        }
        out
    }
}

impl Track {
    /// The track's events as [`midi_events`](Track::midi_events) tags them,
    /// or `None` when the delta-times add up past the largest 64-bit tick.
    pub fn try_midi_events(&self) -> (r: Option<Vec<(u64, MidiEvent)>>)
        ensures
            match r {
                Some(v) => total_delta(events_model(self.events@)) <= u64::MAX && v@
                    == midi_events_spec(events_model(self.events@)),
                None => total_delta(events_model(self.events@)) > u64::MAX,
            },
    {
        let ghost evs = events_model(self.events@);
        let mut total: u64 = 0;
        let mut i: usize = 0;
        assert(evs.take(0) =~= Seq::<EventModel>::empty());
        while i < self.events.len()
            invariant
                i <= self.events@.len(),
                evs == events_model(self.events@),
                total == total_delta(evs.take(i as int)),
            decreases self.events@.len() - i,
        {
            proof {
                assert(evs.take(i as int + 1).drop_last() =~= evs.take(i as int));
            }
            match total.checked_add(self.events[i].delta as u64) {
                Some(t) => {
                    total = t;
                },
                None => {
                    proof {
                        lemma_total_delta_prefix(evs, i as int + 1);
                    }
                    return None;
                },
            }
            i = i + 1;
        }
        proof {
            assert(evs.take(i as int) =~= evs);
        }
        Some(self.midi_events())
    }
}

/// A running sum is at most the whole sum.
pub proof fn lemma_total_delta_prefix(events: Seq<EventModel>, n: int)
    requires
        0 <= n <= events.len(),
    ensures
        total_delta(events.take(n)) <= total_delta(events),
    decreases events.len() - n,
{
    if n < events.len() {
        lemma_total_delta_prefix(events, n + 1);
        assert(events.take(n + 1).drop_last() =~= events.take(n));
    } else {
        assert(events.take(n) =~= events);
    }
}

/// Within a track, the absolute ticks that `midi_events` hands out never go
/// down, and none lies past the sum of all the track's delta-times.
pub proof fn lemma_midi_ticks_nondecreasing(events: Seq<EventModel>)
    requires
        total_delta(events) <= u64::MAX,
    ensures
        0 <= total_delta(events),
        forall|i: int, j: int|
            0 <= i <= j < midi_events_spec(events).len() ==> #[trigger] midi_events_spec(
                events,
            )[i].0 <= #[trigger] midi_events_spec(events)[j].0,
        forall|i: int|
            0 <= i < midi_events_spec(events).len() ==> #[trigger] midi_events_spec(events)[i].0
                <= total_delta(events),
    decreases events.len(),
{
    if events.len() > 0 {
        let prefix = events.drop_last();
        lemma_midi_ticks_nondecreasing(prefix);
        let total = total_delta(events);
        assert(total == total_delta(prefix) + events.last().delta);
        let rest = midi_events_spec(prefix);
        let all = midi_events_spec(events);
        match events.last().kind {
            EventKindModel::Midi(m) => {
                assert(all == rest.push((total as u64, m)));
                assert((total as u64) as int == total);
                assert forall|i: int, j: int| 0 <= i <= j < all.len() implies all[i].0
                    <= all[j].0 by {
                    if j < rest.len() {
                        assert(all[i] == rest[i] && all[j] == rest[j]);
                    } else if i < rest.len() {
                        assert(all[i] == rest[i]);
                    }
                }
                assert forall|i: int| 0 <= i < all.len() implies all[i].0 <= total by {
                    if i < rest.len() {
                        assert(all[i] == rest[i]);
                    }
                }
            },
            _ => {
                assert(all == rest);
            },
        }
    }
}

/// A parsed Standard MIDI File.
#[derive(Debug, Clone, PartialEq, Eq)]
pub struct Smf {
    /// The arrangement of the tracks (header `format` field).
    pub format: Format,
    /// How delta-times in the tracks should be interpreted.
    pub division: Division,
    /// The track chunks, in file order.
    pub tracks: Vec<Track>,
}

/// The model of a list of tracks.
pub open spec fn tracks_model(tracks: Seq<Track>) -> Seq<Seq<EventModel>> {
    tracks.map_values(|t: Track| events_model(t.events@))
}

impl View for Smf {
    type V = SmfModel;

    open spec fn view(&self) -> SmfModel {
        SmfModel { format: self.format, division: self.division, tracks: tracks_model(self.tracks@) }
    }
}

/// `prefix` followed by whatever `rest` parses to.
pub open spec fn after<T>(prefix: Seq<T>, rest: Result<Seq<T>, MidiError>) -> Result<
    Seq<T>,
    MidiError,
> {
    match rest {
        Ok(r) => Ok(prefix + r),
        Err(e) => Err(e),
    }
}

/// `r` is what the modelled step `s` yields, and the reader now stands at the
/// position `s` ends at.
pub open spec fn stepped<T>(r: Result<T, MidiError>, s: Result<(T, int), MidiError>, pos: int) -> bool {
    match s {
        Ok((v, p)) => r == Ok::<T, MidiError>(v) && pos == p,
        Err(e) => r == Err::<T, MidiError>(e),
    }
}

// ----- the byte cursor ---------------------------------------------------------

/// A forward-only byte cursor over a slice, with big-endian and
/// variable-length-quantity helpers.
pub struct Reader<'a> {
    /// The bytes read.
    pub data: &'a [u8],
    /// How many of them have been consumed.
    pub pos: usize,
}

impl<'a> Reader<'a> {
    /// The cursor stands within its data.
    pub open spec fn wf(&self) -> bool {
        self.pos <= self.data@.len()
    }

    /// A cursor at the start of `data`.
    pub fn new(data: &'a [u8]) -> (r: Self)
        ensures
            r.data@ == data@,
            r.pos == 0,
    {
        Reader { data, pos: 0 }
    }

    /// Whether every byte has been consumed.
    pub fn is_empty(&self) -> (b: bool)
        ensures
            b == (self.pos >= self.data@.len()),
    {
        self.pos >= self.data.len()
    }

    /// How many bytes are left.
    pub fn remaining(&self) -> (n: usize)
        requires
            self.wf(),
        ensures
            n == self.data@.len() - self.pos,
    {
        self.data.len() - self.pos
    }

    /// Reads one byte.
    pub fn u8(&mut self) -> (r: Result<u8, MidiError>)
        requires
            old(self).wf(),
        ensures
            final(self).wf(),
            final(self).data@ == old(self).data@,
            stepped(r, u8_spec(old(self).data@, old(self).pos as int), final(self).pos as int),
            r is Err ==> final(self).pos == old(self).pos == old(self).data@.len(),
    {
        if self.pos < self.data.len() {
            let b = self.data[self.pos];
            self.pos = self.pos + 1;
            Ok(b)
        } else {
            Err(MidiError::UnexpectedEof)
        }
    }

    /// Reads a big-endian `u16`.
    pub fn u16(&mut self) -> (r: Result<u16, MidiError>)
        requires
            old(self).wf(),
        ensures
            final(self).wf(),
            final(self).data@ == old(self).data@,
            stepped(r, u16_spec(old(self).data@, old(self).pos as int), final(self).pos as int),
    {
        let a = match self.u8() {
            Ok(a) => a,
            Err(e) => return Err(e),
        };
        let b = match self.u8() {
            Ok(b) => b,
            Err(e) => return Err(e),
        };
        Ok((a as u16) * 256 + (b as u16))
    }

    /// Reads a big-endian `u32`.
    pub fn u32(&mut self) -> (r: Result<u32, MidiError>)
        requires
            old(self).wf(),
        ensures
            final(self).wf(),
            final(self).data@ == old(self).data@,
            stepped(r, u32_spec(old(self).data@, old(self).pos as int), final(self).pos as int),
    {
        let a = match self.u8() {
            Ok(v) => v,
            Err(e) => return Err(e),
        };
        let b = match self.u8() {
            Ok(v) => v,
            Err(e) => return Err(e),
        };
        let c = match self.u8() {
            Ok(v) => v,
            Err(e) => return Err(e),
        };
        let d = match self.u8() {
            Ok(v) => v,
            Err(e) => return Err(e),
        };
        Ok((a as u32) * 16777216 + (b as u32) * 65536 + (c as u32) * 256 + (d as u32))
    }

    /// Takes the next `n` bytes.
    pub fn bytes(&mut self, n: usize) -> (r: Result<&'a [u8], MidiError>)
        requires
            old(self).wf(),
        ensures
            final(self).wf(),
            final(self).data@ == old(self).data@,
            match bytes_spec(old(self).data@, old(self).pos as int, n as int) {
                Ok((d, p)) => r matches Ok(s) && s@ == d && final(self).pos == p,
                Err(e) => r == Err::<&'a [u8], MidiError>(e),
            },
    {
        let len = self.data.len();
        if len - self.pos < n {
            return Err(MidiError::UnexpectedEof);
        }
        let slice = &self.data[self.pos..self.pos + n];
        self.pos = self.pos + n;
        Ok(slice)
    }

    /// Takes a four-byte chunk tag.
    pub fn tag(&mut self) -> (r: Result<[u8; 4], MidiError>)
        requires
            old(self).wf(),
        ensures
            final(self).wf(),
            final(self).data@ == old(self).data@,
            match bytes_spec(old(self).data@, old(self).pos as int, 4) {
                Ok((d, p)) => r matches Ok(t) && t@ == d && final(self).pos == p,
                Err(e) => r == Err::<[u8; 4], MidiError>(e),
            },
    {
        let b = match self.bytes(4) {
            Ok(b) => b,
            Err(e) => return Err(e),
        };
        let t = [b[0], b[1], b[2], b[3]];
        assert(t@ =~= b@);
        Ok(t)
    }

    /// Reads a MIDI variable-length quantity (7 bits per byte, the top bit
    /// set on every byte but the last, at most four bytes). After four
    /// bytes with the top bit set the cursor stands past them; when the
    /// bytes run out it stands at the end.
    pub fn vlq(&mut self) -> (r: Result<u32, MidiError>)
        requires
            old(self).wf(),
        ensures
            final(self).wf(),
            final(self).data@ == old(self).data@,
            stepped(r, vlq_spec(old(self).data@, old(self).pos as int), final(self).pos as int),
            r == Err::<u32, MidiError>(MidiError::InvalidVarLen) ==> final(self).pos == old(self).pos + 4,
            r == Err::<u32, MidiError>(MidiError::UnexpectedEof) ==> final(self).pos
                == old(self).data@.len(),
    {
        let ghost start = self.pos as int;
        let ghost data = self.data@;
        // Work on a copy of the cursor and store its position back at the end.
        let mut cur = Reader { data: self.data, pos: self.pos };
        let mut value: u32 = 0;
        let mut i: usize = 0;
        while i < 4
            invariant
                cur.wf(),
                cur.data@ == data,
                i <= 4,
                cur.pos == start + i,
                value < (if i == 0 {
                    1int
                } else if i == 1 {
                    128int
                } else if i == 2 {
                    16384int
                } else if i == 3 {
                    2097152int
                } else {
                    268435456int
                }),
                vlq_spec(data, start) == vlq_rest(data, start, value as int, i as int),
                self.data@ == data,
                self.pos == start,
                old(self).data@ == data,
                old(self).pos == start,
            decreases 4 - i,
        {
            let b = match cur.u8() {
                Ok(b) => b,
                Err(e) => {
                    self.pos = cur.pos;
                    return Err(e);
                },
            };
            assert(b & 0x7f == b % 128) by (bit_vector);
            assert(b & 0x80 == 0 <==> b < 128) by (bit_vector);
            value = value * 128 + (b & 0x7f) as u32;
            i = i + 1;
            if b & 0x80 == 0 {
                self.pos = cur.pos;
                return Ok(value);
            }
        }
        self.pos = cur.pos;
        Err(MidiError::InvalidVarLen)
    }
}

// ----- parsing ---------------------------------------------------------------

/// The event of a channel message with two data bytes.
fn two_byte(channel: u8, kind: u8, d1: u8, d2: u8) -> (ev: MidiEvent)
    ensures
        ev == two_byte_event(channel, kind, d1, d2),
{
    if kind == 0x80 {
        MidiEvent::NoteOff { channel, key: d1, vel: d2 }
    } else if kind == 0x90 {
        MidiEvent::NoteOn { channel, key: d1, vel: d2 }
    } else if kind == 0xA0 {
        MidiEvent::PolyphonicKeyPressure { channel, key: d1, value: d2 }
    } else if kind == 0xB0 {
        if d1 == 120 {
            MidiEvent::AllSoundOff { channel }
        } else if d1 == 123 {
            MidiEvent::AllNotesOff { channel }
        } else {
            MidiEvent::ControlChange { channel, ctrl: d1, value: d2 }
        }
    } else {
        MidiEvent::PitchBend { channel, value: (d1 as u16) | ((d2 as u16) << 7u16) }
    }
}

/// Decodes a channel message whose `status` byte is known. `first` is the
/// already-consumed first data byte when running status is in effect.
pub fn parse_channel(r: &mut Reader, status: u8, first: Option<u8>) -> (res: Result<
    MidiEvent,
    MidiError,
>)
    requires
        old(r).wf(),
    ensures
        final(r).wf(),
        final(r).data@ == old(r).data@,
        stepped(res, channel_spec(old(r).data@, old(r).pos as int, status, first), final(r).pos as int),
{
    let channel = status & 0x0f;
    let d1 = match first {
        Some(b) => b,
        None => match r.u8() {
            Ok(b) => b,
            Err(e) => return Err(e),
        },
    };
    let kind = status & 0xf0;
    if kind == 0xC0 {
        Ok(MidiEvent::ProgramChange { channel, program: MidiProgram::from_u8(d1) })
    } else if kind == 0xD0 {
        Ok(MidiEvent::ChannelPressure { channel, value: d1 })
    } else if kind == 0x80 || kind == 0x90 || kind == 0xA0 || kind == 0xB0 || kind == 0xE0 {
        let d2 = match r.u8() {
            Ok(b) => b,
            Err(e) => return Err(e),
        };
        Ok(two_byte(channel, kind, d1, d2))
    } else {
        Err(MidiError::BadValue)
    }
}

/// The denominator of a time signature from its exponent byte
/// (`1u8.checked_shl(e)`, or `0` when the shift leaves the byte).
fn denominator(e: u8) -> (d: u8)
    ensures
        d == denominator_spec(e),
{
    if e < 8 {
        let d = 1u8 << e;
        assert(e < 8 ==> (1u8 << e) == denominator_spec(e)) by (bit_vector);
        d
    } else {
        0
    }
}

/// Decodes a meta event body (the bytes after the `FF` status).
pub fn parse_meta(r: &mut Reader) -> (res: Result<MetaEvent, MidiError>)
    requires
        old(r).wf(),
    ensures
        final(r).wf(),
        final(r).data@ == old(r).data@,
        match meta_spec(old(r).data@, old(r).pos as int) {
            Ok((m, p)) => res matches Ok(v) && v@ == m && final(r).pos == p,
            Err(e) => res == Err::<MetaEvent, MidiError>(e),
        },
{
    let meta_type = match r.u8() {
        Ok(b) => b,
        Err(e) => return Err(e),
    };
    let len = match r.vlq() {
        Ok(n) => n,
        Err(e) => return Err(e),
    };
    let data = match r.bytes(len as usize) {
        Ok(d) => d,
        Err(e) => return Err(e),
    };
    let meta = if meta_type == 0x01 {
        MetaEvent::Text(utf8_lossy(data))
    } else if meta_type == 0x03 {
        MetaEvent::TrackName(utf8_lossy(data))
    } else if meta_type == 0x2F {
        MetaEvent::EndOfTrack
    } else if meta_type == 0x51 && data.len() == 3 {
        MetaEvent::Tempo((data[0] as u32) * 65536 + (data[1] as u32) * 256 + (data[2] as u32))
    } else if meta_type == 0x58 && data.len() == 4 {
        MetaEvent::TimeSignature {
            numerator: data[0],
            denominator: denominator(data[1]),
            clocks_per_click: data[2],
            thirty_seconds_per_quarter: data[3],
        }
    } else if meta_type == 0x59 && data.len() == 2 {
        MetaEvent::KeySignature { sharps: data[0] as i8, minor: data[1] != 0 }
    } else {
        MetaEvent::Other { meta_type, data: vstd::slice::slice_to_vec(data) }
    };
    Ok(meta)
}

/// Decodes one track event under running status `running`, returning it
/// with the running status that follows it.
pub fn parse_event(r: &mut Reader, running: Option<u8>) -> (res: Result<
    (TrackEvent, Option<u8>),
    MidiError,
>)
    requires
        old(r).wf(),
    ensures
        final(r).wf(),
        final(r).data@ == old(r).data@,
        match event_spec(old(r).data@, old(r).pos as int, running) {
            Ok((ev, p, next)) => res matches Ok((e, n)) && e@ == ev && n == next && final(r).pos
                == p,
            Err(err) => res is Err && res->Err_0 == err,
        },
{
    let delta = match r.vlq() {
        Ok(v) => v,
        Err(e) => return Err(e),
    };
    let byte = match r.u8() {
        Ok(b) => b,
        Err(e) => return Err(e),
    };
    if byte == 0xFF {
        // A meta event clears running status.
        let m = match parse_meta(r) {
            Ok(m) => m,
            Err(e) => return Err(e),
        };
        Ok((TrackEvent { delta, kind: TrackEventKind::Meta(m) }, None))
    } else if byte == 0xF0 || byte == 0xF7 {
        // System exclusive also clears running status.
        let len = match r.vlq() {
            Ok(v) => v,
            Err(e) => return Err(e),
        };
        let d = match r.bytes(len as usize) {
            Ok(d) => d,
            Err(e) => return Err(e),
        };
        Ok(
            (
                TrackEvent { delta, kind: TrackEventKind::SysEx(vstd::slice::slice_to_vec(d)) },
                None,
            ),
        )
    } else if byte >= 0x80 {
        // A fresh status byte for a channel message.
        let ev = match parse_channel(r, byte, None) {
            Ok(ev) => ev,
            Err(e) => return Err(e),
        };
        Ok((TrackEvent { delta, kind: TrackEventKind::Midi(ev) }, Some(byte)))
    } else {
        // No status byte: reuse the running status; `byte` is the first data
        // byte of the message.
        let status = match running {
            Some(s) => s,
            None => return Err(MidiError::RunningStatus),
        };
        let ev = match parse_channel(r, status, Some(byte)) {
            Ok(ev) => ev,
            Err(e) => return Err(e),
        };
        Ok((TrackEvent { delta, kind: TrackEventKind::Midi(ev) }, running))
    }
}

/// Parses one `MTrk` chunk body into a [`Track`].
pub fn parse_track(data: &[u8]) -> (res: Result<Track, MidiError>)
    ensures
        match track_spec(data@) {
            Ok(evs) => res matches Ok(t) && events_model(t.events@) == evs,
            Err(e) => res is Err && res->Err_0 == e,
        },
{
    let mut r = Reader::new(data);
    let mut events: Vec<TrackEvent> = Vec::new();
    let mut running: Option<u8> = None;
    while !r.is_empty()
        invariant
            r.wf(),
            r.data@ == data@,
            track_spec(data@) == after(events_model(events@), track_from(data@, r.pos as int, running)),
        decreases data@.len() - r.pos,
    {
        let ghost p0 = r.pos as int;
        let ghost prev = events_model(events@);
        proof {
            lemma_event_advances(data@, p0, running);
        }
        let (ev, next) = match parse_event(&mut r, running) {
            Ok(x) => x,
            Err(e) => return Err(e),
        };
        events.push(ev);
        running = next;
        proof {
            assert(events_model(events@) =~= prev + seq![ev@]);
            assert(prev + seq![ev@] + seq![] =~= prev + seq![ev@]);
            match track_from(data@, r.pos as int, running) {
                Ok(rest) => {
                    assert(prev + (seq![ev@] + rest) =~= prev + seq![ev@] + rest);
                },
                Err(_) => {},
            }
        }
    }
    proof {
        assert(events_model(events@) + seq![] =~= events_model(events@));
    }
    Ok(Track { events })
}

/// `true` when the four bytes spell `word`.
fn tag_is(t: &[u8; 4], word: &[u8; 4]) -> (b: bool)
    ensures
        b == (t@ == word@),
{
    let b = t[0] == word[0] && t[1] == word[1] && t[2] == word[2] && t[3] == word[3];
    proof {
        if b {
            assert(t@ =~= word@);
        }
    }
    b
}

/// Reads one chunk: its tag and its body.
pub fn read_chunk<'a>(r: &mut Reader<'a>) -> (res: Result<([u8; 4], &'a [u8]), MidiError>)
    requires
        old(r).wf(),
    ensures
        final(r).wf(),
        final(r).data@ == old(r).data@,
        match chunk_spec(old(r).data@, old(r).pos as int) {
            Ok((tag, body, p)) => res matches Ok((t, b)) && t@ == tag && b@ == body && final(r).pos
                == p,
            Err(e) => res is Err && res->Err_0 == e,
        },
{
    let tag = match r.tag() {
        Ok(t) => t,
        Err(e) => return Err(e),
    };
    let len = match r.u32() {
        Ok(v) => v,
        Err(e) => return Err(e),
    };
    let body = match r.bytes(len as usize) {
        Ok(c) => c,
        Err(e) => return Err(e),
    };
    Ok((tag, body))
}

/// Reads `n` chunks, parsing each `MTrk` body as a track and skipping any
/// other chunk (the format allows alien chunk types).
pub fn parse_chunks(r: &mut Reader, n: u16) -> (res: Result<Vec<Track>, MidiError>)
    requires
        old(r).wf(),
    ensures
        match chunks_spec(old(r).data@, old(r).pos as int, n as nat) {
            Ok(ts) => res matches Ok(v) && tracks_model(v@) == ts,
            Err(e) => res is Err && res->Err_0 == e,
        },
{
    let ghost data = r.data@;
    let ghost start = r.pos as int;
    let mtrk_tag: [u8; 4] = [0x4D, 0x54, 0x72, 0x6B];
    assert(mtrk_tag@ =~= mtrk());
    let mut tracks: Vec<Track> = Vec::with_capacity(n as usize);
    let mut i: u16 = 0;
    while i < n
        invariant
            r.wf(),
            r.data@ == data,
            old(r).data@ == data,
            old(r).pos == start,
            mtrk_tag@ == mtrk(),
            i <= n,
            chunks_spec(data, start, n as nat) == after(
                tracks_model(tracks@),
                chunks_spec(data, r.pos as int, (n - i) as nat),
            ),
        decreases n - i,
    {
        let ghost prev = tracks_model(tracks@);
        let (tag, chunk) = match read_chunk(r) {
            Ok(c) => c,
            Err(e) => return Err(e),
        };
        if tag_is(&tag, &mtrk_tag) {
            let t = match parse_track(chunk) {
                Ok(t) => t,
                Err(e) => return Err(e),
            };
            tracks.push(t);
            proof {
                assert(tracks_model(tracks@) =~= prev + seq![events_model(t.events@)]);
                match chunks_spec(data, r.pos as int, (n - i - 1) as nat) {
                    Ok(rest) => {
                        assert(prev + (seq![events_model(t.events@)] + rest) =~= prev + seq![
                            events_model(t.events@),
                        ] + rest);
                    },
                    Err(_) => {},
                }
            }
        }
        i = i + 1;
    }
    proof {
        assert(tracks_model(tracks@) + seq![] =~= tracks_model(tracks@));
    }
    Ok(tracks)
}

impl Smf {
    /// Parses the bytes of a Standard MIDI File.
    pub fn parse(bytes: &[u8]) -> (res: Result<Smf, MidiError>)
        ensures
            match smf_spec(bytes@) {
                Ok(m) => res matches Ok(s) && s@ == m,
                Err(e) => res is Err && res->Err_0 == e,
            },
    {
        let mut r = Reader::new(bytes);
        let data = bytes;
        // --- Header chunk (MThd) ---
        let tag = match r.tag() {
            Ok(t) => t,
            Err(e) => return Err(e),
        };
        let mthd_tag: [u8; 4] = [0x4D, 0x54, 0x68, 0x64];
        assert(mthd_tag@ =~= mthd());
        if !tag_is(&tag, &mthd_tag) {
            return Err(MidiError::InvalidHeader);
        }
        let header_len = match r.u32() {
            Ok(v) => v,
            Err(e) => return Err(e),
        };
        if header_len < 6 {
            return Err(MidiError::InvalidHeader);
        }
        let fmt = match r.u16() {
            Ok(v) => v,
            Err(e) => return Err(e),
        };
        let format = match Format::from_u16(fmt) {
            Ok(f) => f,
            Err(e) => return Err(e),
        };
        let ntracks = match r.u16() {
            Ok(v) => v,
            Err(e) => return Err(e),
        };
        let div = match r.u16() {
            Ok(v) => v,
            Err(e) => return Err(e),
        };
        let division = Division::from_raw(div);
        // Skip any vendor-specific trailing header bytes.
        match r.bytes(header_len as usize - 6) {
            Ok(_) => {},
            Err(e) => return Err(e),
        }
        let tracks = match parse_chunks(&mut r, ntracks) {
            Ok(t) => t,
            Err(e) => return Err(e),
        };
        Ok(Smf { format, division, tracks })
    }
}

} // verus!
