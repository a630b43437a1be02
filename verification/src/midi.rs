//! Decoding of short MIDI messages from the bytes of one packet.
//!
//! Only three-byte channel-0 messages are understood: control change, note
//! on and note off. Decoding walks the packet from left to right and halts
//! at the first byte that does not start such a message.
use vstd::prelude::*;

verus! {

/// Status byte of a control-change message on channel 0.
pub const STATUS_CONTROL_CHANGE: u8 = 0xB0;

/// Status byte of a note-on message on channel 0.
pub const STATUS_NOTE_ON: u8 = 0x90;

/// Status byte of a note-off message on channel 0.
pub const STATUS_NOTE_OFF: u8 = 0x80;

/// Number of bytes in every message the decoder understands.
pub const MESSAGE_LEN: usize = 3;

/// One decoded MIDI message.
#[derive(Clone, Copy, Debug, PartialEq, Eq, Structural)]
pub enum MidiMessage {
    /// A controller moved to a new raw value.
    ControlChange { controller: u8, value: u8 },
    /// A key went down or up. `is_on` holds only for a note-on status with a
    /// velocity above zero.
    NoteEvent { note: u8, velocity: u8, is_on: bool },
}

/// Why decoding of a packet came to an end.
#[derive(Clone, Copy, Debug, PartialEq, Eq, Structural)]
pub enum DecodeEnd {
    /// Every byte of the packet was consumed.
    Exhausted,
    /// The byte at the halting offset is not a status byte the decoder knows.
    Unrecognized,
    /// A known status byte is followed by fewer than two bytes.
    Truncated,
}

/// What one packet decoded to.
#[derive(Debug, PartialEq, Eq)]
pub struct Decoded {
    /// The messages, in the order of their bytes.
    pub messages: Vec<MidiMessage>,
    /// Offset at which decoding halted; the bytes before it are consumed.
    pub consumed: usize,
    /// Why decoding halted there.
    pub end: DecodeEnd,
}

/// Whether `status` starts a message the decoder understands.
pub open spec fn is_recognized(status: u8) -> bool {
    status == STATUS_CONTROL_CHANGE || status == STATUS_NOTE_ON || status == STATUS_NOTE_OFF
}

/// The message that a status byte and its two data bytes stand for.
pub open spec fn message_of(status: u8, first: u8, second: u8) -> MidiMessage
    recommends
        is_recognized(status),
{
    if status == STATUS_CONTROL_CHANGE {
        MidiMessage::ControlChange { controller: first, value: second }
    } else {
        MidiMessage::NoteEvent {
            note: first,
            velocity: second,
            is_on: status == STATUS_NOTE_ON && second > 0,
        }
    }
}

/// Whether a whole message starts at offset `at` of `bytes`.
pub open spec fn message_starts_at(bytes: Seq<u8>, at: int) -> bool {
    0 <= at && at + MESSAGE_LEN <= bytes.len() && is_recognized(bytes[at])
}

/// The messages decoded from `bytes`, starting at offset `at`.
pub open spec fn messages_from(bytes: Seq<u8>, at: int) -> Seq<MidiMessage>
    decreases bytes.len() - at,
{
    if message_starts_at(bytes, at) {
        seq![message_of(bytes[at], bytes[at + 1], bytes[at + 2])] + messages_from(
            bytes,
            at + MESSAGE_LEN,
        )
    } else {
        Seq::empty()
    }
}

/// The offset at which decoding halts when it starts at offset `at`.
pub open spec fn halt_from(bytes: Seq<u8>, at: int) -> int
    decreases bytes.len() - at,
{
    if message_starts_at(bytes, at) {
        halt_from(bytes, at + MESSAGE_LEN)
    } else {
        at
    }
}

/// Why decoding halts at offset `at`, where no whole message starts.
pub open spec fn end_at(bytes: Seq<u8>, at: int) -> DecodeEnd {
    if at >= bytes.len() {
        DecodeEnd::Exhausted
    } else if is_recognized(bytes[at]) {
        DecodeEnd::Truncated
    } else {
        DecodeEnd::Unrecognized
    }
}

/// Whether `status` starts a message the decoder understands.
pub fn recognizes(status: u8) -> (known: bool)
    ensures
        known == is_recognized(status),
{
    status == STATUS_CONTROL_CHANGE || status == STATUS_NOTE_ON || status == STATUS_NOTE_OFF
}

/// The message that a status byte and its two data bytes stand for, if the
/// status byte is one the decoder knows.
pub fn message_from_bytes(status: u8, first: u8, second: u8) -> (message: Option<MidiMessage>)
    ensures
        message.is_some() == is_recognized(status),
        message matches Some(made) ==> made == message_of(status, first, second),
{
    if !recognizes(status) {
        None
    } else if status == STATUS_CONTROL_CHANGE {
        Some(MidiMessage::ControlChange { controller: first, value: second })
    } else {
        Some(
            MidiMessage::NoteEvent {
                note: first,
                velocity: second,
                is_on: status == STATUS_NOTE_ON && second > 0,
            },
        )
    }
}

/// Decodes the message that starts at offset `at`, if a whole one does.
///
/// Returns the message together with the offset just behind it.
pub fn decode_at(data: &[u8], at: usize) -> (next: Option<(MidiMessage, usize)>)
    ensures
        next.is_some() == message_starts_at(data@, at as int),
        next matches Some((message, behind)) ==> {
            &&& message == message_of(data@[at as int], data@[at + 1], data@[at + 2])
            &&& behind == at + MESSAGE_LEN
        },
{
    if at >= data.len() || data.len() - at < MESSAGE_LEN {
        return None;
    }
    match message_from_bytes(data[at], data[at + 1], data[at + 2]) {
        Some(message) => Some((message, at + MESSAGE_LEN)),
        None => None,
    }
}

/// Decodes one packet from its first byte on.
///
/// Messages are taken from left to right until the packet is exhausted or
/// a byte is met that starts no whole message; nothing behind that byte is
/// looked at.
pub fn decode(data: &[u8]) -> (decoded: Decoded)
    ensures
        decoded.messages@ == messages_from(data@, 0),
        decoded.consumed == halt_from(data@, 0),
        decoded.consumed == MESSAGE_LEN * decoded.messages@.len(),
        decoded.consumed <= data@.len(),
        decoded.end == end_at(data@, decoded.consumed as int),
        data@.len() > 0 && !is_recognized(data@[0]) ==> decoded.messages@.len() == 0
            && decoded.consumed == 0 && decoded.end == DecodeEnd::Unrecognized,
{
    let mut messages: Vec<MidiMessage> = Vec::new();
    let mut at: usize = 0;
    loop
        invariant
            at <= data@.len(),
            at == MESSAGE_LEN * messages@.len(),
            messages_from(data@, 0) == messages@ + messages_from(data@, at as int),
            halt_from(data@, 0) == halt_from(data@, at as int),
        decreases data@.len() - at,
    {
        match decode_at(data, at) {
            Some((message, behind)) => {
                proof {
                    assert(messages@.push(message) + messages_from(data@, behind as int)
                        =~= messages@ + messages_from(data@, at as int));
                }
                messages.push(message);
                at = behind;
            },
            None => {
                proof {
                    assert(messages@ + Seq::<MidiMessage>::empty() =~= messages@);
                }
                let end = if at >= data.len() {
                    DecodeEnd::Exhausted
                } else if recognizes(data[at]) {
                    DecodeEnd::Truncated
                } else {
                    DecodeEnd::Unrecognized
                };
                return Decoded { messages, consumed: at, end };
            },
        }
    }
}

/// A note-on triple is on exactly when its velocity is above zero.
pub proof fn note_on_needs_velocity(note: u8, velocity: u8)
    ensures
        messages_from(seq![STATUS_NOTE_ON, note, velocity], 0) == seq![
            MidiMessage::NoteEvent { note, velocity, is_on: velocity > 0 },
        ],
{
    let bytes = seq![STATUS_NOTE_ON, note, velocity];
    assert(message_starts_at(bytes, 0));
    assert(!message_starts_at(bytes, 3));
    assert(messages_from(bytes, 3) =~= Seq::<MidiMessage>::empty());
    assert(messages_from(bytes, 0) =~= seq![
        MidiMessage::NoteEvent { note, velocity, is_on: velocity > 0 },
    ]);
}

/// A note-off triple is never on, whatever its velocity.
pub proof fn note_off_is_never_on(note: u8, velocity: u8)
    ensures
        messages_from(seq![STATUS_NOTE_OFF, note, velocity], 0) == seq![
            MidiMessage::NoteEvent { note, velocity, is_on: false },
        ],
{
    let bytes = seq![STATUS_NOTE_OFF, note, velocity];
    assert(message_starts_at(bytes, 0));
    assert(!message_starts_at(bytes, 3));
    assert(messages_from(bytes, 3) =~= Seq::<MidiMessage>::empty());
    assert(messages_from(bytes, 0) =~= seq![
        MidiMessage::NoteEvent { note, velocity, is_on: false },
    ]);
}

/// A control-change triple decodes to its controller and raw value.
pub proof fn control_change_decodes(controller: u8, value: u8)
    ensures
        messages_from(seq![STATUS_CONTROL_CHANGE, controller, value], 0) == seq![
            MidiMessage::ControlChange { controller, value },
        ],
{
    let bytes = seq![STATUS_CONTROL_CHANGE, controller, value];
    assert(message_starts_at(bytes, 0));
    assert(!message_starts_at(bytes, 3));
    assert(messages_from(bytes, 3) =~= Seq::<MidiMessage>::empty());
    assert(messages_from(bytes, 0) =~= seq![MidiMessage::ControlChange { controller, value }]);
}

/// A packet whose first byte is no known status byte yields no message,
/// and decoding halts at its first byte.
pub proof fn unknown_first_byte_halts(bytes: Seq<u8>)
    requires
        bytes.len() > 0,
        !is_recognized(bytes[0]),
    ensures
        messages_from(bytes, 0) == Seq::<MidiMessage>::empty(),
        halt_from(bytes, 0) == 0,
        end_at(bytes, 0) == DecodeEnd::Unrecognized,
{
}

} // verus!
