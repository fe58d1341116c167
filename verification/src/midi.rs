//! MIDI: decoding of raw messages, with and without running status, and the
//! choice of an input port.
use vstd::prelude::*;
use vstd::slice::slice_subrange;
use crate::select::find_name;
use crate::text::concat;

verus! {

/// Parsed MIDI events relevant to the vocoder.
#[derive(Debug, Clone, Copy, PartialEq, Eq, Structural)]
pub enum MidiEvent {
    NoteOn { channel: u8, note: u8, velocity: u8 },
    NoteOff { channel: u8, note: u8, velocity: u8 },
    ControlChange { channel: u8, controller: u8, value: u8 },
    PitchBend { channel: u8, value: i16 },
    Unknown,
}

// ── Model ──────────────────────────────────────────────────────────

/// A status byte that opens a voice message.
pub open spec fn is_voice_status(b: u8) -> bool {
    0x80 <= b < 0xF0
}

/// A status byte of a system common message.
pub open spec fn is_system_common(b: u8) -> bool {
    0xF0 <= b < 0xF8
}

/// A status byte of a system real-time message.
pub open spec fn is_real_time(b: u8) -> bool {
    0xF8 <= b
}

/// A byte that carries data rather than a status.
pub open spec fn is_data(b: u8) -> bool {
    b < 0x80
}

/// The two data bytes of a pitch bend put together: the bits of `lsb`, with
/// those of `msb` seven places higher. Data bytes have seven bits; where `lsb`
/// has an eighth, it falls on the lowest bit of `msb`.
pub open spec fn bend_raw(lsb: u8, msb: u8) -> int {
    let carry: int = if lsb >= 128 && msb % 2 == 0 {
        128
    } else {
        0
    };
    128 * msb + lsb % 128 + carry
}

/// The greatest bend of a well-formed message: all bits of the high byte.
pub const BEND_MAX: i16 = 8064;

/// The pitch bend of two data bytes, 0 at the centre. Well-formed data, seven
/// bits each, gives a value from -8192 up to `BEND_MAX`.
pub open spec fn bend_value(lsb: u8, msb: u8) -> int {
    let value = bend_raw(lsb, msb) - 8192;
    if is_data(lsb) && is_data(msb) && value > BEND_MAX {
        BEND_MAX as int
    } else {
        value
    }
}

/// The event of a voice message, from its channel, the upper half of its
/// status byte and the bytes that follow the status byte.
pub open spec fn voice_event(channel: u8, message_type: u8, data: Seq<u8>) -> MidiEvent {
    if data.len() < 2 {
        MidiEvent::Unknown
    } else if message_type == 0x90 && data[1] != 0 {
        MidiEvent::NoteOn { channel, note: data[0], velocity: data[1] }
    } else if message_type == 0x90 || message_type == 0x80 {
        MidiEvent::NoteOff { channel, note: data[0], velocity: data[1] }
    } else if message_type == 0xB0 {
        MidiEvent::ControlChange { channel, controller: data[0], value: data[1] }
    } else if message_type == 0xE0 {
        MidiEvent::PitchBend { channel, value: bend_value(data[0], data[1]) as i16 }
    } else {
        MidiEvent::Unknown
    }
}

/// The event of a voice message, from its status byte and what follows it.
pub open spec fn status_event(status: u8, data: Seq<u8>) -> MidiEvent {
    voice_event(status % 16, (status - status % 16) as u8, data)
}

/// The event of a raw message under a running status.
pub open spec fn message_event(running: Option<u8>, data: Seq<u8>) -> MidiEvent {
    if data.len() == 0 {
        MidiEvent::Unknown
    } else if is_voice_status(data[0]) {
        status_event(data[0], data.skip(1))
    } else if is_data(data[0]) && running is Some {
        status_event(running->0, data)
    } else {
        MidiEvent::Unknown
    }
}

/// The running status that a raw message leaves behind.
pub open spec fn next_status(running: Option<u8>, data: Seq<u8>) -> Option<u8> {
    if data.len() == 0 {
        running
    } else if is_voice_status(data[0]) {
        Some(data[0])
    } else if is_system_common(data[0]) {
        None
    } else {
        running
    }
}

/// The channel of an event, where it has one.
pub open spec fn channel_of(event: MidiEvent) -> Option<u8> {
    match event {
        MidiEvent::NoteOn { channel, .. } => Some(channel),
        MidiEvent::NoteOff { channel, .. } => Some(channel),
        MidiEvent::ControlChange { channel, .. } => Some(channel),
        MidiEvent::PitchBend { channel, .. } => Some(channel),
        MidiEvent::Unknown => None,
    }
}

// ── Decoding ───────────────────────────────────────────────────────

/// The pitch bend of two data bytes.
fn bend(lsb: u8, msb: u8) -> (r: i16)
    ensures
        r == bend_value(lsb, msb),
{
    let low: i16 = lsb as i16;
    let high: i16 = msb as i16;
    let raw: i16 = (high << 7) | low;
    proof {
        assert(((msb as i16) << 7) | (lsb as i16) == 128 * msb + lsb % 128 + (if lsb >= 128 && msb % 2
            == 0 {
            128int
        } else {
            0int
        })) by (bit_vector);
    }
    // Centre value is 0x2000 (8192); shift so centre = 0.
    let value: i16 = raw - 8192;
    if lsb < 0x80 && msb < 0x80 && value > BEND_MAX {
        BEND_MAX
    } else {
        value
    }
}

/// Parse a voice-channel MIDI message payload into a [`MidiEvent`].
///
/// `channel` is the 4-bit MIDI channel, `message_type` is the upper nibble
/// of the status byte (e.g. `0x90` for Note On), and `data` contains only
/// the data bytes that follow the status byte.
pub fn parse_voice_message(channel: u8, message_type: u8, data: &[u8]) -> (event: MidiEvent)
    ensures
        event == voice_event(channel, message_type, data@),
{
    if data.len() < 2 {
        return MidiEvent::Unknown;
    }
    match message_type {
        0x90 => {
            let note = data[0];
            let velocity = data[1];
            // A Note On with velocity 0 is equivalent to Note Off.
            if velocity == 0 {
                MidiEvent::NoteOff { channel, note, velocity: 0 }
            } else {
                MidiEvent::NoteOn { channel, note, velocity }
            }
        },
        0x80 => MidiEvent::NoteOff { channel, note: data[0], velocity: data[1] },
        0xB0 => MidiEvent::ControlChange { channel, controller: data[0], value: data[1] },
        0xE0 => MidiEvent::PitchBend { channel, value: bend(data[0], data[1]) },
        _ => MidiEvent::Unknown,
    }
}

/// Splits a status byte and parses the payload that belongs to it.
fn parse_with_status(status: u8, payload: &[u8]) -> (event: MidiEvent)
    ensures
        event == status_event(status, payload@),
{
    let channel = status & 0x0F;
    let message_type = status & 0xF0;
    proof {
        assert(status & 0x0F == status % 16) by (bit_vector);
        assert(status & 0xF0 == status - status % 16) by (bit_vector);
    }
    parse_voice_message(channel, message_type, payload)
}

/// Stateful MIDI parser that tracks running status.
///
/// MIDI's "running status" optimisation allows a sender to omit the status
/// byte on consecutive messages of the same type. Without tracking the
/// previous status byte, such messages would be silently dropped.
pub struct MidiParser {
    running_status: u8,
}

impl View for MidiParser {
    type V = Option<u8>;

    /// The running status, if there is one.
    closed spec fn view(&self) -> Option<u8> {
        if self.running_status == 0 {
            None
        } else {
            Some(self.running_status)
        }
    }
}

impl MidiParser {
    #[verifier::type_invariant]
    spec fn well_formed(&self) -> bool {
        self.running_status == 0 || is_voice_status(self.running_status)
    }

    /// Create a new parser with no running-status context.
    pub fn new() -> (parser: Self)
        ensures
            parser@ is None,
    {
        MidiParser { running_status: 0 }
    }

    /// Parse a raw MIDI message, using running-status tracking to
    /// reconstruct the full message when the status byte is omitted.
    pub fn parse(&mut self, data: &[u8]) -> (event: MidiEvent)
        ensures
            event == message_event(old(self)@, data@),
            final(self)@ == next_status(old(self)@, data@),
            old(self)@ is Some ==> is_voice_status(old(self)@->0),
            final(self)@ is Some ==> is_voice_status(final(self)@->0),
    {
        proof {
            use_type_invariant(&*self);
        }
        if data.is_empty() {
            return MidiEvent::Unknown;
        }
        let first = data[0];

        // Real-time messages (0xF8-0xFF): single byte, don't affect running status.
        if first >= 0xF8 {
            return MidiEvent::Unknown;
        }
        // System common messages (0xF0-0xF7): cancel running status.
        if first >= 0xF0 {
            self.running_status = 0;
            return MidiEvent::Unknown;
        }
        if first >= 0x80 {
            // New voice-category status byte: update running status.
            self.running_status = first;
            return parse_with_status(first, slice_subrange(data, 1, data.len()));
        }
        // Data byte first: apply running status.
        if self.running_status == 0 {
            return MidiEvent::Unknown;
        }
        parse_with_status(self.running_status, data)
    }
}

/// Parse a raw 3-byte MIDI message into a [`MidiEvent`].
///
/// This is a stateless convenience wrapper around [`parse_voice_message`].
/// It does **not** handle running status; for that, use [`MidiParser`].
pub fn parse_midi_message(data: &[u8]) -> (event: MidiEvent)
    ensures
        event == message_event(None, data@),
{
    if data.is_empty() {
        return MidiEvent::Unknown;
    }
    let status = data[0];
    if status < 0x80 {
        // No status byte and no running-state context: cannot parse.
        return MidiEvent::Unknown;
    }
    // System messages: return Unknown, don't try voice parsing.
    if status >= 0xF0 {
        return MidiEvent::Unknown;
    }
    parse_with_status(status, slice_subrange(data, 1, data.len()))
}

// ── Input ports ────────────────────────────────────────────────────

/// Why no input port could be chosen.
#[derive(Debug, Clone)]
pub enum PortError {
    /// There is no input port at all.
    NoPorts,
    /// No port has the name that was asked for.
    NotFound { name: String },
}

impl PortError {
    /// The message shown to the user.
    pub fn message(&self) -> (r: String)
        ensures
            self is NoPorts ==> r@ == "No MIDI input ports available"@,
            self matches PortError::NotFound { name } ==> r@ == "MIDI input port '"@ + name@
                + "' not found"@,
    {
        match self {
            PortError::NoPorts => "No MIDI input ports available".to_owned(),
            PortError::NotFound { name } => {
                let mut s = concat("MIDI input port '", name.as_str());
                s.append("' not found");
                s
            },
        }
    }
}

/// The text under which a port with an unreadable name is shown.
pub const UNKNOWN_PORT: &'static str = "unknown";

/// The text under which a port is shown.
pub open spec fn label_text(name: Option<String>) -> Seq<char> {
    match name {
        Some(s) => s@,
        None => UNKNOWN_PORT@,
    }
}

/// The text under which a port is shown: its name, or a stand-in where the
/// name could not be read.
pub fn port_label(name: &Option<String>) -> (r: String)
    ensures
        r@ == label_text(*name),
{
    match name {
        Some(s) => s.clone(),
        None => UNKNOWN_PORT.to_owned(),
    }
}

/// The texts under which a list of ports is shown, in the same order.
pub fn port_labels(names: &Vec<Option<String>>) -> (r: Vec<String>)
    ensures
        crate::text::texts(r@) == names@.map_values(|n: Option<String>| label_text(n)),
{
    let mut labels: Vec<String> = Vec::new();
    let mut i: usize = 0;
    while i < names.len()
        invariant
            i <= names.len(),
            labels.len() == i,
            forall|j: int| 0 <= j < i ==> labels@[j]@ == label_text(#[trigger] names@[j]),
        decreases names.len() - i,
    {
        labels.push(port_label(&names[i]));
        i = i + 1;
    }
    proof {
        assert(crate::text::texts(labels@) =~= names@.map_values(
            |n: Option<String>| label_text(n),
        ));
    }
    labels
}

/// Chooses the port to connect to from the names of all ports, where a name
/// that could not be read is `None`.
///
/// If `wanted` is `Some(name)`, the first port with that name is chosen; if it
/// is `None`, the first port.
pub fn choose_port(names: &Vec<Option<String>>, wanted: Option<&str>) -> (r: Result<
    usize,
    PortError,
>)
    ensures
        names@.len() == 0 <==> r == Err::<usize, PortError>(PortError::NoPorts),
        names@.len() > 0 && wanted is None ==> r == Ok::<usize, PortError>(0),
        names@.len() > 0 ==> (wanted matches Some(name) ==> match crate::select::first_index(
            crate::select::name_texts(names@),
            Some(name@),
        ) {
            Some(i) => r is Ok && r->Ok_0 == i,
            None => r matches Err(PortError::NotFound { name: missing }) && missing@ == name@,
        }),
        wanted matches Some(name) ==> {
            &&& r matches Ok(i) ==> crate::select::first_named(names@, name@, i as int)
            &&& names@.len() > 0 && r is Err ==> crate::select::none_named(names@, name@)
        },
{
    if names.len() == 0 {
        return Err(PortError::NoPorts);
    }
    match wanted {
        Some(name) => match find_name(names, name) {
            Some(i) => Ok(i),
            None => Err(PortError::NotFound { name: name.to_owned() }),
        },
        None => Ok(0),
    }
}

// ── Laws ───────────────────────────────────────────────────────────

/// The running status after a stream of messages.
pub open spec fn status_after(running: Option<u8>, messages: Seq<Seq<u8>>) -> Option<u8>
    decreases messages.len(),
{
    if messages.len() == 0 {
        running
    } else {
        next_status(status_after(running, messages.drop_last()), messages.last())
    }
}

/// A message that opens with a status byte of its own means the same whatever
/// came before it.
pub proof fn law_full_message_needs_no_context(running: Option<u8>, data: Seq<u8>)
    requires
        data.len() > 0,
        !is_data(data[0]),
    ensures
        message_event(running, data) == message_event(None, data),
{
}

/// After a voice message, a message without its status byte is decoded as if
/// that status byte stood in front of it.
pub proof fn law_running_status(running: Option<u8>, full: Seq<u8>, rest: Seq<u8>)
    requires
        full.len() > 0,
        is_voice_status(full[0]),
        rest.len() > 0,
        is_data(rest[0]),
    ensures
        message_event(next_status(running, full), rest) == message_event(
            None,
            seq![full[0]] + rest,
        ),
        next_status(next_status(running, full), rest) == Some(full[0]),
{
    assert((seq![full[0]] + rest).skip(1) =~= rest);
}

/// A message without its status byte yields nothing where no status is running.
pub proof fn law_no_context(data: Seq<u8>)
    requires
        data.len() > 0,
        is_data(data[0]),
    ensures
        message_event(None, data) is Unknown,
        next_status(None, data) is None,
{
}

/// A real-time message, wherever it falls in a stream, yields no event and
/// changes neither the running status nor the decoding of what follows.
pub proof fn law_real_time_is_transparent(
    running: Option<u8>,
    before: Seq<Seq<u8>>,
    clock: Seq<u8>,
    after: Seq<Seq<u8>>,
    next: Seq<u8>,
)
    requires
        clock.len() > 0,
        is_real_time(clock[0]),
    ensures
        message_event(running, clock) is Unknown,
        status_after(running, before + seq![clock] + after) == status_after(running, before + after),
        message_event(status_after(running, before + seq![clock] + after), next) == message_event(
            status_after(running, before + after),
            next,
        ),
    decreases after.len(),
{
    let with = before + seq![clock] + after;
    let without = before + after;
    if after.len() == 0 {
        assert(with.drop_last() =~= before);
        assert(with.last() == clock);
        assert(without =~= before);
    } else {
        let shorter = after.drop_last();
        law_real_time_is_transparent(running, before, clock, shorter, next);
        assert(with.drop_last() =~= before + seq![clock] + shorter);
        assert(without.drop_last() =~= before + shorter);
        assert(with.last() == after.last());
        assert(without.last() == after.last());
    }
}

/// A system common message yields no event and cancels the running status, so
/// that data without a status byte is not decoded after it.
pub proof fn law_system_common_cancels(running: Option<u8>, system: Seq<u8>, data: Seq<u8>)
    requires
        system.len() > 0,
        is_system_common(system[0]),
        data.len() > 0,
        is_data(data[0]),
    ensures
        message_event(running, system) is Unknown,
        next_status(running, system) is None,
        message_event(next_status(running, system), data) is Unknown,
{
}

/// The running status is always a voice status.
pub proof fn law_status_is_voice(running: Option<u8>, messages: Seq<Seq<u8>>)
    requires
        running is Some ==> is_voice_status(running->0),
    ensures
        status_after(running, messages) matches Some(status) ==> is_voice_status(status),
    decreases messages.len(),
{
    if messages.len() > 0 {
        law_status_is_voice(running, messages.drop_last());
    }
}

/// An event carries the channel of its status byte, one of sixteen.
pub proof fn law_channel_is_preserved(status: u8, data: Seq<u8>)
    ensures
        channel_of(status_event(status, data)) matches Some(channel) ==> channel == status % 16
            && channel < 16,
{
}

/// A complete voice message yields the event of its kind, on the channel of its
/// status byte and with its data bytes, whatever came before it.
pub proof fn law_complete_messages(running: Option<u8>, status: u8, first: u8, second: u8)
    ensures
        0x80 <= status < 0x90 ==> message_event(running, seq![status, first, second])
            == (MidiEvent::NoteOff {
            channel: (status - 0x80) as u8,
            note: first,
            velocity: second,
        }),
        0x90 <= status < 0xA0 && second > 0 ==> message_event(running, seq![status, first, second])
            == (MidiEvent::NoteOn {
            channel: (status - 0x90) as u8,
            note: first,
            velocity: second,
        }),
        0x90 <= status < 0xA0 && second == 0 ==> message_event(
            running,
            seq![status, first, second],
        ) == (MidiEvent::NoteOff { channel: (status - 0x90) as u8, note: first, velocity: 0 }),
        0xB0 <= status < 0xC0 ==> message_event(running, seq![status, first, second])
            == (MidiEvent::ControlChange {
            channel: (status - 0xB0) as u8,
            controller: first,
            value: second,
        }),
        0xE0 <= status < 0xF0 ==> message_event(running, seq![status, first, second])
            == (MidiEvent::PitchBend {
            channel: (status - 0xE0) as u8,
            value: bend_value(first, second) as i16,
        }),
{
    assert(seq![status, first, second].skip(1) =~= seq![first, second]);
}

/// A Note On always sounds: one with velocity 0 is a Note Off.
pub proof fn law_note_on_sounds(running: Option<u8>, data: Seq<u8>, channel: u8, note: u8)
    ensures
        message_event(running, data) matches MidiEvent::NoteOn { velocity, .. } ==> velocity > 0,
        voice_event(channel, 0x90, seq![note, 0u8]) == voice_event(channel, 0x80, seq![note, 0u8]),
{
}

/// The running status after one message: a voice message sets it, a system
/// common message cancels it, and anything else leaves it.
pub proof fn law_status_after_message(running: Option<u8>, data: Seq<u8>)
    ensures
        data.len() == 0 ==> next_status(running, data) == running,
        data.len() > 0 && data[0] < 0x80 ==> next_status(running, data) == running,
        data.len() > 0 && 0x80 <= data[0] < 0xF0 ==> next_status(running, data) == Some(data[0]),
        data.len() > 0 && 0xF0 <= data[0] < 0xF8 ==> next_status(running, data) is None,
        data.len() > 0 && data[0] >= 0xF8 ==> next_status(running, data) == running,
{
}

/// Bytes behind the two data bytes of a message change nothing.
pub proof fn law_extra_bytes(running: Option<u8>, data: Seq<u8>, extra: Seq<u8>)
    requires
        data.len() >= 3 || (data.len() == 2 && data[0] < 0x80),
    ensures
        message_event(running, data + extra) == message_event(running, data),
        next_status(running, data + extra) == next_status(running, data),
{
}

/// A message with fewer than two data bytes yields nothing, and neither does any
/// system message, nor an empty one.
pub proof fn law_no_event(running: Option<u8>, data: Seq<u8>)
    ensures
        data.len() < 2 ==> message_event(running, data) is Unknown,
        data.len() == 2 && data[0] >= 0x80 ==> message_event(running, data) is Unknown,
        data.len() > 0 && data[0] >= 0xF0 ==> message_event(running, data) is Unknown,
{
}

/// The bend of a byte with an eighth bit is that of the two bytes laid over one
/// another, seven places apart, less the centre.
pub proof fn law_bend_of_malformed_data(lsb: u8, msb: u8)
    requires
        lsb >= 0x80 || msb >= 0x80,
    ensures
        bend_value(lsb, msb) == (((msb as i16) << 7) | (lsb as i16)) - 8192,
{
    assert(((msb as i16) << 7) | (lsb as i16) == 128 * msb + lsb % 128 + (if lsb >= 128 && msb % 2
        == 0 {
        128int
    } else {
        0int
    })) by (bit_vector);
}

/// A port is shown under its name, and under a stand-in only where the name
/// could not be read.
pub proof fn law_port_labels(name: Option<String>)
    ensures
        name matches Some(s) ==> label_text(name) == s@,
        name is None ==> label_text(name) == "unknown"@,
{
}

/// The bend of well-formed data keeps to its range, and below the top it is
/// the fourteen-bit value less the centre.
pub proof fn law_bend_range(lsb: u8, msb: u8)
    requires
        is_data(lsb),
        is_data(msb),
    ensures
        -8192 <= bend_value(lsb, msb) <= BEND_MAX,
        -8192 <= bend_value(lsb, msb) <= 8064,
        msb < 127 || lsb == 0 ==> bend_value(lsb, msb) == 128 * msb + lsb - 8192,
        msb == 127 ==> bend_value(lsb, msb) == 8064,
{
}

/// A message that holds fewer than two data bytes yields nothing, and neither
/// does one of a kind without a meaning here: aftertouch, program change and
/// channel pressure.
pub proof fn law_ignored_messages(status: u8, data: Seq<u8>)
    requires
        is_voice_status(status),
    ensures
        data.len() < 2 ==> status_event(status, data) is Unknown,
        0xA0 <= status < 0xB0 ==> status_event(status, data) is Unknown,
        0xC0 <= status < 0xE0 ==> status_event(status, data) is Unknown,
{
}

} // verus!
