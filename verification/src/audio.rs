//! Audio devices, stream settings and the hand-over of sample blocks between
//! the input and the output callback.
use vstd::prelude::*;
use crate::select::find_name;
use crate::text::{chars_of, concat, contains, lower_chars};

verus! {

// ── Devices ────────────────────────────────────────────────────────

/// Information about an available audio device.
#[derive(Debug, Clone)]
pub struct DeviceInfo {
    /// The device name as reported by the host.
    pub name: String,
}

/// ALSA device name substrings that typically represent non-working or
/// duplicate subdevices (e.g. surround40, front, iec958, dmix).  Any device
/// whose name contains one of these substrings is excluded from the list
/// returned to the caller.
pub const ALSA_SKIP_PATTERNS: [&'static str; 11] = [
    "surround",
    "front",
    "iec958",
    "dmix",
    "dsnoop",
    "null",
    "file:",
    "rate",
    "speexrate",
    "adapter",
    "speex",
];

/// A name that holds none of the patterns, upper and lower case alike.
pub open spec fn relevant(name: Seq<char>) -> bool {
    forall|k: int|
        0 <= k < ALSA_SKIP_PATTERNS@.len() ==> !crate::text::occurs_in(
            crate::text::lower(name),
            #[trigger] ALSA_SKIP_PATTERNS@[k]@,
        )
}

/// The devices with a relevant name, in order.
pub open spec fn relevant_only(devices: Seq<DeviceInfo>) -> Seq<DeviceInfo>
    decreases devices.len(),
{
    if devices.len() == 0 {
        Seq::empty()
    } else {
        let rest = relevant_only(devices.drop_last());
        if relevant(devices.last().name@) {
            rest.push(devices.last())
        } else {
            rest
        }
    }
}

/// Some device of the list has this name.
pub open spec fn has_name(devices: Seq<DeviceInfo>, name: Seq<char>) -> bool {
    exists|i: int| 0 <= i < devices.len() && #[trigger] devices[i].name@ == name
}

/// The devices whose name no earlier device has, in order.
pub open spec fn deduped(devices: Seq<DeviceInfo>) -> Seq<DeviceInfo>
    decreases devices.len(),
{
    if devices.len() == 0 {
        Seq::empty()
    } else {
        let rest = deduped(devices.drop_last());
        if has_name(devices.drop_last(), devices.last().name@) {
            rest
        } else {
            rest.push(devices.last())
        }
    }
}

/// The devices whose name could be read, in order.
pub open spec fn named(names: Seq<Option<String>>) -> Seq<DeviceInfo>
    decreases names.len(),
{
    if names.len() == 0 {
        Seq::empty()
    } else {
        let rest = named(names.drop_last());
        match names.last() {
            Some(name) => rest.push(DeviceInfo { name }),
            None => rest,
        }
    }
}

/// Returns `true` if the device name looks like a usable ALSA device.
/// Devices whose names match a known non-working pattern are rejected.
pub fn is_relevant_device_name(name: &str) -> (r: bool)
    ensures
        r == relevant(name@),
{
    let low = lower_chars(name);
    let mut k: usize = 0;
    while k < ALSA_SKIP_PATTERNS.len()
        invariant
            low@ == crate::text::lower(name@),
            k <= ALSA_SKIP_PATTERNS@.len(),
            forall|j: int|
                0 <= j < k ==> !crate::text::occurs_in(
                    low@,
                    #[trigger] ALSA_SKIP_PATTERNS@[j]@,
                ),
        decreases ALSA_SKIP_PATTERNS@.len() - k,
    {
        let pattern = chars_of(ALSA_SKIP_PATTERNS[k]);
        if contains(&low, &pattern) {
            return false;
        }
        k = k + 1;
    }
    true
}

/// A device of the same name.
fn same_device(device: &DeviceInfo) -> (r: DeviceInfo)
    ensures
        r == *device,
{
    DeviceInfo { name: device.name.clone() }
}

/// Whether some device of the list has this name.
fn lists_name(devices: &Vec<DeviceInfo>, name: &String) -> (r: bool)
    ensures
        r == has_name(devices@, name@),
{
    let mut i: usize = 0;
    while i < devices.len()
        invariant
            i <= devices.len(),
            forall|j: int| 0 <= j < i ==> #[trigger] devices@[j].name@ != name@,
        decreases devices.len() - i,
    {
        if devices[i].name == *name {
            return true;
        }
        i = i + 1;
    }
    false
}

/// Removes duplicate devices by name, keeping the first occurrence.
pub fn dedup_devices(devices: Vec<DeviceInfo>) -> (r: Vec<DeviceInfo>)
    ensures
        r@ == deduped(devices@),
{
    let mut kept: Vec<DeviceInfo> = Vec::new();
    let mut i: usize = 0;
    while i < devices.len()
        invariant
            i <= devices.len(),
            kept@ == deduped(devices@.take(i as int)),
        decreases devices.len() - i,
    {
        let device = same_device(&devices[i]);
        let ghost seen = devices@.take(i as int);
        proof {
            assert(devices@.take(i + 1).drop_last() =~= seen);
            lemma_deduped_names(seen, device.name@);
        }
        if !lists_name(&kept, &device.name) {
            kept.push(device);
        }
        i = i + 1;
    }
    proof {
        assert(devices@.take(devices@.len() as int) =~= devices@);
    }
    kept
}

/// Filter and deduplicate a raw device list so that only relevant, unique
/// devices are returned.
pub fn filter_devices(devices: Vec<DeviceInfo>) -> (r: Vec<DeviceInfo>)
    ensures
        r@ == deduped(relevant_only(devices@)),
{
    let mut filtered: Vec<DeviceInfo> = Vec::new();
    let mut i: usize = 0;
    while i < devices.len()
        invariant
            i <= devices.len(),
            filtered@ == relevant_only(devices@.take(i as int)),
        decreases devices.len() - i,
    {
        proof {
            assert(devices@.take(i + 1).drop_last() =~= devices@.take(i as int));
        }
        if is_relevant_device_name(devices[i].name.as_str()) {
            filtered.push(same_device(&devices[i]));
        }
        i = i + 1;
    }
    proof {
        assert(devices@.take(devices@.len() as int) =~= devices@);
    }
    dedup_devices(filtered)
}

/// The device list shown to the caller, from the names that the host reports;
/// a device whose name cannot be read is left out.
pub fn list_devices(names: &Vec<Option<String>>) -> (r: Vec<DeviceInfo>)
    ensures
        r@ == deduped(relevant_only(named(names@))),
{
    let mut list: Vec<DeviceInfo> = Vec::new();
    let mut i: usize = 0;
    while i < names.len()
        invariant
            i <= names.len(),
            list@ == named(names@.take(i as int)),
        decreases names.len() - i,
    {
        proof {
            assert(names@.take(i + 1).drop_last() =~= names@.take(i as int));
        }
        if let Some(name) = &names[i] {
            list.push(DeviceInfo { name: name.clone() });
        }
        i = i + 1;
    }
    proof {
        assert(names@.take(names@.len() as int) =~= names@);
    }
    filter_devices(list)
}

/// Deduplication loses no name and invents none.
proof fn lemma_deduped_names(devices: Seq<DeviceInfo>, name: Seq<char>)
    ensures
        has_name(deduped(devices), name) == has_name(devices, name),
    decreases devices.len(),
{
    if devices.len() > 0 {
        let front = devices.drop_last();
        let last = devices.last();
        lemma_deduped_names(front, name);
        let kept = deduped(devices);
        let rest = deduped(front);
        assert forall|i: int| 0 <= i < front.len() implies devices[i] == #[trigger] front[i] by {}
        if has_name(front, name) {
            let i = choose|i: int| 0 <= i < front.len() && #[trigger] front[i].name@ == name;
            assert(devices[i].name@ == name);
            let j = choose|j: int| 0 <= j < rest.len() && #[trigger] rest[j].name@ == name;
            assert(kept[j].name@ == name);
        } else if last.name@ == name {
            assert(devices[devices.len() - 1].name@ == name);
            assert(kept[kept.len() - 1].name@ == name);
        } else {
            assert forall|i: int| 0 <= i < devices.len() implies #[trigger] devices[i].name@
                != name by {
                if i < front.len() {
                    assert(front[i].name@ != name);
                }
            }
            assert forall|i: int| 0 <= i < kept.len() implies #[trigger] kept[i].name@ != name by {
                if i < rest.len() {
                    assert(kept[i] == rest[i]);
                }
            }
        }
    }
}

/// How a stream encodes a sample.
#[derive(Debug, Clone, Copy, PartialEq, Eq, Structural)]
pub enum SampleFormat {
    I8,
    I16,
    I32,
    I64,
    U8,
    U16,
    U32,
    U64,
    F32,
    F64,
    /// Any encoding without a name of its own here.
    Other,
}

impl SampleFormat {
    /// A stream can be opened for the format.
    pub open spec fn is_supported(self) -> bool {
        self == SampleFormat::F32 || self == SampleFormat::I16 || self == SampleFormat::U16
    }

    /// The name of the format.
    pub open spec fn name_text(self) -> Seq<char> {
        match self {
            SampleFormat::I8 => "I8"@,
            SampleFormat::I16 => "I16"@,
            SampleFormat::I32 => "I32"@,
            SampleFormat::I64 => "I64"@,
            SampleFormat::U8 => "U8"@,
            SampleFormat::U16 => "U16"@,
            SampleFormat::U32 => "U32"@,
            SampleFormat::U64 => "U64"@,
            SampleFormat::F32 => "F32"@,
            SampleFormat::F64 => "F64"@,
            SampleFormat::Other => "Other"@,
        }
    }

    /// The name of the format.
    pub fn name(&self) -> (r: &'static str)
        ensures
            r@ == self.name_text(),
    {
        match self {
            SampleFormat::I8 => "I8",
            SampleFormat::I16 => "I16",
            SampleFormat::I32 => "I32",
            SampleFormat::I64 => "I64",
            SampleFormat::U8 => "U8",
            SampleFormat::U16 => "U16",
            SampleFormat::U32 => "U32",
            SampleFormat::U64 => "U64",
            SampleFormat::F32 => "F32",
            SampleFormat::F64 => "F64",
            SampleFormat::Other => "Other",
        }
    }

    /// The format, if a stream can be opened for it.
    pub fn supported(self) -> (r: Result<SampleFormat, DeviceError>)
        ensures
            self.is_supported() ==> r == Ok::<SampleFormat, DeviceError>(self),
            !self.is_supported() ==> r == Err::<SampleFormat, DeviceError>(
                DeviceError::Unsupported { sample_format: self },
            ),
    {
        match self {
            SampleFormat::F32 | SampleFormat::I16 | SampleFormat::U16 => Ok(self),
            _ => Err(DeviceError::Unsupported { sample_format: self }),
        }
    }
}

/// The two ends of the audio path.
#[derive(Debug, Clone, Copy, PartialEq, Eq, Structural)]
pub enum Side {
    Input,
    Output,
}

/// Why no stream could be opened.
#[derive(Debug, Clone)]
pub enum DeviceError {
    /// No device has the name that was asked for.
    NotFound { side: Side, name: String },
    /// The system has no default device.
    NoDefault { side: Side },
    /// The output device offers no configuration.
    NoConfig,
    /// The stream would have a sample format that cannot be handled.
    Unsupported { sample_format: SampleFormat },
}

impl DeviceError {
    /// The message shown to the user.
    pub fn message(&self) -> (r: String)
        ensures
            self matches DeviceError::NotFound { side, name } ==> r@ == (if side is Input {
                "input device '"@
            } else {
                "output device '"@
            }) + name@ + "' not found"@,
            self matches DeviceError::NoDefault { side } ==> r@ == (if side is Input {
                "no input device available"@
            } else {
                "no output device available"@
            }),
            self is NoConfig ==> r@ == "no supported output config found"@,
            self matches DeviceError::Unsupported { sample_format } ==> r@
                == "unsupported sample format "@ + sample_format.name_text(),
    {
        match self {
            DeviceError::NotFound { side, name } => {
                let start = match side {
                    Side::Input => "input device '",
                    Side::Output => "output device '",
                };
                let mut s = concat(start, name.as_str());
                s.append("' not found");
                s
            },
            DeviceError::NoDefault { side } => match side {
                Side::Input => "no input device available".to_owned(),
                Side::Output => "no output device available".to_owned(),
            },
            DeviceError::NoConfig => "no supported output config found".to_owned(),
            DeviceError::Unsupported { sample_format } => {
                concat("unsupported sample format ", sample_format.name())
            },
        }
    }
}

/// Finds a device by name among the names that the host reports, where a name
/// that could not be read is `None`.
pub fn find_device(side: Side, names: &Vec<Option<String>>, wanted: &str) -> (r: Result<
    usize,
    DeviceError,
>)
    ensures
        match crate::select::first_index(crate::select::name_texts(names@), Some(wanted@)) {
            Some(i) => r is Ok && r->Ok_0 == i,
            None => r matches Err(DeviceError::NotFound { side: at, name }) && at == side && name@
                == wanted@,
        },
        r matches Ok(i) ==> crate::select::first_named(names@, wanted@, i as int),
        r is Err ==> crate::select::none_named(names@, wanted@),
{
    match find_name(names, wanted) {
        Some(i) => Ok(i),
        None => Err(DeviceError::NotFound { side, name: wanted.to_owned() }),
    }
}

// ── Stream settings ────────────────────────────────────────────────

/// Configuration for audio I/O tuned for low latency.
#[derive(Debug, Clone, Copy)]
pub struct AudioIoConfig {
    /// Preferred sample rate in Hz. `None` means use the device default.
    pub sample_rate: Option<u32>,
    /// Preferred buffer size in frames. `None` leaves the size to the host.
    pub buffer_size: Option<u32>,
}

impl Default for AudioIoConfig {
    fn default() -> (config: Self)
        ensures
            config.sample_rate is None,
            config.buffer_size is None,
    {
        AudioIoConfig { sample_rate: None, buffer_size: None }
    }
}

/// One of the configurations that a device offers: a number of channels, a
/// sample format and the sample rates at which they can be had.
#[derive(Debug, Clone, Copy)]
pub struct ConfigRange {
    pub channels: u16,
    pub sample_format: SampleFormat,
    pub min_sample_rate: u32,
    pub max_sample_rate: u32,
}

/// What a stream is opened with.
#[derive(Debug, Clone, Copy)]
pub struct StreamSettings {
    pub channels: u16,
    pub sample_format: SampleFormat,
    pub sample_rate: u32,
    /// Frames per buffer; `None` leaves the size to the host.
    pub buffer_size: Option<u32>,
}

/// The formats of a list of configurations.
pub open spec fn formats(ranges: Seq<ConfigRange>) -> Seq<SampleFormat> {
    ranges.map_values(|r: ConfigRange| r.sample_format)
}

/// A rate that a configuration offers.
pub open spec fn offers(range: ConfigRange, rate: u32) -> bool {
    range.min_sample_rate <= rate <= range.max_sample_rate
}

/// The rate that a stream gets: the one asked for, within what the configuration
/// offers. Where none is asked for, it is the device's own default if the
/// configuration offers that, and else the highest rate offered.
pub open spec fn stream_rate(
    requested: Option<u32>,
    device_default: Option<u32>,
    range: ConfigRange,
) -> int {
    let low = range.min_sample_rate as int;
    let high = range.max_sample_rate as int;
    match requested {
        Some(rate) => crate::num::limited(rate as int, low, high),
        None => match device_default {
            Some(rate) => if offers(range, rate) {
                rate as int
            } else {
                high
            },
            None => high,
        },
    }
}

/// What a stream of a configuration is opened with.
pub open spec fn settings(
    range: ConfigRange,
    device_default: Option<u32>,
    io_config: AudioIoConfig,
) -> StreamSettings {
    StreamSettings {
        channels: range.channels,
        sample_format: range.sample_format,
        sample_rate: stream_rate(io_config.sample_rate, device_default, range) as u32,
        buffer_size: io_config.buffer_size,
    }
}

/// The configuration to use: the first with `f32` samples, or else the first
/// of a second enumeration.
pub open spec fn chosen_range(
    offered: Seq<ConfigRange>,
    again: Option<Vec<ConfigRange>>,
) -> Option<ConfigRange> {
    match crate::select::first_index(formats(offered), SampleFormat::F32) {
        Some(i) => Some(offered[i]),
        None => match again {
            Some(ranges) => if ranges@.len() > 0 {
                Some(ranges@[0])
            } else {
                None
            },
            None => None,
        },
    }
}

/// The first configuration with `f32` samples, which need no conversion.
pub fn preferred_range(ranges: &Vec<ConfigRange>) -> (r: Option<usize>)
    ensures
        crate::select::as_index(r) == crate::select::first_index(
            formats(ranges@),
            SampleFormat::F32,
        ),
{
    let ghost all = formats(ranges@);
    let mut i: usize = 0;
    while i < ranges.len()
        invariant
            i <= ranges.len(),
            all == formats(ranges@),
            forall|j: int| 0 <= j < i ==> all[j] != SampleFormat::F32,
        decreases ranges.len() - i,
    {
        if ranges[i].sample_format == SampleFormat::F32 {
            proof {
                crate::select::lemma_skip(all, SampleFormat::F32, i as int);
            }
            return Some(i);
        }
        i = i + 1;
    }
    proof {
        crate::select::lemma_skip(all, SampleFormat::F32, i as int);
    }
    None
}

/// Brings a rate into the range that a configuration offers.
fn limit_rate(rate: u32, range: &ConfigRange) -> (r: u32)
    ensures
        r == crate::num::limited(
            rate as int,
            range.min_sample_rate as int,
            range.max_sample_rate as int,
        ),
{
    if rate < range.min_sample_rate {
        range.min_sample_rate
    } else if rate > range.max_sample_rate {
        range.max_sample_rate
    } else {
        rate
    }
}

/// The settings for a stream of the chosen configuration:
/// - the requested sample rate, or the device default where it is offered, or
///   the highest rate,
/// - the requested buffer size or that of the host.
pub fn stream_settings(
    range: &ConfigRange,
    device_default: Option<u32>,
    io_config: &AudioIoConfig,
) -> (r: StreamSettings)
    ensures
        r == settings(*range, device_default, *io_config),
{
    let sample_rate = match io_config.sample_rate {
        Some(rate) => limit_rate(rate, range),
        None => match device_default {
            Some(rate) => if range.min_sample_rate <= rate && rate <= range.max_sample_rate {
                rate
            } else {
                range.max_sample_rate
            },
            None => range.max_sample_rate,
        },
    };
    StreamSettings {
        channels: range.channels,
        sample_format: range.sample_format,
        sample_rate,
        buffer_size: io_config.buffer_size,
    }
}

/// Chooses the best supported stream settings for low latency:
/// - `f32` samples are preferred (they need no conversion); where they are not
///   offered, the first configuration of a second enumeration is used,
/// - the sample rate is the requested one, or the device default where the
///   configuration offers it, or the highest,
/// - the buffer size is the requested one or that of the host.
///
/// `again` is the second enumeration, `None` if it failed.
pub fn low_latency_settings(
    offered: &Vec<ConfigRange>,
    again: &Option<Vec<ConfigRange>>,
    device_default: Option<u32>,
    io_config: &AudioIoConfig,
) -> (r: Result<StreamSettings, DeviceError>)
    ensures
        match chosen_range(offered@, *again) {
            Some(range) => r == Ok::<StreamSettings, DeviceError>(
                settings(range, device_default, *io_config),
            ),
            None => r == Err::<StreamSettings, DeviceError>(DeviceError::NoConfig),
        },
        (exists|i: int|
            0 <= i < offered@.len() && (#[trigger] offered@[i]).sample_format == SampleFormat::F32)
            ==> (r matches Ok(s) && s.sample_format == SampleFormat::F32),
        forall|i: int|
            0 <= i < offered@.len() && (#[trigger] offered@[i]).sample_format == SampleFormat::F32 && (
            forall|j: int|
                0 <= j < i ==> (#[trigger] offered@[j]).sample_format != SampleFormat::F32) ==> (
            r matches Ok(s) && s.channels == offered@[i].channels),
        r matches Ok(s) ==> s.buffer_size == io_config.buffer_size,
{
    proof {
        law_chosen_configuration(offered@, *again);
    }
    if let Some(i) = preferred_range(offered) {
        proof {
            crate::select::law_first_index(formats(offered@), SampleFormat::F32);
        }
        return Ok(stream_settings(&offered[i], device_default, io_config));
    }
    match again {
        Some(ranges) => if ranges.len() == 0 {
            Err(DeviceError::NoConfig)
        } else {
            Ok(stream_settings(&ranges[0], device_default, io_config))
        },
        None => Err(DeviceError::NoConfig),
    }
}

// ── Sample blocks ──────────────────────────────────────────────────

/// A block of audio samples captured from the input device.
/// Each inner `Vec` is one channel's worth of samples.
pub type AudioBlock<S> = Vec<Vec<S>>;

/// Where the sample of frame `i` in channel `c` stands among interleaved ones.
pub open spec fn slot(channels: int, c: int, i: int) -> int {
    i * channels + c
}

/// One channel of interleaved samples; an incomplete last frame is left out.
pub open spec fn lane<T>(interleaved: Seq<T>, channels: int, c: int) -> Seq<T> {
    Seq::new(
        (interleaved.len() as int / channels) as nat,
        |i: int| interleaved[slot(channels, c, i)],
    )
}

/// The channels of interleaved samples.
pub open spec fn lanes<T>(interleaved: Seq<T>, channels: int) -> Seq<Seq<T>> {
    Seq::new(channels as nat, |c: int| lane(interleaved, channels, c))
}

/// Samples of equally long channels, frame by frame.
pub open spec fn interleave<T>(block: Seq<Seq<T>>, frames: int) -> Seq<T> {
    Seq::new(
        (frames * block.len()) as nat,
        |k: int| block[k % (block.len() as int)][k / (block.len() as int)],
    )
}

/// What a block holds.
pub open spec fn block_view<S>(block: AudioBlock<S>) -> Seq<Seq<S>> {
    block@.map_values(|v: Vec<S>| v@)
}

/// How many of `len` interleaved samples belong to complete frames.
pub open spec fn framed(len: int, channels: int) -> int {
    len / channels * channels
}

/// The slots of complete frames lie among the samples of complete frames.
proof fn lemma_slot(len: int, channels: int, c: int, i: int)
    requires
        0 <= len,
        0 < channels,
        0 <= c < channels,
        0 <= i < len / channels,
    ensures
        0 <= i * channels <= slot(channels, c, i) < framed(len, channels) <= len,
{
    let frames = len / channels;
    assert(0 <= i * channels && i * channels + c < frames * channels) by (nonlinear_arith)
        requires
            0 < channels,
            0 <= c < channels,
            0 <= i < frames,
    ;
    assert(frames * channels <= len) by (nonlinear_arith)
        requires
            0 <= len,
            0 < channels,
            frames == len / channels,
    ;
}

/// Writes one channel of interleaved samples into `out`.
fn fill_lane<T: Copy, S, F: Fn(T) -> S>(
    interleaved: &[T],
    channels: usize,
    frames: usize,
    c: usize,
    out: &mut Vec<S>,
    convert: &F,
)
    requires
        0 < channels,
        frames == interleaved@.len() / (channels as nat),
        c < channels,
        forall|k: int|
            0 <= k < framed(interleaved@.len() as int, channels as int) ==> call_requires(
                *convert,
                (#[trigger] interleaved@[k],),
            ),
    ensures
        final(out)@.len() == frames,
        forall|i: int|
            0 <= i < frames ==> call_ensures(
                *convert,
                (interleaved@[slot(channels as int, c as int, i)],),
                #[trigger] final(out)@[i],
            ),
{
    let len: usize = interleaved.len();
    out.clear();
    let mut i: usize = 0;
    while i < frames
        invariant
            0 < channels,
            c < channels,
            len == interleaved@.len(),
            frames == len / channels,
            i <= frames,
            out@.len() == i,
            forall|k: int|
                0 <= k < framed(interleaved@.len() as int, channels as int) ==> call_requires(
                    *convert,
                    (#[trigger] interleaved@[k],),
                ),
            forall|j: int|
                0 <= j < i ==> call_ensures(
                    *convert,
                    (interleaved@[slot(channels as int, c as int, j)],),
                    #[trigger] out@[j],
                ),
        decreases frames - i,
    {
        proof {
            lemma_slot(len as int, channels as int, c as int, i as int);
        }
        let sample = interleaved[i * channels + c];
        out.push(convert(sample));
        i = i + 1;
    }
}

/// Writes interleaved samples into a pre-allocated `AudioBlock`, applying
/// a per-sample conversion function. Reuses existing vectors to avoid heap
/// allocations in the real-time audio path.
pub fn deinterleave_into<T: Copy, S, F: Fn(T) -> S>(
    interleaved: &[T],
    channels: u16,
    block: &mut AudioBlock<S>,
    convert: F,
)
    requires
        channels > 0,
        forall|k: int|
            0 <= k < framed(interleaved@.len() as int, channels as int) ==> call_requires(
                convert,
                (#[trigger] interleaved@[k],),
            ),
    ensures
        final(block)@.len() == channels,
        forall|c: int|
            0 <= c < channels ==> (#[trigger] final(block)@[c])@.len() == interleaved@.len()
                / (channels as nat),
        forall|c: int, i: int|
            0 <= c < channels && 0 <= i < interleaved@.len() / (channels as nat) ==> call_ensures(
                convert,
                (interleaved@[slot(channels as int, c, i)],),
                #[trigger] final(block)@[c]@[i],
            ),
{
    let ch: usize = channels as usize;
    let frames: usize = interleaved.len() / ch;
    block.truncate(ch);
    while block.len() < ch
        invariant
            block@.len() <= ch,
        decreases ch - block@.len(),
    {
        block.push(Vec::new());
    }
    let mut c: usize = 0;
    while c < ch
        invariant
            ch == channels,
            channels > 0,
            frames == interleaved@.len() / (channels as nat),
            c <= ch,
            block@.len() == ch,
            forall|k: int|
                0 <= k < framed(interleaved@.len() as int, channels as int) ==> call_requires(
                    convert,
                    (#[trigger] interleaved@[k],),
                ),
            forall|d: int|
                0 <= d < c ==> (#[trigger] block@[d])@.len() == interleaved@.len() / (
                channels as nat),
            forall|d: int, i: int|
                0 <= d < c && 0 <= i < interleaved@.len() / (channels as nat) ==> call_ensures(
                    convert,
                    (interleaved@[slot(channels as int, d, i)],),
                    #[trigger] block@[d]@[i],
                ),
        decreases ch - c,
    {
        fill_lane(interleaved, ch, frames, c, &mut block[c], &convert);
        c = c + 1;
    }
}

/// The conversion of samples that already have the wanted form.
pub fn unconverted<T>(sample: T) -> (r: T)
    ensures
        r == sample,
{
    sample
}

/// Converts interleaved samples into a per-channel `AudioBlock`.
pub fn deinterleave<T: Copy>(interleaved: &[T], channels: u16) -> (block: AudioBlock<T>)
    requires
        channels > 0,
    ensures
        block@.len() == channels,
        block_view(block) == lanes(interleaved@, channels as int),
{
    let mut block: AudioBlock<T> = Vec::new();
    deinterleave_into(interleaved, channels, &mut block, unconverted::<T>);
    proof {
        assert forall|c: int| 0 <= c < channels implies block@[c]@ =~= lane(
            interleaved@,
            channels as int,
            c,
        ) by {}
        assert(block_view(block) =~= lanes(interleaved@, channels as int));
    }
    block
}

/// Writes converted samples into an output buffer, as many as both have; the
/// rest of the buffer keeps what it held.
pub fn convert_into<S: Copy, T, F: Fn(S) -> T>(samples: &[S], data: &mut [T], convert: F)
    requires
        forall|k: int|
            0 <= k < samples@.len() && k < old(data)@.len() ==> call_requires(
                convert,
                (#[trigger] samples@[k],),
            ),
    ensures
        final(data)@.len() == old(data)@.len(),
        forall|k: int|
            0 <= k < samples@.len() && k < old(data)@.len() ==> call_ensures(
                convert,
                (samples@[k],),
                #[trigger] final(data)@[k],
            ),
        forall|k: int|
            samples@.len() <= k < old(data)@.len() ==> #[trigger] final(data)@[k] == old(data)@[k],
{
    let len: usize = if samples.len() < data.len() {
        samples.len()
    } else {
        data.len()
    };
    let ghost before = data@;
    let mut k: usize = 0;
    while k < len
        invariant
            k <= len,
            len <= samples@.len(),
            len <= before.len(),
            len == samples@.len() || len == before.len(),
            data@.len() == before.len(),
            forall|j: int| 0 <= j < len ==> call_requires(convert, (#[trigger] samples@[j],)),
            forall|j: int|
                0 <= j < k ==> call_ensures(convert, (samples@[j],), #[trigger] data@[j]),
            forall|j: int| k <= j < before.len() ==> #[trigger] data@[j] == before[j],
        decreases len - k,
    {
        data[k] = convert(samples[k]);
        k = k + 1;
    }
}

// ── Hand-over between the callbacks ────────────────────────────────

/// Shared buffer state between input and output audio callbacks.
/// Provides latest-value semantics with block recycling to avoid
/// heap allocations in the real-time audio path.
pub struct SharedBuffer<S> {
    /// Latest audio block written by input, waiting to be consumed by output.
    pub latest: Option<AudioBlock<S>>,
    /// Previously consumed block returned by output for reuse by input.
    pub recycle: Option<AudioBlock<S>>,
}

impl<S> SharedBuffer<S> {
    /// The state after the block for reuse was handed out.
    pub open spec fn acquired(self) -> Self {
        SharedBuffer { latest: self.latest, recycle: None }
    }

    /// The state after `block` was published: the block that it replaces is kept
    /// for reuse, or else the one that already was.
    pub open spec fn published(self, block: AudioBlock<S>) -> Self {
        SharedBuffer {
            latest: Some(block),
            recycle: match self.latest {
                Some(replaced) => Some(replaced),
                None => self.recycle,
            },
        }
    }

    /// The state after the latest block was taken.
    pub open spec fn taken(self) -> Self {
        SharedBuffer { latest: None, recycle: self.recycle }
    }

    /// The state after `block` was returned for reuse.
    pub open spec fn returned(self, block: AudioBlock<S>) -> Self {
        SharedBuffer { latest: self.latest, recycle: Some(block) }
    }

    /// A buffer that nothing was written to yet.
    pub fn new() -> (r: Self)
        ensures
            r.latest is None,
            r.recycle is None,
    {
        SharedBuffer { latest: None, recycle: None }
    }

    /// Hands out the block to capture into: the one kept for reuse, or else a
    /// new one with `channels` empty channels.
    pub fn acquire(&mut self, channels: u16) -> (block: AudioBlock<S>)
        ensures
            *final(self) == old(self).acquired(),
            match old(self).recycle {
                Some(kept) => block == kept,
                None => block_view(block) == Seq::new(
                    channels as nat,
                    |c: int| Seq::<S>::empty(),
                ),
            },
    {
        match self.recycle.take() {
            Some(block) => block,
            None => {
                let mut block: AudioBlock<S> = Vec::new();
                let mut c: u16 = 0;
                while c < channels
                    invariant
                        c <= channels,
                        block@.len() == c,
                        forall|d: int| 0 <= d < c ==> (#[trigger] block@[d])@.len() == 0,
                    decreases channels - c,
                {
                    block.push(Vec::new());
                    c = c + 1;
                }
                proof {
                    let empty = Seq::new(channels as nat, |c: int| Seq::<S>::empty());
                    assert forall|d: int| 0 <= d < channels implies block_view(block)[d]
                        =~= #[trigger] empty[d] by {
                        assert(block@[d]@.len() == 0);
                    }
                    assert(block_view(block) =~= empty);
                }
                block
            },
        }
    }

    /// Publishes a captured block as the latest one.
    pub fn publish(&mut self, block: AudioBlock<S>)
        ensures
            *final(self) == old(self).published(block),
    {
        if let Some(replaced) = self.latest.take() {
            self.recycle = Some(replaced);
        }
        self.latest = Some(block);
    }

    /// Takes the latest block, if a new one was published.
    pub fn take_latest(&mut self) -> (block: Option<AudioBlock<S>>)
        ensures
            block == old(self).latest,
            *final(self) == old(self).taken(),
    {
        self.latest.take()
    }

    /// Returns a consumed block for reuse.
    pub fn give_back(&mut self, block: AudioBlock<S>)
        ensures
            *final(self) == old(self).returned(block),
    {
        self.recycle = Some(block);
    }
}

// ── Laws ───────────────────────────────────────────────────────────

/// No two devices have the same name.
pub open spec fn distinct(devices: Seq<DeviceInfo>) -> bool {
    forall|i: int, j: int|
        0 <= i < j < devices.len() ==> (#[trigger] devices[i]).name@ != (#[trigger] devices[j]).name@
}

/// After deduplication no name occurs twice, and every name is still there.
pub proof fn law_deduped_names(devices: Seq<DeviceInfo>)
    ensures
        distinct(deduped(devices)),
        forall|name: Seq<char>| #[trigger]
            has_name(deduped(devices), name) == has_name(devices, name),
    decreases devices.len(),
{
    assert forall|name: Seq<char>| #[trigger]
        has_name(deduped(devices), name) == has_name(devices, name) by {
        lemma_deduped_names(devices, name);
    }
    if devices.len() > 0 {
        let front = devices.drop_last();
        law_deduped_names(front);
        if !has_name(front, devices.last().name@) {
            lemma_deduped_names(front, devices.last().name@);
            let rest = deduped(front);
            assert forall|i: int, j: int| 0 <= i < j < rest.len() + 1 implies (
            #[trigger] deduped(devices)[i]).name@ != (#[trigger] deduped(devices)[j]).name@ by {
                if j == rest.len() {
                    assert(rest[i].name@ != devices.last().name@);
                }
            }
        }
    }
}

/// Deduplication keeps the first occurrence: what comes later in the list adds
/// devices at the end and changes nothing before.
pub proof fn law_deduped_keeps_first(devices: Seq<DeviceInfo>, more: Seq<DeviceInfo>)
    ensures
        deduped(devices).len() <= deduped(devices + more).len(),
        deduped(devices + more).take(deduped(devices).len() as int) == deduped(devices),
    decreases more.len(),
{
    let all = devices + more;
    if more.len() == 0 {
        assert(all =~= devices);
    } else {
        law_deduped_keeps_first(devices, more.drop_last());
        assert(all.drop_last() =~= devices + more.drop_last());
    }
    assert(deduped(all).take(deduped(devices).len() as int) =~= deduped(devices));
}

/// A list without duplicates is left as it is; so deduplicating twice is
/// deduplicating once.
pub proof fn law_deduped_again(devices: Seq<DeviceInfo>)
    ensures
        distinct(devices) ==> deduped(devices) == devices,
        deduped(deduped(devices)) == deduped(devices),
{
    lemma_distinct_is_kept(devices);
    law_deduped_names(devices);
    lemma_distinct_is_kept(deduped(devices));
}

proof fn lemma_distinct_is_kept(devices: Seq<DeviceInfo>)
    ensures
        distinct(devices) ==> deduped(devices) == devices,
    decreases devices.len(),
{
    if distinct(devices) && devices.len() > 0 {
        let front = devices.drop_last();
        assert forall|i: int, j: int| 0 <= i < j < front.len() implies (#[trigger] front[i]).name@
            != (#[trigger] front[j]).name@ by {
            assert(devices[i].name@ != devices[j].name@);
        }
        lemma_distinct_is_kept(front);
        assert forall|i: int| 0 <= i < front.len() implies #[trigger] front[i].name@
            != devices.last().name@ by {
            assert(devices[i].name@ != devices[devices.len() - 1].name@);
        }
        assert(front.push(devices.last()) =~= devices);
    }
}

/// Every device of the list is relevant.
pub open spec fn all_relevant(devices: Seq<DeviceInfo>) -> bool {
    forall|i: int| 0 <= i < devices.len() ==> relevant((#[trigger] devices[i]).name@)
}

proof fn lemma_relevant_only(devices: Seq<DeviceInfo>, name: Seq<char>)
    ensures
        all_relevant(relevant_only(devices)),
        has_name(relevant_only(devices), name) == (relevant(name) && has_name(devices, name)),
        all_relevant(devices) ==> relevant_only(devices) == devices,
    decreases devices.len(),
{
    if devices.len() > 0 {
        let front = devices.drop_last();
        let last = devices.last();
        lemma_relevant_only(front, name);
        let kept = relevant_only(devices);
        let rest = relevant_only(front);
        assert(front.push(last) =~= devices);
        if all_relevant(devices) {
            assert(relevant(devices[devices.len() - 1].name@));
            assert forall|i: int| 0 <= i < front.len() implies relevant(
                (#[trigger] front[i]).name@,
            ) by {
                assert(relevant(devices[i].name@));
            }
        }
        if has_name(front, name) {
            let i = choose|i: int| 0 <= i < front.len() && #[trigger] front[i].name@ == name;
            assert(devices[i].name@ == name);
        }
        if has_name(rest, name) {
            let j = choose|j: int| 0 <= j < rest.len() && #[trigger] rest[j].name@ == name;
            assert(kept[j].name@ == name);
        }
        if last.name@ == name {
            assert(devices[devices.len() - 1].name@ == name);
            if relevant(name) {
                assert(kept[kept.len() - 1].name@ == name);
            }
        }
        if has_name(devices, name) && last.name@ != name {
            let i = choose|i: int| 0 <= i < devices.len() && #[trigger] devices[i].name@ == name;
            assert(front[i].name@ == name);
        }
        if has_name(kept, name) {
            let j = choose|j: int| 0 <= j < kept.len() && #[trigger] kept[j].name@ == name;
            if j < rest.len() {
                assert(rest[j].name@ == name);
            }
        }
    }
}

/// Filtering a device list leaves a name in it exactly if the name was in it
/// and is relevant, and leaves no name in it twice.
pub proof fn law_filtered_names(devices: Seq<DeviceInfo>, name: Seq<char>)
    ensures
        has_name(deduped(relevant_only(devices)), name) == (relevant(name) && has_name(
            devices,
            name,
        )),
        all_relevant(deduped(relevant_only(devices))),
        distinct(deduped(relevant_only(devices))),
{
    let filtered = relevant_only(devices);
    let listed = deduped(filtered);
    lemma_relevant_only(devices, name);
    law_deduped_names(filtered);
    assert forall|i: int| 0 <= i < listed.len() implies relevant((#[trigger] listed[i]).name@) by {
        assert(has_name(listed, listed[i].name@));
        assert(has_name(filtered, listed[i].name@));
        let j = choose|j: int|
            0 <= j < filtered.len() && #[trigger] filtered[j].name@ == listed[i].name@;
        assert(relevant(filtered[j].name@));
    }
}

/// Filtering a filtered list changes nothing.
pub proof fn law_filtered_again(devices: Seq<DeviceInfo>)
    ensures
        deduped(relevant_only(deduped(relevant_only(devices)))) == deduped(relevant_only(devices)),
{
    let listed = deduped(relevant_only(devices));
    law_filtered_names(devices, Seq::empty());
    lemma_relevant_only(listed, Seq::empty());
    law_deduped_again(relevant_only(devices));
}

/// Choosing the relevant devices and dropping duplicates can be done in either
/// order, and dropping duplicates first as well changes nothing.
pub proof fn law_filter_and_dedup_commute(devices: Seq<DeviceInfo>)
    ensures
        relevant_only(deduped(devices)) == deduped(relevant_only(devices)),
        deduped(relevant_only(deduped(devices))) == deduped(relevant_only(devices)),
    decreases devices.len(),
{
    if devices.len() > 0 {
        let front = devices.drop_last();
        let last = devices.last();
        law_filter_and_dedup_commute(front);
        lemma_relevant_only(front, last.name@);
        if !has_name(front, last.name@) {
            assert(deduped(front).push(last).drop_last() =~= deduped(front));
        }
        if relevant(last.name@) {
            assert(relevant_only(front).push(last).drop_last() =~= relevant_only(front));
        }
    }
    law_deduped_again(relevant_only(devices));
}

/// The rate of a stream is one that the configuration offers. It is the
/// requested one whenever that is offered, and the device's default whenever
/// none is requested and the default is offered.
pub proof fn law_rate_is_offered(
    requested: Option<u32>,
    device_default: Option<u32>,
    range: ConfigRange,
)
    requires
        range.min_sample_rate <= range.max_sample_rate,
    ensures
        range.min_sample_rate <= stream_rate(requested, device_default, range)
            <= range.max_sample_rate,
        requested matches Some(rate) ==> (offers(range, rate) ==> stream_rate(
            requested,
            device_default,
            range,
        ) == rate),
        requested is None ==> (device_default matches Some(rate) ==> (offers(range, rate)
            ==> stream_rate(requested, device_default, range) == rate)),
{
}

/// Putting the channels of interleaved samples back together gives the samples
/// of the complete frames.
pub proof fn law_deinterleave_round_trip<T>(samples: Seq<T>, channels: int)
    requires
        channels > 0,
    ensures
        interleave(lanes(samples, channels), samples.len() as int / channels) == samples.take(
            framed(samples.len() as int, channels),
        ),
        samples.len() as int % channels == 0 ==> interleave(
            lanes(samples, channels),
            samples.len() as int / channels,
        ) == samples,
{
    let len = samples.len() as int;
    let frames = len / channels;
    let block = lanes(samples, channels);
    let back = interleave(block, frames);
    assert(0 <= frames * channels <= len && (len % channels == 0 ==> frames * channels == len))
        by (nonlinear_arith)
        requires
            0 <= len,
            0 < channels,
            frames == len / channels,
    ;
    assert forall|k: int| 0 <= k < frames * channels implies #[trigger] back[k] == samples[k] by {
        let c = k % channels;
        let i = k / channels;
        assert(0 <= c < channels && 0 <= i < frames && i * channels + c == k) by (nonlinear_arith)
            requires
                0 < channels,
                0 <= k < frames * channels,
                c == k % channels,
                i == k / channels,
        ;
        assert(block[c][i] == samples[slot(channels, c, i)]);
    }
    assert(back =~= samples.take(framed(len, channels)));
    if len % channels == 0 {
        assert(back =~= samples);
    }
}

/// The output side gets the block that was published last, once; the one that
/// it replaced is reused.
pub proof fn law_latest_block_wins<S>(
    shared: SharedBuffer<S>,
    older: AudioBlock<S>,
    newer: AudioBlock<S>,
)
    ensures
        shared.published(older).published(newer).latest == Some(newer),
        shared.published(older).published(newer).recycle == Some(older),
        shared.published(older).published(newer).taken().latest is None,
{
}

/// Where capturing and consuming alternate, one block goes round: the block
/// that was consumed is the one handed out for the next capture.
pub proof fn law_block_goes_round<S>(shared: SharedBuffer<S>, block: AudioBlock<S>)
    ensures
        ({
            let after = shared.acquired().published(block).taken().returned(block);
            &&& after.latest is None
            &&& after.recycle == Some(block)
            &&& after.acquired().published(block).taken().returned(block) == after
        }),
{
}

/// A block that the output side takes and returns while a capture is under way
/// is there for the next capture.
pub proof fn law_returned_block_is_kept<S>(
    shared: SharedBuffer<S>,
    returned: AudioBlock<S>,
    block: AudioBlock<S>,
)
    ensures
        ({
            let after = shared.acquired().taken().returned(returned).published(block);
            &&& after.recycle == Some(returned)
            &&& after.latest == Some(block)
        }),
{
}

/// Publishing drops no block unless both the latest and the one for reuse are
/// there; then the latest is the one that is kept.
pub proof fn law_publishing_keeps_blocks<S>(shared: SharedBuffer<S>, block: AudioBlock<S>)
    ensures
        shared.published(block).latest == Some(block),
        shared.latest is None ==> shared.published(block).recycle == shared.recycle,
        shared.latest is Some ==> shared.published(block).recycle == shared.latest,
{
}

/// Handing out a block for capture or returning one leaves the latest block
/// alone.
pub proof fn law_reuse_keeps_latest<S>(shared: SharedBuffer<S>, block: AudioBlock<S>)
    ensures
        shared.acquired().latest == shared.latest,
        shared.returned(block).latest == shared.latest,
{
}

/// The host reports `name` at place `p`.
pub open spec fn reported_at(names: Seq<Option<String>>, p: int, name: Seq<char>) -> bool {
    0 <= p < names.len() && (names[p] matches Some(s) && s@ == name)
}

/// The device at place `p` has this name.
pub open spec fn named_at(devices: Seq<DeviceInfo>, p: int, name: Seq<char>) -> bool {
    0 <= p < devices.len() && devices[p].name@ == name
}

/// What one more device does to a deduplicated list.
proof fn lemma_deduped_step(devices: Seq<DeviceInfo>)
    requires
        devices.len() > 0,
    ensures
        ({
            let front = deduped(devices.drop_last());
            let last = devices.last();
            let name = last.name@;
            deduped(devices) == if exists|k: int| named_at(front, k, name) {
                front
            } else {
                front.push(last)
            }
        }),
{
    let front = devices.drop_last();
    let name = devices.last().name@;
    lemma_deduped_names(front, name);
    if has_name(deduped(front), name) {
        let k = choose|k: int|
            0 <= k < deduped(front).len() && #[trigger] deduped(front)[k].name@ == name;
        assert(named_at(deduped(front), k, name));
    } else if exists|k: int| named_at(deduped(front), k, name) {
        let k = choose|k: int| named_at(deduped(front), k, name);
        assert(deduped(front)[k].name@ == name);
    }
}

/// Dropping duplicates leaves every name in the list, each once, in the order
/// in which the names first occur.
pub proof fn law_dedup_devices(devices: Seq<DeviceInfo>)
    ensures
        ({
            let kept = deduped(devices);
            &&& forall|p: int, name: Seq<char>| #[trigger]
                named_at(devices, p, name) ==> exists|k: int| named_at(kept, k, name)
            &&& forall|k: int, name: Seq<char>| #[trigger]
                named_at(kept, k, name) ==> exists|p: int| named_at(devices, p, name)
            &&& forall|i: int, j: int, name: Seq<char>|
                #![trigger named_at(kept, i, name), named_at(kept, j, name)]
                named_at(kept, i, name) && named_at(kept, j, name) ==> i == j
            &&& forall|i: int, j: int, q: int, a: Seq<char>, b: Seq<char>|
                #![trigger named_at(kept, i, a), named_at(kept, j, b), named_at(devices, q, b)]
                i < j && named_at(kept, i, a) && named_at(kept, j, b) && named_at(devices, q, b)
                    ==> exists|p: int| p < q && named_at(devices, p, a)
        }),
    decreases devices.len(),
{
    let kept = deduped(devices);
    if devices.len() > 0 {
        let front = devices.drop_last();
        let rest = deduped(front);
        let end = devices.len() - 1;
        let last = devices.last();
        law_dedup_devices(front);
        lemma_deduped_step(devices);
        let known = exists|k: int| named_at(rest, k, last.name@);
        assert forall|p: int, name: Seq<char>| #[trigger] named_at(devices, p, name) implies exists|
            k: int,
        | named_at(kept, k, name) by {
            if p < end {
                assert(named_at(front, p, name));
                let k = choose|k: int| named_at(rest, k, name);
                assert(named_at(kept, k, name));
            } else if known {
                let k = choose|k: int| named_at(rest, k, last.name@);
                assert(named_at(kept, k, name));
            } else {
                assert(named_at(kept, rest.len() as int, name));
            }
        }
        assert forall|k: int, name: Seq<char>| #[trigger] named_at(kept, k, name) implies exists|
            p: int,
        | named_at(devices, p, name) by {
            if k < rest.len() {
                assert(named_at(rest, k, name));
                let p = choose|p: int| named_at(front, p, name);
                assert(named_at(devices, p, name));
            } else {
                assert(named_at(devices, end, name));
            }
        }
        assert forall|i: int, j: int, name: Seq<char>|
            #![trigger named_at(kept, i, name), named_at(kept, j, name)]
            named_at(kept, i, name) && named_at(kept, j, name) implies i == j by {
            if i < rest.len() {
                assert(named_at(rest, i, name));
            }
            if j < rest.len() {
                assert(named_at(rest, j, name));
            }
        }
        assert forall|i: int, j: int, q: int, a: Seq<char>, b: Seq<char>|
            #![trigger named_at(kept, i, a), named_at(kept, j, b), named_at(devices, q, b)]
            i < j && named_at(kept, i, a) && named_at(kept, j, b) && named_at(
                devices,
                q,
                b,
            ) implies exists|p: int| p < q && named_at(devices, p, a) by {
            assert(named_at(rest, i, a));
            if q < end {
                assert(named_at(front, q, b));
                let k = choose|k: int| named_at(rest, k, b);
                assert(named_at(kept, k, b));
                assert(named_at(rest, j, b));
                let p = choose|p: int| p < q && named_at(front, p, a);
                assert(named_at(devices, p, a));
            } else {
                let p = choose|p: int| named_at(front, p, a);
                assert(named_at(devices, p, a));
            }
        }
    }
}

/// What one more device does to a filtered list.
proof fn lemma_filtered_step(devices: Seq<DeviceInfo>)
    requires
        devices.len() > 0,
    ensures
        ({
            let front = deduped(relevant_only(devices.drop_last()));
            let last = devices.last();
            let name = last.name@;
            deduped(relevant_only(devices)) == if !relevant(name) || exists|k: int|
                named_at(front, k, name) {
                front
            } else {
                front.push(last)
            }
        }),
{
    let last = devices.last();
    let rest = relevant_only(devices.drop_last());
    if relevant(last.name@) {
        assert(rest.push(last).drop_last() =~= rest);
        lemma_deduped_step(rest.push(last));
    }
}

/// A list of devices is filtered to the relevant names, each once, in the order
/// in which they first occur; nothing else is lost and nothing is added.
pub proof fn law_filter_devices(devices: Seq<DeviceInfo>)
    ensures
        ({
            let kept = deduped(relevant_only(devices));
            &&& forall|p: int, name: Seq<char>| #[trigger]
                named_at(devices, p, name) && relevant(name) ==> exists|k: int|
                    named_at(kept, k, name)
            &&& forall|k: int, name: Seq<char>| #[trigger]
                named_at(kept, k, name) ==> relevant(name) && exists|p: int|
                    named_at(devices, p, name)
            &&& forall|i: int, j: int, name: Seq<char>|
                #![trigger named_at(kept, i, name), named_at(kept, j, name)]
                named_at(kept, i, name) && named_at(kept, j, name) ==> i == j
            &&& forall|i: int, j: int, q: int, a: Seq<char>, b: Seq<char>|
                #![trigger named_at(kept, i, a), named_at(kept, j, b), named_at(devices, q, b)]
                i < j && named_at(kept, i, a) && named_at(kept, j, b) && named_at(devices, q, b)
                    ==> exists|p: int| p < q && named_at(devices, p, a)
        }),
    decreases devices.len(),
{
    let kept = deduped(relevant_only(devices));
    if devices.len() > 0 {
        let front = devices.drop_last();
        let rest = deduped(relevant_only(front));
        let end = devices.len() - 1;
        let last = devices.last();
        law_filter_devices(front);
        lemma_filtered_step(devices);
        let known = exists|k: int| named_at(rest, k, last.name@);
        assert forall|p: int, name: Seq<char>| #[trigger]
            named_at(devices, p, name) && relevant(name) implies exists|k: int|
            named_at(kept, k, name) by {
            if p < end {
                assert(named_at(front, p, name));
                let k = choose|k: int| named_at(rest, k, name);
                assert(named_at(kept, k, name));
            } else if known {
                let k = choose|k: int| named_at(rest, k, last.name@);
                assert(named_at(kept, k, name));
            } else {
                assert(named_at(kept, rest.len() as int, name));
            }
        }
        assert forall|k: int, name: Seq<char>| #[trigger] named_at(kept, k, name) implies relevant(
            name,
        ) && exists|p: int| named_at(devices, p, name) by {
            if k < rest.len() {
                assert(named_at(rest, k, name));
                let p = choose|p: int| named_at(front, p, name);
                assert(named_at(devices, p, name));
            } else {
                assert(named_at(devices, end, name));
            }
        }
        assert forall|i: int, j: int, name: Seq<char>|
            #![trigger named_at(kept, i, name), named_at(kept, j, name)]
            named_at(kept, i, name) && named_at(kept, j, name) implies i == j by {
            if i < rest.len() {
                assert(named_at(rest, i, name));
            }
            if j < rest.len() {
                assert(named_at(rest, j, name));
            }
        }
        assert forall|i: int, j: int, q: int, a: Seq<char>, b: Seq<char>|
            #![trigger named_at(kept, i, a), named_at(kept, j, b), named_at(devices, q, b)]
            i < j && named_at(kept, i, a) && named_at(kept, j, b) && named_at(
                devices,
                q,
                b,
            ) implies exists|p: int| p < q && named_at(devices, p, a) by {
            assert(named_at(rest, i, a));
            if q < end {
                assert(named_at(front, q, b));
                assert(relevant(b));
                let k = choose|k: int| named_at(rest, k, b);
                assert(named_at(kept, k, b));
                assert(named_at(rest, j, b));
                let p = choose|p: int| p < q && named_at(front, p, a);
                assert(named_at(devices, p, a));
            } else {
                let p = choose|p: int| named_at(front, p, a);
                assert(named_at(devices, p, a));
            }
        }
    }
}

/// What one more report does to the list of devices.
proof fn lemma_listed_step(names: Seq<Option<String>>)
    requires
        names.len() > 0,
    ensures
        ({
            let front = deduped(relevant_only(named(names.drop_last())));
            let all = deduped(relevant_only(named(names)));
            match names.last() {
                Some(s) => all == if !relevant(s@) || exists|k: int| named_at(front, k, s@) {
                    front
                } else {
                    front.push(DeviceInfo { name: s })
                },
                None => all == front,
            }
        }),
{
    if let Some(s) = names.last() {
        let rest = named(names.drop_last());
        assert(rest.push(DeviceInfo { name: s }).drop_last() =~= rest);
        lemma_filtered_step(rest.push(DeviceInfo { name: s }));
    }
}

/// The list of devices has a name exactly if the host reports it and it is
/// relevant; it has each once, in the order in which the host first reports
/// them.
pub proof fn law_list_devices(names: Seq<Option<String>>)
    ensures
        ({
            let listed = deduped(relevant_only(named(names)));
            &&& forall|p: int, name: Seq<char>| #[trigger]
                reported_at(names, p, name) && relevant(name) ==> exists|k: int|
                    named_at(listed, k, name)
            &&& forall|k: int, name: Seq<char>| #[trigger]
                named_at(listed, k, name) ==> relevant(name) && exists|p: int|
                    reported_at(names, p, name)
            &&& forall|i: int, j: int, name: Seq<char>|
                #![trigger named_at(listed, i, name), named_at(listed, j, name)]
                named_at(listed, i, name) && named_at(listed, j, name) ==> i == j
            &&& forall|i: int, j: int, q: int, a: Seq<char>, b: Seq<char>|
                #![trigger named_at(listed, i, a), named_at(listed, j, b), reported_at(names, q, b)]
                i < j && named_at(listed, i, a) && named_at(listed, j, b) && reported_at(
                    names,
                    q,
                    b,
                ) ==> exists|p: int| p < q && reported_at(names, p, a)
        }),
    decreases names.len(),
{
    let listed = deduped(relevant_only(named(names)));
    if names.len() > 0 {
        let front = names.drop_last();
        let rest = deduped(relevant_only(named(front)));
        let end = names.len() - 1;
        law_list_devices(front);
        lemma_listed_step(names);
        assert forall|p: int, name: Seq<char>| #[trigger]
            reported_at(names, p, name) && relevant(name) implies exists|k: int|
            named_at(listed, k, name) by {
            if p < end {
                assert(reported_at(front, p, name));
                let k = choose|k: int| named_at(rest, k, name);
                assert(named_at(listed, k, name));
            } else if exists|k: int| named_at(rest, k, name) {
                let k = choose|k: int| named_at(rest, k, name);
                assert(named_at(listed, k, name));
            } else {
                assert(named_at(listed, rest.len() as int, name));
            }
        }
        assert forall|k: int, name: Seq<char>| #[trigger]
            named_at(listed, k, name) implies relevant(name) && exists|p: int|
            reported_at(names, p, name) by {
            if k < rest.len() {
                assert(named_at(rest, k, name));
                let p = choose|p: int| reported_at(front, p, name);
                assert(reported_at(names, p, name));
            } else {
                assert(reported_at(names, end, name));
            }
        }
        assert forall|i: int, j: int, name: Seq<char>|
            #![trigger named_at(listed, i, name), named_at(listed, j, name)]
            named_at(listed, i, name) && named_at(listed, j, name) implies i == j by {
            if i < rest.len() {
                assert(named_at(rest, i, name));
            }
            if j < rest.len() {
                assert(named_at(rest, j, name));
            }
        }
        assert forall|i: int, j: int, q: int, a: Seq<char>, b: Seq<char>|
            #![trigger named_at(listed, i, a), named_at(listed, j, b), reported_at(names, q, b)]
            i < j && named_at(listed, i, a) && named_at(listed, j, b) && reported_at(
                names,
                q,
                b,
            ) implies exists|p: int| p < q && reported_at(names, p, a) by {
            assert(named_at(rest, i, a));
            if q < end {
                assert(reported_at(front, q, b));
                assert(relevant(b));
                let k = choose|k: int| named_at(rest, k, b);
                assert(named_at(listed, k, b));
                assert(named_at(rest, j, b));
                let p = choose|p: int| p < q && reported_at(front, p, a);
                assert(reported_at(names, p, a));
            } else {
                let p = choose|p: int| reported_at(front, p, a);
                assert(reported_at(names, p, a));
            }
        }
    }
}

/// The configuration is the first one offered with `f32` samples. Only where
/// none has them, it is the first of the second enumeration, and there is none
/// exactly if that failed or is empty.
pub proof fn law_chosen_configuration(offered: Seq<ConfigRange>, again: Option<Vec<ConfigRange>>)
    ensures
        forall|i: int|
            0 <= i < offered.len() && (#[trigger] offered[i]).sample_format == SampleFormat::F32 && (
            forall|j: int|
                0 <= j < i ==> (#[trigger] offered[j]).sample_format != SampleFormat::F32)
                ==> chosen_range(offered, again) == Some(offered[i]),
        (exists|i: int|
            0 <= i < offered.len() && (#[trigger] offered[i]).sample_format == SampleFormat::F32)
            ==> (chosen_range(offered, again) matches Some(range) && range.sample_format
            == SampleFormat::F32),
        (forall|i: int|
            0 <= i < offered.len() ==> (#[trigger] offered[i]).sample_format != SampleFormat::F32)
            ==> {
            &&& chosen_range(offered, again) is None <==> again is None || again->0@.len() == 0
            &&& again is Some && again->0@.len() > 0 ==> chosen_range(offered, again) == Some(
                again->0@[0],
            )
        },
{
    let all = formats(offered);
    let plain = SampleFormat::F32;
    crate::select::law_first_index(all, plain);
    assert forall|i: int| 0 <= i < offered.len() implies all[i] == (
    #[trigger] offered[i]).sample_format by {}
    if exists|i: int|
        0 <= i < offered.len() && (#[trigger] offered[i]).sample_format == SampleFormat::F32 {
        let i = choose|i: int|
            0 <= i < offered.len() && (#[trigger] offered[i]).sample_format == SampleFormat::F32;
        assert(all[i] == plain);
        let first = crate::select::first_index(all, plain)->0;
        assert(offered[first].sample_format == all[first]);
        assert forall|k: int|
            0 <= k < offered.len() && (#[trigger] offered[k]).sample_format == SampleFormat::F32 && (
            forall|j: int|
                0 <= j < k ==> (#[trigger] offered[j]).sample_format
                    != SampleFormat::F32) implies chosen_range(offered, again) == Some(
            offered[k],
        ) by {
            assert(all[k] == plain);
        }
    } else {
        assert(!all.contains(plain)) by {
            if all.contains(plain) {
                let i = choose|i: int| 0 <= i < all.len() && all[i] == plain;
                assert(offered[i].sample_format == plain);
            }
        }
    }
}

/// A stream has the channels and the format of its configuration and the buffer
/// size asked for. Its rate is the one asked for where that is offered, and else
/// the bound that it lies beyond; with none asked for, it is the device's
/// default where that is offered, and else the highest.
pub proof fn law_stream_settings(
    range: ConfigRange,
    device_default: Option<u32>,
    io_config: AudioIoConfig,
)
    ensures
        ({
            let s = settings(range, device_default, io_config);
            let low = range.min_sample_rate;
            let high = range.max_sample_rate;
            &&& s.channels == range.channels
            &&& s.sample_format == range.sample_format
            &&& s.buffer_size == io_config.buffer_size
            &&& io_config.sample_rate matches Some(rate) ==> {
                &&& low <= rate <= high ==> s.sample_rate == rate
                &&& rate < low ==> s.sample_rate == low
                &&& low <= rate && rate > high ==> s.sample_rate == high
            }
            &&& io_config.sample_rate is None ==> {
                &&& device_default matches Some(rate) ==> (low <= rate <= high ==> s.sample_rate
                    == rate)
                &&& device_default matches Some(rate) ==> (!(low <= rate <= high)
                    ==> s.sample_rate == high)
                &&& device_default is None ==> s.sample_rate == high
            }
        }),
{
}

/// The samples of a frame stand side by side, one for each channel, and the
/// frames one behind the other from the start.
pub proof fn law_slots(channels: int, c: int, i: int)
    requires
        channels > 0,
    ensures
        slot(channels, 0, 0) == 0,
        slot(channels, c + 1, i) == slot(channels, c, i) + 1,
        slot(channels, 0, i + 1) == slot(channels, channels - 1, i) + 1,
{
    assert((i + 1) * channels == i * channels + channels) by (nonlinear_arith);
    assert(0 * channels == 0);
}

/// There is a lane for each channel, and each has as many samples as there are
/// complete frames.
pub proof fn law_deinterleaved_shape<T>(samples: Seq<T>, channels: int, c: int)
    requires
        0 <= c < channels,
    ensures
        lanes(samples, channels).len() == channels,
        lanes(samples, channels)[c].len() * channels <= samples.len() < (lanes(
            samples,
            channels,
        )[c].len() + 1) * channels,
{
    let len = samples.len() as int;
    let frames = len / channels;
    assert(0 <= frames && frames * channels <= len < (frames + 1) * channels) by (nonlinear_arith)
        requires
            0 < channels,
            0 <= len,
            frames == len / channels,
    ;
}

/// The sample of frame `i` in channel `c` is the one that comes after `i` whole
/// frames and `c` more samples.
pub proof fn law_deinterleaved_samples<T>(samples: Seq<T>, channels: int, c: int, i: int)
    requires
        0 <= c < channels,
        0 <= i,
        (i + 1) * channels <= samples.len(),
    ensures
        i < lanes(samples, channels)[c].len(),
        lanes(samples, channels)[c][i] == samples[i * channels + c],
{
    let len = samples.len() as int;
    let frames = len / channels;
    assert(frames * channels <= len < (frames + 1) * channels) by (nonlinear_arith)
        requires
            0 < channels,
            0 <= len,
            frames == len / channels,
    ;
    assert(i < frames) by (nonlinear_arith)
        requires
            0 < channels,
            (i + 1) * channels <= len,
            len < (frames + 1) * channels,
    ;
}

/// What each step of the hand-over does to each of the two places, whatever
/// they hold.
pub proof fn law_hand_over<S>(shared: SharedBuffer<S>, block: AudioBlock<S>)
    ensures
        shared.acquired().recycle is None,
        shared.acquired().latest == shared.latest,
        shared.taken().latest is None,
        shared.taken().recycle == shared.recycle,
        shared.returned(block).recycle == Some(block),
        shared.returned(block).latest == shared.latest,
        shared.published(block).latest == Some(block),
        shared.latest is Some ==> shared.published(block).recycle == shared.latest,
        shared.latest is None ==> shared.published(block).recycle == shared.recycle,
{
}

/// The character is the other one, or its upper-case ASCII form.
pub open spec fn same_letter(c: char, lower: char) -> bool {
    c == lower || ('A' <= c && c <= 'Z' && c as int + 32 == lower as int)
}

/// `word` stands in `name` from `at` on, upper and lower case alike.
pub open spec fn spelled_at(name: Seq<char>, at: int, word: Seq<char>) -> bool {
    &&& 0 <= at
    &&& at + word.len() <= name.len()
    &&& forall|j: int| 0 <= j < word.len() ==> same_letter(name[at + j], #[trigger] word[j])
}

/// The words that tell a device that does not work.
pub open spec fn skip_words() -> Seq<Seq<char>> {
    seq![
        "surround"@,
        "front"@,
        "iec958"@,
        "dmix"@,
        "dsnoop"@,
        "null"@,
        "file:"@,
        "rate"@,
        "speexrate"@,
        "adapter"@,
        "speex"@,
    ]
}

/// The words are written in lower case.
proof fn lemma_skip_words()
    ensures
        skip_words().len() == ALSA_SKIP_PATTERNS@.len(),
        forall|k: int|
            0 <= k < skip_words().len() ==> #[trigger] skip_words()[k] == ALSA_SKIP_PATTERNS@[k]@,
        forall|k: int, j: int|
            0 <= k < skip_words().len() && 0 <= j < skip_words()[k].len() ==> !('A'
                <= #[trigger] skip_words()[k][j] && skip_words()[k][j] <= 'Z'),
{
    reveal_strlit("surround");
    reveal_strlit("front");
    reveal_strlit("iec958");
    reveal_strlit("dmix");
    reveal_strlit("dsnoop");
    reveal_strlit("null");
    reveal_strlit("file:");
    reveal_strlit("rate");
    reveal_strlit("speexrate");
    reveal_strlit("adapter");
    reveal_strlit("speex");
}

/// A word stands in a name in some case exactly if it stands in the name's
/// lower-case form.
proof fn lemma_spelled(name: Seq<char>, at: int, word: Seq<char>)
    requires
        forall|j: int| 0 <= j < word.len() ==> !('A' <= #[trigger] word[j] && word[j] <= 'Z'),
    ensures
        spelled_at(name, at, word) == crate::text::occurs_at(crate::text::lower(name), word, at),
{
    let low = crate::text::lower(name);
    if 0 <= at && at + word.len() <= name.len() {
        let part = low.subrange(at, at + word.len());
        assert forall|j: int| 0 <= j < word.len() implies same_letter(
            name[at + j],
            #[trigger] word[j],
        ) == (part[j] == word[j]) by {
            let c = name[at + j];
            let w = word[j];
            assert(part[j] == crate::text::lower_char(c));
            assert(!('A' <= w && w <= 'Z'));
            if 'A' <= c && c <= 'Z' {
                assert(crate::text::lower_char(c) as int == c as int + 32);
            }
        }
        if part == word {
            assert forall|j: int| 0 <= j < word.len() implies same_letter(
                name[at + j],
                #[trigger] word[j],
            ) by {
                assert(part[j] == word[j]);
            }
        }
        if spelled_at(name, at, word) {
            assert(part =~= word);
        }
    }
}

/// A device is left out exactly if one of the words stands anywhere in its name,
/// upper and lower case alike.
pub proof fn law_relevant_names(name: Seq<char>)
    ensures
        relevant(name) <==> forall|k: int, at: int|
            0 <= k < skip_words().len() ==> !#[trigger] spelled_at(name, at, skip_words()[k]),
{
    lemma_skip_words();
    let low = crate::text::lower(name);
    assert forall|k: int, at: int| 0 <= k < skip_words().len() implies #[trigger] spelled_at(
        name,
        at,
        skip_words()[k],
    ) == crate::text::occurs_at(low, skip_words()[k], at) by {
        lemma_spelled(name, at, skip_words()[k]);
    }
    if relevant(name) {
        assert forall|k: int, at: int| 0 <= k < skip_words().len() implies !#[trigger] spelled_at(
            name,
            at,
            skip_words()[k],
        ) by {
            assert(!crate::text::occurs_in(low, ALSA_SKIP_PATTERNS@[k]@));
        }
    } else {
        let k = choose|k: int|
            0 <= k < ALSA_SKIP_PATTERNS@.len() && crate::text::occurs_in(
                low,
                #[trigger] ALSA_SKIP_PATTERNS@[k]@,
            );
        let at = choose|at: int|
            crate::text::occurs_at(low, ALSA_SKIP_PATTERNS@[k]@, at);
        assert(spelled_at(name, at, skip_words()[k]));
    }
}

} // verus!
