//! State of the terminal interface: the configuration with its limits and
//! steps, the runtime status, and what each key does.
use vstd::prelude::*;
use crate::num::{limit, unsigned};
use crate::select::position;
use crate::text::{concat, decimal_string};

verus! {

// ── Configuration ──────────────────────────────────────────────────

/// Configurable parameters for the vocoder.
///
/// The continuous parameters are held in the smallest step that is shown:
/// `formant_shift` in hundredths, `pitch_shift` in tenths of a semitone and
/// `gain` in percent.
#[derive(Debug, Clone)]
pub struct Config {
    pub audio_input_device: Option<String>,
    pub audio_output_device: Option<String>,
    pub midi_input_port: Option<String>,
    pub sample_rate: u32,
    pub buffer_size: u32,
    pub midi_channel: u8,
    pub formant_shift: i32,
    pub pitch_shift: i32,
    pub gain: i32,
    /// When `true`, the audio callback bypasses the vocoder DSP and outputs
    /// the raw carrier signal multiplied by gain (Keyboard mode).
    /// When `false`, normal vocoder processing is applied (Vocoder mode).
    pub keyboard_mode: bool,
}

impl Default for Config {
    fn default() -> (cfg: Self)
        ensures
            cfg == default_config(),
    {
        Config {
            audio_input_device: None,
            audio_output_device: None,
            midi_input_port: None,
            sample_rate: 44_100,
            buffer_size: 512,
            midi_channel: 1,
            formant_shift: 100,
            pitch_shift: 0,
            gain: 300,
            keyboard_mode: false,
        }
    }
}

/// The configuration that a session starts from.
pub open spec fn default_config() -> Config {
    Config {
        audio_input_device: None,
        audio_output_device: None,
        midi_input_port: None,
        sample_rate: 44_100,
        buffer_size: 512,
        midi_channel: 1,
        formant_shift: 100,
        pitch_shift: 0,
        gain: 300,
        keyboard_mode: false,
    }
}

/// The sample rates that can be chosen, in Hz.
pub const SAMPLE_RATES: [u32; 4] = [22_050, 44_100, 48_000, 96_000];

/// The buffer sizes that can be chosen, in samples.
pub const BUFFER_SIZES: [u32; 5] = [128, 256, 512, 1024, 2048];

/// Which config field is currently selected for editing.
#[derive(Debug, Clone, Copy, PartialEq, Eq, Structural)]
pub enum ConfigField {
    AudioInputDevice,
    AudioOutputDevice,
    MidiInputPort,
    SampleRate,
    BufferSize,
    MidiChannel,
    FormantShift,
    PitchShift,
    Gain,
}

/// The fields in the order in which they are shown.
pub const CONFIG_FIELDS: [ConfigField; 9] = [
    ConfigField::AudioInputDevice,
    ConfigField::AudioOutputDevice,
    ConfigField::MidiInputPort,
    ConfigField::SampleRate,
    ConfigField::BufferSize,
    ConfigField::MidiChannel,
    ConfigField::FormantShift,
    ConfigField::PitchShift,
    ConfigField::Gain,
];

/// The option `delta` places from `current`, within the list; a value that is
/// not in the list counts as the option at `start`.
pub open spec fn stepped(options: Seq<u32>, current: u32, start: int, delta: int) -> u32 {
    let at = match crate::select::first_index(options, current) {
        Some(i) => i,
        None => start,
    };
    options[crate::num::limited(at + delta, 0, options.len() - 1)]
}

/// What an optional name shows, with a stand-in for none.
pub open spec fn name_or(name: Option<String>, other: Seq<char>) -> Seq<char> {
    match name {
        Some(s) => s@,
        None => other,
    }
}

/// A number in tenths with its decimal point, without a sign.
pub open spec fn tenths(m: nat) -> Seq<char> {
    crate::text::decimal(m / 10) + "."@ + crate::text::decimal(m % 10)
}

/// A number in hundredths with its decimal point, without a sign.
pub open spec fn hundredths(m: nat) -> Seq<char> {
    crate::text::decimal(m / 100) + "."@ + crate::text::decimal(m / 10 % 10) + crate::text::decimal(
        m % 10,
    )
}

/// The sign of a negative number.
pub open spec fn minus(x: int) -> Seq<char> {
    if x < 0 {
        "-"@
    } else {
        ""@
    }
}

/// The sign of a number, also of one that is not negative.
pub open spec fn plus_minus(x: int) -> Seq<char> {
    if x < 0 {
        "-"@
    } else {
        "+"@
    }
}

/// Shifts a number by `delta` steps and keeps it within its limits.
fn shift(value: i32, delta: i32, step: i64, low: i64, high: i64) -> (r: i32)
    requires
        0 < step <= 100,
        i32::MIN <= low <= high <= i32::MAX,
    ensures
        r == crate::num::limited(value + delta * step, low as int, high as int),
{
    proof {
        assert(-0x80000000 * 100 <= delta * step <= 0x7fffffff * 100) by (nonlinear_arith)
            requires
                -0x80000000 <= delta <= 0x7fffffff,
                0 < step <= 100,
        ;
    }
    let moved: i64 = value as i64 + delta as i64 * step;
    limit(moved, low, high) as i32
}

/// The option `delta` places from `current`.
fn step_option(options: &[u32], current: u32, start: usize, delta: i32) -> (r: u32)
    requires
        0 < options@.len() <= 100,
        start < options@.len(),
    ensures
        r == stepped(options@, current, start as int, delta as int),
{
    let mut at: usize = start;
    let mut i: usize = 0;
    let mut found: bool = false;
    while i < options.len() && !found
        invariant
            i <= options@.len(),
            start < options@.len(),
            !found ==> at == start,
            !found ==> forall|j: int| 0 <= j < i ==> options@[j] != current,
            found ==> crate::select::first_index(options@, current) == Some(at as int),
            found ==> at < options@.len(),
        decreases options@.len() - i,
    {
        if options[i] == current {
            proof {
                crate::select::lemma_skip(options@, current, i as int);
            }
            at = i;
            found = true;
        }
        i = i + 1;
    }
    proof {
        if !found {
            crate::select::lemma_skip(options@, current, i as int);
        }
    }
    let last: i64 = (options.len() - 1) as i64;
    let place: i64 = limit(at as i64 + delta as i64, 0, last);
    options[place as usize]
}

/// The name, or `other` where there is none.
fn show_name(name: &Option<String>, other: &str) -> (r: String)
    ensures
        r@ == name_or(*name, other@),
{
    match name {
        Some(s) => s.clone(),
        None => other.to_owned(),
    }
}

impl ConfigField {
    /// The name of the field.
    pub open spec fn label_text(self) -> Seq<char> {
        match self {
            ConfigField::AudioInputDevice => "Audio Input"@,
            ConfigField::AudioOutputDevice => "Audio Output"@,
            ConfigField::MidiInputPort => "MIDI Input"@,
            ConfigField::SampleRate => "Sample Rate"@,
            ConfigField::BufferSize => "Buffer Size"@,
            ConfigField::MidiChannel => "MIDI Channel"@,
            ConfigField::FormantShift => "Formant Shift"@,
            ConfigField::PitchShift => "Pitch Shift"@,
            ConfigField::Gain => "Gain"@,
        }
    }

    /// The value of the field as it is shown.
    pub open spec fn value_text(self, cfg: Config) -> Seq<char> {
        match self {
            ConfigField::AudioInputDevice => name_or(cfg.audio_input_device, "(default)"@),
            ConfigField::AudioOutputDevice => name_or(cfg.audio_output_device, "(default)"@),
            ConfigField::MidiInputPort => name_or(cfg.midi_input_port, "(first available)"@),
            ConfigField::SampleRate => crate::text::decimal(cfg.sample_rate as nat) + " Hz"@,
            ConfigField::BufferSize => crate::text::decimal(cfg.buffer_size as nat) + " samples"@,
            ConfigField::MidiChannel => "Channel "@ + crate::text::decimal(cfg.midi_channel as nat),
            ConfigField::FormantShift => minus(cfg.formant_shift as int) + hundredths(
                crate::num::magnitude(cfg.formant_shift as int),
            ) + "x"@,
            ConfigField::PitchShift => plus_minus(cfg.pitch_shift as int) + tenths(
                crate::num::magnitude(cfg.pitch_shift as int),
            ) + " semitones"@,
            ConfigField::Gain => minus(cfg.gain as int) + crate::text::decimal(
                crate::num::magnitude(cfg.gain as int),
            ) + "%"@,
        }
    }

    /// The configuration after the field was moved by `delta` steps. The device
    /// fields have no steps of their own.
    pub open spec fn adjusted(self, cfg: Config, delta: int) -> Config {
        match self {
            ConfigField::AudioInputDevice => cfg,
            ConfigField::AudioOutputDevice => cfg,
            ConfigField::MidiInputPort => cfg,
            ConfigField::SampleRate => Config {
                sample_rate: stepped(SAMPLE_RATES@, cfg.sample_rate, 1, delta),
                ..cfg
            },
            ConfigField::BufferSize => Config {
                buffer_size: stepped(BUFFER_SIZES@, cfg.buffer_size, 2, delta),
                ..cfg
            },
            ConfigField::MidiChannel => Config {
                midi_channel: crate::num::limited(cfg.midi_channel + delta, 1, 16) as u8,
                ..cfg
            },
            ConfigField::FormantShift => Config {
                formant_shift: crate::num::limited(cfg.formant_shift + delta * 5, 25, 400) as i32,
                ..cfg
            },
            ConfigField::PitchShift => Config {
                pitch_shift: crate::num::limited(cfg.pitch_shift + delta * 5, -240, 240) as i32,
                ..cfg
            },
            ConfigField::Gain => Config {
                gain: crate::num::limited(cfg.gain + delta * 5, 0, 1000) as i32,
                ..cfg
            },
        }
    }

    /// The name of the field.
    pub fn label(&self) -> (r: &'static str)
        ensures
            r@ == self.label_text(),
    {
        match self {
            ConfigField::AudioInputDevice => "Audio Input",
            ConfigField::AudioOutputDevice => "Audio Output",
            ConfigField::MidiInputPort => "MIDI Input",
            ConfigField::SampleRate => "Sample Rate",
            ConfigField::BufferSize => "Buffer Size",
            ConfigField::MidiChannel => "MIDI Channel",
            ConfigField::FormantShift => "Formant Shift",
            ConfigField::PitchShift => "Pitch Shift",
            ConfigField::Gain => "Gain",
        }
    }

    /// The value of the field as it is shown.
    pub fn display_value(&self, cfg: &Config) -> (r: String)
        ensures
            r@ == self.value_text(*cfg),
    {
        match self {
            ConfigField::AudioInputDevice => show_name(&cfg.audio_input_device, "(default)"),
            ConfigField::AudioOutputDevice => show_name(&cfg.audio_output_device, "(default)"),
            ConfigField::MidiInputPort => show_name(&cfg.midi_input_port, "(first available)"),
            ConfigField::SampleRate => {
                let mut s = decimal_string(cfg.sample_rate as u64);
                s.append(" Hz");
                s
            },
            ConfigField::BufferSize => {
                let mut s = decimal_string(cfg.buffer_size as u64);
                s.append(" samples");
                s
            },
            ConfigField::MidiChannel => {
                let number = decimal_string(cfg.midi_channel as u64);
                concat("Channel ", number.as_str())
            },
            ConfigField::FormantShift => {
                let m: u64 = unsigned(cfg.formant_shift);
                let whole = decimal_string(m / 100);
                let first = decimal_string(m / 10 % 10);
                let second = decimal_string(m % 10);
                let mut s = concat(
                    if cfg.formant_shift < 0 {
                        "-"
                    } else {
                        ""
                    },
                    whole.as_str(),
                );
                s.append(".");
                s.append(first.as_str());
                s.append(second.as_str());
                s.append("x");
                proof {
                    assert(s@ =~= self.value_text(*cfg));
                }
                s
            },
            ConfigField::PitchShift => {
                let m: u64 = unsigned(cfg.pitch_shift);
                let whole = decimal_string(m / 10);
                let first = decimal_string(m % 10);
                let mut s = concat(
                    if cfg.pitch_shift < 0 {
                        "-"
                    } else {
                        "+"
                    },
                    whole.as_str(),
                );
                s.append(".");
                s.append(first.as_str());
                s.append(" semitones");
                proof {
                    assert(s@ =~= self.value_text(*cfg));
                }
                s
            },
            ConfigField::Gain => {
                let number = decimal_string(unsigned(cfg.gain));
                let mut s = concat(
                    if cfg.gain < 0 {
                        "-"
                    } else {
                        ""
                    },
                    number.as_str(),
                );
                s.append("%");
                s
            },
        }
    }

    /// Moves the field by `delta` steps within its limits.
    pub fn adjust(&self, cfg: &mut Config, delta: i32)
        ensures
            *final(cfg) == self.adjusted(*old(cfg), delta as int),
    {
        match self {
            // Device fields are handled by App::cycle_device instead.
            ConfigField::AudioInputDevice | ConfigField::AudioOutputDevice
            | ConfigField::MidiInputPort => {},
            ConfigField::SampleRate => {
                cfg.sample_rate = step_option(&SAMPLE_RATES, cfg.sample_rate, 1, delta);
            },
            ConfigField::BufferSize => {
                cfg.buffer_size = step_option(&BUFFER_SIZES, cfg.buffer_size, 2, delta);
            },
            ConfigField::MidiChannel => {
                cfg.midi_channel = shift(cfg.midi_channel as i32, delta, 1, 1, 16) as u8;
            },
            ConfigField::FormantShift => {
                cfg.formant_shift = shift(cfg.formant_shift, delta, 5, 25, 400);
            },
            ConfigField::PitchShift => {
                cfg.pitch_shift = shift(cfg.pitch_shift, delta, 5, -240, 240);
            },
            ConfigField::Gain => {
                cfg.gain = shift(cfg.gain, delta, 5, 0, 1000);
            },
        }
    }
}

// ── Status ─────────────────────────────────────────────────────────

/// Runtime status displayed by the interface.
///
/// The three fractions are held in millionths.
#[derive(Debug, Clone)]
pub struct Status {
    pub audio_running: bool,
    pub midi_connected: bool,
    pub active_notes: Vec<String>,
    pub cpu_usage: i32,
    pub input_level: i32,
    pub output_level: i32,
}

/// Nothing runs, nothing sounds.
pub open spec fn idle(status: Status) -> bool {
    &&& !status.audio_running
    &&& !status.midi_connected
    &&& status.active_notes@ == Seq::<String>::empty()
    &&& status.cpu_usage == 0
    &&& status.input_level == 0
    &&& status.output_level == 0
}

impl Default for Status {
    fn default() -> (status: Self)
        ensures
            idle(status),
    {
        Status {
            audio_running: false,
            midi_connected: false,
            active_notes: Vec::new(),
            cpu_usage: 0,
            input_level: 0,
            output_level: 0,
        }
    }
}

// ── Events ─────────────────────────────────────────────────────────

/// A key of the keyboard.
#[derive(Debug, Clone, Copy, PartialEq, Eq, Structural)]
pub enum KeyCode {
    Char(char),
    Esc,
    Tab,
    Up,
    Down,
    Left,
    Right,
    /// Any key that the interface has no use for.
    Other,
}

/// What happened to a key.
#[derive(Debug, Clone, Copy, PartialEq, Eq, Structural)]
pub enum KeyEventKind {
    Press,
    Repeat,
    Release,
}

/// A key and what happened to it.
#[derive(Debug, Clone, Copy, PartialEq, Eq, Structural)]
pub struct KeyEvent {
    pub code: KeyCode,
    pub kind: KeyEventKind,
}

/// An event of the terminal.
#[derive(Debug, Clone, Copy, PartialEq, Eq, Structural)]
pub enum Event {
    Key(KeyEvent),
    /// A resize, a mouse event, a paste or a change of focus.
    Other,
}

// ── Application ────────────────────────────────────────────────────

/// Top-level application state for the interface.
pub struct App {
    pub config: Config,
    pub status: Status,
    /// Index into `CONFIG_FIELDS` of the field that the arrow keys change.
    pub selected_field: usize,
    /// The entry of the configuration list that is drawn highlighted.
    pub list_state: Option<usize>,
    pub should_quit: bool,
    pub audio_input_devices: Vec<String>,
    pub audio_output_devices: Vec<String>,
    pub midi_input_ports: Vec<String>,
}

/// The first of some names.
pub open spec fn first_name(names: Seq<String>) -> Option<String> {
    if names.len() > 0 {
        Some(names[0])
    } else {
        None
    }
}

/// Where the chosen device stands in the list: at the start if none is chosen
/// or the chosen one is not there.
pub open spec fn device_index(current: Option<String>, devices: Seq<String>) -> int {
    match current {
        Some(name) => match crate::select::first_index(crate::text::texts(devices), name@) {
            Some(i) => i,
            None => 0,
        },
        None => 0,
    }
}

/// The choice after `delta` steps through the list, which is taken as a ring.
pub open spec fn cycled(current: Option<String>, devices: Seq<String>, delta: int) -> Option<
    String,
> {
    if devices.len() == 0 {
        current
    } else {
        Some(devices[(device_index(current, devices) + delta) % devices.len() as int])
    }
}

/// The place that is `delta` steps from `at` on a ring of `len` places.
fn ring_step(at: usize, len: usize, delta: i32) -> (r: usize)
    requires
        at < len,
    ensures
        r == (at + delta) % len as int,
{
    let ring: u128 = len as u128;
    if delta >= 0 {
        ((at as u128 + delta as u128) % ring) as usize
    } else {
        let steps: u128 = (-(delta as i64)) as u128;
        let back: u128 = steps % ring;
        proof {
            let n = len as int;
            vstd::arithmetic::div_mod::lemma_fundamental_div_mod(steps as int, n);
            let turns = steps as int / n + 1;
            assert(at + n - back == n * turns + (at + delta)) by (nonlinear_arith)
                requires
                    steps as int == n * (steps as int / n) + back,
                    turns == steps as int / n + 1,
                    delta == -(steps as int),
            ;
            vstd::arithmetic::div_mod::lemma_mod_multiples_vanish(turns, at + delta, n);
        }
        ((at as u128 + ring - back) % ring) as usize
    }
}

/// A copy of the first of some names.
fn copy_first(names: &Vec<String>) -> (r: Option<String>)
    ensures
        r == first_name(names@),
{
    if names.len() > 0 {
        Some(names[0].clone())
    } else {
        None
    }
}

impl App {
    /// The selected field is one of the fields.
    pub open spec fn wf(self) -> bool {
        self.selected_field < CONFIG_FIELDS@.len()
    }

    /// The highlighted entry is the selected field.
    pub open spec fn in_sync(self) -> bool {
        self.list_state == Some(self.selected_field)
    }

    /// The field that the arrow keys change.
    pub open spec fn field(self) -> ConfigField {
        CONFIG_FIELDS@[self.selected_field as int]
    }

    /// The configuration after the selected field was moved by `delta` steps:
    /// a device field goes round its list, any other keeps within its limits.
    pub open spec fn moved_config(self, delta: int) -> Config {
        let cfg = self.config;
        match self.field() {
            ConfigField::AudioInputDevice => Config {
                audio_input_device: cycled(
                    cfg.audio_input_device,
                    self.audio_input_devices@,
                    delta,
                ),
                ..cfg
            },
            ConfigField::AudioOutputDevice => Config {
                audio_output_device: cycled(
                    cfg.audio_output_device,
                    self.audio_output_devices@,
                    delta,
                ),
                ..cfg
            },
            ConfigField::MidiInputPort => Config {
                midi_input_port: cycled(cfg.midi_input_port, self.midi_input_ports@, delta),
                ..cfg
            },
            field => field.adjusted(cfg, delta),
        }
    }

    /// The state with another field selected.
    pub open spec fn at_field(self, i: int) -> App {
        App { selected_field: i as usize, list_state: Some(i as usize), ..self }
    }

    /// The state after a key was pressed.
    pub open spec fn pressed(self, code: KeyCode) -> App {
        match code {
            KeyCode::Esc | KeyCode::Char('q') => App { should_quit: true, ..self },
            KeyCode::Tab => App {
                config: Config { keyboard_mode: !self.config.keyboard_mode, ..self.config },
                ..self
            },
            KeyCode::Up | KeyCode::Char('k') => if self.selected_field > 0 {
                self.at_field(self.selected_field - 1)
            } else {
                self
            },
            KeyCode::Down | KeyCode::Char('j') => if self.selected_field < CONFIG_FIELDS@.len()
                - 1 {
                self.at_field(self.selected_field + 1)
            } else {
                self
            },
            KeyCode::Right | KeyCode::Char('l') => App { config: self.moved_config(1), ..self },
            KeyCode::Left | KeyCode::Char('h') => App { config: self.moved_config(-1), ..self },
            _ => self,
        }
    }

    /// The state after an event. Only a key that is pressed has an effect.
    pub open spec fn after(self, evt: Event) -> App {
        match evt {
            Event::Key(key) => if key.kind == KeyEventKind::Press {
                self.pressed(key.code)
            } else {
                self
            },
            Event::Other => self,
        }
    }

    /// Starts with the default configuration and the first available device of
    /// each category.
    pub fn new(
        audio_input_devices: Vec<String>,
        audio_output_devices: Vec<String>,
        midi_input_ports: Vec<String>,
    ) -> (app: Self)
        ensures
            app.config == (Config {
                audio_input_device: first_name(audio_input_devices@),
                audio_output_device: first_name(audio_output_devices@),
                midi_input_port: first_name(midi_input_ports@),
                ..default_config()
            }),
            idle(app.status),
            app.selected_field == 0,
            app.list_state == Some(0usize),
            !app.should_quit,
            app.audio_input_devices == audio_input_devices,
            app.audio_output_devices == audio_output_devices,
            app.midi_input_ports == midi_input_ports,
            app.wf(),
            app.in_sync(),
            app.sound(),
    {
        let mut config = Config::default();
        config.audio_input_device = copy_first(&audio_input_devices);
        config.audio_output_device = copy_first(&audio_output_devices);
        config.midi_input_port = copy_first(&midi_input_ports);
        let app = App {
            config,
            status: Status::default(),
            selected_field: 0,
            list_state: Some(0),
            should_quit: false,
            audio_input_devices,
            audio_output_devices,
            midi_input_ports,
        };
        proof {
            law_session_starts_sound(app);
        }
        app
    }

    /// Cycles through a device list, wrapping around at the ends.
    pub fn cycle_device(current: &mut Option<String>, devices: &[String], delta: i32)
        ensures
            *final(current) == cycled(*old(current), devices@, delta as int),
    {
        let len: usize = devices.len();
        if len == 0 {
            return ;
        }
        let mut at: usize = 0;
        if let Some(name) = &*current {
            if let Some(i) = position(devices, name) {
                proof {
                    crate::select::law_first_index(crate::text::texts(devices@), name@);
                }
                at = i;
            }
        }
        let next: usize = ring_step(at, len, delta);
        *current = Some(devices[next].clone());
    }

    /// Shows another status.
    pub fn with_status(self, status: Status) -> (app: Self)
        ensures
            app == (App { status, ..self }),
    {
        let mut app = self;
        app.status = status;
        app
    }

    /// Moves the selected field by `delta` steps.
    fn move_value(&mut self, delta: i32)
        requires
            old(self).wf(),
        ensures
            *final(self) == (App { config: old(self).moved_config(delta as int), ..*old(self) }),
    {
        let field = CONFIG_FIELDS[self.selected_field];
        match field {
            ConfigField::AudioInputDevice => {
                App::cycle_device(
                    &mut self.config.audio_input_device,
                    self.audio_input_devices.as_slice(),
                    delta,
                );
            },
            ConfigField::AudioOutputDevice => {
                App::cycle_device(
                    &mut self.config.audio_output_device,
                    self.audio_output_devices.as_slice(),
                    delta,
                );
            },
            ConfigField::MidiInputPort => {
                App::cycle_device(
                    &mut self.config.midi_input_port,
                    self.midi_input_ports.as_slice(),
                    delta,
                );
            },
            _ => field.adjust(&mut self.config, delta),
        }
    }

    /// Handles one event of the terminal.
    pub fn handle_event(&mut self, evt: &Event)
        requires
            old(self).wf(),
        ensures
            *final(self) == old(self).after(*evt),
            final(self).wf(),
            old(self).in_sync() ==> final(self).in_sync(),
            old(self).sound() ==> final(self).sound(),
            final(self).should_quit <==> old(self).should_quit || is_quit(*evt),
    {
        proof {
            if self.sound() {
                law_event_keeps_sound(*self, *evt);
            }
            law_quit(*self, *evt);
        }
        if let Event::Key(key) = evt {
            if key.kind != KeyEventKind::Press {
                return ;
            }
            match key.code {
                KeyCode::Char('q') | KeyCode::Esc => {
                    self.should_quit = true;
                },
                KeyCode::Tab => {
                    self.config.keyboard_mode = !self.config.keyboard_mode;
                },
                KeyCode::Up | KeyCode::Char('k') => {
                    if self.selected_field > 0 {
                        self.selected_field = self.selected_field - 1;
                        self.list_state = Some(self.selected_field);
                    }
                },
                KeyCode::Down | KeyCode::Char('j') => {
                    if self.selected_field < CONFIG_FIELDS.len() - 1 {
                        self.selected_field = self.selected_field + 1;
                        self.list_state = Some(self.selected_field);
                    }
                },
                KeyCode::Right | KeyCode::Char('l') => {
                    self.move_value(1);
                },
                KeyCode::Left | KeyCode::Char('h') => {
                    self.move_value(-1);
                },
                _ => {},
            }
        }
    }
}

// ── Laws ───────────────────────────────────────────────────────────

impl ConfigField {
    /// The field's value is one that can be chosen. Any device name can.
    pub open spec fn valid(self, cfg: Config) -> bool {
        match self {
            ConfigField::SampleRate => SAMPLE_RATES@.contains(cfg.sample_rate),
            ConfigField::BufferSize => BUFFER_SIZES@.contains(cfg.buffer_size),
            ConfigField::MidiChannel => 1 <= cfg.midi_channel <= 16,
            ConfigField::FormantShift => 25 <= cfg.formant_shift <= 400,
            ConfigField::PitchShift => -240 <= cfg.pitch_shift <= 240,
            ConfigField::Gain => 0 <= cfg.gain <= 1000,
            _ => true,
        }
    }

    /// `delta` steps from the field's value end within its limits.
    pub open spec fn has_room(self, cfg: Config, delta: int) -> bool {
        match self {
            ConfigField::SampleRate => exists|i: int|
                {
                    &&& 0 <= i < SAMPLE_RATES@.len()
                    &&& 0 <= i + delta < SAMPLE_RATES@.len()
                    &&& #[trigger] SAMPLE_RATES@[i] == cfg.sample_rate
                },
            ConfigField::BufferSize => exists|i: int|
                {
                    &&& 0 <= i < BUFFER_SIZES@.len()
                    &&& 0 <= i + delta < BUFFER_SIZES@.len()
                    &&& #[trigger] BUFFER_SIZES@[i] == cfg.buffer_size
                },
            ConfigField::MidiChannel => 1 <= cfg.midi_channel + delta <= 16,
            ConfigField::FormantShift => 25 <= cfg.formant_shift + delta * 5 <= 400,
            ConfigField::PitchShift => -240 <= cfg.pitch_shift + delta * 5 <= 240,
            ConfigField::Gain => 0 <= cfg.gain + delta * 5 <= 1000,
            _ => true,
        }
    }
}

/// Every value of the configuration is one that can be chosen.
pub open spec fn valid_config(cfg: Config) -> bool {
    forall|field: ConfigField| #[trigger] field.valid(cfg)
}

/// The choice is one of the list, and there is none exactly if the list is
/// empty.
pub open spec fn listed(choice: Option<String>, devices: Seq<String>) -> bool {
    match choice {
        Some(name) => crate::text::texts(devices).contains(name@),
        None => devices.len() == 0,
    }
}

/// No name stands in the list twice.
pub open spec fn distinct_names(devices: Seq<String>) -> bool {
    forall|i: int, j: int|
        0 <= i < j < devices.len() ==> (#[trigger] devices[i])@ != (#[trigger] devices[j])@
}

/// A press of one of the two keys that end the session.
pub open spec fn is_quit(evt: Event) -> bool {
    evt matches Event::Key(key) && key.kind == KeyEventKind::Press && (key.code == KeyCode::Esc
        || key.code == KeyCode::Char('q'))
}

/// Where the first option with the value of option `i` stands.
proof fn lemma_option_place(options: Seq<u32>, i: int)
    requires
        0 <= i < options.len(),
        forall|j: int, k: int| 0 <= j < k < options.len() ==> options[j] != options[k],
    ensures
        crate::select::first_index(options, options[i]) == Some(i),
{
    crate::select::law_first_index(options, options[i]);
}

/// A step through a list of options ends on one of them.
proof fn lemma_stepped_is_option(options: Seq<u32>, current: u32, start: int, delta: int)
    requires
        0 <= start < options.len(),
    ensures
        options.contains(stepped(options, current, start, delta)),
{
    crate::select::law_first_index(options, current);
}

/// The default configuration is within all limits.
pub proof fn law_default_config_is_valid()
    ensures
        valid_config(default_config()),
{
    assert(SAMPLE_RATES@[1] == 44_100);
    assert(BUFFER_SIZES@[2] == 512);
}

/// Whatever a field's value was, a step of any size puts it within its limits.
pub proof fn law_adjust_limits_the_field(field: ConfigField, cfg: Config, delta: int)
    requires
        field != ConfigField::AudioInputDevice,
        field != ConfigField::AudioOutputDevice,
        field != ConfigField::MidiInputPort,
    ensures
        field.valid(field.adjusted(cfg, delta)),
{
    lemma_stepped_is_option(SAMPLE_RATES@, cfg.sample_rate, 1, delta);
    lemma_stepped_is_option(BUFFER_SIZES@, cfg.buffer_size, 2, delta);
}

/// A step changes no other field: neither its validity nor what it shows, and
/// not the mode.
pub proof fn law_adjust_leaves_the_rest(
    field: ConfigField,
    other: ConfigField,
    cfg: Config,
    delta: int,
)
    requires
        other != field,
    ensures
        other.value_text(field.adjusted(cfg, delta)) == other.value_text(cfg),
        other.valid(field.adjusted(cfg, delta)) == other.valid(cfg),
        field.adjusted(cfg, delta).keyboard_mode == cfg.keyboard_mode,
{
}

/// Steps within the limits are undone by as many steps back.
pub proof fn law_steps_back_undo_steps(field: ConfigField, cfg: Config, delta: int)
    requires
        field.valid(cfg),
        field.has_room(cfg, delta),
    ensures
        field.adjusted(field.adjusted(cfg, delta), -delta) == cfg,
{
    let there = field.adjusted(cfg, delta);
    match field {
        ConfigField::SampleRate => {
            let i = choose|i: int|
                {
                    &&& 0 <= i < SAMPLE_RATES@.len()
                    &&& 0 <= i + delta < SAMPLE_RATES@.len()
                    &&& #[trigger] SAMPLE_RATES@[i] == cfg.sample_rate
                };
            lemma_option_place(SAMPLE_RATES@, i);
            lemma_option_place(SAMPLE_RATES@, i + delta);
        },
        ConfigField::BufferSize => {
            let i = choose|i: int|
                {
                    &&& 0 <= i < BUFFER_SIZES@.len()
                    &&& 0 <= i + delta < BUFFER_SIZES@.len()
                    &&& #[trigger] BUFFER_SIZES@[i] == cfg.buffer_size
                };
            lemma_option_place(BUFFER_SIZES@, i);
            lemma_option_place(BUFFER_SIZES@, i + delta);
        },
        _ => {},
    }
}

/// Steps of no length change nothing that is within its limits.
pub proof fn law_no_step(field: ConfigField, cfg: Config)
    requires
        field.valid(cfg),
    ensures
        field.adjusted(cfg, 0) == cfg,
{
    match field {
        ConfigField::SampleRate => {
            let i = choose|i: int|
                0 <= i < SAMPLE_RATES@.len() && SAMPLE_RATES@[i] == cfg.sample_rate;
            lemma_option_place(SAMPLE_RATES@, i);
        },
        ConfigField::BufferSize => {
            let i = choose|i: int|
                0 <= i < BUFFER_SIZES@.len() && BUFFER_SIZES@[i] == cfg.buffer_size;
            lemma_option_place(BUFFER_SIZES@, i);
        },
        _ => {},
    }
}

/// The place that a choice was cycled to is where it is found again.
proof fn lemma_cycled_index(current: Option<String>, devices: Seq<String>, delta: int)
    requires
        devices.len() > 0,
        distinct_names(devices),
    ensures
        device_index(cycled(current, devices, delta), devices) == (device_index(current, devices)
            + delta) % devices.len() as int,
{
    let len = devices.len() as int;
    let at = (device_index(current, devices) + delta) % len;
    let names = crate::text::texts(devices);
    crate::select::law_first_index(names, devices[at]@);
    assert(names[at] == devices[at]@);
}

/// Going through a list of distinct names in two goes is the same as in one.
pub proof fn law_cycles_add_up(current: Option<String>, devices: Seq<String>, a: int, b: int)
    requires
        distinct_names(devices),
    ensures
        cycled(cycled(current, devices, a), devices, b) == cycled(current, devices, a + b),
{
    if devices.len() > 0 {
        let len = devices.len() as int;
        lemma_cycled_index(current, devices, a);
        let at = device_index(current, devices);
        vstd::arithmetic::div_mod::lemma_add_mod_noop(at + a, b, len);
        vstd::arithmetic::div_mod::lemma_add_mod_noop((at + a) % len, b, len);
        vstd::arithmetic::div_mod::lemma_mod_twice(at + a, len);
    }
}

/// A whole number of rounds through the list comes back to the listed choice,
/// and so does every step followed by its opposite.
pub proof fn law_cycle_comes_round(current: Option<String>, devices: Seq<String>, rounds: int)
    requires
        listed(current, devices),
    ensures
        crate::select::opt_text(cycled(current, devices, rounds * devices.len()))
            == crate::select::opt_text(current),
        distinct_names(devices) ==> forall|delta: int|
            crate::select::opt_text(
                #[trigger] cycled(cycled(current, devices, delta), devices, -delta),
            ) == crate::select::opt_text(current),
{
    if devices.len() > 0 {
        let len = devices.len() as int;
        let names = crate::text::texts(devices);
        let name = current->0;
        crate::select::law_first_index(names, name@);
        let at = device_index(current, devices);
        assert(names[at] == devices[at]@);
        vstd::arithmetic::div_mod::lemma_mod_multiples_vanish(rounds, at, len);
        assert(len * rounds == rounds * devices.len()) by (nonlinear_arith)
            requires
                len == devices.len() as int,
        ;
        vstd::arithmetic::div_mod::lemma_small_mod(at as nat, len as nat);
        if distinct_names(devices) {
            assert forall|delta: int|
                crate::select::opt_text(
                    #[trigger] cycled(cycled(current, devices, delta), devices, -delta),
                ) == crate::select::opt_text(current) by {
                law_cycles_add_up(current, devices, delta, -delta);
            }
        }
    }
}

/// A choice that was cycled is one of the list.
pub proof fn law_cycled_is_listed(current: Option<String>, devices: Seq<String>, delta: int)
    requires
        devices.len() > 0,
    ensures
        listed(cycled(current, devices, delta), devices),
{
    let at = (device_index(current, devices) + delta) % devices.len() as int;
    assert(crate::text::texts(devices)[at] == devices[at]@);
}

/// The first name of a list, where there is one, is one of the list.
pub proof fn law_first_name_is_listed(devices: Seq<String>)
    ensures
        listed(first_name(devices), devices),
{
    if devices.len() > 0 {
        assert(crate::text::texts(devices)[0] == devices[0]@);
    }
}

impl App {
    /// What holds of the state throughout a session: the selected field exists
    /// and is the highlighted one, every value is within its limits, and every
    /// chosen device is one that is available.
    pub open spec fn sound(self) -> bool {
        &&& self.wf()
        &&& self.in_sync()
        &&& valid_config(self.config)
        &&& listed(self.config.audio_input_device, self.audio_input_devices@)
        &&& listed(self.config.audio_output_device, self.audio_output_devices@)
        &&& listed(self.config.midi_input_port, self.midi_input_ports@)
    }

    /// The state after a stream of events.
    pub open spec fn after_all(self, evts: Seq<Event>) -> App
        decreases evts.len(),
    {
        if evts.len() == 0 {
            self
        } else {
            self.after_all(evts.drop_last()).after(evts.last())
        }
    }
}

/// A session starts in a sound state.
pub proof fn law_session_starts_sound(app: App)
    requires
        app.wf(),
        app.in_sync(),
        app.config == (Config {
            audio_input_device: first_name(app.audio_input_devices@),
            audio_output_device: first_name(app.audio_output_devices@),
            midi_input_port: first_name(app.midi_input_ports@),
            ..default_config()
        }),
    ensures
        app.sound(),
{
    law_default_config_is_valid();
    law_first_name_is_listed(app.audio_input_devices@);
    law_first_name_is_listed(app.audio_output_devices@);
    law_first_name_is_listed(app.midi_input_ports@);
    assert forall|field: ConfigField| #[trigger] field.valid(app.config) by {
        assert(field.valid(default_config()));
    }
}

/// Every event keeps the state sound.
pub proof fn law_event_keeps_sound(app: App, evt: Event)
    requires
        app.sound(),
    ensures
        app.after(evt).sound(),
{
    let next = app.after(evt);
    law_move_keeps_sound(app, 1);
    law_move_keeps_sound(app, -1);
    assert forall|field: ConfigField| #[trigger] field.valid(next.config) by {
        assert(field.valid(app.config));
        assert(field.valid(app.moved_config(1)));
        assert(field.valid(app.moved_config(-1)));
    }
}

/// A step of any size keeps the values within their limits and the chosen
/// devices among the available ones.
pub proof fn law_move_keeps_sound(app: App, delta: int)
    requires
        app.sound(),
    ensures
        (App { config: app.moved_config(delta), ..app }).sound(),
{
    let next = app.moved_config(delta);
    if app.audio_input_devices@.len() > 0 {
        law_cycled_is_listed(app.config.audio_input_device, app.audio_input_devices@, delta);
    }
    if app.audio_output_devices@.len() > 0 {
        law_cycled_is_listed(app.config.audio_output_device, app.audio_output_devices@, delta);
    }
    if app.midi_input_ports@.len() > 0 {
        law_cycled_is_listed(app.config.midi_input_port, app.midi_input_ports@, delta);
    }
    let moved = app.field();
    assert forall|field: ConfigField| #[trigger] field.valid(next) by {
        assert(field.valid(app.config));
        if field == moved {
            if field != ConfigField::AudioInputDevice && field != ConfigField::AudioOutputDevice
                && field != ConfigField::MidiInputPort {
                law_adjust_limits_the_field(field, app.config, delta);
            }
        } else {
            law_adjust_leaves_the_rest(moved, field, app.config, delta);
        }
    }
}

/// A session keeps the state sound, and it ends exactly if one of its events
/// was a press of a key that quits. It touches neither the status nor the
/// lists of devices.
pub proof fn law_session(app: App, evts: Seq<Event>)
    requires
        app.sound(),
    ensures
        app.after_all(evts).sound(),
        app.after_all(evts).should_quit <==> app.should_quit || exists|i: int|
            0 <= i < evts.len() && is_quit(#[trigger] evts[i]),
        app.after_all(evts).status == app.status,
        app.after_all(evts).audio_input_devices == app.audio_input_devices,
        app.after_all(evts).audio_output_devices == app.audio_output_devices,
        app.after_all(evts).midi_input_ports == app.midi_input_ports,
    decreases evts.len(),
{
    if evts.len() > 0 {
        let before = evts.drop_last();
        law_session(app, before);
        law_event_keeps_sound(app.after_all(before), evts.last());
        law_quit(app.after_all(before), evts.last());
        if exists|i: int| 0 <= i < before.len() && is_quit(#[trigger] before[i]) {
            let i = choose|i: int| 0 <= i < before.len() && is_quit(#[trigger] before[i]);
            assert(is_quit(evts[i]));
        }
        assert(evts[evts.len() - 1] == evts.last());
        assert forall|i: int| 0 <= i < evts.len() && is_quit(#[trigger] evts[i]) implies i
            == evts.len() - 1 || is_quit(before[i]) by {
            if i < evts.len() - 1 {
                assert(before[i] == evts[i]);
            }
        }
    }
}

/// Only a press of a key that quits ends the session, nothing takes that back,
/// and such a press changes nothing else.
pub proof fn law_quit(app: App, evt: Event)
    ensures
        app.after(evt).should_quit <==> app.should_quit || is_quit(evt),
        is_quit(evt) ==> app.after(evt) == (App { should_quit: true, ..app }),
{
}

/// What is not the press of a key has no effect.
pub proof fn law_only_presses_count(app: App, evt: Event)
    requires
        evt matches Event::Key(key) ==> key.kind != KeyEventKind::Press,
    ensures
        app.after(evt) == app,
{
}

/// A key without a meaning has no effect.
pub proof fn law_unmapped_key(app: App, code: KeyCode)
    requires
        code is Char ==> {
            let c = code->0;
            c != 'q' && c != 'k' && c != 'j' && c != 'l' && c != 'h'
        },
        !(code is Char) ==> code is Other,
    ensures
        app.pressed(code) == app,
{
}

/// The letters stand for the arrow keys and for Esc.
pub proof fn law_letters_stand_for_keys(app: App)
    ensures
        app.pressed(KeyCode::Char('k')) == app.pressed(KeyCode::Up),
        app.pressed(KeyCode::Char('j')) == app.pressed(KeyCode::Down),
        app.pressed(KeyCode::Char('h')) == app.pressed(KeyCode::Left),
        app.pressed(KeyCode::Char('l')) == app.pressed(KeyCode::Right),
        app.pressed(KeyCode::Char('q')) == app.pressed(KeyCode::Esc),
{
}

/// Tab changes the mode, and a second Tab changes it back.
pub proof fn law_tab_toggles_the_mode(app: App)
    ensures
        app.pressed(KeyCode::Tab).config.keyboard_mode == !app.config.keyboard_mode,
        app.pressed(KeyCode::Tab).pressed(KeyCode::Tab) == app,
{
}

/// Up undoes Down except at the last field, and Down undoes Up except at the
/// first; there they do nothing.
pub proof fn law_up_and_down(app: App)
    requires
        app.wf(),
        app.in_sync(),
    ensures
        app.selected_field < CONFIG_FIELDS@.len() - 1 ==> app.pressed(KeyCode::Down).pressed(
            KeyCode::Up,
        ) == app,
        app.selected_field == CONFIG_FIELDS@.len() - 1 ==> app.pressed(KeyCode::Down) == app,
        app.selected_field > 0 ==> app.pressed(KeyCode::Up).pressed(KeyCode::Down) == app,
        app.selected_field == 0 ==> app.pressed(KeyCode::Up) == app,
{
}

/// Left undoes Right on a field with limits, except at its upper limit, and
/// Right undoes Left except at its lower limit.
pub proof fn law_left_and_right(app: App)
    requires
        app.sound(),
        app.field() != ConfigField::AudioInputDevice,
        app.field() != ConfigField::AudioOutputDevice,
        app.field() != ConfigField::MidiInputPort,
    ensures
        app.field().has_room(app.config, 1) ==> app.pressed(KeyCode::Right).pressed(KeyCode::Left)
            == app,
        app.field().has_room(app.config, -1) ==> app.pressed(KeyCode::Left).pressed(KeyCode::Right)
            == app,
{
    assert(app.field().valid(app.config));
    if app.field().has_room(app.config, 1) {
        law_steps_back_undo_steps(app.field(), app.config, 1);
    }
    if app.field().has_room(app.config, -1) {
        law_steps_back_undo_steps(app.field(), app.config, -1);
    }
}

/// The order of the fields on the screen.
pub proof fn law_field_order()
    ensures
        CONFIG_FIELDS@ == seq![
            ConfigField::AudioInputDevice,
            ConfigField::AudioOutputDevice,
            ConfigField::MidiInputPort,
            ConfigField::SampleRate,
            ConfigField::BufferSize,
            ConfigField::MidiChannel,
            ConfigField::FormantShift,
            ConfigField::PitchShift,
            ConfigField::Gain,
        ],
{
}

/// The new value of a number that moves by steps: the old one plus the steps
/// where that lies within the limits, else the limit that it passes.
pub open spec fn moved(old: int, step: int, delta: int, low: int, high: int, new: int) -> bool {
    &&& low <= old + delta * step <= high ==> new == old + delta * step
    &&& old + delta * step < low ==> new == low
    &&& old + delta * step > high ==> new == high
}

/// A number field moves by its step for each unit of `delta`, up to its limits:
/// the MIDI channel by 1 from 1 to 16, the formant shift by 0.05 from 0.25 to 4,
/// the pitch shift by half a semitone within two octaves, the gain by 5% from 0
/// to 1000%. Nothing else changes.
pub proof fn law_numbers_move_by_steps(cfg: Config, delta: int)
    ensures
        ({
            let new = ConfigField::MidiChannel.adjusted(cfg, delta);
            &&& moved(cfg.midi_channel as int, 1, delta, 1, 16, new.midi_channel as int)
            &&& new == (Config { midi_channel: new.midi_channel, ..cfg })
        }),
        ({
            let new = ConfigField::FormantShift.adjusted(cfg, delta);
            &&& moved(cfg.formant_shift as int, 5, delta, 25, 400, new.formant_shift as int)
            &&& new == (Config { formant_shift: new.formant_shift, ..cfg })
        }),
        ({
            let new = ConfigField::PitchShift.adjusted(cfg, delta);
            &&& moved(cfg.pitch_shift as int, 5, delta, -240, 240, new.pitch_shift as int)
            &&& new == (Config { pitch_shift: new.pitch_shift, ..cfg })
        }),
        ({
            let new = ConfigField::Gain.adjusted(cfg, delta);
            &&& moved(cfg.gain as int, 5, delta, 0, 1000, new.gain as int)
            &&& new == (Config { gain: new.gain, ..cfg })
        }),
{
}

/// The value `to` stands `delta` places from `from` in the list, or at the end
/// of the list that lies that way.
pub open spec fn places_apart(list: Seq<u32>, from: int, delta: int, to: u32) -> bool {
    &&& 0 <= from + delta < list.len() ==> to == list[from + delta]
    &&& from + delta < 0 ==> to == list[0]
    &&& from + delta >= list.len() ==> to == list[list.len() - 1]
}

/// Where a step through a list of distinct options ends.
proof fn lemma_stepped(options: Seq<u32>, current: u32, start: int, delta: int)
    requires
        0 <= start < options.len(),
        forall|j: int, k: int| 0 <= j < k < options.len() ==> options[j] != options[k],
    ensures
        forall|i: int|
            0 <= i < options.len() && #[trigger] options[i] == current ==> places_apart(
                options,
                i,
                delta,
                stepped(options, current, start, delta),
            ),
        !options.contains(current) ==> places_apart(
            options,
            start,
            delta,
            stepped(options, current, start, delta),
        ),
{
    crate::select::law_first_index(options, current);
}

/// The sample rate moves through its four values and the buffer size through its
/// five, a place for each unit of `delta`, and stops at the ends. A value that is
/// not among them counts as the default. Nothing else changes.
pub proof fn law_options_move_by_places(cfg: Config, delta: int)
    ensures
        ({
            let list = seq![22_050u32, 44_100u32, 48_000u32, 96_000u32];
            let new = ConfigField::SampleRate.adjusted(cfg, delta);
            &&& forall|i: int|
                0 <= i < 4 && #[trigger] list[i] == cfg.sample_rate ==> places_apart(
                    list,
                    i,
                    delta,
                    new.sample_rate,
                )
            &&& !list.contains(cfg.sample_rate) ==> places_apart(list, 1, delta, new.sample_rate)
            &&& new == (Config { sample_rate: new.sample_rate, ..cfg })
        }),
        ({
            let list = seq![128u32, 256u32, 512u32, 1024u32, 2048u32];
            let new = ConfigField::BufferSize.adjusted(cfg, delta);
            &&& forall|i: int|
                0 <= i < 5 && #[trigger] list[i] == cfg.buffer_size ==> places_apart(
                    list,
                    i,
                    delta,
                    new.buffer_size,
                )
            &&& !list.contains(cfg.buffer_size) ==> places_apart(list, 2, delta, new.buffer_size)
            &&& new == (Config { buffer_size: new.buffer_size, ..cfg })
        }),
{
    let rates = seq![22_050u32, 44_100u32, 48_000u32, 96_000u32];
    let sizes = seq![128u32, 256u32, 512u32, 1024u32, 2048u32];
    assert(SAMPLE_RATES@ =~= rates);
    assert(BUFFER_SIZES@ =~= sizes);
    lemma_stepped(rates, cfg.sample_rate, 1, delta);
    lemma_stepped(sizes, cfg.buffer_size, 2, delta);
}

/// The device fields have no steps of their own.
pub proof fn law_devices_have_no_steps(cfg: Config, delta: int)
    ensures
        ConfigField::AudioInputDevice.adjusted(cfg, delta) == cfg,
        ConfigField::AudioOutputDevice.adjusted(cfg, delta) == cfg,
        ConfigField::MidiInputPort.adjusted(cfg, delta) == cfg,
{
}

/// The values that a session starts with.
pub proof fn law_default_values()
    ensures
        default_config().audio_input_device is None,
        default_config().audio_output_device is None,
        default_config().midi_input_port is None,
        default_config().sample_rate == 44_100,
        default_config().buffer_size == 512,
        default_config().midi_channel == 1,
        default_config().formant_shift == 100,
        default_config().pitch_shift == 0,
        default_config().gain == 300,
        !default_config().keyboard_mode,
{
}

/// A device field shows the chosen name, and a stand-in only where none is
/// chosen.
pub proof fn law_device_display(cfg: Config)
    ensures
        cfg.audio_input_device matches Some(s) ==> ConfigField::AudioInputDevice.value_text(cfg)
            == s@,
        cfg.audio_input_device is None ==> ConfigField::AudioInputDevice.value_text(cfg)
            == "(default)"@,
        cfg.audio_output_device matches Some(s) ==> ConfigField::AudioOutputDevice.value_text(cfg)
            == s@,
        cfg.audio_output_device is None ==> ConfigField::AudioOutputDevice.value_text(cfg)
            == "(default)"@,
        cfg.midi_input_port matches Some(s) ==> ConfigField::MidiInputPort.value_text(cfg) == s@,
        cfg.midi_input_port is None ==> ConfigField::MidiInputPort.value_text(cfg)
            == "(first available)"@,
{
}

/// The text is a number, with a text before it and one behind it.
pub open spec fn shows(text: Seq<char>, before: Seq<char>, n: int, behind: Seq<char>) -> bool {
    exists|number: Seq<char>| #[trigger]
        crate::text::writes(number, n) && text == before + number + behind
}

/// The text is `n` with `places` digits behind a decimal point, with a text
/// before it and one behind it.
pub open spec fn shows_point(
    text: Seq<char>,
    before: Seq<char>,
    n: int,
    places: nat,
    unit: int,
    behind: Seq<char>,
) -> bool {
    exists|whole: Seq<char>, part: Seq<char>|
        {
            &&& #[trigger] crate::text::writes(whole, n / unit)
            &&& part.len() == places
            &&& forall|i: int| 0 <= i < part.len() ==> crate::text::is_digit(#[trigger] part[i])
            &&& #[trigger] crate::text::read(part) == n % unit
            &&& text == before + whole + "."@ + part + behind
        }
}

/// The number fields show their number: rate, size and channel as they are, the
/// formant shift with two digits behind the point, the pitch shift with one and
/// always with a sign, the gain in percent. A minus stands before a negative
/// number.
pub proof fn law_number_display(cfg: Config)
    ensures
        shows(ConfigField::SampleRate.value_text(cfg), ""@, cfg.sample_rate as int, " Hz"@),
        shows(ConfigField::BufferSize.value_text(cfg), ""@, cfg.buffer_size as int, " samples"@),
        shows(ConfigField::MidiChannel.value_text(cfg), "Channel "@, cfg.midi_channel as int, ""@),
        cfg.gain >= 0 ==> shows(ConfigField::Gain.value_text(cfg), ""@, cfg.gain as int, "%"@),
        cfg.gain < 0 ==> shows(ConfigField::Gain.value_text(cfg), "-"@, -cfg.gain, "%"@),
        cfg.formant_shift >= 0 ==> shows_point(
            ConfigField::FormantShift.value_text(cfg),
            ""@,
            cfg.formant_shift as int,
            2,
            100,
            "x"@,
        ),
        cfg.formant_shift < 0 ==> shows_point(
            ConfigField::FormantShift.value_text(cfg),
            "-"@,
            -cfg.formant_shift,
            2,
            100,
            "x"@,
        ),
        cfg.pitch_shift >= 0 ==> shows_point(
            ConfigField::PitchShift.value_text(cfg),
            "+"@,
            cfg.pitch_shift as int,
            1,
            10,
            " semitones"@,
        ),
        cfg.pitch_shift < 0 ==> shows_point(
            ConfigField::PitchShift.value_text(cfg),
            "-"@,
            -cfg.pitch_shift,
            1,
            10,
            " semitones"@,
        ),
{
    reveal_strlit("");
    let none = ""@;
    assert(none =~= Seq::<char>::empty());
    let rate = crate::text::decimal(cfg.sample_rate as nat);
    crate::text::law_decimal(cfg.sample_rate as nat);
    assert(ConfigField::SampleRate.value_text(cfg) =~= none + rate + " Hz"@);
    let size = crate::text::decimal(cfg.buffer_size as nat);
    crate::text::law_decimal(cfg.buffer_size as nat);
    assert(ConfigField::BufferSize.value_text(cfg) =~= none + size + " samples"@);
    let channel = crate::text::decimal(cfg.midi_channel as nat);
    crate::text::law_decimal(cfg.midi_channel as nat);
    assert(ConfigField::MidiChannel.value_text(cfg) =~= "Channel "@ + channel + none);
    crate::text::law_decimal(crate::num::magnitude(cfg.gain as int));
    let formant = crate::num::magnitude(cfg.formant_shift as int);
    let f_whole = crate::text::decimal(formant / 100);
    let f_part = crate::text::decimal(formant / 10 % 10) + crate::text::decimal(formant % 10);
    crate::text::law_decimal(formant / 100);
    lemma_two_digits(formant);
    assert(ConfigField::FormantShift.value_text(cfg) =~= minus(cfg.formant_shift as int) + f_whole
        + "."@ + f_part + "x"@);
    assert(crate::text::read(f_part) == formant % 100);
    let pitch = crate::num::magnitude(cfg.pitch_shift as int);
    let p_whole = crate::text::decimal(pitch / 10);
    let p_part = crate::text::decimal(pitch % 10);
    crate::text::law_decimal(pitch / 10);
    crate::text::law_decimal(pitch % 10);
    assert(ConfigField::PitchShift.value_text(cfg) =~= plus_minus(cfg.pitch_shift as int) + p_whole
        + "."@ + p_part + " semitones"@);
    assert(crate::text::read(p_part) == pitch % 10);
}

/// The last two digits of a number read as its remainder.
proof fn lemma_two_digits(n: nat)
    ensures
        ({
            let part = crate::text::decimal(n / 10 % 10) + crate::text::decimal(n % 10);
            &&& part.len() == 2
            &&& crate::text::read(part) == n % 100
            &&& forall|i: int| 0 <= i < 2 ==> crate::text::is_digit(#[trigger] part[i])
        }),
{
    let a = crate::text::decimal(n / 10 % 10);
    let b = crate::text::decimal(n % 10);
    crate::text::law_decimal(n / 10 % 10);
    crate::text::law_decimal(n % 10);
    let part = a + b;
    assert(part.drop_last() =~= a);
    assert(b.drop_last() =~= Seq::empty());
    assert(crate::text::read(b.drop_last()) == 0);
    assert(part.last() == b.last());
    assert(part[0] == a[0]);
    assert(part[1] == b[0]);
    assert(n % 100 == 10 * (n / 10 % 10) + n % 10);
}

/// Cycling goes from where the chosen name first stands, or from the first name
/// where it does not stand in the list, to the name `delta` places on, round the
/// ends; the name stays as it is where there is no list.
pub proof fn law_cycle_places(current: Option<String>, devices: Seq<String>, delta: int)
    ensures
        devices.len() == 0 ==> cycled(current, devices, delta) == current,
        forall|i: int|
            0 <= i < devices.len() && current is Some && (#[trigger] devices[i])@ == current->0@ && (
            forall|j: int| 0 <= j < i ==> (#[trigger] devices[j])@ != current->0@) ==> cycled(
                current,
                devices,
                delta,
            ) == Some(devices[(i + delta) % devices.len() as int]),
        devices.len() > 0 && (current is Some ==> forall|j: int|
            0 <= j < devices.len() ==> (#[trigger] devices[j])@ != current->0@) ==> cycled(
            current,
            devices,
            delta,
        ) == Some(devices[delta % devices.len() as int]),
{
    if let Some(name) = current {
        let names = crate::text::texts(devices);
        crate::select::law_first_index(names, name@);
        assert forall|j: int| 0 <= j < devices.len() implies names[j] == (
        #[trigger] devices[j])@ by {}
        assert forall|i: int|
            0 <= i < devices.len() && (#[trigger] devices[i])@ == name@ && (forall|j: int|
                0 <= j < i ==> (#[trigger] devices[j])@ != name@) implies cycled(
            current,
            devices,
            delta,
        ) == Some(devices[(i + delta) % devices.len() as int]) by {
            assert(names[i] == name@);
            let first = crate::select::first_index(names, name@)->0;
            assert(devices[first]@ == name@);
        }
        if names.contains(name@) {
            let j = choose|j: int| 0 <= j < names.len() && names[j] == name@;
            assert(devices[j]@ == name@);
        }
    }
}

/// The first name of a list is preselected, and none where there is none.
pub proof fn law_preselection(names: Seq<String>)
    ensures
        names.len() > 0 ==> first_name(names) == Some(names[0]),
        names.len() == 0 ==> first_name(names) is None,
{
}

/// The press of a key is what counts, and only the key decides.
pub proof fn law_press(app: App, code: KeyCode)
    ensures
        app.after(Event::Key(KeyEvent { code, kind: KeyEventKind::Press })) == app.pressed(code),
{
}

/// Up and Down select the field above and below, with its entry highlighted, and
/// change nothing else; at the ends they do nothing.
pub proof fn law_selection_moves(app: App)
    requires
        app.wf(),
    ensures
        app.selected_field > 0 ==> app.pressed(KeyCode::Up) == (App {
            selected_field: (app.selected_field - 1) as usize,
            list_state: Some((app.selected_field - 1) as usize),
            ..app
        }),
        app.selected_field == 0 ==> app.pressed(KeyCode::Up) == app,
        app.selected_field < 8 ==> app.pressed(KeyCode::Down) == (App {
            selected_field: (app.selected_field + 1) as usize,
            list_state: Some((app.selected_field + 1) as usize),
            ..app
        }),
        app.selected_field == 8 ==> app.pressed(KeyCode::Down) == app,
{
}

/// Tab changes the mode and nothing else.
pub proof fn law_tab_changes_the_mode_alone(app: App)
    ensures
        app.pressed(KeyCode::Tab).config.keyboard_mode != app.config.keyboard_mode,
        app.pressed(KeyCode::Tab) == (App {
            config: Config {
                keyboard_mode: app.pressed(KeyCode::Tab).config.keyboard_mode,
                ..app.config
            },
            ..app
        }),
{
}

/// What a step of the selected field does: each device field goes through its
/// own list, each other field moves by its own steps, and nothing else changes.
pub open spec fn field_moves(app: App, next: App, delta: int) -> bool {
    let old = app.config;
    let new = next.config;
    &&& next == (App { config: new, ..app })
    &&& app.selected_field == 0 ==> new == (Config {
        audio_input_device: cycled(old.audio_input_device, app.audio_input_devices@, delta),
        ..old
    })
    &&& app.selected_field == 1 ==> new == (Config {
        audio_output_device: cycled(old.audio_output_device, app.audio_output_devices@, delta),
        ..old
    })
    &&& app.selected_field == 2 ==> new == (Config {
        midi_input_port: cycled(old.midi_input_port, app.midi_input_ports@, delta),
        ..old
    })
    &&& app.selected_field == 3 ==> new == ConfigField::SampleRate.adjusted(old, delta)
    &&& app.selected_field == 4 ==> new == ConfigField::BufferSize.adjusted(old, delta)
    &&& app.selected_field == 5 ==> moved(
        old.midi_channel as int,
        1,
        delta,
        1,
        16,
        new.midi_channel as int,
    ) && new == (Config { midi_channel: new.midi_channel, ..old })
    &&& app.selected_field == 6 ==> moved(
        old.formant_shift as int,
        5,
        delta,
        25,
        400,
        new.formant_shift as int,
    ) && new == (Config { formant_shift: new.formant_shift, ..old })
    &&& app.selected_field == 7 ==> moved(
        old.pitch_shift as int,
        5,
        delta,
        -240,
        240,
        new.pitch_shift as int,
    ) && new == (Config { pitch_shift: new.pitch_shift, ..old })
    &&& app.selected_field == 8 ==> moved(old.gain as int, 5, delta, 0, 1000, new.gain as int)
        && new == (Config { gain: new.gain, ..old })
}

/// Right moves the selected field one step up and Left one step down.
pub proof fn law_arrows_move_the_field(app: App)
    requires
        app.wf(),
    ensures
        field_moves(app, app.pressed(KeyCode::Right), 1),
        field_moves(app, app.pressed(KeyCode::Left), -1),
{
    law_field_order();
    law_numbers_move_by_steps(app.config, 1);
    law_numbers_move_by_steps(app.config, -1);
}

} // verus!
