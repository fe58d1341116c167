# vocoder

The core of a terminal channel vocoder, written and proved in Verus: everything
that decides, parses or lays out, without the hardware around it.

- `src/midi.rs` decodes MIDI messages, with and without running status, and
  chooses an input port.
- `src/audio.rs` filters device lists, chooses stream settings, takes sample
  blocks apart and hands them from the input to the output side.
- `src/tui.rs` holds the configuration with its limits and steps, and what each
  key does to the session.
- `src/screen.rs` says what the terminal shows. It divides the screen with
  `ratatui`'s layout solver; that call is the only trusted one.
- `src/dsp.rs`, `src/num.rs`, `src/select.rs` and `src/text.rs` are small helpers.

Each module ends with the laws that hold across its functions.

Numbers that a user sees with decimals are held as whole steps: the formant
shift in hundredths, the pitch shift in tenths of a semitone, the gain in
percent, levels and load in millionths.

`app/` is the program around the library: audio streams (`cpal`), MIDI ports
(`midir`), the terminal (`crossterm`, `ratatui`) and the filters, which compute
with floating-point numbers. On Linux it needs the ALSA development headers.
`midir` is not among the dependencies of the library; a build of the program
adds it.
