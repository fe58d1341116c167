//! Signals, levels, notes and sample formats, without any hardware.
use std::sync::atomic::{AtomicU32, AtomicU8, Ordering};
use std::sync::mpsc;
use std::sync::Arc;
use vocoder::dsp::block_len;
use vocoder::midi::{parse_midi_message, MidiEvent};

const SAMPLE_RATE: f64 = 44100.0;

/// Generate a sine wave of given frequency and sample rate.
fn generate_sine(freq: f64, sample_rate: f64, num_samples: usize) -> Vec<f64> {
    (0..num_samples)
        .map(|i| (2.0 * std::f64::consts::PI * freq * i as f64 / sample_rate).sin())
        .collect()
}

/// The carrier oscillator, offline.
fn generate_carrier(note: u8, sample_rate: f64, num_samples: usize) -> Vec<f64> {
    if note >= 128 {
        return vec![0.0; num_samples];
    }
    let freq = 440.0 * 2.0_f64.powf((note as f64 - 69.0) / 12.0);
    let mut phase: f64 = 0.0;
    (0..num_samples)
        .map(|_| {
            let s = phase.sin();
            phase += 2.0 * std::f64::consts::PI * freq / sample_rate;
            if phase >= 2.0 * std::f64::consts::PI {
                phase -= 2.0 * std::f64::consts::PI;
            }
            s
        })
        .collect()
}

/// Measure the fundamental frequency of a signal using zero-crossing rate.
fn measure_frequency(samples: &[f64], sample_rate: f64) -> f64 {
    let mut crossings = 0usize;
    for i in 1..samples.len() {
        if (samples[i - 1] >= 0.0 && samples[i] < 0.0)
            || (samples[i - 1] < 0.0 && samples[i] >= 0.0)
        {
            crossings += 1;
        }
    }
    // Each full cycle has 2 zero crossings
    (crossings as f64 / 2.0) * sample_rate / samples.len() as f64
}

#[test]
fn carrier_pitch_matches_midi_note_69() {
    // A4 = 440 Hz
    let carrier = generate_carrier(69, SAMPLE_RATE, 44100);
    let measured = measure_frequency(&carrier, SAMPLE_RATE);
    assert!(
        (measured - 440.0).abs() < 2.0,
        "measured freq {} should be within ±2 Hz of 440 Hz",
        measured
    );
}

#[test]
fn carrier_pitch_matches_midi_note_60() {
    // C4 ≈ 261.63 Hz
    let carrier = generate_carrier(60, SAMPLE_RATE, 44100);
    let measured = measure_frequency(&carrier, SAMPLE_RATE);
    assert!(
        (measured - 261.63).abs() < 2.0,
        "measured freq {} should be within ±2 Hz of 261.63 Hz",
        measured
    );
}

#[test]
fn carrier_silent_when_no_note() {
    // note 255 = sentinel for "no note"
    let carrier = generate_carrier(255, SAMPLE_RATE, 1024);
    for (i, &s) in carrier.iter().enumerate() {
        assert!(
            s == 0.0,
            "carrier[{}] = {} should be 0.0 for no-note sentinel",
            i,
            s
        );
    }
}

#[test]
fn carrier_pitch_at_nonstandard_sample_rate() {
    // The carrier pitch should be correct at 48 kHz sample rate too.
    let sample_rate = 48000.0;
    let carrier = generate_carrier(69, sample_rate, 48000);
    let measured = measure_frequency(&carrier, sample_rate);
    assert!(
        (measured - 440.0).abs() < 2.0,
        "measured freq {} should be within ±2 Hz of 440 Hz at 48 kHz",
        measured
    );
}

#[test]
fn input_level_tracks_peak() {
    let input_level = Arc::new(AtomicU32::new(0.0f32.to_bits()));
    let modulator = generate_sine(440.0, SAMPLE_RATE, 512);

    let mut max_in = 0.0f32;
    for &s in &modulator {
        max_in = max_in.max(s.abs() as f32);
    }
    input_level.store(max_in.to_bits(), Ordering::Relaxed);

    let stored = f32::from_bits(input_level.load(Ordering::Relaxed));
    assert!(
        (stored - max_in).abs() < 1e-6,
        "stored level {} should match peak {}",
        stored,
        max_in
    );
}

/// Follows the sounding note. `configured_channel` is 0-indexed.
fn handle_midi_event(event: &MidiEvent, active_note: &AtomicU8, configured_channel: u8) {
    match event {
        MidiEvent::NoteOn {
            channel,
            note,
            velocity: _,
        } if *channel == configured_channel => {
            active_note.store(*note, Ordering::Relaxed);
        }
        MidiEvent::NoteOff {
            channel,
            note,
            velocity: _,
        } if *channel == configured_channel => {
            if active_note.load(Ordering::Relaxed) == *note {
                active_note.store(255, Ordering::Relaxed);
            }
        }
        _ => {}
    }
}

#[test]
fn note_on_sets_active_note() {
    let (tx, rx) = mpsc::channel::<MidiEvent>();
    let active_note = Arc::new(AtomicU8::new(255));

    tx.send(MidiEvent::NoteOn {
        channel: 0,
        note: 60,
        velocity: 100,
    })
    .unwrap();

    let event = rx.recv().unwrap();
    handle_midi_event(&event, &active_note, 0);

    assert_eq!(
        active_note.load(Ordering::Relaxed),
        60,
        "NoteOn should set active_note to 60"
    );
}

#[test]
fn note_off_clears_active_note() {
    let (tx, rx) = mpsc::channel::<MidiEvent>();
    let active_note = Arc::new(AtomicU8::new(60));

    tx.send(MidiEvent::NoteOff {
        channel: 0,
        note: 60,
        velocity: 0,
    })
    .unwrap();

    let event = rx.recv().unwrap();
    handle_midi_event(&event, &active_note, 0);

    assert_eq!(
        active_note.load(Ordering::Relaxed),
        255,
        "NoteOff should clear active_note to 255"
    );
}

#[test]
fn note_off_different_note_does_not_clear() {
    let (tx, rx) = mpsc::channel::<MidiEvent>();
    let active_note = Arc::new(AtomicU8::new(60));

    tx.send(MidiEvent::NoteOff {
        channel: 0,
        note: 64,
        velocity: 0,
    })
    .unwrap();

    let event = rx.recv().unwrap();
    handle_midi_event(&event, &active_note, 0);

    assert_eq!(
        active_note.load(Ordering::Relaxed),
        60,
        "NoteOff for different note should not clear active_note"
    );
}

#[test]
fn note_on_velocity_zero_is_note_off() {
    // Parse [0x90, 60, 0] — velocity 0 Note On should produce NoteOff
    let event = parse_midi_message(&[0x90, 60, 0]);
    assert_eq!(
        event,
        MidiEvent::NoteOff {
            channel: 0,
            note: 60,
            velocity: 0
        },
        "NoteOn with velocity 0 should parse as NoteOff"
    );

    let active_note = Arc::new(AtomicU8::new(60));
    handle_midi_event(&event, &active_note, 0);
    assert_eq!(
        active_note.load(Ordering::Relaxed),
        255,
        "velocity-zero NoteOn should clear active_note"
    );
}

#[test]
fn note_on_overwrites_previous() {
    let active_note = Arc::new(AtomicU8::new(255));

    // NoteOn(60)
    handle_midi_event(
        &MidiEvent::NoteOn {
            channel: 0,
            note: 60,
            velocity: 100,
        },
        &active_note,
        0,
    );
    assert_eq!(active_note.load(Ordering::Relaxed), 60);

    // NoteOn(64) — should overwrite
    handle_midi_event(
        &MidiEvent::NoteOn {
            channel: 0,
            note: 64,
            velocity: 100,
        },
        &active_note,
        0,
    );
    assert_eq!(
        active_note.load(Ordering::Relaxed),
        64,
        "NoteOn should overwrite previous active_note (last-note priority)"
    );
}

#[test]
fn lost_note_scenario() {
    // The monophonic "lost note" behaviour:
    // NoteOn(60), NoteOn(64), NoteOff(60) → active_note stays 64
    // because NoteOff(60) doesn't match the active note (64).
    let active_note = Arc::new(AtomicU8::new(255));

    handle_midi_event(
        &MidiEvent::NoteOn {
            channel: 0,
            note: 60,
            velocity: 100,
        },
        &active_note,
        0,
    );
    assert_eq!(active_note.load(Ordering::Relaxed), 60);

    handle_midi_event(
        &MidiEvent::NoteOn {
            channel: 0,
            note: 64,
            velocity: 100,
        },
        &active_note,
        0,
    );
    assert_eq!(active_note.load(Ordering::Relaxed), 64);

    // NoteOff(60) — doesn't match active note (64), so ignored
    handle_midi_event(
        &MidiEvent::NoteOff {
            channel: 0,
            note: 60,
            velocity: 0,
        },
        &active_note,
        0,
    );
    assert_eq!(
        active_note.load(Ordering::Relaxed),
        64,
        "NoteOff for non-active note should be ignored"
    );

    // NoteOff(64) — matches, clears
    handle_midi_event(
        &MidiEvent::NoteOff {
            channel: 0,
            note: 64,
            velocity: 0,
        },
        &active_note,
        0,
    );
    assert_eq!(
        active_note.load(Ordering::Relaxed),
        255,
        "NoteOff for active note should clear"
    );
}

#[test]
fn stuck_note_after_disconnect() {
    // Simulate MIDI disconnect by dropping the sender.
    // The active note remains stuck.
    let (tx, rx) = mpsc::channel::<MidiEvent>();
    let active_note = Arc::new(AtomicU8::new(60));

    // Drop sender — simulates disconnect
    drop(tx);

    // Receiver will get Disconnected error, but active_note stays
    assert!(rx.try_recv().is_err());
    assert_eq!(
        active_note.load(Ordering::Relaxed),
        60,
        "active_note should remain 60 after MIDI disconnect (stuck-note risk)"
    );
}

#[test]
fn control_change_does_not_affect_note() {
    let active_note = Arc::new(AtomicU8::new(60));
    let event = MidiEvent::ControlChange {
        channel: 0,
        controller: 7,
        value: 120,
    };
    handle_midi_event(&event, &active_note, 0);
    assert_eq!(
        active_note.load(Ordering::Relaxed),
        60,
        "ControlChange should not affect active_note"
    );
}

#[test]
fn pitch_bend_does_not_affect_note() {
    let active_note = Arc::new(AtomicU8::new(60));
    let event = MidiEvent::PitchBend {
        channel: 0,
        value: 1000,
    };
    handle_midi_event(&event, &active_note, 0);
    assert_eq!(
        active_note.load(Ordering::Relaxed),
        60,
        "PitchBend should not affect active_note"
    );
}

#[test]
fn f32_identity() {
    // f32 input/output is the identity path.
    let samples: Vec<f64> = vec![0.0, 0.5, -0.5, 1.0, -1.0, 0.12345];
    let as_f32: Vec<f32> = samples.iter().map(|&s| s as f32).collect();
    let back: Vec<f64> = as_f32.iter().map(|&s| s as f64).collect();

    for (i, (&orig, &round)) in samples.iter().zip(back.iter()).enumerate() {
        let diff = (orig - round).abs();
        assert!(
            diff < 1e-6,
            "f32 round-trip error at {}: {} vs {} (diff={})",
            i,
            orig,
            round,
            diff
        );
    }
}

#[test]
fn i16_conversion_round_trip() {
    // The conversion:
    //   i16 → f32:  s as f32 / 32768.0
    //   f32 → i16:  (s * 32768.0).clamp(i16::MIN as f32, i16::MAX as f32) as i16
    let original_i16: Vec<i16> = vec![0, 1, -1, 1000, -1000, 32767, -32768, 16384];

    // i16 → f32
    let as_f32: Vec<f32> = original_i16.iter().map(|&s| s as f32 / 32768.0).collect();

    // f32 → i16
    let back_to_i16: Vec<i16> = as_f32
        .iter()
        .map(|&s| (s * 32768.0).clamp(i16::MIN as f32, i16::MAX as f32) as i16)
        .collect();

    // Round-trip should be within ±1 LSB
    for (i, (&orig, &round)) in original_i16.iter().zip(back_to_i16.iter()).enumerate() {
        let diff = (orig as i32 - round as i32).abs();
        assert!(
            diff <= 1,
            "i16 round-trip error at {}: {} → {} (diff={})",
            i,
            orig,
            round,
            diff
        );
    }
}

#[test]
fn u16_conversion_round_trip() {
    // The conversion:
    //   u16 → f32:  (s as f32 - 32768.0) / 32768.0
    //   f32 → u16:  (s * 32768.0 + 32768.0).clamp(0.0, 65535.0) as u16
    let original_u16: Vec<u16> = vec![0, 32768, 65535, 10000, 50000, 32769, 32767];

    // u16 → f32
    let as_f32: Vec<f32> = original_u16
        .iter()
        .map(|&s| (s as f32 - 32768.0) / 32768.0)
        .collect();

    // f32 → u16
    let back_to_u16: Vec<u16> = as_f32
        .iter()
        .map(|&s| (s * 32768.0 + 32768.0).clamp(0.0, 65535.0) as u16)
        .collect();

    // Round-trip should be within ±1 LSB
    for (i, (&orig, &round)) in original_u16.iter().zip(back_to_u16.iter()).enumerate() {
        let diff = (orig as i32 - round as i32).abs();
        assert!(
            diff <= 1,
            "u16 round-trip error at {}: {} → {} (diff={})",
            i,
            orig,
            round,
            diff
        );
    }
}

#[test]
fn i16_full_scale() {
    // i16::MIN should map to ≈ -1.0 and i16::MAX to ≈ +1.0
    let min_f32 = i16::MIN as f32 / 32768.0;
    let max_f32 = i16::MAX as f32 / 32768.0;

    assert!(
        (min_f32 - (-1.0)).abs() < 1.0 / 32768.0,
        "i16::MIN should map near -1.0, got {}",
        min_f32
    );
    assert!(
        (max_f32 - 1.0).abs() < 2.0 / 32768.0,
        "i16::MAX should map near +1.0, got {}",
        max_f32
    );
    // Asymmetry: i16::MIN = -32768 maps to exactly -1.0, i16::MAX = 32767 maps to ~0.999969
    assert!(
        min_f32 == -1.0,
        "i16::MIN should map to exactly -1.0, got {}",
        min_f32
    );
}

#[test]
fn u16_midpoint_is_zero() {
    // u16 value 32768 should map to ≈ 0.0
    let midpoint_f32 = (32768_u16 as f32 - 32768.0) / 32768.0;
    assert!(
        midpoint_f32 == 0.0,
        "u16 midpoint (32768) should map to exactly 0.0, got {}",
        midpoint_f32
    );
}

/// A block is as long as the shortest of its buffers.
#[test]
fn block_len_is_the_shortest() {
    assert_eq!(block_len(1024, 512, 256), 256);
    assert_eq!(block_len(3, 512, 256), 3);
    assert_eq!(block_len(9, 8, 256), 8);
    assert_eq!(block_len(0, 8, 256), 0);
    assert_eq!(block_len(5, 5, 5), 5);
}
