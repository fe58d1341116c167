//! Device lists, stream settings, sample blocks and their hand-over.
use vocoder::audio::{
    convert_into, dedup_devices, deinterleave, deinterleave_into, filter_devices, find_device,
    is_relevant_device_name, list_devices, low_latency_settings, preferred_range, stream_settings,
    AudioIoConfig, ConfigRange, DeviceError, DeviceInfo, SampleFormat, SharedBuffer, Side,
};

// deinterleave tests.

#[test]
fn deinterleave_stereo() {
    let interleaved = vec![1.0, 2.0, 3.0, 4.0, 5.0, 6.0];
    let block = deinterleave(&interleaved, 2);
    assert_eq!(block.len(), 2);
    assert_eq!(block[0], vec![1.0, 3.0, 5.0]);
    assert_eq!(block[1], vec![2.0, 4.0, 6.0]);
}

#[test]
fn deinterleave_mono() {
    let interleaved = vec![10.0, 20.0, 30.0];
    let block = deinterleave(&interleaved, 1);
    assert_eq!(block.len(), 1);
    assert_eq!(block[0], vec![10.0, 20.0, 30.0]);
}

/// Empty input with 2 channels returns 2 empty Vecs.
#[test]
fn deinterleave_empty_input() {
    let block = deinterleave::<f32>(&[], 2);
    assert_eq!(block.len(), 2);
    assert!(block[0].is_empty());
    assert!(block[1].is_empty());
}

/// Single frame stereo.
#[test]
fn deinterleave_single_frame_stereo() {
    let block = deinterleave(&[1.0, 2.0], 2);
    assert_eq!(block, vec![vec![1.0], vec![2.0]]);
}

/// Three channels deinterleaving.
#[test]
fn deinterleave_three_channels() {
    let block = deinterleave(&[1.0, 2.0, 3.0, 4.0, 5.0, 6.0], 3);
    assert_eq!(block, vec![vec![1.0, 4.0], vec![2.0, 5.0], vec![3.0, 6.0]]);
}

/// Channel count == 0 causes division by zero panic.
#[test]
#[should_panic]
fn deinterleave_zero_channels_panics() {
    let _ = deinterleave(&[1.0, 2.0], 0);
}

/// Round-trip — deinterleave then re-interleave produces original.
#[test]
fn deinterleave_round_trip() {
    let original: Vec<f32> = vec![1.0, 2.0, 3.0, 4.0, 5.0, 6.0, 7.0, 8.0];
    let block = deinterleave(&original, 2);
    let mut reinterleaved = Vec::with_capacity(original.len());
    let frames = block.first().map(|c| c.len()).unwrap_or(0);
    for i in 0..frames {
        for ch in &block {
            reinterleaved.push(ch[i]);
        }
    }
    assert_eq!(reinterleaved, original);
}

// AudioIoConfig tests.

/// Default config has sample_rate and buffer_size as None.
#[test]
fn audio_io_config_default() {
    let cfg = AudioIoConfig::default();
    assert!(cfg.sample_rate.is_none());
    assert!(cfg.buffer_size.is_none());
}

// Audio device filtering tests.

/// is_relevant_device_name rejects surround devices.
#[test]
fn filter_rejects_surround() {
    assert!(!is_relevant_device_name("surround40"));
    assert!(!is_relevant_device_name("surround51"));
    assert!(!is_relevant_device_name("Surround71"));
}

/// is_relevant_device_name rejects front, iec958, dmix, dsnoop.
#[test]
fn filter_rejects_known_bad() {
    assert!(!is_relevant_device_name("front"));
    assert!(!is_relevant_device_name("iec958:CARD=Intel"));
    assert!(!is_relevant_device_name("dmix:CARD=Intel"));
    assert!(!is_relevant_device_name("dsnoop:CARD=Intel"));
}

/// is_relevant_device_name keeps sysdefault, default, hw, usb, pulse, pipewire.
#[test]
fn filter_keeps_relevant() {
    assert!(is_relevant_device_name("sysdefault:CARD=Intel"));
    assert!(is_relevant_device_name("default"));
    assert!(is_relevant_device_name("hw:CARD=Intel,DEV=0"));
    assert!(is_relevant_device_name("usb:CARD=USB"));
    assert!(is_relevant_device_name("pulse"));
    assert!(is_relevant_device_name("pipewire"));
}

/// dedup_devices removes duplicates, keeps first occurrence.
#[test]
fn dedup_removes_duplicates() {
    let devices = vec![
        DeviceInfo {
            name: "default".into(),
        },
        DeviceInfo {
            name: "hw:CARD=Intel".into(),
        },
        DeviceInfo {
            name: "default".into(),
        },
    ];
    let result = dedup_devices(devices);
    assert_eq!(result.len(), 2);
    assert_eq!(result[0].name, "default");
    assert_eq!(result[1].name, "hw:CARD=Intel");
}

/// filter_devices combines filtering and dedup.
#[test]
fn filter_devices_combined() {
    let devices = vec![
        DeviceInfo {
            name: "default".into(),
        },
        DeviceInfo {
            name: "surround40".into(),
        },
        DeviceInfo {
            name: "front".into(),
        },
        DeviceInfo {
            name: "sysdefault:CARD=Intel".into(),
        },
        DeviceInfo {
            name: "default".into(),
        },
    ];
    let result = filter_devices(devices);
    assert_eq!(result.len(), 2);
    assert_eq!(result[0].name, "default");
    assert_eq!(result[1].name, "sysdefault:CARD=Intel");
}

/// is_relevant_device_name rejects null, file:, rate, speexrate.
#[test]
fn filter_rejects_misc_bad() {
    assert!(!is_relevant_device_name("null"));
    assert!(!is_relevant_device_name("file:/tmp/out.wav"));
    assert!(!is_relevant_device_name("rate_converter"));
    assert!(!is_relevant_device_name("speexrate"));
}

/// dedup_devices on empty list returns empty.
#[test]
fn dedup_empty() {
    let devices: Vec<DeviceInfo> = vec![];
    let result = dedup_devices(devices);
    assert!(result.is_empty());
}

/// filter_devices on all-filtered returns empty.
#[test]
fn filter_all_removed() {
    let devices = vec![
        DeviceInfo {
            name: "surround40".into(),
        },
        DeviceInfo {
            name: "front".into(),
        },
        DeviceInfo {
            name: "dmix:CARD=Intel".into(),
        },
    ];
    let result = filter_devices(devices);
    assert!(result.is_empty());
}

// Names.

fn device_names(devices: &[DeviceInfo]) -> Vec<&str> {
    devices.iter().map(|d| d.name.as_str()).collect()
}

fn devices(list: &[&str]) -> Vec<DeviceInfo> {
    list.iter().map(|n| DeviceInfo { name: n.to_string() }).collect()
}

fn reported(list: &[Option<&str>]) -> Vec<Option<String>> {
    list.iter().map(|n| n.map(|s| s.to_string())).collect()
}

#[test]
fn filter_ignores_ascii_case_only() {
    assert!(!is_relevant_device_name("My SPEEX Adapter"));
    assert!(!is_relevant_device_name("xNuLLx"));
    assert!(is_relevant_device_name(""));
    assert!(is_relevant_device_name("nul"));
    assert!(is_relevant_device_name("filé"));
    assert!(is_relevant_device_name("file"));
    assert!(!is_relevant_device_name("ÄÖÜ front ß"));
}

#[test]
fn dedup_keeps_the_order() {
    let result = dedup_devices(devices(&["b", "a", "b", "c", "a"]));
    assert_eq!(device_names(&result), vec!["b", "a", "c"]);
    let again = dedup_devices(result.clone());
    assert_eq!(device_names(&again), device_names(&result));
}

#[test]
fn filtering_twice_is_filtering_once() {
    let once = filter_devices(devices(&["hw:0", "dmix", "hw:0", "pulse"]));
    let twice = filter_devices(once.clone());
    assert_eq!(device_names(&once), vec!["hw:0", "pulse"]);
    assert_eq!(device_names(&twice), device_names(&once));
}

#[test]
fn filtering_and_deduplicating_commute() {
    let all = ["hw:0", "dmix", "hw:0", "pulse", "dmix", "pulse", "front"];
    let filtered = filter_devices(devices(&all));
    let deduped_first = filter_devices(dedup_devices(devices(&all)));
    assert_eq!(device_names(&deduped_first), device_names(&filtered));
    assert_eq!(device_names(&filtered), vec!["hw:0", "pulse"]);
}

#[test]
fn unreadable_names_are_left_out() {
    let list = list_devices(&reported(&[None, Some("hw:0"), Some("front:0"), None, Some("hw:0")]));
    assert_eq!(device_names(&list), vec!["hw:0"]);
}

#[test]
fn find_device_by_name() {
    let names = reported(&[None, Some("a"), Some("b"), Some("a")]);
    assert!(matches!(find_device(Side::Input, &names, "a"), Ok(1)));
    assert!(matches!(find_device(Side::Output, &names, "b"), Ok(2)));
    let input = find_device(Side::Input, &names, "c").unwrap_err();
    assert_eq!(input.message(), "input device 'c' not found");
    let output = find_device(Side::Output, &names, "").unwrap_err();
    assert_eq!(output.message(), "output device '' not found");
}

#[test]
fn device_error_messages() {
    assert_eq!(DeviceError::NoDefault { side: Side::Input }.message(), "no input device available");
    assert_eq!(DeviceError::NoDefault { side: Side::Output }.message(), "no output device available");
    assert_eq!(DeviceError::NoConfig.message(), "no supported output config found");
}

#[test]
fn three_formats_are_supported() {
    for format in [SampleFormat::F32, SampleFormat::I16, SampleFormat::U16] {
        assert_eq!(format.supported().unwrap(), format);
    }
    let others = [
        (SampleFormat::I8, "I8"),
        (SampleFormat::I32, "I32"),
        (SampleFormat::I64, "I64"),
        (SampleFormat::U8, "U8"),
        (SampleFormat::U32, "U32"),
        (SampleFormat::U64, "U64"),
        (SampleFormat::F64, "F64"),
        (SampleFormat::Other, "Other"),
    ];
    for (format, name) in others {
        let error = format.supported().unwrap_err();
        assert_eq!(error.message(), format!("unsupported sample format {}", name));
    }
    assert_eq!(SampleFormat::F32.name(), "F32");
    assert_eq!(SampleFormat::I16.name(), "I16");
    assert_eq!(SampleFormat::U16.name(), "U16");
}

// Stream settings.

fn range(sample_format: SampleFormat, low: u32, high: u32, channels: u16) -> ConfigRange {
    ConfigRange { channels, sample_format, min_sample_rate: low, max_sample_rate: high }
}

fn asked(sample_rate: Option<u32>, buffer_size: Option<u32>) -> AudioIoConfig {
    AudioIoConfig { sample_rate, buffer_size }
}

#[test]
fn f32_is_preferred() {
    let ranges = vec![
        range(SampleFormat::I16, 1, 2, 1),
        range(SampleFormat::F32, 3, 4, 2),
        range(SampleFormat::F32, 5, 6, 2),
    ];
    assert_eq!(preferred_range(&ranges), Some(1));
    assert_eq!(preferred_range(&vec![range(SampleFormat::U16, 1, 2, 1)]), None);
    assert_eq!(preferred_range(&vec![]), None);
}

#[test]
fn requested_rate_is_limited() {
    let offered = range(SampleFormat::F32, 44_100, 96_000, 2);
    for (wanted, got) in [(22_050, 44_100), (48_000, 48_000), (192_000, 96_000)] {
        let s = stream_settings(&offered, Some(44_100), &asked(Some(wanted), None));
        assert_eq!(s.sample_rate, got);
        assert_eq!(s.buffer_size, None);
        assert_eq!(s.channels, 2);
    }
}

#[test]
fn rate_defaults_to_that_of_the_device() {
    let offered = range(SampleFormat::I16, 44_100, 96_000, 1);
    let s = stream_settings(&offered, Some(48_000), &asked(None, Some(256)));
    assert_eq!(s.sample_rate, 48_000);
    assert_eq!(s.buffer_size, Some(256));
    assert_eq!(s.sample_format, SampleFormat::I16);
    for edge in [44_100, 96_000] {
        assert_eq!(stream_settings(&offered, Some(edge), &asked(None, None)).sample_rate, edge);
    }
}

#[test]
fn rate_is_the_highest_where_the_default_is_not_offered() {
    let offered = range(SampleFormat::F32, 44_100, 96_000, 1);
    for default in [None, Some(8_000), Some(44_099), Some(96_001), Some(192_000)] {
        assert_eq!(stream_settings(&offered, default, &asked(None, None)).sample_rate, 96_000);
    }
}

#[test]
fn low_latency_settings_choose_a_configuration() {
    let i16s = range(SampleFormat::I16, 8_000, 48_000, 1);
    let f32s = range(SampleFormat::F32, 8_000, 96_000, 2);
    let config = asked(Some(96_000), None);
    let s = low_latency_settings(&vec![i16s, f32s], &None, None, &config).unwrap();
    assert_eq!((s.channels, s.sample_format, s.sample_rate), (2, SampleFormat::F32, 96_000));
    let s = low_latency_settings(&vec![i16s], &Some(vec![i16s, f32s]), None, &config).unwrap();
    assert_eq!((s.channels, s.sample_format, s.sample_rate), (1, SampleFormat::I16, 48_000));
    for again in [None, Some(vec![])] {
        let r = low_latency_settings(&vec![i16s], &again, None, &config);
        assert!(matches!(r, Err(DeviceError::NoConfig)));
    }
}

// Blocks.

#[test]
fn deinterleave_leaves_out_an_incomplete_frame() {
    let block = deinterleave(&[1, 2, 3, 4, 5, 6, 7], 3);
    assert_eq!(block, vec![vec![1, 4], vec![2, 5], vec![3, 6]]);
    assert_eq!(deinterleave(&[1], 2), vec![Vec::<i32>::new(), Vec::new()]);
}

#[test]
fn deinterleave_into_reuses_and_converts() {
    let mut block: Vec<Vec<f32>> = vec![vec![9.0; 5], vec![], vec![8.0], vec![7.0]];
    deinterleave_into(&[100i16, -200, 300, -400], 2, &mut block, |s: i16| s as f32 / 2.0);
    assert_eq!(block, vec![vec![50.0, 150.0], vec![-100.0, -200.0]]);
    deinterleave_into(&[1i16, 2, 3], 3, &mut block, |s: i16| s as f32);
    assert_eq!(block, vec![vec![1.0], vec![2.0], vec![3.0]]);
}

#[test]
fn convert_into_fills_as_far_as_both_reach() {
    let mut data = [7i16; 4];
    convert_into(&[1.0f32, -2.0], &mut data, |s: f32| s as i16 * 10);
    assert_eq!(data, [10, -20, 7, 7]);
    convert_into(&[1.0f32, 2.0, 3.0, 4.0, 5.0], &mut data, |s: f32| s as i16);
    assert_eq!(data, [1, 2, 3, 4]);
}

#[test]
fn stereo_deinterleave_preserves_channels() {
    // Create stereo interleaved buffer: [L0, R0, L1, R1, ...]
    let interleaved: Vec<f64> = vec![1.0, 2.0, 3.0, 4.0, 5.0, 6.0];
    let block = deinterleave(&interleaved, 2);

    assert_eq!(block.len(), 2, "stereo should have 2 channels");
    // Channel 0 (left) should contain only L samples
    assert_eq!(block[0], vec![1.0, 3.0, 5.0], "left channel mismatch");
    // Channel 1 (right) should contain only R samples
    assert_eq!(block[1], vec![2.0, 4.0, 6.0], "right channel mismatch");
}

// Hand-over.

#[test]
fn a_new_block_has_empty_channels() {
    let mut shared: SharedBuffer<f32> = SharedBuffer::new();
    assert!(shared.take_latest().is_none());
    assert_eq!(shared.acquire(3), vec![Vec::<f32>::new(); 3]);
    assert_eq!(shared.acquire(0), Vec::<Vec<f32>>::new());
}

#[test]
fn the_latest_block_wins() {
    let mut shared: SharedBuffer<i32> = SharedBuffer::new();
    shared.publish(vec![vec![1]]);
    shared.publish(vec![vec![2]]);
    assert_eq!(shared.acquire(2), vec![vec![1]]);
    assert_eq!(shared.take_latest(), Some(vec![vec![2]]));
    assert_eq!(shared.take_latest(), None);
}

#[test]
fn blocks_go_round() {
    let mut shared: SharedBuffer<i32> = SharedBuffer::new();
    let mut block = shared.acquire(1);
    deinterleave_into(&[4, 5], 1, &mut block, |s: i32| s);
    shared.publish(block);
    let taken = shared.take_latest().unwrap();
    assert_eq!(taken, vec![vec![4, 5]]);
    shared.give_back(taken);
    assert_eq!(shared.acquire(1), vec![vec![4, 5]]);
    assert_eq!(shared.acquire(1), vec![Vec::<i32>::new()]);
}

#[test]
fn a_block_returned_during_a_capture_is_kept() {
    let mut shared: SharedBuffer<i32> = SharedBuffer::new();
    shared.publish(vec![vec![1]]);
    let capture = shared.acquire(1);
    let taken = shared.take_latest().unwrap();
    shared.give_back(taken);
    shared.publish(capture);
    assert_eq!(shared.recycle, Some(vec![vec![1]]));
    assert_eq!(shared.latest, Some(vec![vec![]]));
    assert_eq!(shared.acquire(1), vec![vec![1]]);
}

#[test]
fn publishing_keeps_the_replaced_block_for_reuse() {
    let mut shared: SharedBuffer<i32> = SharedBuffer::new();
    shared.publish(vec![vec![1]]);
    shared.give_back(vec![vec![2]]);
    shared.publish(vec![vec![3]]);
    assert_eq!(shared.recycle, Some(vec![vec![1]]));
    assert_eq!(shared.latest, Some(vec![vec![3]]));
}
