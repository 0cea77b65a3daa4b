use g_type::capture::{
    audio_channel, format_priority, parse_usb_cards, select_fallback_config, select_input_device,
    CaptureError, DeviceProbe, InputConfigRange, SampleFormat,
};
use g_type::inject::{injection_method, InjectionMethod, LONG_TEXT_THRESHOLD};

fn probe(name: &str, has: bool) -> DeviceProbe {
    DeviceProbe {
        name: name.to_string(),
        has_input_configs: has,
    }
}

#[test]
fn test_device_policy_prefers_usb() {
    let devices = vec![
        probe("default", true),
        probe("hw:CARD=PCH,DEV=0", true),
        probe("hw:CARD=Device,DEV=0", true),
    ];
    let cards = vec!["Device".to_string()];
    let picked = select_input_device(&devices, &cards);
    assert_eq!(picked, Some(2));
}

#[test]
fn test_device_policy_skips_virtual() {
    let devices = vec![
        probe("pulse", true),
        probe("pipewire", true),
        probe("sysdefault:CARD=PCH", true),
        probe("front:CARD=PCH,DEV=0", true),
    ];
    let picked = select_input_device(&devices, &vec![]);
    assert_eq!(picked, Some(3));
}

#[test]
fn test_device_policy_requires_configs() {
    let devices = vec![probe("hw:CARD=PCH,DEV=0", false)];
    assert_eq!(select_input_device(&devices, &vec![]), None);
}

#[test]
fn test_device_policy_none_eligible() {
    let devices = vec![probe("default", true), probe("jack", true)];
    assert_eq!(select_input_device(&devices, &vec![]), None);
}

#[test]
fn test_format_priority_order() {
    assert!(format_priority(SampleFormat::I16) < format_priority(SampleFormat::F32));
    assert!(format_priority(SampleFormat::F32) < format_priority(SampleFormat::I32));
    assert!(format_priority(SampleFormat::I32) < format_priority(SampleFormat::U8));
    assert!(format_priority(SampleFormat::U8) < format_priority(SampleFormat::Other));
}

#[test]
fn test_fallback_config_picks_best_format() {
    let configs = vec![
        InputConfigRange { min_rate: 8000, max_rate: 48000, channels: 2, format: SampleFormat::F32 },
        InputConfigRange { min_rate: 8000, max_rate: 48000, channels: 2, format: SampleFormat::I16 },
        InputConfigRange { min_rate: 8000, max_rate: 48000, channels: 1, format: SampleFormat::I16 },
    ];
    let (idx, rate) = select_fallback_config(&configs).unwrap();
    assert_eq!(idx, 1); // first I16 entry
    assert_eq!(rate, 16000); // target rate natively supported
}

#[test]
fn test_fallback_config_uses_max_rate() {
    let configs = vec![InputConfigRange {
        min_rate: 44100,
        max_rate: 48000,
        channels: 2,
        format: SampleFormat::I16,
    }];
    let (idx, rate) = select_fallback_config(&configs).unwrap();
    assert_eq!(idx, 0);
    assert_eq!(rate, 48000);
}

#[test]
fn test_fallback_config_empty() {
    assert_eq!(select_fallback_config(&vec![]), None);
}

#[test]
fn test_parse_usb_cards_table() {
    let table = " 0 [PCH            ]: HDA-Intel - HDA Intel PCH\n 1 [Device         ]: USB-Audio - TONOR TC-777 Audio Device\n 2 [CameraB409241  ]: USB-Audio - USB Camera-B4.09.24.1\n";
    let cards = parse_usb_cards(table);
    assert_eq!(cards, vec!["Device".to_string(), "CameraB409241".to_string()]);
}

#[test]
fn test_parse_usb_cards_no_usb() {
    let table = " 0 [PCH            ]: HDA-Intel - HDA Intel PCH\n";
    assert!(parse_usb_cards(table).is_empty());
}

#[test]
fn test_capture_error_messages() {
    assert_eq!(CaptureError::NoInputDevice.message(), "no audio input device found");
    assert_eq!(
        CaptureError::NoUsableInputConfig.message(),
        "no usable audio input configuration"
    );
    assert_eq!(
        CaptureError::StreamConstructionFailed.message(),
        "failed to build audio input stream"
    );
    assert_eq!(
        CaptureError::StreamStartFailed.message(),
        "failed to start audio input stream"
    );
}

#[test]
fn test_audio_channel_passes_chunks() {
    let (tx, rx) = audio_channel();
    tx.send(vec![1i16, 2, 3]).unwrap();
    drop(tx);
    assert_eq!(rx.recv().unwrap(), vec![1, 2, 3]);
    assert!(rx.recv().is_err());
}

#[test]
fn test_injection_method_decision() {
    assert!(matches!(injection_method(0), InjectionMethod::Skip));
    assert!(matches!(injection_method(1), InjectionMethod::Keystrokes));
    assert!(matches!(
        injection_method(LONG_TEXT_THRESHOLD),
        InjectionMethod::Keystrokes
    ));
    assert!(matches!(
        injection_method(LONG_TEXT_THRESHOLD + 1),
        InjectionMethod::Clipboard
    ));
}
