use wyrd_shell::audio_widget::{AudioDev, AudioModule};
use wyrd_shell::bluetooth::{BluetoothModule, BtDevice};

fn dev(id: usize, name: &str, desc: &str, is_default: bool) -> AudioDev {
    AudioDev { id, name: name.to_string(), desc: desc.to_string(), is_default, volume: 50, muted: false }
}

#[test]
fn speaker_popup_marks_preset_devices_and_mute() {
    let mut a = AudioModule::default();
    a.volume = 50;
    a.active_sink = "Speakers Analog Stereo".to_string();
    a.sinks = (0..7).map(|i| dev(i, &format!("sink{}", i), "", i == 1)).collect();
    let p = a.speaker_popup();
    assert_eq!(p.ring_text, "50%");
    assert_eq!(p.level_text, "50%");
    assert_eq!(p.device_name, "Speakers");
    assert_eq!(p.mute_text, "MUTE");
    let active: Vec<bool> = p.presets.iter().map(|b| b.active).collect();
    assert_eq!(active, vec![false, true, false, false]);
    assert_eq!(p.presets[3].id, "vol_p100");
    assert_eq!(p.presets[3].text, "100%");
    assert_eq!(p.presets[0].on_click, "event:audio:vol_p25:click");
    assert_eq!(p.devices.len(), 5);
    assert_eq!(p.devices[1].id, "sink_dev_1");
    assert_eq!(p.devices[1].text, "✓  sink1");
    assert!(p.devices[1].active);
    assert_eq!(p.devices[0].text, "   sink0");
    assert!(p.empty_text.is_none());

    a.muted = true;
    let p = a.speaker_popup();
    assert_eq!(p.ring_text, "MUTED");
    assert_eq!(p.mute_text, "UNMUTE");
    assert!(p.presets.iter().all(|b| !b.active));
}

#[test]
fn microphone_popup_without_devices() {
    let mut a = AudioModule::default();
    a.mic_volume = 75;
    let p = a.microphone_popup();
    assert_eq!(p.presets[2].id, "mic_p75");
    assert!(p.presets[2].active);
    assert!(p.devices.is_empty());
    assert_eq!(p.empty_text, Some("No input devices found"));
}

fn bt(addr: &str, name: &str, connected: bool, paired: bool) -> BtDevice {
    BtDevice {
        path: format!("/d/{}", name),
        address: addr.to_string(),
        name: name.to_string(),
        connected,
        paired,
        icon: String::new(),
    }
}

#[test]
fn bluetooth_popup_splits_paired_and_available() {
    let mut b = BluetoothModule::default();
    b.powered = true;
    b.connected_device = Some("Buds".to_string());
    b.devices = vec![bt("AA:BB", "Buds", true, true), bt("CC:DD", "Phone", false, false), bt("EE:FF", "Mouse", false, true)];
    let p = b.popup_model();
    assert_eq!(p.power_text, "ON");
    assert_eq!(p.connected_text.as_deref(), Some("Connected to Buds"));
    let paired: Vec<&str> = p.paired.iter().map(|x| x.text.as_str()).collect();
    assert_eq!(paired, vec!["✓ Buds", "  Mouse"]);
    assert_eq!(p.paired[0].id, "bt_dev_AA_BB");
    assert_eq!(p.paired[0].on_click, "event:bluetooth:bt_dev_AA_BB:click");
    assert!(p.paired[0].accent && !p.paired[1].accent);
    assert_eq!(p.available.len(), 1);
    assert_eq!(p.available[0].text, "Phone");
    assert_eq!(p.available_title, Some("AVAILABLE DEVICES"));
    assert!(p.paired_empty_text.is_none() && p.scanning_text.is_none());
    assert_eq!(p.scan_text, "Scan for Devices");

    let mut off = BluetoothModule::default();
    off.discovering = true;
    let p = off.popup_model();
    assert_eq!(p.power_text, "OFF");
    assert_eq!(p.paired_empty_text, Some("Bluetooth is powered off"));
    assert!(p.available_title.is_none());
    assert_eq!(p.scan_text, "Scanning... (Stop)");

    let mut scanning = BluetoothModule::default();
    scanning.powered = true;
    scanning.discovering = true;
    let p = scanning.popup_model();
    assert_eq!(p.paired_empty_text, Some("No paired devices"));
    assert_eq!(p.available_title, Some("AVAILABLE DEVICES [Scanning]"));
    assert_eq!(p.scanning_text, Some("Scanning for nearby devices..."));
}
