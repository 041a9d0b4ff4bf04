use wyrd_shell::audio_widget::{classify_event, clean_device_name, slider_texts, AudioModule, AudioWidgetEvent};
use wyrd_shell::battery::{battery_reading, is_battery_supply, BatteryModule};
use wyrd_shell::bluetooth::{dev_icon_name_for, read_bluez, sort_devices, BluetoothAction, BluetoothModule, BtDevice, DeviceRequest};
use wyrd_shell::clock::{month_cells, shift_month, CalendarAction, ClockModule, DayCell};
use wyrd_shell::dnd::{DndAction, DndModule};
use wyrd_shell::json::Json;
use wyrd_shell::media::{format_duration, media_command, MediaCommand};
use wyrd_shell::system::{read_cpu_stat, read_mem_info, SystemModule};
use wyrd_shell::window::{window_info, WindowModule};

fn obj(pairs: Vec<(&str, Json)>) -> Json {
    Json::Object(pairs.into_iter().map(|(k, v)| (k.to_string(), v)).collect())
}

#[test]
fn audio_status_is_read_with_defaults() {
    let mut m = AudioModule::default();
    assert!(!m.apply_status(&obj(vec![("volume", Json::Int(10))])));
    assert!(m.apply_status(&obj(vec![
        ("active_sink_name", Json::Str("alsa".to_string())),
        ("sinks", Json::Array(vec![obj(vec![("name", Json::Str("alsa".to_string())), ("is_default", Json::Bool(true))])])),
    ])));
    assert!(m.initialized);
    assert_eq!(m.volume, 50);
    assert_eq!(m.mic_volume, 100);
    assert_eq!(m.active_sink, "alsa");
    assert_eq!(m.active_source, "Default Input");
    assert_eq!(m.sinks.len(), 1);
    assert_eq!(m.sinks[0].volume, 50);
    assert!(m.sinks[0].is_default);
    assert_eq!(m.speaker_text(), "󰖀 50%");
    m.toggle_speaker_mute();
    assert_eq!(m.speaker_text(), "󰝟 Muted");
    assert!(m.set_speaker_level(20, false));
    assert_eq!(m.speaker_text(), "󰕿 20%");
}

#[test]
fn audio_events_are_classified() {
    assert_eq!(classify_event("pipewire:changed", ""), AudioWidgetEvent::Changed);
    assert_eq!(classify_event("volume", "middle_click"), AudioWidgetEvent::ToggleSpeakerMute);
    assert_eq!(classify_event("qs_volume_main", "change:40"), AudioWidgetEvent::SpeakerSlider);
    assert_eq!(classify_event("mic_slider", "40"), AudioWidgetEvent::MicSlider);
    assert_eq!(classify_event("vol_p75", "click"), AudioWidgetEvent::SpeakerPreset);
    assert_eq!(classify_event("sink_dev_2", "click"), AudioWidgetEvent::SelectSink(Some(2)));
    assert_eq!(classify_event("source_dev_x", "click"), AudioWidgetEvent::SelectSource(None));
    assert_eq!(classify_event("mic", "click"), AudioWidgetEvent::OpenMic);
    assert_eq!(classify_event("unknown", "click"), AudioWidgetEvent::Ignore);
    assert_eq!(slider_texts("change:40"), vec!["change:40".to_string(), "40".to_string()]);
}

#[test]
fn device_names_are_shortened() {
    assert_eq!(clean_device_name("Built-in Audio Analog Stereo", 24), "Built-in Audio Analog Stereo".chars().take(22).collect::<String>() + "..");
    assert_eq!(clean_device_name("Navi HDMI Digital Stereo (HDMI)", 40), "Navi HDMI HDMI");
    assert_eq!(clean_device_name("Family 17h/19h HD Audio Controller Analog Stereo", 24), "HD Audio");
    assert_eq!(clean_device_name("USB Headset", 28), "USB Headset");
}

#[test]
fn selecting_a_sink_marks_it() {
    let mut m = AudioModule::default();
    m.apply_status(&obj(vec![("sinks", Json::Array(vec![
        obj(vec![("name", Json::Str("a".to_string())), ("description", Json::Str("A out".to_string()))]),
        obj(vec![("name", Json::Str("b".to_string()))]),
    ]))]));
    assert_eq!(m.select_sink(1), Some("b".to_string()));
    assert_eq!(m.active_sink, "b");
    assert!(m.sinks[1].is_default && !m.sinks[0].is_default);
    assert_eq!(m.select_sink(9), None);
}

#[test]
fn battery_files_are_read() {
    assert!(is_battery_supply("AC", &Some("Battery\n".to_string())));
    assert!(!is_battery_supply("BAT0", &Some("Mains".to_string())));
    assert!(is_battery_supply("BAT0", &None));
    assert_eq!(battery_reading(&Some("87\n".to_string()), &None), Some((87, "Discharging".to_string())));
    assert_eq!(battery_reading(&Some("x".to_string()), &None), None);
    let b = BatteryModule { capacity: 12, status: "Discharging".to_string(), profile: String::new(), dirty: false };
    assert_eq!(b.icon_name(), "battery-caution");
    assert_eq!(b.bar_text(), "󰁺 12%");
    assert_eq!(b.heading(), "Battery: 12% (Discharging)");
    assert_eq!(b.requested_profile("battery_profile_balanced", "click"), Some("balanced".to_string()));
    assert_eq!(b.requested_profile("battery_profile_balanced", "hover"), None);
}

fn bt(path: &str, addr: &str, name: &str, connected: bool, paired: bool) -> BtDevice {
    BtDevice { path: path.to_string(), address: addr.to_string(), name: name.to_string(), connected, paired, icon: "bluetooth".to_string() }
}

#[test]
fn bluetooth_devices_are_ordered_and_found() {
    let sorted = sort_devices(vec![
        bt("/d1", "AA:BB", "AA-BB", false, false),
        bt("/d2", "CC:DD", "zeta", false, true),
        bt("/d3", "EE:FF", "Alpha", true, true),
        bt("/d4", "11:22", "beta", false, true),
    ]);
    let names: Vec<&str> = sorted.iter().map(|d| d.name.as_str()).collect();
    assert_eq!(names, vec!["Alpha", "beta", "zeta", "AA-BB"]);
    assert_eq!(dev_icon_name_for("audio-headset", true), "audio-headphones");
    assert_eq!(dev_icon_name_for("toaster", false), "bluetooth");
    let mut m = BluetoothModule::default();
    m.devices = sorted;
    match m.on_event("bt_dev_EE_FF", "click") {
        BluetoothAction::Device { path, request } => {
            assert_eq!(path, "/d3");
            assert_eq!(request, DeviceRequest::Disconnect);
        }
        other => panic!("unexpected {:?}", other),
    }
    match m.on_event("bt_scan_btn", "click") {
        BluetoothAction::Scan { adapter, power_on, start } => {
            assert_eq!(adapter, "/org/bluez/hci0");
            assert!(power_on && start);
        }
        other => panic!("unexpected {:?}", other),
    }
    assert!(m.powered);
}

#[test]
fn bluez_tree_is_read() {
    let reply = obj(vec![
        ("/org/bluez/hci0", obj(vec![("org.bluez.Adapter1", obj(vec![("Powered", Json::Bool(true)), ("Discovering", Json::Bool(false))]))])),
        ("/org/bluez/hci0/dev_1", obj(vec![("org.bluez.Device1", obj(vec![
            ("Address", Json::Str("00:11".to_string())),
            ("Alias", Json::Str(String::new())),
            ("Name", Json::Str("Buds".to_string())),
            ("Connected", Json::Bool(true)),
        ]))])),
        ("/org/bluez/hci0/dev_2", obj(vec![("org.bluez.Device1", obj(vec![("Address", Json::Str(String::new()))]))])),
    ]);
    let st = read_bluez(&Some(reply));
    assert_eq!(st.adapter_path, "/org/bluez/hci0");
    assert!(st.powered);
    assert_eq!(st.connected, Some("Buds".to_string()));
    assert_eq!(st.devices.len(), 1);
    assert_eq!(st.devices[0].icon, "bluetooth");
    let empty = read_bluez(&None);
    assert!(empty.devices.is_empty());
}

#[test]
fn bluetooth_scan_stops_after_thirty_ticks() {
    let mut m = BluetoothModule::default();
    m.discovering = true;
    for _ in 0..29 {
        assert!(!m.tick());
    }
    assert!(m.tick());
    assert!(!m.discovering);
    assert_eq!(m.scan_ticks, 0);
}

#[test]
fn calendar_months_and_grid() {
    assert_eq!(shift_month(2024, 1, -1), (2023, 12));
    assert_eq!(shift_month(2024, 11, 14), (2026, 1));
    assert_eq!(shift_month(2024, 5, -29), (2021, 12));
    let cells = month_cells(3, 29, 31, Some(10));
    assert_eq!(cells.len(), 42);
    assert_eq!(cells[0], DayCell::Previous(29));
    assert_eq!(cells[3], DayCell::Current { day: 1, today: false });
    assert_eq!(cells[12], DayCell::Current { day: 10, today: true });
    assert_eq!(cells[32], DayCell::Next(1));
    let mut c = ClockModule::default();
    assert_eq!(c.on_event("cal_prev", "click"), CalendarAction::Show);
    assert_eq!(c.month_offset, -1);
    assert_eq!(c.on_event("popup:cal-today", "click"), CalendarAction::Show);
    assert_eq!(c.month_offset, 0);
    assert_eq!(c.on_event("calendar", "close"), CalendarAction::Nothing);
    let feb = c.calendar_cells(2024, 2, 10).unwrap();
    assert_eq!(feb[3], DayCell::Current { day: 1, today: false });
    assert_eq!(feb[12], DayCell::Current { day: 10, today: true });
    assert_eq!(feb[32], DayCell::Next(1));
    assert_eq!(c.next_text("10:00", "Mon, 01 Jan"), Some("10:00 • Mon, 01 Jan".to_string()));
    assert_eq!(c.next_text("10:00", "Mon, 01 Jan"), None);
}

#[test]
fn dnd_follows_clicks_and_messages() {
    let mut d = DndModule::default();
    assert_eq!(d.on_event("dnd", "click"), DndAction::Toggled);
    assert!(d.enabled);
    assert_eq!(d.on_topic("dnd.state", &obj(vec![("enabled", Json::Bool(true))])), DndAction::Nothing);
    assert_eq!(d.on_topic("dnd.state", &obj(vec![("enabled", Json::Bool(false))])), DndAction::Synced);
    assert!(!d.enabled);
    assert_eq!(d.tooltip(), "Do Not Disturb: OFF");
    assert_eq!(d.text(false), "Bell");
}

#[test]
fn window_titles_default_to_desktop() {
    let reply = obj(vec![("active", obj(vec![("title", Json::Str("Editor".to_string())), ("app_id", Json::Str("code".to_string()))]))]);
    assert_eq!(window_info(&Some(reply)), ("Editor".to_string(), "code".to_string()));
    assert_eq!(window_info(&Some(obj(vec![("active", Json::Null)]))), ("Desktop".to_string(), String::new()));
    let mut w = WindowModule::default();
    assert!(w.retry_on_tick());
    assert!(w.accept_title("Editor"));
    assert!(!w.accept_title("Editor"));
}

#[test]
fn proc_files_are_read() {
    let stat = "cpu  10 20 30 40 50 60 70 80 90 100\ncpu0 1 2 3 4 5 6 7 8\n";
    assert_eq!(read_cpu_stat(stat), Some((360, 90)));
    assert_eq!(read_cpu_stat("cpu0 1 2 3 4 5 6 7 8\n"), None);
    assert_eq!(read_cpu_stat("cpu  1 2 3"), None);
    let mem = "MemTotal:       16000000 kB\nMemFree: 1 kB\nMemAvailable:    4000000 kB\n";
    assert_eq!(read_mem_info(mem), Some((16000000, 4000000)));
    assert_eq!(read_mem_info("MemAvailable: 5 kB\n"), None);
    assert_eq!(read_mem_info("MemTotal: x kB\n"), None);
    let mut s = SystemModule::default();
    assert_eq!(s.take_sample(100, 40), (100, 40));
    assert_eq!(s.take_sample(90, 50), (0, 10));
    assert!(s.on_event("system", "open"));
    assert!(s.popup_open);
    assert!(!s.on_event("system", "close"));
    assert!(s.on_event("cpu_usage", "click"));
    assert!(!s.popup_open);
}

#[test]
fn media_events_and_times() {
    assert_eq!(media_command("mpris", "click"), MediaCommand::ShowPopup);
    assert_eq!(media_command("mpris_next", "click"), MediaCommand::Next);
    assert_eq!(media_command("my_play_button", "click"), MediaCommand::TogglePlayback);
    assert_eq!(media_command("seek", "12.5:x"), MediaCommand::Seek);
    assert_eq!(media_command("other", "hover"), MediaCommand::Nothing);
    assert_eq!(format_duration(0), "00:00");
    assert_eq!(format_duration(65), "01:05");
    assert_eq!(format_duration(6000), "100:00");
}
