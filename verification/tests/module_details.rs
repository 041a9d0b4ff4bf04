use wyrd_shell::clock::{local_millis, ClockModule, DayCell};
use wyrd_shell::json::Json;
use wyrd_shell::launcher::configured_limit;
use wyrd_shell::media::MediaInfo;
use wyrd_shell::network_scan::{bar_text, network_label, status_glyph, NetworkEntry};
use wyrd_shell::notification_center::{NotificationItem, NotificationsModule};
use wyrd_shell::sdk::words;

fn obj(members: Vec<(&str, Json)>) -> Json {
    Json::Object(members.into_iter().map(|(k, v)| (k.to_string(), v)).collect())
}

fn chars(s: &str) -> Vec<char> {
    s.chars().collect()
}

#[test]
fn words_are_the_runs_between_whitespace() {
    let w = words(&chars("  cpu  12 \t7\n"));
    let got: Vec<String> = w.iter().map(|v| v.iter().collect()).collect();
    assert_eq!(got, vec!["cpu", "12", "7"]);
    assert!(words(&chars(" \t ")).is_empty());
}

#[test]
fn launcher_limit_reads_the_first_named_member() {
    let c = obj(vec![("max_results", Json::Int(12)), ("limit", Json::Int(3))]);
    assert_eq!(configured_limit(&c), Some(12));
    let c = obj(vec![("limit", Json::Int(7))]);
    assert_eq!(configured_limit(&c), Some(7));
    let c = obj(vec![("max_items", Json::Int(-1))]);
    assert_eq!(configured_limit(&c), None);
    assert_eq!(configured_limit(&obj(vec![])), None);
}

#[test]
fn network_labels_and_bar_text() {
    let e = NetworkEntry { ssid: "Home".to_string(), signal: 80, secured: true, connected: true };
    assert_eq!(network_label(&e), "\u{2713} Home [locked] (80%)");
    let long = NetworkEntry {
        ssid: "abcdefghijklmnopqrstuvwxyz".to_string(),
        signal: 5,
        secured: false,
        connected: false,
    };
    assert_eq!(network_label(&long), "  abcdefghijklmnopqrst.. (5%)");
    assert_eq!(status_glyph(false, 90), "\u{f092e}");
    assert_eq!(status_glyph(true, 10), "\u{f091f}");
    assert_eq!(status_glyph(true, 50), "\u{f0925}");
    assert_eq!(status_glyph(true, 65), "\u{f0928}");
    assert_eq!(bar_text(false, 90, "Home"), "\u{f092e} Offline");
    assert_eq!(bar_text(true, 90, "Home"), "\u{f0928} Home");
    assert_eq!(bar_text(true, 40, ""), "\u{f0925} Connected");
}

#[test]
fn media_console_header_follows_status() {
    let mut m = MediaInfo::default();
    let h = m.console_header();
    assert_eq!((h.player_label.as_str(), h.badge, h.badge_style), ("MEDIA PLAYER", "IDLE", "audio_device_desc"));
    m.player = "spotify".to_string();
    m.status = "Playing".to_string();
    let h = m.console_header();
    assert_eq!((h.player_label.as_str(), h.badge, h.badge_style), ("SPOTIFY", "PLAYING", "clean_accent"));
    m.status = "Paused".to_string();
    assert_eq!(m.console_header().badge, "PAUSED");
}

#[test]
fn clock_renders_once_per_text() {
    let mut c = ClockModule::default();
    let u = c.render(0).expect("first render");
    assert_eq!(u.time, "00:00");
    assert_eq!(u.date, "Thu, 01 Jan");
    assert_eq!(u.text, "00:00 • Thu, 01 Jan");
    assert_eq!((u.year, u.month, u.day), (1970, 1, 1));
    assert_eq!(u.month_name, "January");
    assert_eq!(u.day_name, "Thursday");
    assert_eq!(u.tooltip, "1970-01-01 Thursday");
    assert!(c.render(30_000).is_none());
    assert!(c.render(60_000).is_some());
}

#[test]
fn clock_calendar_page_for_a_known_day() {
    let c = ClockModule::default();
    let p = c.calendar_page(86_400_000 * 31).expect("page");
    assert_eq!(p.title, "February 1970");
    assert_eq!(p.today, "Sunday, 01 February 1970");
    assert_eq!(p.now_time, "00:00:00");
    assert_eq!(p.cells.len(), 42);
    assert_eq!(p.cells[5], DayCell::Previous(31));
    assert_eq!(p.cells[6], DayCell::Current { day: 1, today: true });
    assert_eq!(p.cells[33], DayCell::Current { day: 28, today: false });
    assert_eq!(p.cells[34], DayCell::Next(1));
}

#[test]
fn local_time_adds_the_offset() {
    assert_eq!(local_millis(1_000, 3600), 3_601_000);
    assert_eq!(local_millis(10_000_000, -3600), 6_400_000);
}

#[test]
fn toast_opens_on_the_chosen_notification() {
    let mut n = NotificationsModule::default();
    n.notifications.push(NotificationItem {
        id: 41,
        app_name: "mail".to_string(),
        summary: "Hi".to_string(),
        body: String::new(),
        icon: String::new(),
        image_path: None,
        actions: Vec::new(),
        timestamp: 5,
    });
    n.open_toast(0, 4000, 123);
    assert_eq!(n.toast_id, Some(41));
    assert_eq!(n.toast_opened_at, Some(123));
    assert_eq!(n.toast_duration_ms, 4000);
    assert_eq!(n.notifications.len(), 1);
}

#[test]
fn calendar_page_pads_early_years() {
    let c = ClockModule::default();
    let p = c.calendar_page(-30_636_316_800_000).expect("page");
    assert_eq!(p.title, "March 0999");
    assert_eq!(p.today, "Tuesday, 05 March 0999");
    let u = ClockModule::default().render(-30_636_316_800_000).expect("render");
    assert_eq!((u.year, u.month, u.day), (999, 3, 5));
}
