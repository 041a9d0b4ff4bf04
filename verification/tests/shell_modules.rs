use wyrd_shell::dynamic_color::{
    accent_json, complete_palette, palettes_equal, DynamicColorModule, WallpaperState,
};
use wyrd_shell::json::Json;
use wyrd_shell::media::{find_player, join_strings, player_bus_name, player_name, MediaInfo};
use wyrd_shell::network_scan::{
    address_order, ap_details, collect_networks, first_address, is_object_path,
    saved_connection_security, saved_has_credentials, sort_by_signal, ApDetails, DeviceInfo,
    NetworkEntry,
};
use wyrd_shell::power_menu::{action_name, login1_request, power_action, power_buttons, PowerAction};
use wyrd_shell::workspaces::{
    button_id, click_action, id_text, read_workspace, switch_request, workspace_event,
    workspace_list, WorkspaceEvent,
};

fn s(x: &str) -> Json {
    Json::Str(x.to_string())
}

fn obj(pairs: Vec<(&str, Json)>) -> Json {
    Json::Object(pairs.into_iter().map(|(k, v)| (k.to_string(), v)).collect())
}

fn pal(pairs: &[(&str, &str)]) -> Vec<(String, String)> {
    pairs.iter().map(|(k, v)| (k.to_string(), v.to_string())).collect()
}

fn lookup<'a>(p: &'a [(String, String)], k: &str) -> Option<&'a str> {
    p.iter().find(|(n, _)| n == k).map(|(_, v)| v.as_str())
}

#[test]
fn theme_defaults_to_the_standard_accent() {
    let mut m = DynamicColorModule::default();
    let u = m.check_and_publish(None).expect("first check announces");
    assert_eq!(u.accent, "#c72548");
    assert_eq!(lookup(&u.palette, "accent"), Some("#c72548"));
    assert_eq!(lookup(&u.palette, "primary"), Some("#c72548"));
    assert_eq!(u.palette.len(), 2);
    assert!(m.check_and_publish(None).is_none());
}

#[test]
fn theme_keeps_the_colours_it_is_given() {
    let mut m = DynamicColorModule::default();
    let st = WallpaperState {
        accent: "#112233".to_string(),
        palette: Some(pal(&[("primary", "#abcdef"), ("surface", "#000000")])),
    };
    let u = m.check_and_publish(Some(st)).unwrap();
    assert_eq!(u.accent, "#112233");
    assert_eq!(lookup(&u.palette, "primary"), Some("#abcdef"));
    assert_eq!(lookup(&u.palette, "accent"), Some("#112233"));
    assert_eq!(lookup(&u.palette, "surface"), Some("#000000"));
    // The same colours in another order are no change.
    let again = WallpaperState {
        accent: "#112233".to_string(),
        palette: Some(pal(&[("surface", "#000000"), ("accent", "#112233"), ("primary", "#abcdef")])),
    };
    assert!(m.check_and_publish(Some(again)).is_none());
    // A new accent is.
    let changed = WallpaperState { accent: "#445566".to_string(), palette: None };
    let u = m.check_and_publish(Some(changed)).unwrap();
    assert_eq!(u.accent, "#445566");
    assert_eq!(m.last_accent.as_deref(), Some("#445566"));
}

#[test]
fn palette_equality_ignores_order_and_sees_values() {
    let a = pal(&[("a", "1"), ("b", "2")]);
    let b = pal(&[("b", "2"), ("a", "1")]);
    let c = pal(&[("a", "1"), ("b", "3")]);
    let d = pal(&[("a", "1")]);
    assert!(palettes_equal(&a, &b));
    assert!(!palettes_equal(&a, &c));
    assert!(!palettes_equal(&a, &d));
    let full = complete_palette(pal(&[("accent", "x")]), &"y".to_string());
    assert_eq!(lookup(&full, "accent"), Some("x"));
    assert_eq!(lookup(&full, "primary"), Some("y"));
}

#[test]
fn theme_checks_on_its_topics_and_every_tenth_tick() {
    let mut m = DynamicColorModule::default();
    assert!(m.wants_check("theme.request"));
    assert!(m.wants_check("wallpaper.change"));
    assert!(!m.wants_check("theme.palette"));
    let fired: Vec<bool> = (0..20).map(|_| m.tick()).collect();
    assert_eq!(fired.iter().filter(|b| **b).count(), 2);
    assert!(fired[9] && fired[19]);
    match accent_json(&"#fff".to_string()) {
        Json::Object(m) => {
            assert_eq!(m.len(), 1);
            assert_eq!(m[0].0, "accent");
        }
        _ => panic!("not an object"),
    }
}

#[test]
fn pager_events() {
    assert!(matches!(workspace_event("changed"), WorkspaceEvent::Refresh));
    assert!(matches!(workspace_event("wyrd-windows"), WorkspaceEvent::Refresh));
    match workspace_event("workspace_3") {
        WorkspaceEvent::Switch(id) => assert_eq!(id, "3"),
        _ => panic!("expected a switch"),
    }
    match workspace_event("ws-web") {
        WorkspaceEvent::Switch(id) => assert_eq!(id, "web"),
        _ => panic!("expected a switch"),
    }
    match workspace_event("ws_2") {
        WorkspaceEvent::Switch(id) => assert_eq!(id, "2"),
        _ => panic!("expected a switch"),
    }
    assert!(matches!(workspace_event("clock"), WorkspaceEvent::Nothing));
    let r = switch_request("3");
    assert_eq!(r.socket, "wyrd-windows.sock");
    assert_eq!(r.payload, "{\"cmd\":\"switch_workspace\",\"id\":\"3\"}");
}

#[test]
fn pager_reads_workspaces() {
    let resp = obj(vec![(
        "list",
        Json::Array(vec![
            obj(vec![
                ("id", Json::Int(2)),
                ("name", s("")),
                ("active", Json::Bool(true)),
                ("monitor", s("DP-1")),
                ("apps", Json::Array(vec![obj(vec![("app_id", s("firefox"))]), obj(vec![])])),
            ]),
            obj(vec![("id", Json::Int(-98)), ("name", s("special"))]),
        ]),
    )]);
    let list = workspace_list(&resp).unwrap();
    assert_eq!(list.len(), 2);
    let w = read_workspace(&list[0]);
    assert_eq!(w.id_text.as_deref(), Some("2"));
    assert_eq!(w.label().as_deref(), Some("2"));
    assert!(w.active);
    assert_eq!(w.monitor, "DP-1");
    assert_eq!(w.app_ids, vec!["firefox".to_string(), String::new()]);
    assert_eq!(w.style(), "chip_accent");
    let w2 = read_workspace(&list[1]);
    assert_eq!(w2.id_text.as_deref(), Some("-98"));
    assert_eq!(w2.label().as_deref(), Some("special"));
    assert_eq!(w2.style(), "chip");
    assert_eq!(id_text(&Json::Real), None);
    assert_eq!(button_id("2"), "ws-2");
    assert_eq!(click_action("2"), "event:workspaces:workspace_2:click");
    assert!(workspace_list(&obj(vec![("workspaces", s("x")), ("list", Json::Array(vec![]))])).is_none());
}

#[test]
fn power_menu_actions() {
    assert_eq!(power_action("power", "click"), PowerAction::ShowPopup);
    assert_eq!(power_action("power-menu", "open"), PowerAction::ShowPopup);
    assert_eq!(power_action("my_power_btn", "click:left"), PowerAction::ShowPopup);
    for b in power_buttons() {
        let a = power_action(b.id, "click");
        assert!(a != PowerAction::Nothing && a != PowerAction::ShowPopup, "{}", b.id);
    }
    assert_eq!(power_action("lock", "click"), PowerAction::Lock);
    assert_eq!(power_action("shutdown", "click"), PowerAction::PowerOff);
    assert_eq!(power_action("poweroff", "release"), PowerAction::PowerOff);
    assert_eq!(power_action("clock", "click"), PowerAction::Nothing);
    assert_eq!(action_name(&PowerAction::Logout), Some("logout"));
    assert_eq!(action_name(&PowerAction::ShowPopup), None);
    match login1_request(&PowerAction::Logout) {
        Some(("TerminateSession", Json::Array(v))) => assert!(matches!(&v[0], Json::Str(x) if x == "self")),
        _ => panic!("wrong request"),
    }
    assert!(login1_request(&PowerAction::Nothing).is_none());
}

#[test]
fn media_player_state() {
    let names = Json::Array(vec![s("org.freedesktop.DBus"), Json::Int(3), s("org.mpris.MediaPlayer2.spotify")]);
    let svc = find_player(&names).unwrap();
    assert_eq!(svc, "org.mpris.MediaPlayer2.spotify");
    assert_eq!(player_name(&svc), "spotify");
    assert_eq!(player_bus_name("spotify"), svc);
    assert!(find_player(&Json::Array(vec![s("a")])).is_none());

    let mut m = MediaInfo::default();
    let props = obj(vec![
        ("PlaybackStatus", s("Playing")),
        (
            "Metadata",
            obj(vec![
                ("xesam:title", s("Song")),
                ("xesam:artist", Json::Array(vec![s("A"), Json::Int(1), s("B")])),
                ("mpris:artUrl", s("file:///tmp/a.png")),
            ]),
        ),
    ]);
    m.apply_props(&props);
    assert_eq!(m.status, "Playing");
    assert_eq!(m.artist, "A, B");
    assert_eq!(m.art_url, "/tmp/a.png");
    assert_eq!(m.bar_text(), "\u{f040a} A, B - Song");
    assert_eq!(m.icon_name(), "media-playback-start");
    assert!(m.tooltip().starts_with("Song\nArtist: A, B\nAlbum: Unknown Album\nStatus: Playing"));
    m.toggle_status();
    assert_eq!(m.status, "Paused");
    m.title = "x".repeat(30);
    m.artist = String::new();
    assert_eq!(m.bar_text(), format!("\u{f03e4} {}\u{2026}", "x".repeat(25)));
    m.clear_track();
    assert!(m.is_stopped());
    assert_eq!(m.bar_text(), "\u{f0386} Media");
    assert_eq!(m.safe_title(), "No media playing");
    assert_eq!(join_strings(&vec![]), "");
}

fn ap(ssid: &str, strength: u8, secured: bool) -> ApDetails {
    ApDetails { ssid: ssid.to_string(), strength, secured, is_sae: false }
}

#[test]
fn network_list_is_unique_and_strongest_first() {
    let aps = vec![ap("Home", 40, true), ap("", 90, false), ap("Cafe", 70, false), ap("Home", 99, true), ap("Lab", 70, true)];
    let nets = collect_networks(&aps, true, "Home");
    let names: Vec<&str> = nets.iter().map(|n| n.ssid.as_str()).collect();
    assert_eq!(names, vec!["Home", "Cafe", "Lab"]);
    assert!(nets[0].connected && !nets[1].connected);
    let sorted = sort_by_signal(&nets);
    let names: Vec<(&str, u8)> = sorted.iter().map(|n| (n.ssid.as_str(), n.signal)).collect();
    assert_eq!(names, vec![("Cafe", 70), ("Lab", 70), ("Home", 40)]);
    let none: Vec<NetworkEntry> = Vec::new();
    assert!(sort_by_signal(&none).is_empty());
}

#[test]
fn access_point_details() {
    let props = obj(vec![
        ("Ssid", Json::Array(vec![Json::Int(72), Json::Int(105)])),
        ("Strength", Json::Int(300)),
        ("RsnFlags", Json::Int(1024)),
    ]);
    let d = ap_details(Some(&props));
    assert_eq!(d.ssid, "Hi");
    assert_eq!(d.strength, 44);
    assert!(d.secured && d.is_sae);
    let d = ap_details(Some(&obj(vec![])));
    assert_eq!(d.strength, 50);
    assert!(!d.secured);
    let d = ap_details(None);
    assert_eq!((d.ssid.as_str(), d.strength, d.secured), ("", 0, false));
}

#[test]
fn saved_connections_and_addresses() {
    let settings = obj(vec![
        ("connection", obj(vec![("id", s("Home WiFi")), ("type", s("802-11-wireless"))])),
        ("802-11-wireless", obj(vec![("ssid", Json::Array(vec![Json::Int(72), Json::Int(111)]))])),
        ("802-11-wireless-security", obj(vec![("key-mgmt", s("wpa-psk"))])),
    ]);
    assert_eq!(saved_connection_security(&settings, "Ho"), Some(true));
    assert_eq!(saved_connection_security(&settings, "Home WiFi"), Some(true));
    assert_eq!(saved_connection_security(&settings, "Other"), None);
    let wired = obj(vec![("connection", obj(vec![("id", s("Ho")), ("type", s("802-3-ethernet"))]))]);
    assert_eq!(saved_connection_security(&wired, "Ho"), None);
    assert!(!saved_has_credentials(true, None, &settings));
    let secrets = obj(vec![("802-11-wireless-security", obj(vec![("psk", s("pw"))]))]);
    assert!(saved_has_credentials(true, Some(&secrets), &settings));
    assert!(saved_has_credentials(false, None, &settings));

    let devs = vec![
        DeviceInfo { path: "/d/lo".to_string(), kind: 32, interface: "lo".to_string() },
        DeviceInfo { path: "/d/eth".to_string(), kind: 1, interface: "eth0".to_string() },
        DeviceInfo { path: "/d/other".to_string(), kind: 14, interface: "wg0".to_string() },
        DeviceInfo { path: "/d/wifi".to_string(), kind: 2, interface: "wlan0".to_string() },
        DeviceInfo { path: "/d/lo2".to_string(), kind: 5, interface: "lo".to_string() },
    ];
    assert_eq!(address_order(&devs), vec!["/d/wifi", "/d/eth", "/d/other"]);
    assert!(is_object_path("/org/x"));
    assert!(!is_object_path("/"));
    assert!(!is_object_path(""));
    let ip = obj(vec![(
        "AddressData",
        Json::Array(vec![obj(vec![("address", s("127.0.0.1"))]), obj(vec![("address", s(""))]), obj(vec![("address", s("10.0.0.5"))])]),
    )]);
    assert_eq!(first_address(&ip).as_deref(), Some("10.0.0.5"));
    assert_eq!(first_address(&obj(vec![])), None);
}
