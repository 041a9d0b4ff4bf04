use wyrd_shell::json::Json;
use wyrd_shell::sdk::{
    audio_set_default, audio_set_mute, audio_toggle_mute, exec_command, get_application_dirs,
    notifications_clear, notifications_dismiss, notifications_set_dnd, reply_ok,
};

#[test]
fn audio_requests_are_framed() {
    let r = audio_set_mute("@DEFAULT_AUDIO_SINK@", true);
    assert_eq!(r.socket, "wyrd-audio.sock");
    assert_eq!(r.payload, "{\"cmd\":\"set_mute\",\"mute\":true,\"target\":\"@DEFAULT_AUDIO_SINK@\"}");
    let t = audio_toggle_mute("say \"hi\"");
    assert_eq!(t.payload, "{\"cmd\":\"toggle_mute\",\"target\":\"say \\\"hi\\\"\"}");
    let d = audio_set_default("@DEFAULT_AUDIO_SOURCE@", "alsa_input.usb");
    assert_eq!(d.payload, "{\"cmd\":\"set_default\",\"name\":\"alsa_input.usb\",\"target\":\"source\"}");
    let d2 = audio_set_default("speaker", "hdmi");
    assert_eq!(d2.payload, "{\"cmd\":\"set_default\",\"name\":\"hdmi\",\"target\":\"sink\"}");
}

#[test]
fn notification_requests_are_framed() {
    let r = notifications_dismiss(42, 3);
    assert_eq!(r.socket, "wyrd-notifications.sock");
    assert_eq!(r.payload, "{\"cmd\":\"dismiss\",\"id\":42,\"reason\":3}");
    assert_eq!(notifications_clear().payload, "{\"cmd\":\"clear\"}");
    assert_eq!(notifications_set_dnd(false).payload, "{\"cmd\":\"dnd\",\"dnd\":false}");
}

#[test]
fn replies_report_success_only_for_ok() {
    let ok = Json::Object(vec![("status".to_string(), Json::Str("ok".to_string()))]);
    let err = Json::Object(vec![("status".to_string(), Json::Str("error".to_string()))]);
    assert!(reply_ok(&ok));
    assert!(!reply_ok(&err));
    assert!(!reply_ok(&Json::Null));
}

#[test]
fn command_lines_split_at_whitespace() {
    let c = exec_command("  notify-send   hello\tworld ").unwrap();
    assert_eq!(c.program, "notify-send");
    assert_eq!(c.args, vec!["hello".to_string(), "world".to_string()]);
    assert!(exec_command("   ").is_none());
}

#[test]
fn application_dirs_follow_xdg() {
    let dirs = get_application_dirs(
        Some("/home/u/.data/".to_string()),
        Some("/home/u".to_string()),
        Some("/usr/share: /opt/apps/applications ::/usr/share/".to_string()),
    );
    assert_eq!(
        dirs,
        vec![
            "/home/u/.data/applications".to_string(),
            "/usr/share/applications".to_string(),
            "/opt/apps/applications".to_string(),
        ]
    );
    let fallback = get_application_dirs(None, Some("/home/v/".to_string()), Some("  ".to_string()));
    assert_eq!(
        fallback,
        vec![
            "/home/v/.local/share/applications".to_string(),
            "/usr/local/share/applications".to_string(),
            "/usr/share/applications".to_string(),
        ]
    );
    assert_eq!(get_application_dirs(None, None, None).len(), 2);
}

#[test]
fn application_dirs_ignore_relative_xdg_paths() {
    let dirs = get_application_dirs(None, Some("/home/alice".to_string()), Some("share:/usr/share".to_string()));
    assert_eq!(
        dirs,
        vec!["/home/alice/.local/share/applications".to_string(), "/usr/share/applications".to_string()]
    );
    let dirs = get_application_dirs(Some("data".to_string()), Some("/home/alice".to_string()), None);
    assert_eq!(dirs[0], "/home/alice/.local/share/applications");
}

#[test]
fn request_targets_are_json_escaped() {
    let r = audio_toggle_mute("a\"b\\c\n\u{1}é");
    assert_eq!(r.payload, "{\"cmd\":\"toggle_mute\",\"target\":\"a\\\"b\\\\c\\n\\u0001é\"}");
}
