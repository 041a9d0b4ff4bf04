use wyrd_shell::clipboard_widget::{one_line, ClipboardItem, ClipboardModule, ClipboardWidgetAction};
use wyrd_shell::json::Json;
use wyrd_shell::notification_center::{center_event, truncate_text, CenterEvent, NotificationsModule};

fn obj(pairs: Vec<(&str, Json)>) -> Json {
    Json::Object(pairs.into_iter().map(|(k, v)| (k.to_string(), v)).collect())
}

#[test]
fn texts_are_truncated_with_an_ellipsis() {
    assert_eq!(truncate_text("short", 10), "short");
    assert_eq!(truncate_text("hello world again", 7), "hello…");
    assert_eq!(truncate_text("abc", 0), "…");
}

#[test]
fn new_notifications_show_a_toast_unless_silenced() {
    let mut m = NotificationsModule::default();
    let msg = obj(vec![("id", Json::Int(7)), ("summary", Json::Str("Hi".to_string())), ("expire_timeout", Json::Int(-1))]);
    assert_eq!(m.on_new(&msg, None, 1000), Some(5000));
    assert_eq!(m.notifications.len(), 1);
    assert_eq!(m.notifications[0].app_name, "System");
    assert_eq!(m.toast_id, Some(7));
    assert_eq!(m.next_id, 7);
    let anon = obj(vec![("summary", Json::Str("x".to_string()))]);
    assert_eq!(m.on_new(&anon, Some("/i.png".to_string()), 1100), Some(60000));
    assert_eq!(m.notifications[0].id, 8);
    assert_eq!(m.notifications[0].image_path, Some("/i.png".to_string()));
    let again = obj(vec![("id", Json::Int(7)), ("summary", Json::Str("Updated".to_string()))]);
    m.on_new(&again, None, 1200);
    assert_eq!(m.notifications.len(), 2);
    assert_eq!(m.notifications[1].summary, "Updated");
    assert!(!m.tick(1300 + 59000));
    assert!(m.tick(1200 + 60000));
    assert!(m.toast_id.is_none());
    assert!(!m.set_dnd(true));
    assert_eq!(m.on_new(&obj(vec![("id", Json::Int(9))]), None, 2000), None);
    assert_eq!(m.count_changed(), Some(0));
    assert_eq!(m.count_changed(), None);
    assert_eq!(m.count_text(0), "󰂛 DND");
}

#[test]
fn closed_messages_drop_dismissed_notifications() {
    let mut m = NotificationsModule::default();
    for i in 0..35 {
        m.on_new(&obj(vec![("id", Json::Int(i))]), None, 0);
    }
    assert_eq!(m.notifications.len(), 30);
    assert_eq!(m.on_closed_message(&obj(vec![("id", Json::Int(34)), ("reason", Json::Int(1))])), (true, false));
    assert_eq!(m.notifications.len(), 30);
    assert_eq!(m.on_closed_message(&obj(vec![("id", Json::Int(33)), ("reason", Json::Int(2))])), (false, true));
    assert_eq!(m.notifications.len(), 29);
    assert_eq!(m.clear_all().len(), 29);
    assert!(m.notifications.is_empty());
}

#[test]
fn daemon_status_replaces_the_list() {
    let mut m = NotificationsModule::default();
    let status = obj(vec![
        ("notifications", Json::Array(vec![
            obj(vec![("id", Json::Int(3)), ("app_name", Json::Str("mail".to_string())), ("timestamp_ms", Json::Int(55))]),
            obj(vec![("summary", Json::Str("no id".to_string()))]),
        ])),
        ("dnd", Json::Bool(true)),
    ]);
    assert!(m.sync_from_status(&status));
    assert_eq!(m.notifications.len(), 1);
    assert_eq!(m.notifications[0].timestamp, 55);
    assert!(m.dnd);
    assert_eq!(m.first_new(&vec![1, 2]), Some(0));
    assert_eq!(m.first_new(&vec![3]), None);
    assert!(!m.sync_from_status(&obj(vec![])));
}

#[test]
fn center_events_are_classified() {
    assert_eq!(center_event("toast_action_12", "click"), CenterEvent::ToastAction(Some(12)));
    assert_eq!(center_event("dismiss_notif_x", "click"), CenterEvent::Dismiss(None));
    assert_eq!(center_event("popup_dnd_btn", "click"), CenterEvent::ToggleDnd);
    assert_eq!(center_event("notifications", "click"), CenterEvent::Show);
    assert_eq!(center_event("notifications", "hover"), CenterEvent::Nothing);
}

#[test]
fn clipboard_widget_events() {
    let mut m = ClipboardModule::default();
    m.apply_list(true, Some(vec![ClipboardItem { id: 4, text_preview: "a\nb\r".to_string(), mime: "text/plain".to_string(), timestamp: 1 }]));
    assert_eq!(m.tooltip(), "Clipboard (1 items)");
    assert_eq!(one_line(&m.items[0].text_preview), "a b");
    match m.on_event("copy_entry_4", "click") {
        ClipboardWidgetAction::Select(q) => assert_eq!(q, "{\"cmd\":\"select\",\"id\":4}"),
        other => panic!("unexpected {:?}", other),
    }
    assert!(matches!(m.on_event("clipboard_clear", "click"), ClipboardWidgetAction::Clear));
    assert!(m.items.is_empty());
    m.apply_list(false, None);
    assert_eq!(m.tooltip(), "Clipboard (daemon inactive)");
    assert_eq!(m.heading(), "Clipboard");
}
