use wyrd_shell::notifications::{NotificationRecord, NotificationReply, NotificationRequest, NotificationService};

fn record(id: u32, app: &str, summary: String, body: String, icon: &str, ts: u64) -> NotificationRecord {
    NotificationRecord {
        id,
        app_name: app.to_string(),
        summary,
        body,
        icon: icon.to_string(),
        image_path: None,
        timestamp_ms: ts,
    }
}

#[test]
fn test_notification_service_push_and_cap() {
    let mut service = NotificationService::new();
    assert_eq!(service.status().count, 0);

    for i in 1..=40 {
        service.push(record(i, "test-app", format!("Summary {i}"), format!("Body {i}"), "dialog-information", i as u64));
    }

    let status = service.status();
    assert_eq!(status.count, 32);
    assert_eq!(status.notifications.len(), 32);
    assert_eq!(status.notifications[0].id, 40);
    assert_eq!(status.notifications[31].id, 9);
}

#[test]
fn test_notification_service_dismiss() {
    let mut service = NotificationService::new();
    for id in [10, 20, 30] {
        service.push(record(id, "test", format!("Item {id}"), String::new(), "", id as u64));
    }

    assert_eq!(service.status().count, 3);
    assert!(service.dismiss(20, 2));
    assert_eq!(service.status().count, 2);
    let ids: Vec<u32> = service.status().notifications.iter().map(|n| n.id).collect();
    assert_eq!(ids, vec![30, 10]);

    assert!(!service.dismiss(999, 2));
    assert_eq!(service.status().count, 2);
}

#[test]
fn test_notification_service_clear_and_dnd() {
    let mut service = NotificationService::new();
    service.push(record(1, "app", "hi".to_string(), "".to_string(), "", 100));
    assert_eq!(service.status().count, 1);

    service.clear();
    assert_eq!(service.status().count, 0);
    assert!(service.status().notifications.is_empty());

    assert!(!service.status().dnd);
    service.set_dnd(true);
    assert!(service.status().dnd);
    service.set_dnd(false);
    assert!(!service.status().dnd);
}

#[test]
fn pushing_keeps_every_record_newest_first() {
    let mut service = NotificationService::new();
    service.push(record(1, "a", "one".to_string(), String::new(), "", 1));
    service.push(record(2, "a", "two".to_string(), String::new(), "", 2));
    service.push(record(1, "a", "again".to_string(), String::new(), "", 3));
    let status = service.status();
    assert_eq!(status.count, 3);
    assert_eq!(status.notifications[0].summary, "again");
    assert_eq!(status.notifications[2].summary, "one");
    assert!(service.dismiss(1, 1));
    assert_eq!(service.status().count, 1);
}

fn request(cmd: &str, id: Option<u32>, reason: Option<u32>, dnd: Option<bool>) -> NotificationRequest {
    NotificationRequest { cmd: cmd.to_string(), id, reason, dnd }
}

#[test]
fn socket_requests_are_answered() {
    let mut service = NotificationService::new();
    match service.handle_request(&request("notify", None, None, None), 77) {
        NotificationReply::Notified(r) => {
            assert_eq!(r.id, 1);
            assert_eq!(r.app_name, "daemon");
            assert_eq!(r.body, "Queued via socket");
            assert_eq!(r.timestamp_ms, 77);
        }
        other => panic!("unexpected {:?}", other),
    }
    match service.handle_request(&request("list", None, None, None), 0) {
        NotificationReply::Status(st) => assert_eq!(st.count, 1),
        other => panic!("unexpected {:?}", other),
    }
    match service.handle_request(&request("dismiss", Some(5), None, None), 0) {
        NotificationReply::Dismissed { ok, id, reason } => assert_eq!((ok, id, reason), (false, 5, 2)),
        other => panic!("unexpected {:?}", other),
    }
    match service.handle_request(&request("dismiss", Some(1), Some(3), None), 0) {
        NotificationReply::Dismissed { ok, id, reason } => assert_eq!((ok, id, reason), (true, 1, 3)),
        other => panic!("unexpected {:?}", other),
    }
    assert!(matches!(service.handle_request(&request("dnd", None, None, Some(true)), 0), NotificationReply::Dnd(true)));
    assert!(service.status().dnd);
    assert!(matches!(service.handle_request(&request("dnd", None, None, None), 0), NotificationReply::Dnd(false)));
    assert!(matches!(service.handle_request(&request("clear", None, None, None), 0), NotificationReply::Cleared));
    assert!(matches!(service.handle_request(&request("subscribe", None, None, None), 0), NotificationReply::Subscribe));
    assert!(matches!(service.handle_request(&request("bogus", None, None, None), 0), NotificationReply::UnknownCommand));
}

#[test]
fn dbus_notify_numbers_and_keeps_hints() {
    let mut service = NotificationService::new();
    let mut next = u32::MAX;
    let id = service.notify(&mut next, 0, "app".into(), "icon".into(), "s".into(), "b".into(), None, Some("/p.png".into()), 9);
    assert_eq!(id, u32::MAX);
    assert_eq!(next, 0);
    let st = service.status();
    assert_eq!(st.notifications[0].image_path.as_deref(), Some("/p.png"));
    let id = service.notify(&mut next, 0, "app".into(), "".into(), "s".into(), "b".into(), Some("/a".into()), Some("/b".into()), 10);
    assert_eq!(id, 0);
    assert_eq!(service.status().notifications[0].image_path.as_deref(), Some("/a"));
    assert_eq!(service.status().count, 2);
}

#[test]
fn dbus_notify_replaces_in_place() {
    let mut service = NotificationService::new();
    let mut next = 1;
    let first = service.notify(&mut next, 0, "a".into(), "".into(), "one".into(), "".into(), None, None, 1);
    let second = service.notify(&mut next, 0, "b".into(), "".into(), "two".into(), "".into(), None, None, 2);
    assert_eq!((first, second, next), (1, 2, 3));
    let again = service.notify(&mut next, first, "a".into(), "".into(), "one, updated".into(), "".into(), None, None, 3);
    assert_eq!(again, 1);
    assert_eq!(next, 3);
    let st = service.status();
    assert_eq!(st.count, 2);
    assert_eq!(st.notifications[0].summary, "two");
    assert_eq!(st.notifications[1].id, 1);
    assert_eq!(st.notifications[1].summary, "one, updated");
    let fresh = service.notify(&mut next, 40, "c".into(), "".into(), "new".into(), "".into(), None, None, 4);
    assert_eq!(fresh, 40);
    assert_eq!(service.status().notifications[0].id, 40);
    assert_eq!(service.status().count, 3);
}
