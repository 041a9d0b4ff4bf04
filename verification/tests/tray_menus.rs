use wyrd_shell::json::Json;
use wyrd_shell::tray::{
    click_action, icon_probes, item_is_dead, ClickAction, item_props_from_getall, menu_row, shown_title, DBusMenuItem, FallbackAnswers, MenuRow,
    get_category_icon_name, get_icon_candidates, item_address, menu_margin_left,
    parse_dbus_menu_items, TrayItemData, TrayModule, TrayRequest, TrayClickKind,
};

fn s(x: &str) -> Json {
    Json::Str(x.to_string())
}

fn props(pairs: Vec<(&str, Json)>) -> Json {
    Json::Object(pairs.into_iter().map(|(k, v)| (k.to_string(), v)).collect())
}

fn node(id: i128, p: Json, children: Vec<Json>) -> Json {
    Json::Array(vec![Json::Int(id), p, Json::Array(children)])
}

fn discord_root() -> Json {
    node(
        0,
        props(vec![("children-display", s("submenu"))]),
        vec![
            node(10, props(vec![("label", s("_Open Discord"))]), vec![]),
            node(11, props(vec![("type", s("separator"))]), vec![]),
            node(12, props(vec![("label", s("Mute")), ("visible", Json::Bool(false))]), vec![]),
            node(13, props(vec![("label", s("_Quit")), ("enabled", Json::Bool(true))]), vec![]),
        ],
    )
}

#[test]
fn test_electron_status_icon_candidate_extraction() {
    let discord_cands = get_icon_candidates("", "discord_status_icon_1", "", "Discord");
    assert!(discord_cands.contains(&"discord".to_string()));
    assert!(discord_cands.contains(&"Discord".to_string()));

    let slack_cands = get_icon_candidates("", "Slack_status_icon_1", "", "Slack");
    assert!(slack_cands.contains(&"slack".to_string()));
    assert!(slack_cands.contains(&"Slack".to_string()));
}

#[test]
fn test_symbolic_icon_candidate_extraction() {
    let telegram_cands = get_icon_candidates(
        "org.telegram.desktop-attention-symbolic",
        "TelegramDesktop",
        "",
        "",
    );
    assert!(telegram_cands.contains(&"org.telegram.desktop-attention-symbolic".to_string()));
    assert!(telegram_cands.contains(&"org.telegram.desktop-attention".to_string()));
}

#[test]
fn test_generic_category_icons() {
    assert_eq!(get_category_icon_name("Communications"), "applications-chat");
    assert_eq!(get_category_icon_name("SystemServices"), "applications-system");
    assert_eq!(get_category_icon_name("Hardware"), "preferences-desktop-peripherals");
    assert_eq!(get_category_icon_name("ApplicationStatus"), "applications-other");
}

#[test]
fn test_parse_dbus_menu_items() {
    let layout_direct = discord_root();
    let items = parse_dbus_menu_items(&layout_direct);
    assert_eq!(items.len(), 3);
    assert_eq!(items[0].label, "Open Discord");
    assert!(!items[0].is_separator);
    assert!(items[1].is_separator);
    assert_eq!(items[2].label, "Quit");

    let layout_dbus = Json::Array(vec![Json::Int(2), discord_root()]);
    let items_dbus = parse_dbus_menu_items(&layout_dbus);
    assert_eq!(items_dbus.len(), 3);
    assert_eq!(items_dbus[0].label, "Open Discord");
    assert!(!items_dbus[0].is_separator);
    assert!(items_dbus[1].is_separator);
    assert_eq!(items_dbus[2].label, "Quit");
}

#[test]
fn test_parse_dbus_menu_items_with_submenus_and_toggles() {
    let root = node(
        0,
        props(vec![("children-display", s("submenu"))]),
        vec![
            node(
                50,
                props(vec![("children-display", s("submenu")), ("label", s("_Available Networks"))]),
                vec![
                    node(51, props(vec![("label", s("Home__WiFi"))]), vec![]),
                    node(52, props(vec![("label", s("Guest_WiFi"))]), vec![]),
                ],
            ),
            node(53, props(vec![("type", s("separator"))]), vec![]),
            node(54, props(vec![("label", s("Enable _Networking")), ("toggle-type", s("checkmark")), ("toggle-state", Json::Int(1))]), vec![]),
            node(55, props(vec![("label", s("Enable _Bluetooth")), ("toggle-type", s("checkmark")), ("toggle-state", Json::Int(0))]), vec![]),
        ],
    );
    let layout = Json::Array(vec![Json::Int(1), root]);

    let items = parse_dbus_menu_items(&layout);
    assert_eq!(items.len(), 6);
    assert_eq!(items[0].label, "Available Networks");
    assert!(items[0].is_submenu);
    assert_eq!(items[0].indent_level, 0);

    assert_eq!(items[1].label, "Home_WiFi");
    assert_eq!(items[1].indent_level, 1);

    assert_eq!(items[2].label, "GuestWiFi");
    assert_eq!(items[2].indent_level, 1);

    assert!(items[3].is_separator);

    assert_eq!(items[4].label, "Enable Networking");
    assert_eq!(items[4].toggle_type.as_deref(), Some("checkmark"));
    assert_eq!(items[4].toggle_state, Some(1));

    assert_eq!(items[5].label, "Enable Bluetooth");
    assert_eq!(items[5].toggle_type.as_deref(), Some("checkmark"));
    assert_eq!(items[5].toggle_state, Some(0));
}

fn item(id: &str, service: &str, path: &str, menu: &str) -> TrayItemData {
    TrayItemData {
        id: id.to_string(),
        service: service.to_string(),
        path: path.to_string(),
        menu: menu.to_string(),
        title: String::new(),
        image: None,
        item_is_menu: false,
    }
}

#[test]
fn tray_clicks_find_their_item() {
    let mut m = TrayModule::default();
    m.accept_items(1, vec![item("nm-applet", ":1.42", "/org/ayatana/NotificationItem/nm", "/Menu")]);
    match m.on_event("tray__1_42__org_ayatana_NotificationItem_nm", "right_click:300:10") {
        TrayRequest::ItemClick { index, kind, x, y } => {
            assert_eq!(index, 0);
            assert_eq!(kind, TrayClickKind::Context);
            assert_eq!((x, y), (300, 10));
        }
        other => panic!("unexpected {:?}", other),
    }
    assert!(matches!(m.on_event("tray_unknown", "click"), TrayRequest::Ignore));
    m.open_menu(0);
    match m.on_event("menu_item_7", "click") {
        TrayRequest::ActivateMenuItem { service, menu, id } => {
            assert_eq!(service, ":1.42");
            assert_eq!(menu, "/Menu");
            assert_eq!(id, 7);
        }
        other => panic!("unexpected {:?}", other),
    }
    assert!(matches!(m.on_event("menu_click|svc|/m|x", "click"), TrayRequest::CloseMenu));
    assert_eq!(menu_margin_left(0), 16);
    assert_eq!(menu_margin_left(5000), 1650);
    assert_eq!(menu_margin_left(500), 480);
}

#[test]
fn item_addresses_split_at_the_first_slash() {
    assert_eq!(item_address(":1.5/org/x"), Some((":1.5".to_string(), "/org/x".to_string())));
    assert_eq!(item_address("org.kde.x"), Some(("org.kde.x".to_string(), "/StatusNotifierItem".to_string())));
    assert_eq!(item_address("/only/path"), None);
    assert_eq!(item_address(""), None);
}

#[test]
fn items_differ_on_title() {
    let mut m = TrayModule::default();
    let a = item("a", "s", "/p", "");
    m.accept_items(1, vec![a.clone()]);
    assert!(!m.items_differ(1, &vec![a.clone()]));
    let mut b = a.clone();
    b.title = "new".to_string();
    assert!(m.items_differ(1, &vec![b]));
    assert!(m.items_differ(2, &vec![a]));
}

fn menu_item(id: i32, label: &str, enabled: bool, toggle: Option<&str>, state: Option<i32>, indent: usize) -> DBusMenuItem {
    DBusMenuItem {
        id,
        label: label.to_string(),
        is_separator: false,
        enabled,
        is_submenu: false,
        toggle_type: toggle.map(|t| t.to_string()),
        toggle_state: state,
        indent_level: indent,
    }
}

#[test]
fn menu_rows_show_labels_toggles_and_clicks() {
    match menu_row(2, &menu_item(-5, "Quit", true, None, None, 0)) {
        MenuRow::Button { text, style, on_click } => {
            assert_eq!(text, "Quit");
            assert_eq!(style, "menu_item");
            assert_eq!(on_click, "event:tray:menu_item_2_-5:click");
        }
        other => panic!("unexpected {:?}", other),
    }
    match menu_row(0, &menu_item(7, "", false, Some("checkmark"), Some(1), 1)) {
        MenuRow::Button { text, style, on_click } => {
            assert_eq!(text, "    \u{f0132}  Item");
            assert_eq!(style, "menu_item_disabled");
            assert_eq!(on_click, "");
        }
        other => panic!("unexpected {:?}", other),
    }
    match menu_row(0, &menu_item(7, "Radio", true, Some("radio"), Some(0), 0)) {
        MenuRow::Button { text, .. } => assert_eq!(text, "\u{f0131}  Radio"),
        other => panic!("unexpected {:?}", other),
    }
    let mut sub = menu_item(3, "Networks", true, None, None, 0);
    sub.is_submenu = true;
    assert!(matches!(menu_row(0, &sub), MenuRow::Section(ref t) if t == "\u{25be} Networks"));
    sub.label = String::new();
    assert!(matches!(menu_row(0, &sub), MenuRow::Section(ref t) if t == "Submenu"));
    let mut sep = menu_item(4, "x", true, None, None, 0);
    sep.is_separator = true;
    assert!(matches!(menu_row(0, &sep), MenuRow::Separator));
}

#[test]
fn item_properties_from_answers() {
    let v = props(vec![
        ("Id", s("")),
        ("Title", s("Player")),
        ("ToolTip", Json::Array(vec![s("i"), Json::Array(vec![]), s("Now playing")])),
        ("ItemIsMenu", Json::Bool(true)),
    ]);
    let mut p = item_props_from_getall(":1.42", &v);
    assert!(!p.got_props);
    assert_eq!(p.item_id, ":1.42");
    assert_eq!(p.title, "Player");
    assert_eq!(p.tooltip_title, "Now playing");
    assert!(p.item_is_menu);
    assert!(!item_is_dead(&p));
    let answers = FallbackAnswers {
        id: Json::Null,
        title: s("Better"),
        icon_name: s("icon"),
        category: Json::Null,
        menu: s("/Menu"),
        item_is_menu: Json::Bool(false),
    };
    p.apply_fallback(":1.42", &answers);
    assert_eq!(p.item_id, "Better");
    assert_eq!(p.title, "Better");
    assert_eq!(p.icon_name, "icon");
    assert_eq!(p.menu, "/Menu");
    assert!(!p.item_is_menu);
    let empty = item_props_from_getall("svc", &Json::Null);
    assert!(item_is_dead(&empty));
    assert_eq!(empty.item_id, "svc");
    assert_eq!(shown_title("", "id"), "id");
    assert_eq!(shown_title("t", "id"), "t");
}

#[test]
fn built_menu_button_activates_its_entry() {
    let mut t = TrayModule::default();
    t.items = vec![item("a", ":1.5", "/A", "/MenuA"), item("b", ":1.9", "/B", "/MenuB")];
    let on_click = match menu_row(1, &menu_item(42, "Quit", true, None, None, 0)) {
        MenuRow::Button { on_click, .. } => on_click,
        _ => panic!("expected a button"),
    };
    assert_eq!(on_click, "event:tray:menu_item_1_42:click");
    let widget = on_click.strip_prefix("event:tray:").unwrap().strip_suffix(":click").unwrap();
    match t.on_event(widget, "click") {
        TrayRequest::ActivateMenuItem { service, menu, id } => {
            assert_eq!((service.as_str(), menu.as_str(), id), (":1.9", "/MenuB", 42));
        }
        other => panic!("unexpected {:?}", other),
    }
}

#[test]
fn icon_probes_follow_the_search_order() {
    let p = icon_probes("app", "/opt/app/icon.png", "/opt/app/icons", "", "");
    assert_eq!(p.direct.as_deref(), Some("/opt/app/icon.png"));
    let p = icon_probes("", "mail", "/t", "", "");
    assert!(p.direct.is_none());
    assert_eq!(p.theme_names[0], "mail");
    assert_eq!(p.theme_files[0], "/t/mail.svg");
    assert_eq!(p.theme_files[1], "/t/mail.png");
    assert_eq!(p.theme_files.len(), 2 * p.theme_names.len());
    assert!(icon_probes("", "mail", "", "", "").theme_files.is_empty());
}

#[test]
fn tray_clicks_fall_back_in_order() {
    assert_eq!(click_action(TrayClickKind::Context, false, 0, false), ClickAction::ShowMenu);
    assert_eq!(click_action(TrayClickKind::Context, false, 1, false), ClickAction::SecondaryActivate);
    assert_eq!(click_action(TrayClickKind::Context, false, 1, true), ClickAction::Done);
    assert_eq!(click_action(TrayClickKind::Middle, false, 0, false), ClickAction::SecondaryActivate);
    assert_eq!(click_action(TrayClickKind::Middle, false, 1, false), ClickAction::Activate);
    assert_eq!(click_action(TrayClickKind::Primary, true, 0, false), ClickAction::ShowMenu);
    assert_eq!(click_action(TrayClickKind::Primary, true, 1, true), ClickAction::SecondaryActivate);
    assert_eq!(click_action(TrayClickKind::Primary, false, 0, false), ClickAction::Activate);
    assert_eq!(click_action(TrayClickKind::Primary, false, 1, false), ClickAction::SecondaryActivate);
    assert_eq!(click_action(TrayClickKind::Primary, false, 2, false), ClickAction::ShowMenu);
    assert_eq!(click_action(TrayClickKind::Primary, false, 2, true), ClickAction::Done);
    assert_eq!(click_action(TrayClickKind::Primary, false, 3, false), ClickAction::Done);
}
