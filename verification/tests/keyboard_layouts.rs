use wyrd_shell::keyboard::{format_layout, layout_choices, KeyboardAction, KeyboardInfo, KeyboardModule};

#[test]
fn test_format_layout() {
    let kb = KeyboardInfo {
        layout: "Russian".to_string(),
        short_name: "RU".to_string(),
        variant: String::new(),
        index: 1,
        layouts: vec!["English (US)".to_string(), "Russian".to_string()],
        short_layouts: vec!["US".to_string(), "RU".to_string()],
        device_name: "epomaker".to_string(),
    };

    assert_eq!(format_layout(&kb, "short", "󰌌"), "RU");
    assert_eq!(format_layout(&kb, "full", "󰌌"), "Russian");
    assert_eq!(format_layout(&kb, "icon_short", "󰌌"), "󰌌 RU");
    assert_eq!(format_layout(&kb, "icon_full", "󰌌"), "󰌌 Russian");
    assert_eq!(format_layout(&kb, "code", "󰌌"), "RU");
}

#[test]
fn test_default_keyboard_info() {
    let kb = KeyboardInfo::default();
    assert_eq!(format_layout(&kb, "short", "󰌌"), "EN");
}

#[test]
fn default_module_and_choices() {
    let m = KeyboardModule::default();
    assert_eq!(m.format, "short");
    assert_eq!(format_layout(&m.current, "full", ""), "English (US)");
    let kb = KeyboardInfo {
        layout: "Russian".to_string(),
        short_name: "RU".to_string(),
        variant: String::new(),
        index: 1,
        layouts: vec!["English (US)".to_string(), "Russian".to_string()],
        short_layouts: vec!["US".to_string(), "RU".to_string(), "DE".to_string()],
        device_name: String::new(),
    };
    let choices = layout_choices(&kb);
    assert_eq!(choices.len(), 3);
    assert_eq!(choices[0].label, "English (US) (US)");
    assert!(!choices[0].active);
    assert!(choices[1].active);
    assert_eq!(choices[2].label, "DE");
}

#[test]
fn clicks_switch_layouts() {
    let m = KeyboardModule::default();
    match m.on_event("keyboard", "click") {
        KeyboardAction::Switch(q) => assert_eq!(q, "{\"cmd\":\"switch_layout\",\"id\":\"next\"}"),
        other => panic!("unexpected {:?}", other),
    }
    match m.on_event("keyboard_select_2", "click") {
        KeyboardAction::Switch(q) => assert_eq!(q, "{\"cmd\":\"switch_layout\",\"id\":\"2\"}"),
        other => panic!("unexpected {:?}", other),
    }
    assert!(matches!(m.on_event("changed", ""), KeyboardAction::Refresh));
    assert!(matches!(m.on_event("keyboard", "hover"), KeyboardAction::Nothing));
}
