use wyrd_shell::json::Json;
use wyrd_shell::network::{parse_ssid_bytes, NetworkAction, NetworkModule};

#[test]
fn test_parse_ssid_bytes() {
    let bytes_val = Json::Array(vec![
        Json::Int(77),
        Json::Int(121),
        Json::Int(87),
        Json::Int(105),
        Json::Int(70),
        Json::Int(105),
    ]);
    assert_eq!(parse_ssid_bytes(&bytes_val), "MyWiFi");

    let str_val = Json::Str("DirectString".to_string());
    assert_eq!(parse_ssid_bytes(&str_val), "DirectString");

    let null_val = Json::Null;
    assert_eq!(parse_ssid_bytes(&null_val), "");
}

#[test]
fn test_network_auth_state_initialization() {
    let module = NetworkModule::default();
    assert!(module.auth_target_ssid.is_none());
    assert!(module.auth_password.is_empty());
    assert!(!module.auth_popup_open);
    assert!(module.auth_error.is_none());
}

#[test]
fn test_network_auth_input_event() {
    let mut module = NetworkModule {
        auth_error: Some("Old error".to_string()),
        ..Default::default()
    };
    module.on_event("wifi_auth_input", "mypassword123");
    assert_eq!(module.auth_password, "mypassword123");
    assert!(module.auth_error.is_none());
}

#[test]
fn test_network_auth_cancel_event() {
    let mut module = NetworkModule {
        auth_target_ssid: Some("TestSSID".to_string()),
        auth_password: "temp".to_string(),
        auth_popup_open: true,
        auth_error: Some("Error".to_string()),
        ..Default::default()
    };
    module.on_event("wifi_auth_cancel", "click");
    assert!(!module.auth_popup_open);
    assert!(module.auth_password.is_empty());
    assert!(module.auth_error.is_none());
}

#[test]
fn test_network_auth_close_event() {
    let mut module = NetworkModule {
        auth_target_ssid: Some("TestSSID".to_string()),
        auth_password: "temp".to_string(),
        auth_popup_open: true,
        auth_error: Some("Error".to_string()),
        ..Default::default()
    };
    module.on_event("wifi-auth", "close");
    assert!(!module.auth_popup_open);
    assert!(module.auth_password.is_empty());
    assert!(module.auth_error.is_none());
}

#[test]
fn invalid_ssid_bytes_read_as_empty() {
    let bad = Json::Array(vec![Json::Int(0xff), Json::Int(0xfe)]);
    assert_eq!(parse_ssid_bytes(&bad), "");
    let wrapped = Json::Array(vec![Json::Int(300), Json::Str("x".to_string())]);
    assert_eq!(parse_ssid_bytes(&wrapped), ",");
}

#[test]
fn unknown_events_do_nothing() {
    let mut module = NetworkModule::default();
    let action = module.on_event("something_else", "hover");
    assert!(matches!(action, NetworkAction::Nothing));
}
