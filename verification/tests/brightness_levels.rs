use wyrd_shell::brightness::{
    device_from_sysfs, rank_device_type, sort_by_rank, BacklightDevice, BrightnessInput,
    BrightnessModule,
};
use wyrd_shell::json::Json;

fn dev(name: &str, ty: &str, current: u64, max: u64) -> BacklightDevice {
    BacklightDevice { name: name.to_string(), device_type: ty.to_string(), current, max }
}

#[test]
fn test_device_percent_calculation() {
    assert_eq!(dev("amdgpu_bl2", "raw", 32768, 65535).percent(), 50);
    assert_eq!(dev("amdgpu_bl2", "raw", 0, 65535).percent(), 0);
    assert_eq!(dev("amdgpu_bl2", "raw", 65535, 65535).percent(), 100);
}

#[test]
fn test_to_raw_value_and_clamping() {
    let d = dev("intel_backlight", "raw", 500, 1000);
    assert_eq!(d.to_raw_value(75, 1), 750);
    assert_eq!(d.to_raw_value(0, 5), 50);
    assert_eq!(d.to_raw_value(120, 1), 1000);
}

#[test]
fn test_rank_device_type() {
    assert!(rank_device_type("raw") > rank_device_type("platform"));
    assert!(rank_device_type("platform") > rank_device_type("firmware"));
    assert!(rank_device_type("firmware") > rank_device_type("unknown"));
}

#[test]
fn rank_ignores_case_and_spaces() {
    assert_eq!(rank_device_type("  RAW\n"), 3);
    assert_eq!(rank_device_type("Platform"), 2);
}

#[test]
fn zero_maximum_reads_as_zero_percent() {
    assert_eq!(dev("x", "raw", 10, 0).percent(), 0);
    assert_eq!(dev("x", "raw", 200, 100).percent(), 100);
    assert_eq!(dev("x", "raw", 1, 3).percent(), 33);
    assert_eq!(dev("x", "raw", 1, 200).percent(), 1);
}

#[test]
fn devices_sort_by_type_keeping_order() {
    let ds = vec![dev("a", "firmware", 1, 2), dev("b", "raw", 1, 2), dev("c", "platform", 1, 2), dev("d", "raw", 1, 2)];
    let sorted = sort_by_rank(&ds);
    let names: Vec<&str> = sorted.iter().map(|d| d.name.as_str()).collect();
    assert_eq!(names, vec!["b", "d", "c", "a"]);
}

#[test]
fn sysfs_texts_make_a_device() {
    let d = device_from_sysfs("intel".to_string(), Some("1000\n".to_string()), None, Some("400\n".to_string()), None).unwrap();
    assert_eq!(d.max, 1000);
    assert_eq!(d.current, 400);
    assert_eq!(d.device_type, "raw");
    assert!(device_from_sysfs("x".to_string(), Some("0".to_string()), None, None, None).is_none());
    let d2 = device_from_sysfs("y".to_string(), Some("10".to_string()), Some("junk".to_string()), Some("5".to_string()), Some(" platform ".to_string())).unwrap();
    assert_eq!(d2.current, 10);
    assert_eq!(d2.device_type, "platform");
}

#[test]
fn events_step_and_clamp() {
    let mut m = BrightnessModule::default();
    m.apply_config(&Json::Object(vec![("step".to_string(), Json::Int(10)), ("min_percent".to_string(), Json::Int(80))]));
    assert_eq!(m.step, 10);
    assert_eq!(m.min_percent, 50);
    m.current_percent = 95;
    assert_eq!(m.read_input("brightness", "scroll_up"), BrightnessInput::Level(100));
    m.current_percent = 55;
    assert_eq!(m.read_input("brightness_dec", "click"), BrightnessInput::Level(50));
    assert_eq!(m.read_input("brightness_preset_75", "click"), BrightnessInput::Level(75));
    assert_eq!(m.read_input("brightness_preset_x", "click"), BrightnessInput::Ignore);
    assert_eq!(m.read_input("slider_brightness", "change:42"), BrightnessInput::Level(42));
    assert_eq!(m.read_input("slider_brightness", "42.5"), BrightnessInput::Number);
    m.active_device = Some(dev("d", "raw", 0, 1000));
    assert_eq!(m.set_level(30), Some(500));
    assert_eq!(m.current_percent, 50);
    assert_eq!(m.active_device.as_ref().unwrap().current, 500);
}

#[test]
fn preferred_device_is_picked() {
    let mut m = BrightnessModule::default();
    m.apply_config(&Json::Object(vec![("device".to_string(), Json::Str("b".to_string()))]));
    let ds = vec![dev("a", "raw", 1, 2), dev("b", "raw", 1, 2)];
    assert_eq!(m.pick_device(&ds).unwrap().name, "b");
    let m2 = BrightnessModule::default();
    assert_eq!(m2.pick_device(&ds).unwrap().name, "a");
    assert!(m2.pick_device(&Vec::new()).is_none());
}
