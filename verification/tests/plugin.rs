use waybar_modules::plugin::{graph_settings, Error, InitInfo};

#[test]
fn null_init_info_is_refused() {
    assert!(matches!(InitInfo::new(0), Err(Error::InitInfoNull)));
}

#[test]
fn init_info_keeps_address() {
    match InitInfo::new(0x1000) {
        Ok(info) => assert_eq!(info.address(), 0x1000),
        Err(_) => panic!("a non-null address is accepted"),
    }
}

#[test]
fn settings_defaults() {
    let s = graph_settings(None, None, None);
    assert_eq!((s.history, s.interval), (10, 5));
    assert_eq!(s.temperature_item, "");
    assert!(!s.uses_named_sensor());
    assert_eq!(s.history_len(), 10);
    assert_eq!(s.sleep_secs(), 5);
}

#[test]
fn settings_configured() {
    let s = graph_settings(Some(20), Some(1), Some(String::from("acpitz")));
    assert_eq!((s.history, s.interval), (20, 1));
    assert!(s.uses_named_sensor());
    assert_eq!(s.history_len(), 20);
}

#[test]
fn negative_settings_cast_like_as() {
    let s = graph_settings(Some(-1), Some(-2), None);
    assert_eq!(s.history_len(), -1i32 as usize);
    assert_eq!(s.sleep_secs(), -2i32 as u64);
}
