use tango_bridge::pin::{
    format_pin, generate_pin, get_pin, home_from, pin_file_path, plan_init, regenerate_pin, verify_pin,
    InitPlan, PinStore,
};

fn is_six_digits(s: &str) -> bool {
    s.len() == 6 && s.chars().all(|c| c.is_ascii_digit())
}

#[test]
fn format_pin_pads_to_six_digits() {
    assert_eq!(format_pin(0), "000000");
    assert_eq!(format_pin(42817), "042817");
    assert_eq!(format_pin(999999), "999999");
}

#[test]
fn generated_pins_are_six_digits() {
    for _ in 0..200 {
        assert!(is_six_digits(&generate_pin()));
    }
}

#[test]
fn pin_file_path_joins_home() {
    assert_eq!(pin_file_path("/home/user"), "/home/user/.android/tango-bridge.pin");
    assert_eq!(pin_file_path("/home/user/"), "/home/user/.android/tango-bridge.pin");
    assert_eq!(pin_file_path(""), ".android/tango-bridge.pin");
}

#[test]
fn plan_init_uses_stored_pin() {
    match plan_init(Some("  123456\n")) {
        InitPlan::UseStored(pin) => assert_eq!(pin, "123456"),
        InitPlan::SaveNew { .. } => panic!("expected the stored PIN"),
    }
}

#[test]
fn plan_init_blank_file_saves_new_pin() {
    match plan_init(Some(" \n\t")) {
        InitPlan::SaveNew { pin, create_dir } => {
            assert!(is_six_digits(&pin));
            assert!(!create_dir);
        }
        InitPlan::UseStored(_) => panic!("expected a new PIN"),
    }
}

#[test]
fn plan_init_unreadable_file_creates_directory() {
    match plan_init(None) {
        InitPlan::SaveNew { pin, create_dir } => {
            assert!(is_six_digits(&pin));
            assert!(create_dir);
        }
        InitPlan::UseStored(_) => panic!("expected a new PIN"),
    }
}

#[test]
fn pin_cell_is_set_once() {
    let mut store = PinStore::new();
    assert!(!store.is_initialized());
    store.init_pin("111111".to_string());
    store.init_pin("222222".to_string());
    assert!(store.is_initialized());
    assert_eq!(get_pin(&store), "111111");
}

#[test]
fn verify_pin_accepts_only_the_stored_pin() {
    let mut store = PinStore::new();
    assert!(!verify_pin(&store, "123456"));
    store.init_pin("123456".to_string());
    assert!(verify_pin(&store, "123456"));
    assert!(!verify_pin(&store, "123457"));
    assert!(!verify_pin(&store, ""));
}

#[test]
fn regenerated_pin_replaces_the_stored_one() {
    let mut store = PinStore::new();
    store.init_pin("000000".to_string());
    let mut new_pin = regenerate_pin(&mut store);
    while new_pin == "000000" {
        new_pin = regenerate_pin(&mut store);
    }
    assert!(is_six_digits(&new_pin));
    assert_eq!(get_pin(&store), new_pin);
    assert!(verify_pin(&store, &new_pin));
    assert!(!verify_pin(&store, "000000"));
}

#[test]
fn regenerate_before_init_leaves_cell_unset() {
    let mut store = PinStore::new();
    let pin = regenerate_pin(&mut store);
    assert!(is_six_digits(&pin));
    assert!(!store.is_initialized());
    assert!(!verify_pin(&store, &pin));
}

#[test]
fn saved_pin_loads_back() {
    let pin = generate_pin();
    match plan_init(Some(&pin)) {
        InitPlan::UseStored(stored) => assert_eq!(stored, pin),
        InitPlan::SaveNew { .. } => panic!("expected the saved PIN"),
    }
}

#[test]
fn stored_pin_is_trimmed_of_unicode_whitespace() {
    match plan_init(Some("\u{3000}\u{a0} 654321\u{2028}\r\n")) {
        InitPlan::UseStored(pin) => assert_eq!(pin, "654321"),
        InitPlan::SaveNew { .. } => panic!("expected the stored PIN"),
    }
    match plan_init(Some("\u{85}\u{200a}")) {
        InitPlan::SaveNew { create_dir, .. } => assert!(!create_dir),
        InitPlan::UseStored(_) => panic!("expected a new PIN"),
    }
}

#[test]
fn home_prefers_the_first_variable() {
    assert_eq!(home_from(Some("C:\\Users\\a".to_string()), Some("\\Users\\b".to_string())), "C:\\Users\\a");
    assert_eq!(home_from(None, Some("\\Users\\b".to_string())), "\\Users\\b");
    assert_eq!(home_from(Some("/home/a".to_string()), None), "/home/a");
    assert_eq!(home_from(None, None), "");
}

#[test]
fn pin_read_back_after_any_calls_is_clean() {
    let mut store = PinStore::new();
    let first = match plan_init(Some("\t 314159 \n")) {
        InitPlan::UseStored(pin) => pin,
        InitPlan::SaveNew { pin, .. } => pin,
    };
    store.init_pin(first);
    for _ in 0..20 {
        let pin = get_pin(&store);
        assert!(!pin.is_empty());
        assert_eq!(pin, pin.trim());
        regenerate_pin(&mut store);
        store.init_pin("999999".to_string());
    }
    assert!(is_six_digits(&get_pin(&store)));
}

#[test]
fn stored_pin_is_trimmed_as_str_trim_does() {
    for code in 0u32..0x3100 {
        let Some(c) = char::from_u32(code) else { continue };
        let content = format!("{c}{c}12 34{c}");
        let expected = content.trim();
        match plan_init(Some(&content)) {
            InitPlan::UseStored(pin) => assert_eq!(pin, expected),
            InitPlan::SaveNew { .. } => panic!("expected the stored PIN"),
        }
    }
}
