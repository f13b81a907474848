use pyren::error::{ErrorKind, Wording};
use pyren::keymap::config::{
    call_named, forward, grab_outcome, invalid_mapping, invalid_spec, route, substitute, table,
    uinput_failure, Attempt, Call, KeyMapping, KeySpec, KeymapConfig, KeymapModule, Refusal, Unavailable,
};
use pyren::keymap::raw::{
    device_name, ioc, is_event_name, read_events, uinput_setup, write_event, InputEvent,
    UinputSetup, EVENT_SIZE, EVIOCGRAB, EV_KEY, EV_SYN, UI_DEV_CREATE, UI_DEV_DESTROY,
    UI_DEV_SETUP, UI_SET_EVBIT, UI_SET_KEYBIT,
};
use serde_json::Value;

/// Words for refusals, as a host would choose them.
fn words() -> Wording {
    Wording {
        invalid_params: "bad request: ".to_string(),
        unknown_method: "no such method: ".to_string(),
        unsupported: "not supported".to_string(),
        not_capable: "not possible: ".to_string(),
        permission_denied: "needs elevated privileges: ".to_string(),
        busy: "busy: ".to_string(),
        io: "I/O: ".to_string(),
        failed: String::new(),
        internal: "internal: ".to_string(),
    }
}

fn object(fields: Vec<(&str, Value)>) -> Value {
    let mut map = serde_json::Map::new();
    for (name, value) in fields {
        map.insert(name.to_string(), value);
    }
    Value::Object(map)
}

fn spec(keycode: u16) -> KeySpec {
    KeySpec { device: None, keycode }
}

fn on(device: &str, keycode: u16) -> KeySpec {
    KeySpec { device: Some(device.to_string()), keycode }
}

fn map(from: KeySpec, to: u16) -> KeyMapping {
    KeyMapping { from, to }
}

// --- the module ----------------------------------------------------------

#[test]
fn a_fresh_module_is_disabled_and_empty() {
    for module in [KeymapModule::new(), KeymapModule::with_store(KeymapConfig::default())] {
        assert!(!module.config.enabled);
        assert!(!module.running);
        assert!(module.config.mappings.is_empty());
        assert_eq!(module.detail().key, "keymap.detail.disabled");
    }
}

#[test]
fn setting_a_mapping_persists_and_replaces_the_same_key() {
    let mut module = KeymapModule::new();
    module.set_mapping(map(spec(1), 2));
    module.set_mapping(map(spec(1), 3));
    let mappings = &module.config.mappings;
    assert_eq!(mappings.len(), 1, "the second call replaces the first, not adds to it");
    assert_eq!(mappings[0].to, 3);
}

#[test]
fn two_devices_can_map_the_same_keycode_independently() {
    let mut module = KeymapModule::new();
    module.set_mapping(map(on("kbd A", 1), 2));
    module.set_mapping(map(on("kbd B", 1), 3));
    assert_eq!(module.config.mappings.len(), 2);
}

#[test]
fn removing_a_mapping_drops_only_that_key() {
    let mut module = KeymapModule::new();
    module.set_mapping(map(spec(1), 2));
    module.set_mapping(map(spec(5), 6));
    module.remove_mapping(&spec(1));
    let mappings = &module.config.mappings;
    assert_eq!(mappings.len(), 1);
    assert_eq!(mappings[0].from.keycode, 5);
}

#[test]
fn the_substitution_table_is_built_from_current_mappings() {
    let mut module = KeymapModule::new();
    module.set_mapping(map(spec(1), 2));
    module.set_mapping(map(spec(3), 4));
    let table = table(&module.config.mappings);
    assert_eq!(table.get(&1), Some(&2));
    assert_eq!(table.get(&3), Some(&4));
    assert_eq!(table.get(&99), None);
}

#[test]
fn an_invalid_mapping_is_rejected_before_touching_the_config() {
    let detail = "missing field `keycode`".to_string();
    let err = invalid_mapping(detail.clone());
    assert_eq!(err.kind(), ErrorKind::InvalidParams);
    assert_eq!(err.to_text(&words()), "invalid mapping: missing field `keycode`");
    let err = invalid_spec(detail);
    assert_eq!(err.kind(), ErrorKind::InvalidParams);
    assert_eq!(err.to_text(&words()), "invalid key: missing field `keycode`");
}

#[test]
fn set_enabled_without_the_param_is_invalid_params() {
    let err = route("setEnabled", &object(vec![])).unwrap_err();
    assert_eq!(err.kind(), ErrorKind::InvalidParams);
    let err = route("setEnabled", &object(vec![("enabled", Value::from(1))])).unwrap_err();
    assert_eq!(err.kind(), ErrorKind::InvalidParams);
    let on = object(vec![("enabled", Value::from(true))]);
    assert_eq!(route("setEnabled", &on).unwrap(), Call::SetEnabled(true));
    assert_eq!(call_named("setEnabled", Some(false)).unwrap(), Call::SetEnabled(false));
}

#[test]
fn lib_unknown_method_is_reported_by_name() {
    let err = route("frobnicate", &Value::Null).unwrap_err();
    assert_eq!(err.kind(), ErrorKind::UnknownMethod);
    assert!(err.to_text(&words()).contains("frobnicate"));
    assert_eq!(route("getStatus", &Value::Null).unwrap(), Call::GetStatus);
    assert_eq!(route("setMapping", &Value::Null).unwrap(), Call::SetMapping);
    assert_eq!(route("removeMapping", &Value::Null).unwrap(), Call::RemoveMapping);
}

#[test]
fn key_spec_equality_ignores_nothing() {
    assert_ne!(spec(1), KeySpec { device: Some("x".into()), keycode: 1 });
    assert_eq!(spec(1), spec(1));
    assert!(!spec(1).same_as(&on("x", 1)));
    assert!(spec(1).same_as(&spec(1)) && !spec(1).same_as(&spec(2)));
    assert!(on("x", 1).same_as(&on("x", 1)) && !on("x", 1).same_as(&on("y", 1)));
}

#[test]
fn a_path_outside_dev_input_is_not_a_device() {
    assert!(!is_event_name("null"));
    assert!(!is_event_name("mouse0"));
    assert!(is_event_name("event3"));
    assert_eq!(device_name("AT Translated Set 2 keyboard\n"), "AT Translated Set 2 keyboard");
}

#[test]
fn a_remapper_is_started_once_and_its_end_is_noticed() {
    let mut module = KeymapModule::new();
    assert!(!module.must_start());
    assert!(module.set_enabled(true));
    module.started(vec!["kbd".to_string()]);
    assert!(module.running && !module.must_start());
    assert!(!module.set_enabled(true), "one remapper is enough");
    assert_eq!(module.detail().key, "keymap.detail.noMappings");
    module.set_mapping(map(spec(1), 2));
    assert_eq!(module.detail().text, "remapping 1 keys");
    module.stopped();
    assert!(!module.running && module.devices.is_empty());
    assert!(!module.set_enabled(false));
    module.saved(Err("disk full".to_string()));
    assert_eq!(module.last_save_error.as_deref(), Some("disk full"));
    module.saved(Ok(()));
    assert_eq!(module.last_save_error, None);
}

#[test]
fn every_reason_not_to_run_is_said() {
    let denied = Attempt::OpenRefused(Refusal::PermissionDenied);
    let gone = Attempt::OpenRefused(Refusal::NotFound);
    let grabbed = |name: &str| Attempt::Grabbed(name.to_string());
    assert_eq!(
        grab_outcome(&vec![grabbed("a"), denied.clone(), Attempt::GrabRefused, grabbed("b")]),
        Ok(vec!["a".to_string(), "b".to_string()])
    );
    assert_eq!(grab_outcome(&vec![gone.clone(), denied]), Err(Unavailable::NeedsRoot));
    assert_eq!(grab_outcome(&vec![gone, Attempt::GrabRefused]), Err(Unavailable::NoDevices));
    assert_eq!(grab_outcome(&Vec::new()), Err(Unavailable::NoDevices));
    assert_eq!(uinput_failure(Refusal::NotFound, "x".to_string()), Unavailable::NoUinput);
    assert_eq!(uinput_failure(Refusal::PermissionDenied, "x".to_string()), Unavailable::NeedsRoot);
    let other = uinput_failure(Refusal::Other, "it broke".to_string());
    assert_eq!(other, Unavailable::Io("it broke".to_string()));
    assert_eq!(other.to_msg().text, "it broke");
    for (reason, key) in [
        (Unavailable::NoDevices, "keymap.unavailable.noDevices"),
        (Unavailable::NeedsRoot, "keymap.unavailable.needsRoot"),
        (Unavailable::NoUinput, "keymap.unavailable.noUinput"),
    ] {
        let mut module = KeymapModule::new();
        module.could_not_start(reason);
        assert_eq!(module.detail().key, key);
    }
}

// --- the events ----------------------------------------------------------

/// The formula, checked against the numbers `linux/input.h` and
/// `linux/uinput.h` are known to expand to.
#[test]
fn ioctl_numbers_match_the_kernel_headers() {
    assert_eq!(EVIOCGRAB, 0x40044590);
    assert_eq!(UI_DEV_CREATE, 0x5501);
    assert_eq!(UI_DEV_DESTROY, 0x5502);
    assert_eq!(UI_SET_EVBIT, 0x40045564);
    assert_eq!(UI_SET_KEYBIT, 0x40045565);
    assert_eq!(UI_DEV_SETUP, 0x405c5503);
    assert_eq!(ioc(1, b'E', 0x90, 4), EVIOCGRAB);
    assert_eq!(ioc(1, b'U', 3, 92), UI_DEV_SETUP);
    assert_eq!(ioc(0, b'U', 1, 0), UI_DEV_CREATE);
}

#[test]
fn uinput_setup_is_the_size_the_kernel_expects() {
    // input_id (4 x u16 = 8 bytes) + 80-byte name + u32 = 92 bytes.
    assert_eq!(std::mem::size_of::<UinputSetup>(), 92);
    assert_eq!(uinput_setup("pyren").to_bytes().len(), 92);
}

#[test]
fn the_event_struct_is_the_size_the_kernel_writes() {
    assert_eq!(EVENT_SIZE, std::mem::size_of::<libc::timeval>() + 8);
}

#[test]
fn the_virtual_keyboard_is_named() {
    let setup = uinput_setup("pyren");
    assert_eq!(&setup.name[..6], b"pyren\0");
    let bytes = setup.to_bytes();
    assert_eq!(&bytes[8..13], b"pyren");
    let long = "k".repeat(200);
    let setup = uinput_setup(&long);
    assert_eq!(setup.name[78], b'k');
    assert_eq!(setup.name[79], 0, "the kernel needs the terminator");
}

fn key(code: u16, value: i32) -> InputEvent {
    InputEvent { seconds: 12, micros: -3, kind: EV_KEY, code, value }
}

#[test]
fn an_event_written_is_the_event_read() {
    for event in [key(30, 1), key(0x2ff, -1), InputEvent { kind: EV_SYN, ..key(0, 0) }] {
        let bytes = write_event(event);
        assert_eq!(bytes.len(), EVENT_SIZE);
        assert_eq!(read_events(&bytes), vec![event]);
    }
    let mut two = write_event(key(30, 1));
    two.extend(write_event(key(31, 0)));
    two.push(7);
    assert_eq!(read_events(&two), vec![key(30, 1), key(31, 0)], "a partial event is left out");
}

#[test]
fn only_mapped_keys_are_substituted() {
    let table = table(&vec![map(spec(30), 48)]);
    assert_eq!(substitute(key(30, 1), &table), key(48, 1));
    assert_eq!(substitute(key(31, 1), &table), key(31, 1));
    let sync = InputEvent { kind: EV_SYN, ..key(30, 0) };
    assert_eq!(substitute(sync, &table), sync, "only keys are remapped");
    let mut buffer = write_event(key(30, 1));
    buffer.extend(write_event(sync));
    assert_eq!(forward(&buffer, &table), vec![key(48, 1), sync]);
}
