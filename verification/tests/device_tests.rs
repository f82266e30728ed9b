use razermapper::device::{
    create_fallback_device, determine_socket_path, event_device_path, get_group_gid, is_event_device_name,
    is_razer_sysfs_entry, key_code_to_name, key_event, merge_discovered, parse_razer_ids, razer_device_name,
    split_on_char, DeviceRegistry, DeviceTypeFile, GrabDecision, RAZER_VENDOR_ID,
};
use razermapper::injector::{
    char_type_steps, is_allowed_program, key_code_for_char, key_press_events, key_release_events,
    mouse_move_events, mouse_press_events, mouse_release_events, mouse_scroll_events, parse_command,
    type_string_steps, InjectStep, EV_KEY, EV_REL, EV_SYN, KEY_LEFTSHIFT, REL_WHEEL, REL_X, REL_Y, SYN_REPORT,
};
use razermapper::protocol::DeviceInfo;

fn dev(name: &str, path: &str) -> DeviceInfo {
    DeviceInfo {
        name: name.to_string(),
        path: path.to_string(),
        vendor_id: 0x1532,
        product_id: 1,
        phys: String::new(),
    }
}

#[test]
fn test_device_manager_creation() {
    let manager = DeviceRegistry::new();
    assert!(manager.get_devices().is_empty());
    assert!(manager.grabbed_paths().is_empty());
}

#[test]
fn test_key_map_setup() {
    assert_eq!(key_code_for_char('a'), Some(30));
    assert_eq!(key_code_for_char('A'), Some(30));
    assert_eq!(key_code_for_char(' '), Some(57));
    assert_eq!(key_code_for_char('1'), Some(2));
}

#[test]
fn key_map_covers_rows_digits_and_symbols() {
    assert_eq!(key_code_for_char('q'), Some(16));
    assert_eq!(key_code_for_char('p'), Some(25));
    assert_eq!(key_code_for_char('l'), Some(38));
    assert_eq!(key_code_for_char('z'), Some(44));
    assert_eq!(key_code_for_char('M'), Some(50));
    assert_eq!(key_code_for_char('9'), Some(10));
    assert_eq!(key_code_for_char('0'), Some(11));
    assert_eq!(key_code_for_char('\n'), Some(28));
    assert_eq!(key_code_for_char('\t'), Some(15));
    assert_eq!(key_code_for_char('é'), None);
}

#[test]
fn registry_grabs_and_releases() {
    let mut reg = DeviceRegistry::new();
    reg.add_discovered(vec![dev("kbd", "/dev/input/event3"), dev("mouse", "/dev/input/event4")]);
    assert_eq!(reg.get_devices().len(), 2);
    assert_eq!(reg.get_device("/dev/input/event4").unwrap().name, "mouse");
    assert!(reg.get_device("/dev/input/event9").is_none());
    match reg.grab_device("/dev/input/event9") {
        GrabDecision::NotFound(p) => assert_eq!(p, "/dev/input/event9"),
        other => panic!("unexpected {:?}", other),
    }
    assert_eq!(
        GrabDecision::NotFound("/x".to_string()).message(),
        Some("Device not found: /x".to_string())
    );
    match reg.grab_device("/dev/input/event3") {
        GrabDecision::Proceed(d) => assert_eq!(d.name, "kbd"),
        other => panic!("unexpected {:?}", other),
    }
    reg.mark_grabbed("/dev/input/event3".to_string());
    assert!(reg.is_grabbed("/dev/input/event3"));
    assert!(matches!(reg.grab_device("/dev/input/event3"), GrabDecision::AlreadyGrabbed));
    assert_eq!(reg.grabbed_paths(), vec!["/dev/input/event3".to_string()]);
    assert!(reg.ungrab_device("/dev/input/event3"));
    assert!(!reg.ungrab_device("/dev/input/event3"));
    assert!(!reg.is_grabbed("/dev/input/event3"));
}

#[test]
fn merging_scans_keeps_razer_devices_first() {
    let merged = merge_discovered(
        vec![dev("razer", "/dev/input/event2")],
        vec![dev("dup", "/dev/input/event2"), dev("other", "/dev/input/event7")],
    );
    assert_eq!(merged.len(), 2);
    assert_eq!(merged[0].name, "razer");
    assert_eq!(merged[1].name, "other");
}

#[test]
fn names_of_files_and_directories() {
    assert!(is_event_device_name("event12"));
    assert!(!is_event_device_name("mouse0"));
    assert!(is_razer_sysfs_entry("0003:1532:0203.0004"));
    assert!(!is_razer_sysfs_entry("0003:046D:C52B.0001"));
    assert_eq!(parse_razer_ids("0003:1532:0203.0004"), (RAZER_VENDOR_ID, 0x0203));
    assert_eq!(parse_razer_ids("0003:1532:zz.1"), (RAZER_VENDOR_ID, 0));
    assert_eq!(parse_razer_ids("nothing"), (RAZER_VENDOR_ID, 0));
    assert_eq!(split_on_char("a:b::c", ':'), vec!["a", "b", "", "c"]);
    assert_eq!(split_on_char("", ':'), vec![""]);
    assert_eq!(event_device_path("event5"), "/dev/input/event5");
    assert_eq!(razer_device_name(DeviceTypeFile::Missing), "Razer Device");
    assert_eq!(razer_device_name(DeviceTypeFile::Unreadable), "Unknown Razer Device");
    assert_eq!(razer_device_name(DeviceTypeFile::Content(" Razer BlackWidow\n".to_string())), "Razer BlackWidow");
}

#[test]
fn fallback_devices_and_paths() {
    let k = create_fallback_device("keyboard");
    assert_eq!(k.name, "Fallback keyboard");
    assert_eq!(k.path, "/dev/input/event0");
    assert_eq!(k.product_id, 0x0220);
    assert_eq!(k.phys, "fallback-device");
    assert_eq!(create_fallback_device("mouse").path, "/dev/input/event1");
    assert_eq!(get_group_gid("root"), Some(0));
    assert_eq!(get_group_gid("input"), Some(1001));
    assert_eq!(get_group_gid("wheel"), None);
    assert_eq!(determine_socket_path(), "/run/razermapper/razermapper.sock");
}

#[test]
fn key_names() {
    assert_eq!(key_code_to_name(1), "ESC");
    assert_eq!(key_code_to_name(30), "A");
    assert_eq!(key_code_to_name(57), "SPACE");
    assert_eq!(key_code_to_name(9999), "UNKNOWN");
}

#[test]
fn key_events_are_read_from_event_triples() {
    assert_eq!(key_event(EV_KEY, 30, 1), Some((30, true)));
    assert_eq!(key_event(EV_KEY, 30, 0), Some((30, false)));
    assert_eq!(key_event(EV_REL, 0, 5), None);
}

#[test]
fn injector_event_plans() {
    assert_eq!(
        key_press_events(30),
        vec![InjectStep::Emit(EV_KEY, 30, 1), InjectStep::Emit(EV_SYN, SYN_REPORT, 0)]
    );
    assert_eq!(
        key_release_events(30),
        vec![InjectStep::Emit(EV_KEY, 30, 0), InjectStep::Emit(EV_SYN, SYN_REPORT, 0)]
    );
    assert_eq!(
        mouse_press_events(1),
        vec![InjectStep::Emit(EV_KEY, 272, 1), InjectStep::Emit(EV_SYN, SYN_REPORT, 0)]
    );
    assert_eq!(
        mouse_release_events(2),
        vec![InjectStep::Emit(EV_KEY, 273, 0), InjectStep::Emit(EV_SYN, SYN_REPORT, 0)]
    );
    assert_eq!(
        mouse_move_events(3, 0),
        vec![InjectStep::Emit(EV_REL, REL_X, 3), InjectStep::Emit(EV_SYN, SYN_REPORT, 0)]
    );
    assert_eq!(
        mouse_move_events(-1, 4),
        vec![
            InjectStep::Emit(EV_REL, REL_X, -1),
            InjectStep::Emit(EV_REL, REL_Y, 4),
            InjectStep::Emit(EV_SYN, SYN_REPORT, 0)
        ]
    );
    assert_eq!(mouse_move_events(0, 0), vec![InjectStep::Emit(EV_SYN, SYN_REPORT, 0)]);
    assert_eq!(
        mouse_scroll_events(-2),
        vec![InjectStep::Emit(EV_REL, REL_WHEEL, -2), InjectStep::Emit(EV_SYN, SYN_REPORT, 0)]
    );
}

#[test]
fn typing_plans() {
    let lower = char_type_steps('a');
    assert_eq!(
        lower,
        vec![
            InjectStep::Emit(EV_KEY, 30, 1),
            InjectStep::Emit(EV_SYN, SYN_REPORT, 0),
            InjectStep::Sleep(20),
            InjectStep::Emit(EV_KEY, 30, 0),
            InjectStep::Emit(EV_SYN, SYN_REPORT, 0),
            InjectStep::Sleep(30)
        ]
    );
    let upper = char_type_steps('A');
    assert_eq!(upper.len(), 12);
    assert_eq!(upper[0], InjectStep::Emit(EV_KEY, KEY_LEFTSHIFT, 1));
    assert_eq!(upper[2], InjectStep::Sleep(10));
    assert_eq!(upper[9], InjectStep::Emit(EV_KEY, KEY_LEFTSHIFT, 0));
    assert!(char_type_steps('é').is_empty());
    let text = type_string_steps("ab");
    assert_eq!(text.len(), 12);
    assert_eq!(text[6], InjectStep::Emit(EV_KEY, 48, 1));
}

#[test]
fn commands_are_checked() {
    let cl = parse_command("  xdotool key  ctrl+c ").unwrap();
    assert_eq!(cl.program, "xdotool");
    assert_eq!(cl.args, vec!["key".to_string(), "ctrl+c".to_string()]);
    assert_eq!(parse_command("   ").unwrap_err(), "Empty command");
    assert_eq!(parse_command("rm -rf /").unwrap_err(), "Command 'rm' is not allowed");
    assert!(is_allowed_program("pactl"));
    assert!(!is_allowed_program("bash"));
}

#[test]
fn a_later_scan_entry_replaces_an_earlier_one() {
    let mut reg = DeviceRegistry::new();
    reg.add_discovered(vec![dev("old", "/dev/input/event1")]);
    reg.add_discovered(vec![dev("first", "/dev/input/event2"), dev("mid", "/dev/input/event1"), dev("last", "/dev/input/event2")]);
    assert_eq!(reg.get_device("/dev/input/event2").unwrap().name, "last");
    assert_eq!(reg.get_device("/dev/input/event1").unwrap().name, "mid");
    assert_eq!(reg.get_devices().len(), 2);
}

#[test]
fn typing_keys_are_named_after_what_they_type() {
    for c in "qwertyuiopasdfghjklzxcvbnm".chars() {
        let code = key_code_for_char(c).unwrap();
        assert_eq!(key_code_to_name(code), c.to_ascii_uppercase().to_string());
    }
    for d in '0'..='9' {
        assert_eq!(key_code_to_name(key_code_for_char(d).unwrap()), d.to_string());
    }
    assert_eq!(key_code_to_name(key_code_for_char(' ').unwrap()), "SPACE");
    assert_eq!(key_code_to_name(key_code_for_char('\n').unwrap()), "ENTER");
    assert_eq!(key_code_to_name(key_code_for_char('\t').unwrap()), "TAB");
}
