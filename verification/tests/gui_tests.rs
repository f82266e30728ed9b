use razermapper::gui::{device_kind, device_label, kind_of_lowercase_name, DeviceKind, Effect, Message, State, Tab};
use razermapper::protocol::{Action, DeviceInfo, KeyCombo, MacroEntry};

fn create_test_device(name: &str, path: &str) -> DeviceInfo {
    DeviceInfo {
        name: name.to_string(),
        path: path.to_string(),
        vendor_id: 0x1532,
        product_id: 0x0203,
        phys: "usb-0000:00:14.0-1/input/input0".to_string(),
    }
}

fn create_test_macro(name: &str, enabled: bool) -> MacroEntry {
    MacroEntry {
        name: name.to_string(),
        trigger: KeyCombo { keys: vec![30, 40], modifiers: vec![29] },
        actions: vec![Action::KeyPress(30), Action::Delay(100), Action::KeyRelease(30)],
        device_id: Some("test_device".to_string()),
        enabled,
    }
}

fn create_test_state() -> State {
    let mut state = State::new();
    state.devices = vec![
        create_test_device("Razer Keyboard", "/dev/input/event0"),
        create_test_device("Razer Mouse", "/dev/input/event1"),
    ];
    state.macros = vec![create_test_macro("Test Macro 1", true), create_test_macro("Test Macro 2", false)];
    state.selected_device = Some(0);
    state.status = "Test initialized".to_string();
    state.daemon_connected = true;
    state.socket_path = "/tmp/test.sock".to_string();
    state.status_history.push_back("Previous status 1".to_string());
    state.status_history.push_back("Previous status 2".to_string());
    state
}

#[test]
fn test_devices_loaded_message() {
    let mut state = State::new();

    let devices = vec![
        create_test_device("Test Device 1", "/dev/input/event0"),
        create_test_device("Test Device 2", "/dev/input/event1"),
    ];

    let message = Message::DevicesLoaded(Ok(devices.clone()));
    let _command = state.update(message, 0);

    assert_eq!(state.devices.len(), 2);
    assert_eq!(state.devices[0].name, "Test Device 1");
    assert_eq!(state.devices[1].name, "Test Device 2");
    assert!(state.selected_device.is_none());
}

#[test]
fn test_macros_loaded_message() {
    let mut state = State::new();

    let macros = vec![
        create_test_macro("Test Macro 1", true),
        create_test_macro("Test Macro 2", false),
        create_test_macro("Test Macro 3", true),
    ];

    let message = Message::MacrosLoaded(Ok(macros.clone()));
    let _command = state.update(message, 0);

    assert_eq!(state.macros.len(), 3);
    assert_eq!(state.macros[0].name, "Test Macro 1");
    assert_eq!(state.macros[1].name, "Test Macro 2");
    assert_eq!(state.macros[2].name, "Test Macro 3");
    assert!(state.macros[0].enabled);
    assert!(!state.macros[1].enabled);
    assert!(state.macros[2].enabled);
}

#[test]
fn test_view_structure_contains_devices() {
    let state = create_test_state();

    assert!(!state.devices.is_empty(), "Should have devices to render");
    assert!(state.devices.len() >= 1, "Should have at least one device");

    for device in &state.devices {
        assert!(!device.name.is_empty(), "Device name should not be empty");
        assert!(!device.path.is_empty(), "Device path should not be empty");
    }
}

#[test]
fn test_view_structure_contains_macros() {
    let state = create_test_state();

    assert!(!state.macros.is_empty(), "Should have macros to render");
    assert!(state.macros.len() >= 1, "Should have at least one macro");

    for macro_entry in &state.macros {
        assert!(!macro_entry.name.is_empty(), "Macro name should not be empty");
        assert!(!macro_entry.actions.is_empty(), "Macro should have actions");
    }
}

#[test]
fn test_recording_state_updates() {
    let mut state = State::new();

    assert!(!state.recording, "Should not be recording initially");
    assert!(state.recording_macro_name.is_none(), "Should have no recording macro name");

    let message = Message::RecordMacro("Test Recording".to_string());
    let _command = state.update(message, 0);

    state.recording = true;
    state.recording_macro_name = Some("Test Recording".to_string());

    assert!(state.recording, "Should be recording");
    assert_eq!(state.recording_macro_name.as_ref().unwrap(), "Test Recording");
}

#[test]
fn test_status_updates() {
    let mut state = State::new();

    assert_eq!(state.status, "Initializing...");

    let message = Message::StatusUpdated("New status message".to_string());
    let _command = state.update(message, 0);

    assert_eq!(state.status, "New status message");
    assert!(!state.status_history.is_empty(), "Should have status history");
}

#[test]
fn test_recently_updated_macros() {
    let mut state = State::new();

    let macro_name = "Test Macro".to_string();
    state.recently_updated_macros.insert(macro_name.clone(), 1000);

    assert!(state.recently_updated_macros.contains_key(&macro_name));
}

#[test]
fn gui_sanity_test_error_handling() {
    let mut state = State::new();

    let error_msg = "Failed to load devices".to_string();
    let message = Message::DevicesLoaded(Err(error_msg.clone()));
    let _command = state.update(message, 0);

    let macro_error = "Failed to load macros".to_string();
    let message = Message::MacrosLoaded(Err(macro_error.clone()));
    let _command = state.update(message, 0);
}

#[test]
fn test_animation_ticker() {
    let mut state = State::new();

    state.recently_updated_macros.insert("Macro1".to_string(), 1000);
    state.recently_updated_macros.insert("Macro2".to_string(), 1000);

    let message = Message::TickAnimations;
    let _command = state.update(message, 1000);

    assert!(state.recently_updated_macros.len() != 0);
}

#[test]
fn test_complete_flow_simulation() {
    let mut state = State::new();

    let connect_msg = Message::DaemonStatusChanged(true);
    let _command = state.update(connect_msg, 0);
    assert!(state.daemon_connected);

    let devices_msg = Message::DevicesLoaded(Ok(vec![create_test_device("Test Device", "/dev/input/event0")]));
    let _command = state.update(devices_msg, 0);
    assert_eq!(state.devices.len(), 1);

    let macros_msg = Message::MacrosLoaded(Ok(vec![create_test_macro("Test Macro", true)]));
    let _command = state.update(macros_msg, 0);
    assert_eq!(state.macros.len(), 1);

    let status_msg = Message::StatusUpdated("Application ready".to_string());
    let _command = state.update(status_msg, 0);
    assert_eq!(state.status, "Application ready");

    assert!(true, "Complete application flow should work without panicking");
}

#[test]
fn initial_state() {
    let state = State::new();
    assert_eq!(state.title(), "Razermapper");
    assert_eq!(state.profile_name, "default");
    assert_eq!(state.active_tab, Tab::Devices);
    assert_eq!(state.socket_path, "/run/razermapper/razermapper.sock");
    assert!(state.notifications.is_empty());
    assert!(!state.loading);
}

#[test]
fn loading_messages_name_their_work() {
    let mut state = State::new();
    assert!(matches!(state.update(Message::LoadDevices, 0), Effect::LoadDevices));
    assert!(state.loading);
    let e = state.update(Message::DevicesLoaded(Ok(vec![create_test_device("d", "/dev/input/event2")])), 5);
    assert!(matches!(e, Effect::LoadMacros));
    assert!(!state.loading);
    assert_eq!(state.status, "Found 1 devices");
    assert_eq!(state.notifications.back().unwrap().timestamp, 5);
    assert!(!state.notifications.back().unwrap().is_error);
    assert!(matches!(state.update(Message::CheckDaemonConnection, 0), Effect::CheckConnection));
    assert!(matches!(state.update(Message::StopRecording, 0), Effect::StopRecording));
    match state.update(Message::PlayMacro("m".to_string()), 0) {
        Effect::PlayMacro(n) => assert_eq!(n, "m"),
        other => panic!("unexpected {:?}", other),
    }
}

#[test]
fn error_messages_are_shown() {
    let mut state = State::new();
    state.update(Message::DevicesLoaded(Err("boom".to_string())), 0);
    assert_eq!(state.status, "Error: boom");
    assert!(state.notifications.back().unwrap().is_error);
    state.update(Message::MacrosLoaded(Err("bad".to_string())), 0);
    assert_eq!(state.status, "Error loading macros: bad");
    state.update(Message::DaemonStatusChanged(false), 0);
    assert_eq!(state.status, "Daemon not running - start razermapperd");
    assert!(!state.daemon_connected);
}

#[test]
fn notifications_keep_the_last_five_and_history_the_last_ten() {
    let mut state = State::new();
    for i in 0..12u64 {
        state.update(Message::StatusUpdated(format!("s{}", i)), 0);
        state.update(Message::MacroPlayed(Ok(format!("m{}", i))), i);
    }
    assert_eq!(state.notifications.len(), 5);
    assert_eq!(state.notifications.front().unwrap().message, "Played macro: m7");
    assert_eq!(state.status_history.len(), 10);
    assert_eq!(state.status_history.back().unwrap(), "Played macro: m11");
}

#[test]
fn tick_expires_old_entries() {
    let mut state = State::new();
    state.recently_updated_macros.insert("old".to_string(), 1000);
    state.recently_updated_macros.insert("new".to_string(), 3500);
    state.update(Message::MacroPlayed(Ok("a".to_string())), 0);
    state.update(Message::MacroPlayed(Ok("b".to_string())), 2000);
    let pulse = state.recording_pulse;
    state.update(Message::TickAnimations, 6000);
    assert!(!state.recently_updated_macros.contains_key("old"));
    assert!(state.recently_updated_macros.contains_key("new"));
    assert_eq!(state.recording_pulse, !pulse);
    assert_eq!(state.notifications.len(), 1);
    assert_eq!(state.notifications[0].message, "Played macro: b");
}

#[test]
fn recording_needs_a_name_and_a_grabbed_device() {
    let mut state = State::new();
    assert!(matches!(state.update(Message::StartRecording, 0), Effect::Nothing));
    assert_eq!(state.status, "Enter a macro name first");
    state.update(Message::UpdateMacroName("  ".to_string()), 0);
    state.update(Message::StartRecording, 0);
    assert_eq!(state.status, "Enter a macro name first");
    state.update(Message::UpdateMacroName("combo".to_string()), 0);
    state.update(Message::StartRecording, 0);
    assert_eq!(state.status, "Grab a device first");
    assert!(!state.recording);

    state.devices = vec![create_test_device("a", "/dev/input/event4"), create_test_device("b", "/dev/input/event5")];
    state.update(Message::DeviceGrabbed(Ok("/dev/input/event5".to_string())), 0);
    assert_eq!(state.selected_device, Some(1));
    assert_eq!(state.status, "Device grabbed - ready for recording");
    match state.update(Message::StartRecording, 0) {
        Effect::StartRecording { device_path, name } => {
            assert_eq!(device_path, "/dev/input/event5");
            assert_eq!(name, "combo");
        },
        other => panic!("unexpected {:?}", other),
    }
    assert!(state.recording);
    assert_eq!(state.recording_macro_name, Some("combo".to_string()));

    state.update(Message::RecordingStopped(Ok(create_test_macro("combo", true))), 42);
    assert!(!state.recording);
    assert!(state.recording_macro_name.is_none());
    assert_eq!(state.macros.len(), 1);
    assert!(state.new_macro_name.is_empty());
    assert_eq!(state.recently_updated_macros.get("combo"), Some(&42));
    assert_eq!(state.status, "Recorded macro: combo");

    state.update(Message::DeviceUngrabbed(Ok("/dev/input/event5".to_string())), 0);
    assert_eq!(state.status, "Device released");
    assert!(!state.grabbed_devices.contains_key("/dev/input/event5"));
}

#[test]
fn failed_recording_start_is_undone() {
    let mut state = State::new();
    state.recording = true;
    state.recording_macro_name = Some("x".to_string());
    state.update(Message::RecordingStarted(Err("nope".to_string())), 0);
    assert!(!state.recording);
    assert!(state.recording_macro_name.is_none());
    assert_eq!(state.status, "Failed to start recording: nope");
    state.update(Message::RecordingStarted(Ok("y".to_string())), 0);
    assert_eq!(state.status, "Recording 'y' - Press keys now!");
}

#[test]
fn deleting_drops_every_macro_of_that_name() {
    let mut state = State::new();
    state.macros = vec![create_test_macro("a", true), create_test_macro("b", true), create_test_macro("a", false)];
    state.update(Message::MacroDeleted(Ok("a".to_string())), 0);
    assert_eq!(state.macros.len(), 1);
    assert_eq!(state.macros[0].name, "b");
    assert_eq!(state.status, "Deleted: a");
}

#[test]
fn profiles_need_a_name() {
    let mut state = State::new();
    state.update(Message::UpdateProfileName(" ".to_string()), 0);
    assert!(matches!(state.update(Message::SaveProfile, 0), Effect::Nothing));
    assert_eq!(state.status, "Enter a profile name");
    assert!(matches!(state.update(Message::LoadProfile, 0), Effect::Nothing));
    assert_eq!(state.status, "Enter a profile name to load");
    state.update(Message::UpdateProfileName("work".to_string()), 0);
    match state.update(Message::SaveProfile, 0) {
        Effect::SaveProfile(n) => assert_eq!(n, "work"),
        other => panic!("unexpected {:?}", other),
    }
    state.update(Message::ProfileSaved(Ok(("work".to_string(), 3))), 0);
    assert_eq!(state.status, "Saved 'work' (3 macros)");
    let e = state.update(Message::ProfileLoaded(Ok(("work".to_string(), 12))), 0);
    assert!(matches!(e, Effect::LoadMacros));
    assert_eq!(state.status, "Loaded 'work' (12 macros)");
    state.update(Message::ProfileLoaded(Err("missing".to_string())), 0);
    assert_eq!(state.status, "Load failed: missing");
}

#[test]
fn switching_tabs_and_selecting() {
    let mut state = State::new();
    state.update(Message::SwitchTab(Tab::Profiles), 0);
    assert_eq!(state.active_tab, Tab::Profiles);
    state.update(Message::SelectDevice(3), 0);
    assert_eq!(state.selected_device, Some(3));
    assert_eq!(state.status, "Initializing...");
}

#[test]
fn device_cards_show_kind_and_ids() {
    assert_eq!(device_kind("Razer DeathAdder MOUSE"), DeviceKind::Mouse);
    assert_eq!(device_kind("Razer BlackWidow Keyboard"), DeviceKind::Keyboard);
    assert_eq!(device_kind("Mouse and Keyboard combo"), DeviceKind::Mouse);
    assert_eq!(device_kind("Razer Tartarus"), DeviceKind::Other);
    assert_eq!(kind_of_lowercase_name("my keyboard"), DeviceKind::Keyboard);
    let d = create_test_device("Kbd", "/dev/input/event7");
    assert_eq!(device_label(&d), "VID:1532 PID:0203 | /dev/input/event7");
}
