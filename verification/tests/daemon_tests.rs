use razermapper::daemon::{
    device_grabbed_response, device_ungrabbed_response, gate_request, handle_request, profile_deleted_response,
    profile_loaded_response, profile_saved_response, profiles_listed_response, token_response, DaemonState,
    Deferred, Handled,
};
use razermapper::engine::MacroEngine;
use razermapper::protocol::{Action, DeviceInfo, KeyCombo, MacroEntry, Request, Response};
use razermapper::security::SecurityManager;

fn reply(h: Handled) -> Response {
    match h {
        Handled::Reply { response, .. } => response,
        Handled::Defer(d) => panic!("unexpected deferred work {:?}", d),
    }
}

fn test_macro() -> MacroEntry {
    MacroEntry {
        name: "test".to_string(),
        trigger: KeyCombo { keys: vec![30], modifiers: vec![] },
        actions: vec![Action::KeyPress(30)],
        device_id: None,
        enabled: true,
    }
}

#[test]
fn test_request_handling() {
    let mut state = DaemonState::new();
    let mut macro_engine = MacroEngine::new();
    let security_manager = SecurityManager::new(false);

    let response = reply(handle_request(Request::GetDevices, &mut state, &mut macro_engine, &security_manager, 0));
    assert!(matches!(response, Response::Devices(_)));

    let response = reply(handle_request(Request::GetStatus, &mut state, &mut macro_engine, &security_manager, 0));
    match response {
        Response::Status { version, .. } => assert_eq!(version, "0.1.0"),
        _ => panic!("Expected Status response"),
    }

    let response = reply(handle_request(
        Request::SetMacro { device_path: "/nonexistent".to_string(), macro_entry: test_macro() },
        &mut state,
        &mut macro_engine,
        &security_manager,
        0,
    ));

    match response {
        Response::Error(msg) => assert!(msg.contains("not found")),
        _ => panic!("Expected Error response"),
    }
}

#[test]
fn test_macro_addition() {
    let mut state = DaemonState::new();
    let mut macro_engine = MacroEngine::new();
    let security_manager = SecurityManager::new(false);

    state.devices.push(DeviceInfo {
        name: "Test Device".to_string(),
        path: "/dev/input/test".to_string(),
        vendor_id: 0x1234,
        product_id: 0x5678,
        phys: "test-phys".to_string(),
    });

    let test_macro = test_macro();

    let response = reply(handle_request(
        Request::SetMacro { device_path: "/dev/input/test".to_string(), macro_entry: test_macro.clone() },
        &mut state,
        &mut macro_engine,
        &security_manager,
        0,
    ));

    assert!(matches!(response, Response::Ack));

    assert_eq!(state.macros.len(), 1);
    let first_macro = state.macros.value_at(0);
    assert_eq!(first_macro.name, test_macro.name);
}

#[test]
fn status_counts_devices_and_macros() {
    let mut state = DaemonState::new();
    let mut engine = MacroEngine::new();
    let security = SecurityManager::new(false);
    state.devices.push(DeviceInfo {
        name: "d".to_string(),
        path: "/dev/input/event1".to_string(),
        vendor_id: 1,
        product_id: 2,
        phys: String::new(),
    });
    reply(handle_request(
        Request::SetMacro { device_path: "/dev/input/event1".to_string(), macro_entry: test_macro() },
        &mut state,
        &mut engine,
        &security,
        0,
    ));
    match reply(handle_request(Request::GetStatus, &mut state, &mut engine, &security, 0)) {
        Response::Status { version, uptime_seconds, devices_count, macros_count } => {
            assert_eq!(version, "0.1.0");
            assert_eq!(uptime_seconds, 0);
            assert_eq!(devices_count, 1);
            assert_eq!(macros_count, 1);
        },
        other => panic!("unexpected {:?}", other),
    }
    match reply(handle_request(Request::ListMacros, &mut state, &mut engine, &security, 0)) {
        Response::Macros(m) => assert_eq!(m[0].name, "test"),
        other => panic!("unexpected {:?}", other),
    }
}

#[test]
fn deleting_macros() {
    let mut state = DaemonState::new();
    let mut engine = MacroEngine::new();
    let security = SecurityManager::new(false);
    state.put_macro(test_macro());
    assert!(matches!(
        reply(handle_request(Request::DeleteMacro { name: "test".to_string() }, &mut state, &mut engine, &security, 0)),
        Response::Ack
    ));
    match reply(handle_request(Request::DeleteMacro { name: "test".to_string() }, &mut state, &mut engine, &security, 0)) {
        Response::Error(m) => assert_eq!(m, "Macro not found: test"),
        other => panic!("unexpected {:?}", other),
    }
}

#[test]
fn recording_through_requests() {
    let mut state = DaemonState::new();
    let mut engine = MacroEngine::new();
    let security = SecurityManager::new(false);
    match reply(handle_request(Request::StopRecording, &mut state, &mut engine, &security, 0)) {
        Response::Error(m) => assert_eq!(m, "No recording in progress"),
        other => panic!("unexpected {:?}", other),
    }
    let req = Request::RecordMacro { device_path: "/dev/input/event0".to_string(), name: "rec".to_string() };
    match reply(handle_request(req, &mut state, &mut engine, &security, 0)) {
        Response::RecordingStarted { device_path, name } => {
            assert_eq!(device_path, "/dev/input/event0");
            assert_eq!(name, "rec");
        },
        other => panic!("unexpected {:?}", other),
    }
    assert_eq!(state.active_recording, Some(("rec".to_string(), "/dev/input/event0".to_string())));
    let again = Request::RecordMacro { device_path: "/dev/input/event0".to_string(), name: "x".to_string() };
    match reply(handle_request(again, &mut state, &mut engine, &security, 0)) {
        Response::Error(m) => {
            assert_eq!(m, "Failed to start recording: Failed to start recording: Already recording a macro")
        },
        other => panic!("unexpected {:?}", other),
    }
    engine.process_input_event(30, true, "/dev/input/event0").unwrap();
    match reply(handle_request(Request::StopRecording, &mut state, &mut engine, &security, 0)) {
        Response::RecordingStopped { macro_entry } => {
            assert_eq!(macro_entry.name, "rec");
            assert_eq!(macro_entry.actions.len(), 1);
        },
        other => panic!("unexpected {:?}", other),
    }
    assert!(state.active_recording.is_none());
    assert!(state.macros.contains_key("rec"));
}

#[test]
fn executing_macros() {
    let mut state = DaemonState::new();
    let mut engine = MacroEngine::new();
    let security = SecurityManager::new(false);
    match reply(handle_request(Request::TestMacro { name: "Non-existent Macro".to_string() }, &mut state, &mut engine, &security, 0)) {
        Response::Error(m) => assert_eq!(m, "Macro 'Non-existent Macro' not found"),
        other => panic!("unexpected {:?}", other),
    }
    engine.add_macro(test_macro()).unwrap();
    match reply(handle_request(Request::ExecuteMacro { name: "test".to_string() }, &mut state, &mut engine, &security, 0)) {
        Response::Error(m) => assert_eq!(m, "Failed to execute macro 'test': No injector available"),
        other => panic!("unexpected {:?}", other),
    }
    engine.set_injector();
    match handle_request(Request::ExecuteMacro { name: "test".to_string() }, &mut state, &mut engine, &security, 0) {
        Handled::Reply { response: Response::Ack, start: Some(s) } => {
            assert_eq!(s.name, "test");
            assert_eq!(s.actions.len(), 1);
        },
        other => panic!("unexpected {:?}", other),
    }
    match handle_request(Request::TestMacro { name: "test".to_string() }, &mut state, &mut engine, &security, 0) {
        Handled::Reply { response: Response::Ack, start: None } => {},
        other => panic!("unexpected {:?}", other),
    }
}

#[test]
fn authentication_and_deferred_work() {
    let mut state = DaemonState::new();
    let mut engine = MacroEngine::new();
    let mut security = SecurityManager::new(true);
    let token = security.generate_auth_token(0xabc, 1000);
    match reply(handle_request(Request::Authenticate { token: token.clone() }, &mut state, &mut engine, &security, 2000)) {
        Response::Authenticated => {},
        other => panic!("unexpected {:?}", other),
    }
    match reply(handle_request(Request::Authenticate { token: "invalid-token".to_string() }, &mut state, &mut engine, &security, 2000)) {
        Response::Error(m) => assert_eq!(m, "Invalid authentication token"),
        other => panic!("unexpected {:?}", other),
    }
    match handle_request(Request::GenerateToken { client_id: "c".to_string() }, &mut state, &mut engine, &security, 0) {
        Handled::Defer(Deferred::GenerateToken { client_id }) => assert_eq!(client_id, "c"),
        other => panic!("unexpected {:?}", other),
    }
    match handle_request(Request::SaveProfile { name: "p".to_string() }, &mut state, &mut engine, &security, 0) {
        Handled::Defer(Deferred::SaveProfile { name, macros_count }) => {
            assert_eq!(name, "p");
            assert_eq!(macros_count, 0);
        },
        other => panic!("unexpected {:?}", other),
    }
    match reply(handle_request(Request::GrabDevice { device_path: "/d".to_string() }, &mut state, &mut engine, &security, 0)) {
        Response::Error(m) => assert_eq!(m, "Device manager not initialized"),
        other => panic!("unexpected {:?}", other),
    }
    state.device_manager_ready = true;
    match handle_request(Request::UngrabDevice { device_path: "/d".to_string() }, &mut state, &mut engine, &security, 0) {
        Handled::Defer(Deferred::UngrabDevice { device_path }) => assert_eq!(device_path, "/d"),
        other => panic!("unexpected {:?}", other),
    }
}

#[test]
fn deferred_outcomes_become_responses() {
    assert!(matches!(token_response(Ok("t".to_string())), Response::Token(t) if t == "t"));
    assert!(matches!(profile_saved_response("p".to_string(), 3, Ok(())), Response::ProfileSaved { macros_count: 3, .. }));
    assert!(matches!(profile_loaded_response("p".to_string(), Ok(5)), Response::ProfileLoaded { macros_count: 5, .. }));
    assert!(matches!(profiles_listed_response(Ok(vec!["a".to_string()])), Response::Profiles(v) if v.len() == 1));
    assert!(matches!(profile_deleted_response(Ok(())), Response::Ack));
    assert!(matches!(device_grabbed_response(Ok(())), Response::Ack));
    assert!(matches!(device_ungrabbed_response(Ok(())), Response::Ack));
    assert!(matches!(device_grabbed_response(Err("x".to_string())), Response::Error(_)));
}

#[test]
fn gate_checks_tokens_only_when_required() {
    let security = SecurityManager::new(true);
    assert!(gate_request(false, &Request::GetDevices, &security, 0).is_none());
    assert!(gate_request(true, &Request::GetDevices, &security, 0).is_some());
}

#[test]
fn a_recorded_macro_can_be_played() {
    let mut state = DaemonState::new();
    let mut engine = MacroEngine::with_injector();
    let security = SecurityManager::new(false);
    let req = Request::RecordMacro { device_path: "/dev/input/test0".to_string(), name: "Test Macro".to_string() };
    assert!(matches!(reply(handle_request(req, &mut state, &mut engine, &security, 0)), Response::RecordingStarted { .. }));
    engine.process_input_event(30, true, "/dev/input/test0").unwrap();
    match reply(handle_request(Request::StopRecording, &mut state, &mut engine, &security, 0)) {
        Response::RecordingStopped { macro_entry } => assert_eq!(macro_entry.name, "Test Macro"),
        other => panic!("unexpected {:?}", other),
    }
    match reply(handle_request(Request::ListMacros, &mut state, &mut engine, &security, 0)) {
        Response::Macros(m) => {
            assert_eq!(m.len(), 1);
            assert_eq!(m[0].name, "Test Macro");
        },
        other => panic!("unexpected {:?}", other),
    }
    match handle_request(Request::TestMacro { name: "Test Macro".to_string() }, &mut state, &mut engine, &security, 0) {
        Handled::Reply { response: Response::Ack, start: Some(s) } => {
            assert_eq!(s.name, "Test Macro");
            assert_eq!(s.actions.len(), 1);
        },
        other => panic!("unexpected {:?}", other),
    }
}

#[test]
fn unknown_macros_and_missing_recordings_are_reported() {
    let mut state = DaemonState::new();
    let mut engine = MacroEngine::new();
    let security = SecurityManager::new(false);
    match reply(handle_request(Request::TestMacro { name: "Non-existent Macro".to_string() }, &mut state, &mut engine, &security, 0)) {
        Response::Error(m) => assert_eq!(m, "Macro 'Non-existent Macro' not found"),
        other => panic!("unexpected {:?}", other),
    }
    match reply(handle_request(Request::StopRecording, &mut state, &mut engine, &security, 0)) {
        Response::Error(m) => assert_eq!(m, "No recording in progress"),
        other => panic!("unexpected {:?}", other),
    }
    assert!(state.active_recording.is_none());
    assert_eq!(state.macros.len(), 0);
}
