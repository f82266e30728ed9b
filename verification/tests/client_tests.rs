use razermapper::client::{
    ConnectOutcome, ConnectStep, IpcClient, IpcError, RetryState, DEFAULT_MAX_RETRIES, DEFAULT_RETRY_DELAY_MS,
    DEFAULT_SOCKET_PATH, DEFAULT_TIMEOUT_MS,
};
use razermapper::framing::{decode_cache, decode_length, encode_cache, encode_frame, encode_reply, CacheError, MAX_MESSAGE_SIZE};
use razermapper::gui_client::{
    ack_reply, connect_reply, devices_reply, macros_reply, profile_loaded_reply, profile_saved_reply,
    recording_started_reply, recording_stopped_reply, GuiIpcClient,
};
use razermapper::protocol::{Action, DeviceInfo, KeyCombo, MacroEntry, Response};

#[test]
fn test_ipc_client_creation() {
    let client = IpcClient::new();
    assert_eq!(client.socket_path(), DEFAULT_SOCKET_PATH);
    assert_eq!(client.timeout_ms(), DEFAULT_TIMEOUT_MS);
    assert_eq!(client.max_retries(), DEFAULT_MAX_RETRIES);
    assert_eq!(client.retry_delay_ms(), DEFAULT_RETRY_DELAY_MS);

    let custom_path = "/tmp/test.sock";
    let custom_client = IpcClient::with_socket_path(custom_path).with_timeout(10000).with_retry_params(5, 2000);

    assert_eq!(custom_client.socket_path(), custom_path);
    assert_eq!(custom_client.timeout_ms(), 10000);
    assert_eq!(custom_client.max_retries(), 5);
    assert_eq!(custom_client.retry_delay_ms(), 2000);
}

#[test]
fn default_client_settings() {
    let client = IpcClient::new();
    assert_eq!(client.socket_path(), "/run/razermapper.sock");
    assert_eq!(client.timeout_ms(), 5000);
    assert_eq!(client.max_retries(), 3);
    assert_eq!(client.retry_delay_ms(), 1000);
}

#[test]
fn connect_step_retries_until_limit() {
    let client = IpcClient::with_socket_path("/tmp/x.sock").with_retry_params(2, 10);
    assert!(matches!(client.connect_step(0, ConnectOutcome::Connected), ConnectStep::Done));
    assert!(matches!(client.connect_step(0, ConnectOutcome::Failed), ConnectStep::Retry { attempts: 1 }));
    assert!(matches!(client.connect_step(1, ConnectOutcome::Failed), ConnectStep::Retry { attempts: 2 }));
    match client.connect_step(2, ConnectOutcome::Failed) {
        ConnectStep::Fail(IpcError::DaemonNotRunning(p)) => assert_eq!(p, "/tmp/x.sock"),
        other => panic!("unexpected step {:?}", other),
    }
    assert!(matches!(
        client.connect_step(0, ConnectOutcome::TimedOut),
        ConnectStep::Fail(IpcError::ConnectionTimeout)
    ));
}

#[test]
fn retry_state_counts_attempts() {
    let mut s = RetryState::start(2);
    assert!(s.may_attempt());
    assert!(s.record_failure(IpcError::ConnectionClosed));
    assert!(s.may_attempt());
    assert!(s.record_failure(IpcError::Timeout));
    assert!(s.may_attempt());
    assert!(!s.record_failure(IpcError::InvalidResponse));
    assert!(!s.may_attempt());
    assert_eq!(s.attempts, 3);
    assert!(matches!(s.into_error(), IpcError::InvalidResponse));
    let none = RetryState::start(0);
    match none.into_error() {
        IpcError::Other(m) => assert_eq!(m, "Unknown error"),
        other => panic!("unexpected error {:?}", other),
    }
}

#[test]
fn ipc_error_messages() {
    assert_eq!(IpcError::Timeout.message(), "request timed out");
    assert_eq!(IpcError::ConnectionTimeout.message(), "Connection timeout");
    assert_eq!(IpcError::OperationTimeout(250).message(), "Operation timeout after 250ms");
    assert_eq!(IpcError::DaemonNotRunning("/a.sock".to_string()).message(), "Daemon not running at /a.sock");
    assert_eq!(IpcError::InvalidResponse.message(), "Invalid response from daemon");
    assert_eq!(
        IpcError::MessageTooLarge(2000000, 1048576).message(),
        "Message too large: 2000000 bytes exceeds maximum of 1048576 bytes"
    );
    assert_eq!(IpcError::ConnectionClosed.message(), "Connection closed unexpectedly");
    assert_eq!(IpcError::Other("x".to_string()).message(), "Other error: x");
    assert_eq!(IpcError::Connect("refused".to_string()).message(), "failed to connect to daemon: refused");
    assert_eq!(IpcError::Send("pipe".to_string()).message(), "failed to send request: pipe");
    assert_eq!(IpcError::Receive("eof".to_string()).message(), "failed to receive response: eof");
    assert_eq!(IpcError::Serialize("s".to_string()).message(), "serialization error: s");
    assert_eq!(IpcError::Deserialize("d".to_string()).message(), "deserialization error: d");
    assert_eq!(IpcError::Io("io".to_string()).message(), "IO error: io");
    assert_eq!(IpcError::Serialization("z".to_string()).message(), "Serialization error: z");
}

#[test]
fn frame_roundtrip_on_bytes() {
    let payload = vec![1u8, 2, 3, 250, 0];
    let frame = encode_frame(&payload).unwrap();
    assert_eq!(frame.len(), payload.len() + 4);
    assert_eq!(&frame[0..4], &[5u8, 0, 0, 0]);
    let len = decode_length([frame[0], frame[1], frame[2], frame[3]]).unwrap();
    assert_eq!(len, 5);
    assert_eq!(&frame[4..], &payload[..]);
}

#[test]
fn frame_length_is_little_endian() {
    let payload = vec![7u8; 300];
    let frame = encode_frame(&payload).unwrap();
    assert_eq!(&frame[0..4], &[44u8, 1, 0, 0]);
    assert_eq!(decode_length([0, 0, 16, 0]).unwrap(), 1048576);
}

#[test]
fn oversized_frames_are_refused() {
    let payload = vec![0u8; MAX_MESSAGE_SIZE + 1];
    match encode_frame(&payload) {
        Err(IpcError::MessageTooLarge(n, m)) => {
            assert_eq!(n, 1048577);
            assert_eq!(m, 1048576);
        },
        other => panic!("unexpected result {:?}", other.map(|v| v.len())),
    }
    match decode_length([1, 0, 16, 0]) {
        Err(IpcError::MessageTooLarge(n, m)) => {
            assert_eq!(n, 1048577);
            assert_eq!(m, 1048576);
        },
        other => panic!("unexpected result {:?}", other),
    }
}

#[test]
fn cache_roundtrip_and_errors() {
    let payload = vec![9u8, 8, 7];
    let content = encode_cache(&payload);
    assert_eq!(&content[0..4], &[0xEFu8, 0xBE, 0xAD, 0xDE]);
    assert_eq!(decode_cache(&content).unwrap(), payload);
    assert!(matches!(decode_cache(&[1, 2, 3]), Err(CacheError::TooShort)));
    assert!(matches!(decode_cache(&[1, 2, 3, 4, 5]), Err(CacheError::BadMagic)));
    assert_eq!(CacheError::TooShort.message(), "Cache file too short");
    assert_eq!(CacheError::BadMagic.message(), "Invalid cache file magic number");
}

fn sample_macro(name: &str) -> MacroEntry {
    MacroEntry {
        name: name.to_string(),
        trigger: KeyCombo { keys: vec![30], modifiers: vec![] },
        actions: vec![Action::KeyPress(30)],
        device_id: None,
        enabled: true,
    }
}

#[test]
fn gui_client_keeps_socket_path() {
    let c = GuiIpcClient::new("/tmp/gui.sock".to_string());
    assert_eq!(c.socket_path(), "/tmp/gui.sock");
}

#[test]
fn gui_client_reply_mapping() {
    assert!(connect_reply(true).is_ok());
    assert_eq!(connect_reply(false), Err("Daemon is not running".to_string()));

    let dev = DeviceInfo {
        name: "Kbd".to_string(),
        path: "/dev/input/event3".to_string(),
        vendor_id: 0x1532,
        product_id: 0x0203,
        phys: "p".to_string(),
    };
    let devices = devices_reply(Ok(Response::Devices(vec![dev]))).unwrap();
    assert_eq!(devices.len(), 1);
    assert_eq!(devices[0].path, "/dev/input/event3");
    assert_eq!(devices_reply(Ok(Response::Ack)).unwrap_err(), "Unexpected response");
    assert_eq!(
        devices_reply(Err(IpcError::Timeout)).unwrap_err(),
        "Failed to get devices: request timed out"
    );

    let macros = macros_reply(Ok(Response::Macros(vec![sample_macro("m")]))).unwrap();
    assert_eq!(macros[0].name, "m");
    assert_eq!(
        macros_reply(Err(IpcError::InvalidResponse)).unwrap_err(),
        "Failed to list macros: Invalid response from daemon"
    );

    assert!(recording_started_reply(Ok(Response::RecordingStarted {
        device_path: "/d".to_string(),
        name: "n".to_string()
    }))
    .is_ok());
    assert_eq!(recording_started_reply(Ok(Response::Ack)).unwrap_err(), "Unexpected response");
    assert_eq!(
        recording_started_reply(Err(IpcError::ConnectionClosed)).unwrap_err(),
        "Failed to start recording: Connection closed unexpectedly"
    );

    let stopped = recording_stopped_reply(Ok(Response::RecordingStopped { macro_entry: sample_macro("rec") })).unwrap();
    assert_eq!(stopped.name, "rec");
    assert_eq!(
        recording_stopped_reply(Ok(Response::Error("No recording in progress".to_string()))).unwrap_err(),
        "Unexpected response"
    );

    assert!(ack_reply("delete macro", Ok(Response::Ack)).is_ok());
    assert_eq!(ack_reply("grab device", Ok(Response::Authenticated)).unwrap_err(), "Unexpected response");
    assert_eq!(
        ack_reply("ungrab device", Err(IpcError::Other("boom".to_string()))).unwrap_err(),
        "Failed to ungrab device: Other error: boom"
    );

    assert_eq!(
        profile_saved_reply(Ok(Response::ProfileSaved { name: "p".to_string(), macros_count: 4 })).unwrap(),
        ("p".to_string(), 4)
    );
    assert_eq!(
        profile_saved_reply(Ok(Response::ProfileLoaded { name: "p".to_string(), macros_count: 4 })).unwrap_err(),
        "Unexpected response"
    );
    assert_eq!(
        profile_loaded_reply(Ok(Response::ProfileLoaded { name: "q".to_string(), macros_count: 2 })).unwrap(),
        ("q".to_string(), 2)
    );
    assert_eq!(
        profile_loaded_reply(Err(IpcError::Timeout)).unwrap_err(),
        "Failed to load profile: request timed out"
    );
}

#[test]
fn replies_are_framed_without_the_request_cap() {
    let payload = vec![3u8; MAX_MESSAGE_SIZE + 5];
    let frame = encode_reply(&payload).unwrap();
    assert_eq!(frame.len(), payload.len() + 4);
    assert_eq!(&frame[0..4], &[5u8, 0, 16, 0]);
    assert_eq!(&frame[4..], &payload[..]);
    assert_eq!(encode_reply(&[9u8, 8]).unwrap(), vec![2u8, 0, 0, 0, 9, 8]);
}

#[test]
fn the_largest_retry_limit_is_accepted() {
    let mut s = RetryState::start(u32::MAX);
    assert!(s.may_attempt());
    assert!(s.record_failure(IpcError::Timeout));
    assert_eq!(s.attempts, 1);
    match s.into_error() {
        IpcError::Timeout => {},
        other => panic!("unexpected {:?}", other),
    }
}
