use mirrorstar_core::binary32::Binary32;
use mirrorstar_core::ipc::mpv_protocol::{property_value, MpvIpcClient, MpvResponse};
use mirrorstar_core::time::Delay;
use mirrorstar_core::MirrorStarError;

fn number(value: f32) -> Binary32 {
    Binary32 { bits: value.to_bits() }
}

#[test]
fn set_volume_rejects_nan() {
    let mut client = MpvIpcClient::new("test-pipe");
    let result = client.set_volume(number(f32::NAN), "NaN");
    assert!(matches!(result, Err(MirrorStarError::InvalidArgument { .. })));
}

#[test]
fn set_volume_rejects_out_of_range() {
    let mut client = MpvIpcClient::new("test-pipe");
    let result = client.set_volume(number(150.0), "150");
    assert!(matches!(result, Err(MirrorStarError::InvalidArgument { .. })));
}

#[test]
fn set_speed_rejects_nan() {
    let mut client = MpvIpcClient::new("test-pipe");
    let result = client.set_speed(number(f32::NAN), "NaN");
    assert!(matches!(result, Err(MirrorStarError::InvalidArgument { .. })));
}

#[test]
fn set_speed_rejects_out_of_range() {
    let mut client = MpvIpcClient::new("test-pipe");
    let result = client.set_speed(number(10.0), "10");
    assert!(matches!(result, Err(MirrorStarError::InvalidArgument { .. })));
}

#[test]
fn mpv_protocol_ipc_client_new_pipe_path() {
    let client = MpvIpcClient::new("test-pipe");
    assert_eq!(client.pipe_path(), r"\\.\pipe\test-pipe");
}

#[test]
fn mpv_protocol_ipc_client_pipe_path_accessor() {
    let client = MpvIpcClient::new("my-mpv-socket");
    assert_eq!(client.pipe_path(), r"\\.\pipe\my-mpv-socket");
}

#[test]
fn commands_are_single_lines_of_json() {
    let mut client = MpvIpcClient::new("p");
    client.opened();
    assert_eq!(
        client.pause().unwrap(),
        b"{\"command\":[\"set_property\",\"pause\",\"yes\"],\"request_id\":1}\n"
    );
    assert_eq!(
        client.resume().unwrap(),
        b"{\"command\":[\"set_property\",\"pause\",\"no\"],\"request_id\":2}\n"
    );
    assert_eq!(client.quit().unwrap(), b"{\"command\":[\"quit\"],\"request_id\":3}\n");
    let bytes = client.loadfile("C:\\a \"b\"\n.mp4").unwrap();
    let line = String::from_utf8(bytes).unwrap();
    assert!(line.ends_with('\n'));
    assert_eq!(line.matches('\n').count(), 1);
    let v: serde_json::Value = serde_json::from_str(&line).unwrap();
    assert_eq!(v["command"][0], "loadfile");
    assert_eq!(v["command"][1], "C:\\a \"b\"\n.mp4");
    assert_eq!(v["command"][2], "replace");
    assert_eq!(v["request_id"], 4);
}

#[test]
fn volume_and_speed_are_sent_as_shown() {
    let mut client = MpvIpcClient::new("p");
    client.opened();
    let volume = String::from_utf8(client.set_volume(number(80.0), "80").unwrap()).unwrap();
    assert!(volume.contains("\"volume\""));
    assert!(volume.contains("80"));
    let speed = String::from_utf8(client.set_speed(number(1.5), "1.5").unwrap()).unwrap();
    assert!(speed.contains("\"speed\""));
    assert!(speed.contains("1.5"));
    for &v in &[0.0_f32, 100.0] {
        assert!(client.set_volume(number(v), "v").is_ok());
    }
    for &v in &[0.25_f32, 4.0] {
        assert!(client.set_speed(number(v), "v").is_ok());
    }
    for &v in &[-0.5_f32, 100.5, f32::INFINITY] {
        assert_eq!(client.set_volume(number(v), "v").unwrap_err().code(), "InvalidArgument");
    }
    for &v in &[0.0_f32, 0.2, 4.5] {
        assert_eq!(client.set_speed(number(v), "v").unwrap_err().code(), "InvalidArgument");
    }
}

#[test]
fn refused_values_use_up_no_number() {
    let mut client = MpvIpcClient::new("p");
    client.opened();
    assert!(client.set_volume(number(150.0), "150").is_err());
    let line = String::from_utf8(client.quit().unwrap()).unwrap();
    assert!(line.contains("\"request_id\":1"));
}

#[test]
fn a_property_is_awaited() {
    let mut client = MpvIpcClient::new("p");
    client.opened();
    let (bytes, pending) = client.get_property("time-pos").unwrap();
    assert_eq!(
        bytes,
        b"{\"command\":[\"get_property\",\"time-pos\"],\"request_id\":1}\n"
    );
    assert_eq!(pending.timeout, Delay::from_millis(2000));
    let wait = pending.start(0);
    assert_eq!(wait.remaining(0).unwrap(), Delay::from_millis(2000));
    assert_eq!(wait.remaining(2_000_000_000).unwrap_err().code(), "IpcTimeout");
    assert!(wait.on_response(None).is_none());
    let event = MpvResponse { error: "success".to_string(), data: None, request_id: None };
    assert!(wait.on_response(Some(event)).is_none());
    let answer = MpvResponse {
        error: "success".to_string(),
        data: Some("12.5".to_string()),
        request_id: Some(1),
    };
    let answer = wait.on_response(Some(answer)).unwrap().unwrap();
    assert_eq!(property_value(answer), "12.5");
    let empty = MpvResponse { error: "success".to_string(), data: None, request_id: Some(1) };
    assert_eq!(property_value(wait.on_response(Some(empty)).unwrap().unwrap()), "null");
    let failed = MpvResponse {
        error: "property not found".to_string(),
        data: None,
        request_id: Some(1),
    };
    let error = wait.on_response(Some(failed)).unwrap().unwrap_err();
    assert_eq!(error.code(), "IpcError");
    assert!(error.message().contains("property not found"));
}

#[test]
fn nothing_is_sent_without_a_connection() {
    let mut client = MpvIpcClient::new("p");
    assert_eq!(client.quit().unwrap_err().code(), "IpcNotConnected");
    assert_eq!(client.set_loop_file(true).unwrap_err().code(), "IpcNotConnected");
    client.opened();
    assert!(client.set_loop_file(true).is_ok());
    assert!(client.set_loop_file(false).is_ok());
    client.disconnect();
    assert_eq!(client.get_property("x").unwrap_err().code(), "IpcNotConnected");
}
