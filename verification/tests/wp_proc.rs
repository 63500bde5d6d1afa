use mirrorstar_core::ipc::wp_proc::{
    ResponseStatus, WpProcCommand, WpProcIpcClient, WpProcResponse, PLAY_COMMAND_TIMEOUT_MS,
};
use mirrorstar_core::time::Delay;

#[test]
fn wp_proc_command_play_serialization() {
    let cmd = WpProcCommand::Play {
        request_id: 1,
        source: "https://example.com".to_string(),
    };
    let json = cmd.to_json();
    let v: serde_json::Value = serde_json::from_str(&json).unwrap();
    assert_eq!(v["command"], "play");
    assert_eq!(v["request_id"], 1);
    assert_eq!(v["source"], "https://example.com");
}

#[test]
fn wp_proc_command_terminate_serialization() {
    let cmd = WpProcCommand::Terminate { request_id: 2 };
    let json = cmd.to_json();
    let v: serde_json::Value = serde_json::from_str(&json).unwrap();
    assert_eq!(v["command"], "terminate");
    assert_eq!(v["request_id"], 2);
}

#[test]
fn wp_proc_command_set_position_serialization() {
    let cmd = WpProcCommand::SetPosition {
        request_id: 3,
        x: 0,
        y: 0,
        width: 1920,
        height: 1080,
    };
    let json = cmd.to_json();
    let v: serde_json::Value = serde_json::from_str(&json).unwrap();
    assert_eq!(v["command"], "set_position");
    assert_eq!(v["request_id"], 3);
    assert_eq!(v["x"], 0);
    assert_eq!(v["y"], 0);
    assert_eq!(v["width"], 1920);
    assert_eq!(v["height"], 1080);
}

#[test]
fn wp_proc_command_navigate_serialization() {
    let cmd = WpProcCommand::Navigate {
        request_id: 4,
        url: "https://example.com".to_string(),
    };
    let json = cmd.to_json();
    let v: serde_json::Value = serde_json::from_str(&json).unwrap();
    assert_eq!(v["command"], "navigate");
    assert_eq!(v["request_id"], 4);
    assert_eq!(v["url"], "https://example.com");
}

#[test]
fn wp_proc_command_pause_serialization() {
    let cmd = WpProcCommand::Pause { request_id: 5 };
    let json = cmd.to_json();
    let v: serde_json::Value = serde_json::from_str(&json).unwrap();
    assert_eq!(v["command"], "pause");
    assert_eq!(v["request_id"], 5);
}

#[test]
fn wp_proc_command_resume_serialization() {
    let cmd = WpProcCommand::Resume { request_id: 6 };
    let json = cmd.to_json();
    let v: serde_json::Value = serde_json::from_str(&json).unwrap();
    assert_eq!(v["command"], "resume");
    assert_eq!(v["request_id"], 6);
}

#[test]
fn wp_proc_command_request_id_play() {
    let cmd = WpProcCommand::Play {
        request_id: 10,
        source: "x".to_string(),
    };
    assert_eq!(cmd.request_id(), 10);
}

#[test]
fn wp_proc_command_request_id_terminate() {
    let cmd = WpProcCommand::Terminate { request_id: 20 };
    assert_eq!(cmd.request_id(), 20);
}

#[test]
fn wp_proc_command_request_id_set_position() {
    let cmd = WpProcCommand::SetPosition {
        request_id: 30,
        x: 0,
        y: 0,
        width: 1,
        height: 1,
    };
    assert_eq!(cmd.request_id(), 30);
}

#[test]
fn wp_proc_command_request_id_navigate() {
    let cmd = WpProcCommand::Navigate {
        request_id: 40,
        url: "x".to_string(),
    };
    assert_eq!(cmd.request_id(), 40);
}

#[test]
fn wp_proc_command_request_id_pause() {
    let cmd = WpProcCommand::Pause { request_id: 50 };
    assert_eq!(cmd.request_id(), 50);
}

#[test]
fn wp_proc_command_request_id_resume() {
    let cmd = WpProcCommand::Resume { request_id: 60 };
    assert_eq!(cmd.request_id(), 60);
}

#[test]
fn wp_proc_ipc_client_new_pipe_path() {
    let client = WpProcIpcClient::new("test-pipe");
    assert_eq!(client.pipe_path(), r"\\.\pipe\test-pipe");
}

#[test]
fn wp_proc_ipc_client_pipe_path_accessor() {
    let client = WpProcIpcClient::new("my-wp-proc-socket");
    assert_eq!(client.pipe_path(), r"\\.\pipe\my-wp-proc-socket");
}

#[test]
fn i04_play_command_timeout_is_15_seconds() {
    assert_eq!(PLAY_COMMAND_TIMEOUT_MS, 15_000);
}

#[test]
fn i04_send_command_with_timeout_returns_ipc_timeout_when_server_silent() {
    let mut client = WpProcIpcClient::new("silent");
    client.opened();
    let cmd = WpProcCommand::Play { request_id: 1, source: "https://example.com".to_string() };
    let (_, pending) = client.send_command_with_timeout(&cmd, Delay::from_millis(200)).unwrap();
    let wait = pending.start(0);
    let left = wait.remaining(0);
    assert_eq!(left, Delay::from_millis(200));
    let line = client.read_response_line_with_timeout(0, left).unwrap();
    assert!(line.check(199_999_999).is_ok());
    assert_eq!(line.check(200_000_000).unwrap_err().code(), "IpcTimeout");
    assert_eq!(wait.remaining(200_000_000), Delay { nanos: 0 });
}

#[test]
fn i04_send_command_with_timeout_returns_response_when_server_responds() {
    let mut client = WpProcIpcClient::new("answering");
    client.opened();
    let cmd = WpProcCommand::Pause { request_id: 7 };
    let (_, pending) = client.send_command_with_timeout(&cmd, Delay::from_millis(2000)).unwrap();
    let wait = pending.start(0);
    let response = WpProcResponse { request_id: 7, status: ResponseStatus::Okay, error: None };
    let answer = wait.on_response(Some(response)).unwrap().unwrap();
    assert_eq!(answer.request_id, 7);
    assert_eq!(answer.status, ResponseStatus::Okay);
    assert_eq!(answer.error, None);
}

#[test]
fn answers_to_other_commands_are_skipped() {
    let mut client = WpProcIpcClient::new("p");
    client.opened();
    let (bytes, pending) = client.play("a\"b\n").unwrap();
    assert_eq!(bytes, b"{\"command\":\"play\",\"request_id\":1,\"source\":\"a\\\"b\\n\"}\n");
    assert_eq!(pending.request_id, 1);
    assert_eq!(pending.timeout, Delay::from_millis(15_000));
    let wait = pending.start(5);
    assert!(wait.on_response(None).is_none());
    let other = WpProcResponse { request_id: 2, status: ResponseStatus::Okay, error: None };
    assert!(wait.on_response(Some(other)).is_none());
    let failed = WpProcResponse {
        request_id: 1,
        status: ResponseStatus::Error,
        error: Some("WebView2 初始化失败".to_string()),
    };
    let error = wait.on_response(Some(failed)).unwrap().unwrap_err();
    assert!(error.message().ends_with("wp-proc 命令失败: WebView2 初始化失败"));
    let unexplained = WpProcResponse { request_id: 1, status: ResponseStatus::Error, error: None };
    assert_eq!(wait.on_response(Some(unexplained)).unwrap().unwrap_err().code(), "IpcError");
}

#[test]
fn every_command_uses_up_a_number() {
    let mut client = WpProcIpcClient::new("p");
    assert_eq!(client.pause().unwrap_err().code(), "IpcNotConnected");
    client.opened();
    assert_eq!(client.terminate().unwrap(), b"{\"command\":\"terminate\",\"request_id\":2}\n");
    assert_eq!(client.resume().unwrap(), b"{\"command\":\"resume\",\"request_id\":3}\n");
    assert_eq!(
        client.set_position(-1, 2, 3, 4).unwrap(),
        b"{\"command\":\"set_position\",\"request_id\":4,\"x\":-1,\"y\":2,\"width\":3,\"height\":4}\n"
    );
    assert_eq!(
        client.navigate("u").unwrap(),
        b"{\"command\":\"navigate\",\"request_id\":5,\"url\":\"u\"}\n"
    );
    client.disconnect();
    assert_eq!(client.play("x").unwrap_err().code(), "IpcNotConnected");
}
