use mirrorstar_core::ipc::client::{
    clone_failure, read_line_with_limit, read_line_with_timeout, Backoff, ByteReader, LineBuffer,
    NamedPipeClient, PeekFailure, PollStep, MAX_LINE_BYTES,
};
use mirrorstar_core::time::Delay;
use mirrorstar_core::MirrorStarError;

/// Reads a line from a source that gives the same byte for ever.
fn read_line_of_endless_x(max: usize, total_avail: usize) -> Result<Vec<u8>, MirrorStarError> {
    let source = [b'x'; 8192];
    let mut line = LineBuffer::new(max, total_avail);
    loop {
        if line.is_complete()? {
            return Ok(line.into_bytes());
        }
        if line.accept(&source)?.finished {
            return Ok(line.into_bytes());
        }
    }
}

#[test]
fn named_pipe_client_new_pipe_path() {
    let client: NamedPipeClient<()> = NamedPipeClient::new("test-pipe");
    assert_eq!(client.pipe_path(), r"\\.\pipe\test-pipe");
}

#[test]
fn named_pipe_client_pipe_path_accessor() {
    let client: NamedPipeClient<()> = NamedPipeClient::new("my-mpv-socket");
    assert_eq!(client.pipe_path(), r"\\.\pipe\my-mpv-socket");
}

#[test]
fn named_pipe_client_next_request_id_increments() {
    let mut client: NamedPipeClient<()> = NamedPipeClient::new("test-pipe");
    assert_eq!(client.next_request_id(), 1);
    assert_eq!(client.next_request_id(), 2);
    assert_eq!(client.next_request_id(), 3);
}

#[test]
fn named_pipe_client_disconnect_when_not_connected_is_safe() {
    let mut client: NamedPipeClient<()> = NamedPipeClient::new("test-pipe");
    client.disconnect();
    client.disconnect();
}

#[test]
fn backoff_next_delay_returns_current_and_advances() {
    let mut b = Backoff::default();
    assert_eq!(b.next_delay(), Delay::from_millis(10));
    assert_eq!(b.next_delay(), Delay::from_millis(20));
    assert_eq!(b.next_delay(), Delay::from_millis(40));
    assert_eq!(b.next_delay(), Delay::from_millis(80));
    assert_eq!(b.next_delay(), Delay::from_millis(100));
    assert_eq!(b.next_delay(), Delay::from_millis(100));
    assert_eq!(b.next_delay(), Delay::from_millis(100));
}

#[test]
fn backoff_never_exceeds_max() {
    let mut b = Backoff::new(Delay::from_millis(15), Delay::from_millis(50));
    for _ in 0..20 {
        let v = b.next_delay();
        assert!(v.nanos <= Delay::from_millis(50).nanos);
    }
}

#[test]
fn backoff_custom_initial_and_max() {
    let mut b = Backoff::new(Delay::from_millis(5), Delay::from_millis(200));
    assert_eq!(b.next_delay(), Delay::from_millis(5));
    assert_eq!(b.next_delay(), Delay::from_millis(10));
    assert_eq!(b.next_delay(), Delay::from_millis(20));
    assert_eq!(b.next_delay(), Delay::from_millis(40));
    assert_eq!(b.next_delay(), Delay::from_millis(80));
    assert_eq!(b.next_delay(), Delay::from_millis(160));
    assert_eq!(b.next_delay(), Delay::from_millis(200));
    assert_eq!(b.next_delay(), Delay::from_millis(200));
}

#[test]
fn backoff_equal_initial_and_max_stays_constant() {
    let mut b = Backoff::new(Delay::from_millis(100), Delay::from_millis(100));
    for _ in 0..5 {
        assert_eq!(b.next_delay(), Delay::from_millis(100));
    }
}

#[test]
fn test_read_line_with_limit_normal_line() {
    let mut reader = ByteReader::new(b"hello\n".to_vec());
    let line = read_line_with_limit(&mut reader, MAX_LINE_BYTES, usize::MAX).unwrap();
    assert_eq!(line, b"hello\n");
}

#[test]
fn test_read_line_with_limit_json_command() {
    let mut reader = ByteReader::new(b"{\"command\":\"play\"}\n".to_vec());
    let line = read_line_with_limit(&mut reader, MAX_LINE_BYTES, usize::MAX).unwrap();
    assert_eq!(line, b"{\"command\":\"play\"}\n");
}

#[test]
fn test_read_line_with_limit_empty_eof() {
    let mut reader = ByteReader::new(b"".to_vec());
    let line = read_line_with_limit(&mut reader, MAX_LINE_BYTES, usize::MAX).unwrap();
    assert_eq!(line, b"");
}

#[test]
fn test_read_line_with_limit_partial_line_no_newline_eof() {
    let mut reader = ByteReader::new(b"partial line without newline".to_vec());
    let line = read_line_with_limit(&mut reader, MAX_LINE_BYTES, usize::MAX).unwrap();
    assert_eq!(line, b"partial line without newline");
}

#[test]
fn test_read_line_with_limit_exceeds_max_no_newline() {
    let data = vec![b'A'; MAX_LINE_BYTES + 1];
    let mut reader = ByteReader::with_capacity(8192, data);
    let result = read_line_with_limit(&mut reader, MAX_LINE_BYTES, usize::MAX);
    let err = result.unwrap_err();
    match err {
        MirrorStarError::IpcError(msg) => {
            assert!(msg.contains(&format!("超过 {} 字节上限", MAX_LINE_BYTES)));
        }
        other => panic!("{:?}", other),
    }
}

#[test]
fn test_read_line_with_limit_oversized_2mb_no_oom() {
    let size = MAX_LINE_BYTES * 2;
    let data = vec![b'A'; size];
    let mut reader = ByteReader::with_capacity(8192, data);
    let result = read_line_with_limit(&mut reader, MAX_LINE_BYTES, usize::MAX);
    assert!(result.is_err());
    if let Err(MirrorStarError::IpcError(msg)) = &result {
        assert!(msg.contains(&format!("超过 {} 字节上限", MAX_LINE_BYTES)));
    }
}

#[test]
fn test_read_line_with_limit_oom_protection_infinite_stream() {
    let result = read_line_of_endless_x(MAX_LINE_BYTES, usize::MAX);
    assert!(result.is_err());
    if let Err(MirrorStarError::IpcError(msg)) = &result {
        assert!(msg.contains(&format!("超过 {} 字节上限", MAX_LINE_BYTES)));
    }
}

#[test]
fn test_read_line_with_limit_exactly_max_no_newline_eof_ok() {
    let data = vec![b'A'; MAX_LINE_BYTES];
    let mut reader = ByteReader::new(data);
    let line = read_line_with_limit(&mut reader, MAX_LINE_BYTES, usize::MAX).unwrap();
    assert_eq!(line.len(), MAX_LINE_BYTES);
}

#[test]
fn test_read_line_with_limit_exactly_max_with_newline_ok() {
    let mut data = vec![b'A'; MAX_LINE_BYTES - 1];
    data.push(b'\n');
    let mut reader = ByteReader::new(data);
    let line = read_line_with_limit(&mut reader, MAX_LINE_BYTES, usize::MAX).unwrap();
    assert_eq!(line.len(), MAX_LINE_BYTES);
    assert!(line.ends_with(b"\n"));
}

#[test]
fn test_read_line_with_limit_max_plus_one_with_newline_err() {
    let mut data = vec![b'A'; MAX_LINE_BYTES];
    data.push(b'\n');
    let mut reader = ByteReader::new(data);
    let result = read_line_with_limit(&mut reader, MAX_LINE_BYTES, usize::MAX);
    assert!(result.is_err());
}

#[test]
fn test_read_line_with_limit_utf8_multibyte() {
    let mut reader = ByteReader::new("héllo\n".as_bytes().to_vec());
    let line = read_line_with_limit(&mut reader, MAX_LINE_BYTES, usize::MAX).unwrap();
    assert_eq!(line, "héllo\n".as_bytes());
}

#[test]
fn test_read_line_with_limit_invalid_utf8_returns_raw_bytes() {
    let mut reader = ByteReader::new(vec![0xFF, b'\n']);
    let line = read_line_with_limit(&mut reader, MAX_LINE_BYTES, usize::MAX).unwrap();
    assert_eq!(line, vec![0xFF, b'\n']);
}

#[test]
fn test_read_line_with_limit_custom_max_bytes_exceeded() {
    let mut reader = ByteReader::new(b"abcdefgh\n".to_vec());
    let result = read_line_with_limit(&mut reader, 5, usize::MAX);
    assert!(result.is_err());
}

#[test]
fn test_read_line_with_limit_custom_max_bytes_boundary() {
    let mut reader = ByteReader::new(b"abc\n".to_vec());
    let line = read_line_with_limit(&mut reader, 4, usize::MAX).unwrap();
    assert_eq!(line, b"abc\n");
}

#[test]
fn test_read_line_with_limit_multiple_lines() {
    let data = b"line1\nline2\nline3\n".to_vec();
    let mut reader = ByteReader::new(data);
    let l1 = read_line_with_limit(&mut reader, MAX_LINE_BYTES, usize::MAX).unwrap();
    assert_eq!(l1, b"line1\n");
    let l2 = read_line_with_limit(&mut reader, MAX_LINE_BYTES, usize::MAX).unwrap();
    assert_eq!(l2, b"line2\n");
    let l3 = read_line_with_limit(&mut reader, MAX_LINE_BYTES, usize::MAX).unwrap();
    assert_eq!(l3, b"line3\n");
    let l4 = read_line_with_limit(&mut reader, MAX_LINE_BYTES, usize::MAX).unwrap();
    assert_eq!(l4, b"");
}

#[test]
fn i001_total_avail_zero_returns_empty_without_reading() {
    let mut reader = ByteReader::new(b"hello world\n".to_vec());
    let line = read_line_with_limit(&mut reader, MAX_LINE_BYTES, 0).unwrap();
    assert_eq!(line, b"");
    let line2 = read_line_with_limit(&mut reader, MAX_LINE_BYTES, usize::MAX).unwrap();
    assert_eq!(line2, b"hello world\n");
}

#[test]
fn i001_total_avail_limits_consumption_returns_partial() {
    let data = b"partial without newline".to_vec();
    let total_avail = data.len();
    let mut reader = ByteReader::new(data);
    let chunk = read_line_with_limit(&mut reader, MAX_LINE_BYTES, total_avail).unwrap();
    assert_eq!(chunk, b"partial without newline");
    assert!(!chunk.ends_with(b"\n"));
}

#[test]
fn i001_total_avail_less_than_data_returns_truncated_partial() {
    let mut reader = ByteReader::with_capacity(5, b"hello world\n".to_vec());
    let chunk = read_line_with_limit(&mut reader, MAX_LINE_BYTES, 5).unwrap();
    assert_eq!(chunk, b"hello");
    assert!(!chunk.ends_with(b"\n"));
    let chunk2 = read_line_with_limit(&mut reader, MAX_LINE_BYTES, usize::MAX).unwrap();
    assert_eq!(chunk2, b" world\n");
}

#[test]
fn i001_partial_accumulation_simulates_outer_loop() {
    let data = b"hello world\n".to_vec();
    let mut reader = ByteReader::with_capacity(5, data);
    let mut accumulated: Vec<u8> = Vec::new();
    let chunk1 = read_line_with_limit(&mut reader, MAX_LINE_BYTES, 5).unwrap();
    assert!(!chunk1.ends_with(b"\n"));
    accumulated.extend_from_slice(&chunk1);
    let chunk2 = read_line_with_limit(&mut reader, MAX_LINE_BYTES, usize::MAX).unwrap();
    assert!(chunk2.ends_with(b"\n"));
    accumulated.extend_from_slice(&chunk2);
    let line = String::from_utf8(accumulated).unwrap();
    assert_eq!(line, "hello world\n");
}

#[test]
fn i001_total_avail_prevents_infinite_stream_blocking() {
    let chunk = read_line_of_endless_x(MAX_LINE_BYTES, 10).unwrap();
    assert_eq!(chunk.len(), 10);
    assert_eq!(chunk, vec![b'x'; 10]);
    assert!(!chunk.ends_with(b"\n"));
}

#[test]
fn i001_total_avail_with_newline_returns_complete_line() {
    let mut reader = ByteReader::new(b"hello\nworld\n".to_vec());
    let chunk = read_line_with_limit(&mut reader, MAX_LINE_BYTES, 6).unwrap();
    assert_eq!(chunk, b"hello\n");
    assert!(chunk.ends_with(b"\n"));
    let chunk2 = read_line_with_limit(&mut reader, MAX_LINE_BYTES, usize::MAX).unwrap();
    assert_eq!(chunk2, b"world\n");
}

#[test]
fn v41_i001_utf8_truncation_continues_reading() {
    let data = "Hello 中\n".as_bytes().to_vec();
    let mut reader = ByteReader::with_capacity(7, data);
    let line = read_line_with_limit(&mut reader, MAX_LINE_BYTES, 7).unwrap();
    assert_eq!(line, "Hello 中\n".as_bytes());
    assert!(line.ends_with(b"\n"));
    let s = String::from_utf8(line).unwrap();
    assert_eq!(s, "Hello 中\n");
}

#[test]
fn v41_i001_utf8_truncation_4byte_continues_reading() {
    let data = "A😀\n".as_bytes().to_vec();
    let mut reader = ByteReader::with_capacity(2, data);
    let line = read_line_with_limit(&mut reader, MAX_LINE_BYTES, 2).unwrap();
    assert_eq!(line, "A😀\n".as_bytes());
    let s = String::from_utf8(line).unwrap();
    assert_eq!(s, "A😀\n");
}

#[test]
fn v41_i001_utf8_invalid_byte_returns_error() {
    let mut reader = ByteReader::new(vec![0xFF, 0xFE]);
    let result = read_line_with_limit(&mut reader, MAX_LINE_BYTES, 2);
    let err = result.unwrap_err();
    match err {
        MirrorStarError::IpcError(msg) => {
            assert!(msg.contains("UTF-8"));
        }
        other => panic!("{:?}", other),
    }
}

#[test]
fn v41_i001_utf8_invalid_byte_after_valid_returns_error() {
    let mut reader = ByteReader::with_capacity(6, b"Hello\xFF\n".to_vec());
    let result = read_line_with_limit(&mut reader, MAX_LINE_BYTES, 6);
    let err = result.unwrap_err();
    match err {
        MirrorStarError::IpcError(msg) => {
            assert!(msg.contains("UTF-8"));
        }
        other => panic!("{:?}", other),
    }
}

#[test]
fn v41_i001_utf8_truncation_eof_returns_partial_bytes() {
    let mut reader = ByteReader::new(b"Hello \xE4".to_vec());
    let line = read_line_with_limit(&mut reader, MAX_LINE_BYTES, 7).unwrap();
    assert_eq!(line, b"Hello \xE4");
    assert!(String::from_utf8(line).is_err());
}

#[test]
fn a_line_that_is_too_long_is_refused_by_its_length() {
    let mut reader = ByteReader::new(b"abcdefgh\n".to_vec());
    let error = read_line_with_limit(&mut reader, 5, usize::MAX).unwrap_err();
    assert_eq!(error.code(), "IpcError");
    assert!(error.message().contains("超过 5 字节上限"));
}

#[test]
fn a_wait_puts_pieces_together() {
    let mut wait = read_line_with_timeout(1000, Delay::from_millis(5));
    match wait.on_peek(0, Ok(0)) {
        PollStep::Idle => {}
        other => panic!("{:?}", other),
    }
    assert_eq!(wait.on_clock(1000).unwrap(), Delay::from_millis(10));
    match wait.on_peek(2, Ok(3)) {
        PollStep::Read { max_bytes, total_avail } => {
            assert_eq!(max_bytes, MAX_LINE_BYTES);
            assert_eq!(total_avail, 5);
        }
        other => panic!("{:?}", other),
    }
    assert!(wait.on_chunk(b"hello".to_vec()).is_none());
    assert_eq!(wait.on_clock(2000).unwrap(), Delay::from_millis(20));
    assert_eq!(wait.on_chunk(b" world\n".to_vec()).unwrap().unwrap(), "hello world\n");
}

#[test]
fn a_wait_is_given_up_at_its_deadline() {
    let mut wait = read_line_with_timeout(0, Delay::from_millis(5));
    assert!(wait.on_clock(4_999_999).is_ok());
    let error = wait.on_clock(5_000_000).unwrap_err();
    assert_eq!(error.code(), "IpcTimeout");
}

#[test]
fn a_closed_pipe_ends_the_wait() {
    let mut wait = read_line_with_timeout(0, Delay::from_millis(5));
    assert!(wait.on_chunk(b"rest".to_vec()).is_none());
    let gone = PeekFailure { code: 0x8007006d_u32 as i32, text: "gone".to_string() };
    match wait.on_peek(0, Err(gone)) {
        PollStep::Finished(Ok(line)) => assert_eq!(line, "rest"),
        other => panic!("{:?}", other),
    }
    let mut wait = read_line_with_timeout(0, Delay::from_millis(5));
    let denied = PeekFailure { code: 0x80070005_u32 as i32, text: "denied".to_string() };
    match wait.on_peek(0, Err(denied)) {
        PollStep::Finished(Err(error)) => {
            assert_eq!(error.code(), "IpcError");
            assert!(error.message().contains("denied"));
        }
        other => panic!("{:?}", other),
    }
    let mut wait = read_line_with_timeout(0, Delay::from_millis(5));
    assert_eq!(wait.on_chunk(Vec::new()).unwrap().unwrap(), "");
}

#[test]
fn bytes_that_are_no_text_end_the_wait_with_an_error() {
    let mut wait = read_line_with_timeout(0, Delay::from_millis(5));
    let error = wait.on_chunk(vec![0xFF, b'\n']).unwrap().unwrap_err();
    assert_eq!(error.code(), "IpcError");
    assert!(error.message().contains("UTF-8"));
    assert!(error.message().contains("invalid utf-8 sequence"));
}

#[test]
fn lines_are_sent_only_over_an_open_pipe() {
    let mut client: NamedPipeClient<()> = NamedPipeClient::new("test-pipe");
    assert_eq!(client.send_line("{}").unwrap_err().code(), "IpcNotConnected");
    client.opened();
    assert_eq!(client.send_line("{}").unwrap(), b"{}\n");
    client.disconnect();
    assert_eq!(client.send_line("{}").unwrap_err().code(), "IpcNotConnected");
}

#[test]
fn opening_is_tried_again_a_number_of_times() {
    let client: NamedPipeClient<()> = NamedPipeClient::new("p");
    let mut retry = client.connect(2, 50);
    assert_eq!(retry.on_failure("busy").unwrap(), Delay::from_millis(50));
    assert_eq!(retry.on_failure("busy").unwrap(), Delay::from_millis(50));
    let error = retry.on_failure("busy").unwrap_err();
    assert!(error.message().ends_with("连接命名管道失败 (已重试 2 次): busy (path=\\\\.\\pipe\\p)"));
    assert!(clone_failure("no handle").message().ends_with("克隆管道文件句柄失败: no handle"));
}

#[test]
fn blank_lines_are_no_response() {
    let mut client: NamedPipeClient<()> = NamedPipeClient::new("p");
    assert!(client.read_response_line_with_timeout(0, Delay::from_millis(1)).is_err());
    client.opened();
    let wait = client.read_response_line_with_timeout(0, Delay::from_millis(1)).unwrap();
    assert!(wait.check(999_999).is_ok());
    assert_eq!(wait.check(1_000_000).unwrap_err().code(), "IpcTimeout");
    assert_eq!(wait.remaining(400_000), Delay { nanos: 600_000 });
    assert_eq!(wait.remaining(2_000_000), Delay { nanos: 0 });
    assert!(wait.on_line(" \t\r\n").is_none());
    assert_eq!(wait.on_line("  {} \n").unwrap().unwrap(), "{}");
    assert_eq!(wait.on_line("").unwrap().unwrap_err().code(), "IpcDisconnected");
}

#[test]
fn a_cut_character_takes_only_what_it_is_missing() {
    let mut reader = ByteReader::new("中XYZ".as_bytes().to_vec());
    let line = read_line_with_limit(&mut reader, MAX_LINE_BYTES, 1).unwrap();
    assert_eq!(line, "中".as_bytes());
    let rest = read_line_with_limit(&mut reader, MAX_LINE_BYTES, usize::MAX).unwrap();
    assert_eq!(rest, b"XYZ");
    for cut in 1..4 {
        for capacity in 1..6 {
            let mut reader = ByteReader::with_capacity(capacity, "😀中国\n".as_bytes().to_vec());
            let line = read_line_with_limit(&mut reader, MAX_LINE_BYTES, cut).unwrap();
            assert_eq!(line, "😀".as_bytes());
            let rest = read_line_with_limit(&mut reader, MAX_LINE_BYTES, usize::MAX).unwrap();
            assert_eq!(rest, "中国\n".as_bytes());
        }
    }
    let mut reader = ByteReader::new("éé".as_bytes().to_vec());
    assert_eq!(read_line_with_limit(&mut reader, MAX_LINE_BYTES, 3).unwrap(), "éé".as_bytes());
}

#[test]
fn a_wrong_byte_in_a_cut_character_is_an_error() {
    let mut reader = ByteReader::new(vec![0xe4, b'X', b'Y', b'Z']);
    let error = read_line_with_limit(&mut reader, MAX_LINE_BYTES, 1).unwrap_err();
    assert!(error.message().contains("IPC 响应非有效 UTF-8: "));
}

#[test]
fn waits_double_up_to_the_limit() {
    let mut waits = Backoff::new(Delay::from_millis(3), Delay::from_millis(1000));
    for k in 0..12 {
        assert_eq!(waits.next_delay(), Delay::from_millis((3u64 << k).min(1000)));
    }
}
