use wwrpc::ipc::{encode_frame, reply_length, socket_paths, IpcClient};
use wwrpc::json::{parse, Json};

#[test]
fn frame_header_is_op_then_le_len() {
    let frame = encode_frame(1, "abc");
    assert_eq!(&frame[..4], &1u32.to_le_bytes());
    assert_eq!(&frame[4..8], &3u32.to_le_bytes());
    assert_eq!(&frame[8..], b"abc");
}

#[test]
fn socket_paths_cover_runtime_dir_and_tmp() {
    let paths = socket_paths(Some("/run/user/1000"), "/tmp");
    assert!(paths.iter().any(|p| p.ends_with("discord-ipc-0")));
    assert!(paths.iter().any(|p| p.ends_with("discord-ipc-9")));
}

#[test]
fn sockets_come_in_order() {
    let paths = socket_paths(Some("/run/user/1000"), "/tmp/");
    assert_eq!(paths.len(), 20);
    assert_eq!(paths[0], "/run/user/1000/discord-ipc-0");
    assert_eq!(paths[9], "/run/user/1000/discord-ipc-9");
    assert_eq!(paths[10], "/tmp/discord-ipc-0");
    assert_eq!(paths[19], "/tmp/discord-ipc-9");
    assert_eq!(socket_paths(None, "/tmp").len(), 10);
}

#[test]
fn a_frame_tells_its_length() {
    for payload in ["", "x", "•••", &"y".repeat(70_000)] {
        let frame = encode_frame(7, payload);
        let mut header = [0u8; 8];
        header.copy_from_slice(&frame[..8]);
        assert_eq!(reply_length(header), Some(payload.len() as u32));
        assert_eq!(&frame[..4], &7u32.to_le_bytes());
        assert_eq!(&frame[8..], payload.as_bytes());
    }
    let big = encode_frame(0x0403_0201, "");
    assert_eq!(&big[..4], &[1, 2, 3, 4]);
}

#[test]
fn large_replies_are_refused() {
    let mut header = [0u8; 8];
    header[4..8].copy_from_slice(&(1024 * 1024u32).to_le_bytes());
    assert_eq!(reply_length(header), Some(1_048_576));
    header[4..8].copy_from_slice(&(1024 * 1024u32 + 1).to_le_bytes());
    assert_eq!(reply_length(header), None);
    header[4..8].copy_from_slice(&u32::MAX.to_le_bytes());
    assert_eq!(reply_length(header), None);
}

fn body(frame: &[u8]) -> Json {
    parse(std::str::from_utf8(&frame[8..]).unwrap()).unwrap()
}

#[test]
fn messages_are_numbered_and_name_the_process() {
    let mut client = IpcClient::new("42".to_string());
    assert!(!client.is_connected());
    // Without a connection there is nothing to write, but the number is used.
    assert_eq!(client.set_activity(5, Json::Null), None);
    let hello = client.handshake();
    assert_eq!(&hello[..4], &0u32.to_le_bytes());
    let hello = body(&hello);
    assert_eq!(hello.get("v").unwrap().as_u64(), Some(1));
    assert_eq!(hello.get("client_id").unwrap().as_str(), Some("42"));
    client.connect(true);
    assert!(client.is_connected());
    let frame = client.set_activity(5, Json::string("card")).unwrap();
    assert_eq!(&frame[..4], &1u32.to_le_bytes());
    let message = body(&frame);
    assert_eq!(message.get("cmd").unwrap().as_str(), Some("SET_ACTIVITY"));
    assert_eq!(message.get("nonce").unwrap().as_str(), Some("2"));
    let args = message.get("args").unwrap();
    assert_eq!(args.get("pid").unwrap().as_u64(), Some(5));
    assert_eq!(args.get("activity").unwrap().as_str(), Some("card"));
    let cleared = body(&client.clear(6).unwrap());
    assert_eq!(cleared.get("nonce").unwrap().as_str(), Some("3"));
    assert_eq!(cleared.get("args").unwrap().get("activity"), Some(&Json::Null));
}

#[test]
fn a_failed_write_or_handshake_ends_the_connection() {
    let mut client = IpcClient::new("1".to_string());
    client.connect(false);
    assert!(!client.is_connected());
    client.connect(true);
    client.wrote(true);
    assert!(client.is_connected());
    client.wrote(false);
    assert!(!client.is_connected());
    client.connect(true);
    client.close();
    assert!(!client.is_connected());
    client.close();
    assert!(!client.is_connected());
}
