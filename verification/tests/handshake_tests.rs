use tello::handshake::{is_connect_ack, TelloConnectRequest, COLON};

#[test]
fn connect_request_bytes_for_video_port() {
    let request = TelloConnectRequest::connect(8040);
    assert_eq!(request.cmd, "conn_req");
    assert_eq!(request.video_port, 8040);
    // 8040 is 0x1f68: low byte first.
    assert_eq!(request.as_bytes(), b"conn_req:\x68\x1f".to_vec());
}

#[test]
fn connect_request_port_bytes() {
    assert_eq!(TelloConnectRequest::connect(0).as_bytes(), b"conn_req:\x00\x00".to_vec());
    assert_eq!(TelloConnectRequest::connect(0xffff).as_bytes(), b"conn_req:\xff\xff".to_vec());
    assert_eq!(TelloConnectRequest::connect(0x0102).as_bytes(), b"conn_req:\x02\x01".to_vec());
    assert_eq!(TelloConnectRequest::connect(255).as_bytes(), b"conn_req:\xff\x00".to_vec());
    assert_eq!(TelloConnectRequest::connect(256).as_bytes(), b"conn_req:\x00\x01".to_vec());
}

#[test]
fn connect_request_length() {
    assert_eq!(TelloConnectRequest::connect(6038).as_bytes().len(), 11);
}

#[test]
fn request_with_another_command_word() {
    let request = TelloConnectRequest { cmd: "ping", video_port: 0x3039 };
    assert_eq!(request.as_bytes(), vec![b'p', b'i', b'n', b'g', COLON, 0x39, 0x30]);
    let empty = TelloConnectRequest { cmd: "", video_port: 1 };
    assert_eq!(empty.as_bytes(), vec![COLON, 1, 0]);
}

#[test]
fn connect_ack_is_told_by_its_prefix() {
    assert!(is_connect_ack(b"conn_ack:", 9));
    assert!(is_connect_ack(b"conn_ack:\x68\x1f", 11));
    assert!(is_connect_ack(b"conn_ack:anything at all", 24));
    assert!(is_connect_ack(b"conn_ack:\xcc\x58\x00\x7c", 13));
}

#[test]
fn connect_ack_needs_the_whole_prefix() {
    assert!(!is_connect_ack(b"", 0));
    assert!(!is_connect_ack(b"conn_ack", 8));
    assert!(!is_connect_ack(b"conn_req:\x68\x1f", 11));
    assert!(!is_connect_ack(b"conn_ack;", 9));
    assert!(!is_connect_ack(b"Conn_ack:", 9));
    assert!(!is_connect_ack(b" conn_ack:", 10));
    assert!(!is_connect_ack(&[0xcc, 0x58, 0x00, 0x7c, 0x60, 0x25, 0, 0, 0, 0x6c, 0x95], 11));
}

#[test]
fn connect_ack_looks_at_received_bytes_only() {
    // The buffer still holds an old answer, but only three bytes arrived.
    let mut buffer = [0u8; 64];
    buffer[..9].copy_from_slice(b"conn_ack:");
    assert!(!is_connect_ack(&buffer, 3));
    assert!(!is_connect_ack(&buffer, 8));
    assert!(is_connect_ack(&buffer, 9));
    assert!(is_connect_ack(&buffer, 64));
    assert!(is_connect_ack(&buffer, 1000));
}
