//! The byte-exact wire contracts: handshake, frame layout, request bodies.
use reql_driver::json::to_json;
use reql_driver::query::{db, db_list};
use reql_driver::wire::{
    continue_frame, frame, handshake_reply_ok, handshake_request, parse_header, request_body,
    GlobalOptions, ReadMode,
};

#[test]
fn handshake_magic_bytes() {
    assert_eq!(
        handshake_request(),
        vec![0x20, 0x2d, 0x0c, 0x40, 0x00, 0x00, 0x00, 0x00, 0xc7, 0x70, 0x69, 0x7e]
    );
}

#[test]
fn handshake_reply_is_checked_verbatim() {
    assert!(handshake_reply_ok(b"SUCCESS\0"));
    assert!(!handshake_reply_ok(b"SUCCESS!"));
    assert!(!handshake_reply_ok(b"SUCCESS"));
    assert!(!handshake_reply_ok(b"success\0"));
    assert!(!handshake_reply_ok(b""));
}

#[test]
fn frame_layout() {
    let body = b"[2]".to_vec();
    let f = frame(0x0102030405060708, &body);
    assert_eq!(
        f,
        vec![
            0x01, 0x02, 0x03, 0x04, 0x05, 0x06, 0x07, 0x08, // token, big-endian
            0x03, 0x00, 0x00, 0x00, // length, little-endian
            b'[', b'2', b']',
        ]
    );
}

#[test]
fn continue_frame_is_fixed() {
    let f = continue_frame(7);
    assert_eq!(f.len(), 15);
    assert_eq!(
        f,
        vec![0, 0, 0, 0, 0, 0, 0, 7, 3, 0, 0, 0, b'[', b'2', b']']
    );
}

#[test]
fn header_parses_back() {
    let body = vec![0u8; 300];
    let f = frame(0xdeadbeef00, &body);
    let (token, size) = parse_header(&f[..12]);
    assert_eq!(token, 0xdeadbeef00);
    assert_eq!(size, 300);
}

#[test]
fn start_request_body_shape() {
    let opts = GlobalOptions::default();
    assert_eq!(request_body(&db_list().ast, &opts), b"[1,[59,[]],{}]".to_vec());
    let q = db("d").table("c").get("id-1");
    assert_eq!(
        request_body(&q.ast, &opts),
        b"[1,[16,[[15,[[14,[\"d\"]],\"c\"]],\"id-1\"]],{}]".to_vec()
    );
}

#[test]
fn read_mode_serializes_when_set() {
    let opts = GlobalOptions { read_mode: Some(ReadMode::Majority) };
    assert_eq!(
        request_body(&db_list().ast, &opts),
        b"[1,[59,[]],{\"read_mode\":\"majority\"}]".to_vec()
    );
    let opts = GlobalOptions { read_mode: Some(ReadMode::Single) };
    assert_eq!(
        request_body(&db_list().ast, &opts),
        b"[1,[59,[]],{\"read_mode\":\"single\"}]".to_vec()
    );
    let opts = GlobalOptions { read_mode: Some(ReadMode::Outdated) };
    assert_eq!(
        request_body(&db_list().ast, &opts),
        b"[1,[59,[]],{\"read_mode\":\"outdated\"}]".to_vec()
    );
}

#[test]
fn to_json_matches_request_payload() {
    // The query part of a request body is exactly the tree's own JSON.
    let q = db("d").table("c");
    let body = request_body(&q.ast, &GlobalOptions::default());
    let mut expected = b"[1,".to_vec();
    let q2 = db("d").table("c");
    expected.extend_from_slice(&to_json(&q2.ast));
    expected.extend_from_slice(b",{}]");
    assert_eq!(body, expected);
}
