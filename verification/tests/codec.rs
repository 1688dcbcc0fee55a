use rpc_core::codec::{deserialize, serialize};
use rpc_core::msg::{
    has_flag, u32_to_decimal, MsgWrapper, TYPE_COMMAND, TYPE_NEED_RSP, TYPE_PING, TYPE_RESPONSE,
};

fn msg(seq: u32, cmd: &str, type_: u8, data: &[u8]) -> MsgWrapper {
    MsgWrapper {
        seq,
        type_,
        cmd: cmd.to_string(),
        data: data.to_vec(),
        request_payload: None,
    }
}

#[test]
fn frame_exact_bytes() {
    let m = msg(0x01020304, "ab", TYPE_COMMAND | TYPE_NEED_RSP, &[9, 7]);
    let bytes = serialize(&m);
    assert_eq!(bytes, vec![0x04, 0x03, 0x02, 0x01, 2, 0, b'a', b'b', 5, 9, 7]);
}

#[test]
fn frame_round_trip() {
    let m = msg(400_000, "echo", TYPE_COMMAND | TYPE_PING, b"payload");
    let bytes = serialize(&m);
    let back = deserialize(&bytes).expect("well-formed frame");
    assert_eq!(back.seq, 400_000);
    assert_eq!(back.cmd, "echo");
    assert_eq!(back.type_, TYPE_COMMAND | TYPE_PING);
    assert_eq!(back.data, b"payload".to_vec());
    assert!(back.request_payload.is_none());
}

#[test]
fn frame_round_trip_empty_cmd_and_data() {
    let m = MsgWrapper::new();
    let bytes = serialize(&m);
    assert_eq!(bytes.len(), 7);
    let back = deserialize(&bytes).expect("minimum frame is legal");
    assert_eq!(back.seq, 0);
    assert_eq!(back.cmd, "");
    assert_eq!(back.data, Vec::<u8>::new());
}

#[test]
fn request_payload_replaces_data() {
    let mut m = msg(1, "c", TYPE_COMMAND, b"old");
    m.request_payload = Some(b"new".to_vec());
    let bytes = serialize(&m);
    let back = deserialize(&bytes).unwrap();
    assert_eq!(back.data, b"new".to_vec());
}

#[test]
fn short_frame_is_rejected() {
    assert!(deserialize(&vec![0, 0, 0, 0, 0, 0]).is_none());
    assert!(deserialize(&Vec::new()).is_none());
}

#[test]
fn truncated_cmd_is_rejected() {
    // Header announces a 5-byte command but only 1 byte follows.
    let bytes = vec![0, 0, 0, 0, 5, 0, b'a', 1];
    assert!(deserialize(&bytes).is_none());
}

#[test]
fn reserved_type_bit_is_rejected() {
    let bytes = vec![0, 0, 0, 0, 0, 0, 64];
    assert!(deserialize(&bytes).is_none());
    let bytes = vec![0, 0, 0, 0, 0, 0, 0x80];
    assert!(deserialize(&bytes).is_none());
}

#[test]
fn invalid_utf8_cmd_is_rejected() {
    let bytes = vec![0, 0, 0, 0, 1, 0, 0xFF, 1];
    assert!(deserialize(&bytes).is_none());
}

#[test]
fn make_rsp_mirrors_seq() {
    let m = MsgWrapper::make_rsp(77, b"ok".to_vec());
    assert_eq!(m.seq, 77);
    assert_eq!(m.type_, TYPE_RESPONSE);
    assert_eq!(m.cmd, "");
    assert_eq!(m.data, b"ok".to_vec());
}

#[test]
fn flag_test() {
    assert!(has_flag(TYPE_COMMAND | TYPE_PING, TYPE_COMMAND));
    assert!(has_flag(TYPE_COMMAND | TYPE_PING, TYPE_PING));
    assert!(!has_flag(TYPE_COMMAND | TYPE_PING, TYPE_RESPONSE));
}

#[test]
fn decimal_text() {
    assert_eq!(u32_to_decimal(0), "0");
    assert_eq!(u32_to_decimal(7), "7");
    assert_eq!(u32_to_decimal(1024), "1024");
    assert_eq!(u32_to_decimal(u32::MAX), "4294967295");
}

#[test]
fn dump_summary() {
    let m = msg(7, "x", TYPE_RESPONSE, b"");
    assert_eq!(m.dump(), "seq:7, type:2, cmd:x");
}
