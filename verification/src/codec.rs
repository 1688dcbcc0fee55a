//! Serialization and parsing of the wire frame.
//!
//! Layout, little-endian and byte-exact:
//! `seq (u32) ‖ cmd_len (u16) ‖ cmd bytes ‖ type (u8) ‖ data`.
//! The shortest legal frame is 7 bytes (empty command, empty payload).

use vstd::prelude::*;
use vstd::bytes::{
    spec_u16_from_le_bytes, spec_u16_to_le_bytes, spec_u32_from_le_bytes, spec_u32_to_le_bytes,
    u16_from_le_bytes, u16_to_le_bytes, u32_from_le_bytes, u32_to_le_bytes,
};
use vstd::slice::{slice_subrange, slice_to_vec};
use vstd::utf8::{decode_utf8, encode_utf8, valid_utf8};

use crate::msg::{valid_type_bits, MsgWrapper};

verus! {

/// Shortest legal frame: 4 seq bytes, 2 length bytes, 1 type byte.
pub const PAYLOAD_MIN_LEN: usize = 7;

/// The exact bytes that `serialize` writes for a message.
pub open spec fn spec_serialize(m: MsgWrapper) -> Seq<u8>
    recommends
        m.wf(),
{
    spec_u32_to_le_bytes(m.seq) + spec_u16_to_le_bytes(m.cmd_bytes().len() as u16)
        + m.cmd_bytes() + seq![m.type_] + m.effective_data()
}

/// The command-name length field of a frame.
pub open spec fn frame_cmd_len(bytes: Seq<u8>) -> int
    recommends
        bytes.len() >= 7,
{
    spec_u16_from_le_bytes(bytes.subrange(4, 6)) as int
}

/// True when the bytes parse as a frame: long enough for the header, long
/// enough for the announced command name, command name valid UTF-8, and a
/// type byte with no reserved bit set.
pub open spec fn frame_ok(bytes: Seq<u8>) -> bool {
    &&& bytes.len() >= 7
    &&& bytes.len() >= 7 + frame_cmd_len(bytes)
    &&& valid_utf8(bytes.subrange(6, 6 + frame_cmd_len(bytes)))
    &&& valid_type_bits(bytes[6 + frame_cmd_len(bytes)])
}

/// The sequence number of a well-formed frame.
pub open spec fn frame_seq(bytes: Seq<u8>) -> u32
    recommends
        frame_ok(bytes),
{
    spec_u32_from_le_bytes(bytes.subrange(0, 4))
}

/// The command name of a well-formed frame.
pub open spec fn frame_cmd(bytes: Seq<u8>) -> Seq<char>
    recommends
        frame_ok(bytes),
{
    decode_utf8(bytes.subrange(6, 6 + frame_cmd_len(bytes)))
}

/// The type byte of a well-formed frame.
pub open spec fn frame_type(bytes: Seq<u8>) -> u8
    recommends
        frame_ok(bytes),
{
    bytes[6 + frame_cmd_len(bytes)]
}

/// The payload of a well-formed frame: everything after the type byte.
pub open spec fn frame_data(bytes: Seq<u8>) -> Seq<u8>
    recommends
        frame_ok(bytes),
{
    bytes.subrange(7 + frame_cmd_len(bytes), bytes.len() as int)
}

/// True when `m` holds exactly the fields of the well-formed frame `bytes`.
pub open spec fn decodes_to(bytes: Seq<u8>, m: MsgWrapper) -> bool {
    &&& m.seq == frame_seq(bytes)
    &&& m.cmd@ == frame_cmd(bytes)
    &&& m.type_ == frame_type(bytes)
    &&& m.data@ == frame_data(bytes)
    &&& m.request_payload is None
}

/// Relies on `std::str::from_utf8`: it returns `Ok` exactly on valid UTF-8
/// input, and the returned string slice is that input, decoded.
#[verifier::external_body]
pub(crate) fn utf8_to_str(bytes: &[u8]) -> (r: Option<&str>)
    ensures
        r is Some <==> valid_utf8(bytes@),
        r is Some ==> r.unwrap()@ == decode_utf8(bytes@),
{
    std::str::from_utf8(bytes).ok()
}

/// Serialize a message into one frame.
pub fn serialize(msg: &MsgWrapper) -> (payload: Vec<u8>)
    requires
        msg.wf(),
    ensures
        payload@ == spec_serialize(*msg),
        payload@.len() == 7 + msg.cmd_bytes().len() + msg.effective_data().len(),
        frame_ok(payload@),
{
    let mut payload: Vec<u8> = Vec::new();
    let mut seq_bytes = u32_to_le_bytes(msg.seq);
    payload.append(&mut seq_bytes);

    let mut cmd_bytes: Vec<u8> = msg.cmd.as_str().as_bytes_vec();
    let cmd_len: u16 = cmd_bytes.len() as u16;
    let mut len_bytes = u16_to_le_bytes(cmd_len);
    payload.append(&mut len_bytes);
    payload.append(&mut cmd_bytes);

    payload.push(msg.type_);

    let mut tail: Vec<u8> = match &msg.request_payload {
        Some(rp) => slice_to_vec(rp.as_slice()),
        None => slice_to_vec(msg.data.as_slice()),
    };
    payload.append(&mut tail);

    proof {
        vstd::bytes::lemma_auto_spec_u32_to_from_le_bytes();
        vstd::bytes::lemma_auto_spec_u16_to_from_le_bytes();
        assert(payload@ =~= spec_serialize(*msg));
        lemma_serialize_frame_ok(*msg);
    }
    payload
}

/// Parse one frame. Yields `None` exactly on a malformed frame: too short,
/// command name running past the end or not valid UTF-8, or a reserved
/// flag bit set.
pub fn deserialize(payload: &Vec<u8>) -> (r: Option<MsgWrapper>)
    ensures
        r is Some <==> frame_ok(payload@),
        r is Some ==> decodes_to(payload@, r.unwrap()) && r.unwrap().wf(),
{
    proof {
        vstd::bytes::lemma_auto_spec_u16_to_from_le_bytes();
    }
    if payload.len() < PAYLOAD_MIN_LEN {
        return None;
    }
    let seq = u32_from_le_bytes(slice_subrange(payload.as_slice(), 0, 4));
    let cmd_len = u16_from_le_bytes(slice_subrange(payload.as_slice(), 4, 6)) as usize;
    if payload.len() < 7 + cmd_len {
        return None;
    }
    let cmd_slice = slice_subrange(payload.as_slice(), 6, 6 + cmd_len);
    let cmd: String = match utf8_to_str(cmd_slice) {
        Some(s) => s.to_owned(),
        None => {
            return None;
        },
    };
    let type_ = payload[6 + cmd_len];
    if type_ >= 64 {
        return None;
    }
    let data = slice_to_vec(slice_subrange(payload.as_slice(), 7 + cmd_len, payload.len()));
    let m = MsgWrapper { seq, type_, cmd, data, request_payload: None };
    proof {
        vstd::utf8::decode_utf8_encode_utf8(payload@.subrange(6, 6 + frame_cmd_len(payload@)));
        assert(m.cmd_bytes() =~= payload@.subrange(6, 6 + frame_cmd_len(payload@)));
    }
    Some(m)
}

/// The frame written for a well-formed message is itself well-formed, and
/// every field reads back as it was written.
pub proof fn lemma_serialize_frame_ok(m: MsgWrapper)
    requires
        m.wf(),
    ensures
        frame_ok(spec_serialize(m)),
        frame_cmd_len(spec_serialize(m)) == m.cmd_bytes().len(),
        frame_seq(spec_serialize(m)) == m.seq,
        frame_cmd(spec_serialize(m)) == m.cmd@,
        frame_type(spec_serialize(m)) == m.type_,
        frame_data(spec_serialize(m)) == m.effective_data(),
{
    vstd::bytes::lemma_auto_spec_u32_to_from_le_bytes();
    vstd::bytes::lemma_auto_spec_u16_to_from_le_bytes();
    let bytes = spec_serialize(m);
    let cl = m.cmd_bytes().len() as int;
    assert(bytes.subrange(0, 4) =~= spec_u32_to_le_bytes(m.seq));
    assert(bytes.subrange(4, 6) =~= spec_u16_to_le_bytes(m.cmd_bytes().len() as u16));
    assert(frame_cmd_len(bytes) == cl);
    assert(bytes.subrange(6, 6 + cl) =~= m.cmd_bytes());
    vstd::utf8::encode_utf8_valid_utf8(m.cmd@);
    vstd::utf8::encode_utf8_decode_utf8(m.cmd@);
    assert(bytes[6 + cl] == m.type_);
    assert(bytes.subrange(7 + cl, bytes.len() as int) =~= m.effective_data());
}

/// Frame round-trip: any well-formed message without an attached
/// `request_payload` decodes from its own frame unchanged.
pub proof fn lemma_frame_round_trip(m: MsgWrapper)
    requires
        m.wf(),
        m.request_payload is None,
    ensures
        frame_ok(spec_serialize(m)),
        decodes_to(spec_serialize(m), m),
{
    lemma_serialize_frame_ok(m);
}

/// The other direction of the round trip: what was decoded from a
/// well-formed frame serializes back to exactly that frame.
pub proof fn lemma_decode_reencode(b: Seq<u8>, m: MsgWrapper)
    requires
        frame_ok(b),
        decodes_to(b, m),
        m.wf(),
    ensures
        spec_serialize(m) == b,
{
    vstd::bytes::lemma_auto_spec_u32_to_from_le_bytes();
    vstd::bytes::lemma_auto_spec_u16_to_from_le_bytes();
    let cl = frame_cmd_len(b);
    vstd::utf8::decode_utf8_encode_utf8(b.subrange(6, 6 + cl));
    assert(m.cmd_bytes() =~= b.subrange(6, 6 + cl));
    assert(spec_u32_to_le_bytes(m.seq) =~= b.subrange(0, 4));
    assert(spec_u16_to_le_bytes(m.cmd_bytes().len() as u16) =~= b.subrange(4, 6));
    assert(spec_serialize(m) =~= b);
}

/// Rewriting only the type byte of a message moves the frame by one byte
/// update in place.
pub proof fn lemma_serialize_update_type(m: MsgWrapper, t: u8)
    requires
        m.wf(),
        valid_type_bits(t),
    ensures
        spec_serialize(MsgWrapper { type_: t, ..m }) == spec_serialize(m).update(
            6 + m.cmd_bytes().len() as int,
            t,
        ),
{
    vstd::bytes::lemma_auto_spec_u32_to_from_le_bytes();
    vstd::bytes::lemma_auto_spec_u16_to_from_le_bytes();
    let m2 = MsgWrapper { type_: t, ..m };
    assert(m2.cmd_bytes() == m.cmd_bytes());
    assert(m2.effective_data() == m.effective_data());
    assert(spec_serialize(m2) =~= spec_serialize(m).update(6 + m.cmd_bytes().len() as int, t));
}

} // verus!
