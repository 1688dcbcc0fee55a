//! In-memory representation of one wire message and its type-flag byte.

use vstd::prelude::*;
use vstd::string::StringExecFns;
use vstd::utf8::{decode_utf8, valid_utf8};

verus! {

/// Flag bit: the message carries a command from caller to callee.
pub const TYPE_COMMAND: u8 = 1;

/// Flag bit: the message is a reply to a command, matched by `seq`.
pub const TYPE_RESPONSE: u8 = 2;

/// Flag bit: the sender of a command expects a response.
pub const TYPE_NEED_RSP: u8 = 4;

/// Flag bit: the command is a liveness probe.
pub const TYPE_PING: u8 = 8;

/// Flag bit: the response answers a liveness probe.
pub const TYPE_PONG: u8 = 16;

/// Flag bit: the peer had no handler for the command.
pub const TYPE_NO_SUCH_CMD: u8 = 32;

/// A type byte is valid when only the six known flag bits are used;
/// the two reserved bits must be zero.
pub open spec fn valid_type_bits(bits: u8) -> bool {
    bits < 64
}

/// True when every flag of `flag` is set in `bits`.
pub open spec fn spec_has_flag(bits: u8, flag: u8) -> bool {
    bits & flag == flag
}

/// Test a flag combination of a type byte.
pub fn has_flag(bits: u8, flag: u8) -> (r: bool)
    ensures
        r == spec_has_flag(bits, flag),
{
    bits & flag == flag
}

/// One message, either inbound or outbound: a sequence number linking a
/// command to its response, a command name, the type-flag byte, and an
/// opaque payload.
pub struct MsgWrapper {
    pub seq: u32,
    pub type_: u8,
    pub cmd: String,
    pub data: Vec<u8>,
    /// Reserved hook: when set, it replaces `data` on the wire.
    pub request_payload: Option<Vec<u8>>,
}

impl MsgWrapper {
    /// The UTF-8 bytes of the command name, as written on the wire.
    pub open spec fn cmd_bytes(self) -> Seq<u8> {
        vstd::utf8::encode_utf8(self.cmd@)
    }

    /// The payload bytes that go on the wire: `request_payload` when
    /// attached, else `data`.
    pub open spec fn effective_data(self) -> Seq<u8> {
        match self.request_payload {
            Some(p) => p@,
            None => self.data@,
        }
    }

    /// A message fit for the wire: recognized flags only, and a command
    /// name whose length fits the two-byte length field.
    pub open spec fn wf(self) -> bool {
        &&& valid_type_bits(self.type_)
        &&& self.cmd_bytes().len() <= 0xFFFF
    }

    /// An empty command message.
    pub fn new() -> (r: MsgWrapper)
        ensures
            r.seq == 0,
            r.type_ == TYPE_COMMAND,
            r.cmd@ == Seq::<char>::empty(),
            r.data@ == Seq::<u8>::empty(),
            r.request_payload is None,
            r.wf(),
    {
        let r = MsgWrapper {
            seq: 0,
            type_: TYPE_COMMAND,
            cmd: String::new(),
            data: Vec::new(),
            request_payload: None,
        };
        proof {
            assert(r.cmd_bytes() =~= Seq::<u8>::empty());
        }
        r
    }

    /// A response carrying `data`, mirroring the request's `seq`.
    pub fn make_rsp(seq: u32, data: Vec<u8>) -> (r: MsgWrapper)
        ensures
            r.seq == seq,
            r.type_ == TYPE_RESPONSE,
            r.cmd@ == Seq::<char>::empty(),
            r.data@ == data@,
            r.request_payload is None,
            r.wf(),
    {
        let r = MsgWrapper {
            seq,
            type_: TYPE_RESPONSE,
            cmd: String::new(),
            data,
            request_payload: None,
        };
        proof {
            assert(r.cmd_bytes() =~= Seq::<u8>::empty());
        }
        r
    }
}

/// The decimal digit bytes of `n`, most significant first.
pub open spec fn dec_bytes(n: nat) -> Seq<u8>
    decreases n,
{
    if n < 10 {
        seq![(48 + n) as u8]
    } else {
        dec_bytes(n / 10).push((48 + n % 10) as u8)
    }
}

/// The decimal digit characters of `n`.
pub open spec fn dec_chars(n: nat) -> Seq<char> {
    decode_utf8(dec_bytes(n))
}

/// A single byte below `0x80` is a well-formed one-byte scalar encoding.
proof fn lemma_ascii_byte_valid(d: u8)
    requires
        d < 0x80,
    ensures
        valid_utf8(seq![d]),
{
    let b = seq![d];
    assert(vstd::utf8::is_leading_byte_width_1(d));
    assert(vstd::utf8::leading_bits_width_1(d) < 0x80) by (bit_vector);
    assert(vstd::utf8::valid_first_scalar(b));
    assert(vstd::utf8::length_of_first_scalar(b) == 1);
    assert(vstd::utf8::pop_first_scalar(b) =~= Seq::<u8>::empty());
    assert(valid_utf8(Seq::<u8>::empty()));
    assert(valid_utf8(vstd::utf8::pop_first_scalar(b)));
    assert(valid_utf8(b));
}

/// Decimal digit bytes are valid UTF-8 and never empty.
proof fn lemma_dec_bytes_valid(n: nat)
    ensures
        valid_utf8(dec_bytes(n)),
        dec_bytes(n).len() >= 1,
    decreases n,
{
    if n < 10 {
        lemma_ascii_byte_valid((48 + n) as u8);
    } else {
        lemma_dec_bytes_valid(n / 10);
        lemma_ascii_byte_valid((48 + n % 10) as u8);
        vstd::utf8::valid_utf8_concat(dec_bytes(n / 10), seq![(48 + n % 10) as u8]);
        assert(dec_bytes(n) =~= dec_bytes(n / 10) + seq![(48 + n % 10) as u8]);
    }
}

/// Write the decimal digits of `n` after the buffer's contents.
fn push_dec(n: u32, out: &mut Vec<u8>)
    ensures
        final(out)@ == old(out)@ + dec_bytes(n as nat),
    decreases n,
{
    if n < 10 {
        out.push(48 + (n as u8));
        proof {
            assert(out@ =~= old(out)@ + dec_bytes(n as nat));
        }
    } else {
        push_dec(n / 10, out);
        out.push(48 + ((n % 10) as u8));
        proof {
            assert(out@ =~= old(out)@ + dec_bytes(n as nat));
        }
    }
}

/// The decimal text of a 32-bit number.
pub fn u32_to_decimal(n: u32) -> (r: String)
    ensures
        r@ == dec_chars(n as nat),
{
    let mut buf: Vec<u8> = Vec::new();
    push_dec(n, &mut buf);
    proof {
        lemma_dec_bytes_valid(n as nat);
        assert(buf@ =~= dec_bytes(n as nat));
    }
    match crate::codec::utf8_to_str(buf.as_slice()) {
        Some(s) => s.to_owned(),
        None => {
            proof {
                assert(false);
            }
            String::new()
        },
    }
}

/// The one-line summary `dump` writes for a message.
pub open spec fn spec_dump(m: MsgWrapper) -> Seq<char> {
    "seq:"@ + dec_chars(m.seq as nat) + ", type:"@ + dec_chars(m.type_ as nat) + ", cmd:"@
        + m.cmd@
}

impl MsgWrapper {
    /// A one-line summary: sequence number, type byte and command name.
    pub fn dump(&self) -> (r: String)
        ensures
            r@ == spec_dump(*self),
    {
        let mut r = String::from_str("seq:");
        r.append(u32_to_decimal(self.seq).as_str());
        r.append(", type:");
        r.append(u32_to_decimal(self.type_ as u32).as_str());
        r.append(", cmd:");
        r.append(self.cmd.as_str());
        r
    }
}

} // verus!
