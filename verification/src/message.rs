//! The datagram that servers and clients exchange, and its wire format.
//!
//! A message goes over the network in bincode's default encoding: its fields
//! one after another, integers little-endian with fixed width, and strings and
//! byte vectors prefixed by their length as a `u64`.

use vstd::prelude::*;
use vstd::utf8::{decode_utf8, encode_utf8};

verus! {

/// The operation code of an ordinary request.
pub const OP_NORMAL: u32 = 0;

/// The operation code of an election message travelling round the ring.
pub const OP_ELECT: u32 = 1;

/// The operation code of the announcement that names the server going down.
pub const OP_ANNOUNCE: u32 = 2;

/// The operation code of a load report between servers.
pub const OP_BALANCE_LOAD: u32 = 3;

/// A request or a reply.
///
/// `m_Type` is 0 for a request and 1 for a reply; `op_Id` says what the
/// request asks for (see the `OP_` constants); `op_Arg` carries its arguments.
#[allow(non_snake_case)]
pub struct Message {
    pub m_Type: u8,
    pub m_ID: String,
    pub remote_Ref: String,
    pub local_Ref: String,
    pub op_Id: u32,
    pub op_Arg: Vec<u8>,
}

/// The mathematical content of a [`Message`].
pub struct MessageView {
    pub m_type: u8,
    pub m_id: Seq<char>,
    pub remote_ref: Seq<char>,
    pub local_ref: Seq<char>,
    pub op_id: u32,
    pub op_arg: Seq<u8>,
}

impl View for Message {
    type V = MessageView;

    open spec fn view(&self) -> MessageView {
        MessageView {
            m_type: self.m_Type,
            m_id: self.m_ID@,
            remote_ref: self.remote_Ref@,
            local_ref: self.local_Ref@,
            op_id: self.op_Id,
            op_arg: self.op_Arg@,
        }
    }
}

/// Why a datagram could not be read as a message.
#[derive(Debug, PartialEq, Eq, Structural)]
pub enum WireError {
    /// No message's encoding is a prefix of the bytes.
    Malformed,
}

/// The `n` low bytes of `v`, least significant first.
pub open spec fn le_bytes(v: nat, n: nat) -> Seq<u8>
    decreases n,
{
    if n == 0 {
        Seq::empty()
    } else {
        seq![(v % 256) as u8] + le_bytes(v / 256, (n - 1) as nat)
    }
}

/// A byte string preceded by its length as a little-endian `u64`.
pub open spec fn length_prefixed(bytes: Seq<u8>) -> Seq<u8> {
    le_bytes(bytes.len(), 8) + bytes
}

/// The encoding of a message on the wire.
pub open spec fn wire(m: MessageView) -> Seq<u8> {
    seq![m.m_type]
        + length_prefixed(encode_utf8(m.m_id))
        + length_prefixed(encode_utf8(m.remote_ref))
        + length_prefixed(encode_utf8(m.local_ref))
        + le_bytes(m.op_id as nat, 4)
        + length_prefixed(m.op_arg)
}

/// `bytes` starts with the encoding of `m` (anything may follow it).
pub open spec fn decodes_to(bytes: Seq<u8>, m: MessageView) -> bool {
    wire(m).is_prefix_of(bytes)
}

/// Some message's encoding starts `bytes`.
pub open spec fn is_decodable(bytes: Seq<u8>) -> bool {
    exists|m: MessageView| #[trigger] decodes_to(bytes, m)
}

/// The fields of a message in order, as bincode reads them.
pub type MessageFields = (u8, String, String, String, u32, Vec<u8>);

/// The view of the fields that bincode hands back.
pub open spec fn fields_view(t: MessageFields) -> MessageView {
    MessageView {
        m_type: t.0,
        m_id: t.1@,
        remote_ref: t.2@,
        local_ref: t.3@,
        op_id: t.4,
        op_arg: t.5@,
    }
}

/// `256` to the power `n`: the number of values that `n` bytes can hold.
pub open spec fn byte_range(n: nat) -> nat
    decreases n,
{
    if n == 0 {
        1
    } else {
        256 * byte_range((n - 1) as nat)
    }
}

/// The number that little-endian bytes stand for.
pub open spec fn le_value(bytes: Seq<u8>) -> nat
    decreases bytes.len(),
{
    if bytes.len() == 0 {
        0
    } else {
        bytes[0] as nat + 256 * le_value(bytes.drop_first())
    }
}

/// Reads a message from the front of `bytes`, field after field, by the
/// lengths that the bytes themselves give.
pub open spec fn read_message(b: Seq<u8>) -> MessageView {
    let l1: int = le_value(b.subrange(1, 9)) as int;
    let o2: int = 9 + l1;
    let l2: int = le_value(b.subrange(o2, o2 + 8)) as int;
    let o3: int = o2 + 8 + l2;
    let l3: int = le_value(b.subrange(o3, o3 + 8)) as int;
    let o4: int = o3 + 8 + l3;
    let o5: int = o4 + 4;
    let l5: int = le_value(b.subrange(o5, o5 + 8)) as int;
    MessageView {
        m_type: b[0],
        m_id: decode_utf8(b.subrange(9, 9 + l1)),
        remote_ref: decode_utf8(b.subrange(o2 + 8, o3)),
        local_ref: decode_utf8(b.subrange(o3 + 8, o4)),
        op_id: le_value(b.subrange(o4, o5)) as u32,
        op_arg: b.subrange(o5 + 8, o5 + 8 + l5),
    }
}

proof fn lemma_le_bytes(v: nat, n: nat)
    requires
        v < byte_range(n),
    ensures
        le_bytes(v, n).len() == n,
        le_value(le_bytes(v, n)) == v,
    decreases n,
{
    if n > 0 {
        let rest = le_bytes(v / 256, (n - 1) as nat);
        lemma_le_bytes(v / 256, (n - 1) as nat);
        assert(le_bytes(v, n).drop_first() =~= rest);
    }
}

proof fn lemma_byte_range_64()
    ensures
        byte_range(8) == 0x1_0000_0000_0000_0000,
        byte_range(4) == 0x1_0000_0000,
{
    reveal_with_fuel(byte_range, 9);
}

/// A piece of `w` at offset `at` is the same piece of any sequence that `w`
/// starts.
proof fn lemma_piece(b: Seq<u8>, w: Seq<u8>, at: int, piece: Seq<u8>)
    requires
        w.is_prefix_of(b),
        0 <= at,
        at + piece.len() <= w.len(),
        w.subrange(at, at + piece.len()) =~= piece,
    ensures
        b.subrange(at, at + piece.len()) == piece,
{
    assert(b.subrange(at, at + piece.len()) =~= piece) by {
        assert forall|k: int| 0 <= k < piece.len() implies b.subrange(
            at,
            at + piece.len(),
        )[k] == piece[k] by {
            assert(b[at + k] == w[at + k]);
            assert(w.subrange(at, at + piece.len())[k] == w[at + k]);
        }
    }
}

/// Whatever follows an encoding, the fields are read back from the front of
/// the bytes: the wire format is unambiguous.
pub proof fn lemma_read_message(b: Seq<u8>, m: MessageView)
    requires
        decodes_to(b, m),
        b.len() < 0x1_0000_0000_0000_0000,
    ensures
        read_message(b) == m,
{
    lemma_byte_range_64();
    broadcast use vstd::utf8::encode_utf8_decode_utf8;

    let e1 = encode_utf8(m.m_id);
    let e2 = encode_utf8(m.remote_ref);
    let e3 = encode_utf8(m.local_ref);
    let w = wire(m);
    let p0 = seq![m.m_type];
    let p1 = length_prefixed(e1);
    let p2 = length_prefixed(e2);
    let p3 = length_prefixed(e3);
    let p4 = le_bytes(m.op_id as nat, 4);
    let p5 = length_prefixed(m.op_arg);
    lemma_le_bytes(e1.len(), 8);
    lemma_le_bytes(e2.len(), 8);
    lemma_le_bytes(e3.len(), 8);
    lemma_le_bytes(m.op_id as nat, 4);
    lemma_le_bytes(m.op_arg.len(), 8);
    assert(w == p0 + p1 + p2 + p3 + p4 + p5);
    let o1: int = 1;
    let o2: int = o1 + p1.len();
    let o3: int = o2 + p2.len();
    let o4: int = o3 + p3.len();
    let o5: int = o4 + p4.len();
    assert(w.subrange(0, 1) =~= p0);
    assert(w.subrange(o1, o1 + 8) =~= le_bytes(e1.len(), 8));
    assert(w.subrange(o1 + 8, o1 + 8 + e1.len()) =~= e1);
    assert(w.subrange(o2, o2 + 8) =~= le_bytes(e2.len(), 8));
    assert(w.subrange(o2 + 8, o2 + 8 + e2.len()) =~= e2);
    assert(w.subrange(o3, o3 + 8) =~= le_bytes(e3.len(), 8));
    assert(w.subrange(o3 + 8, o3 + 8 + e3.len()) =~= e3);
    assert(w.subrange(o4, o4 + 4) =~= p4);
    assert(w.subrange(o5, o5 + 8) =~= le_bytes(m.op_arg.len(), 8));
    assert(w.subrange(o5 + 8, o5 + 8 + m.op_arg.len()) =~= m.op_arg);
    lemma_piece(b, w, 0, p0);
    lemma_piece(b, w, o1, le_bytes(e1.len(), 8));
    lemma_piece(b, w, o1 + 8, e1);
    lemma_piece(b, w, o2, le_bytes(e2.len(), 8));
    lemma_piece(b, w, o2 + 8, e2);
    lemma_piece(b, w, o3, le_bytes(e3.len(), 8));
    lemma_piece(b, w, o3 + 8, e3);
    lemma_piece(b, w, o4, p4);
    lemma_piece(b, w, o5, le_bytes(m.op_arg.len(), 8));
    lemma_piece(b, w, o5 + 8, m.op_arg);
    assert(b[0] == p0[0]);
    assert(read_message(b) =~= m);
}

/// Two messages whose encodings both start the same bytes are the same
/// message.
pub proof fn lemma_decoding_unique(b: Seq<u8>, m1: MessageView, m2: MessageView)
    requires
        decodes_to(b, m1),
        decodes_to(b, m2),
        b.len() < 0x1_0000_0000_0000_0000,
    ensures
        m1 == m2,
{
    lemma_read_message(b, m1);
    lemma_read_message(b, m2);
}

/// Encoding then decoding gives the message back, whatever bytes follow the
/// encoding in the buffer it is read from.
pub proof fn lemma_encoding_decodes(m: MessageView, trailing: Seq<u8>)
    ensures
        decodes_to(wire(m) + trailing, m),
        is_decodable(wire(m) + trailing),
{
    assert(wire(m) =~= (wire(m) + trailing).subrange(0, wire(m).len() as int));
}

#[verifier::external_type_specification]
#[verifier::external_body]
pub struct ExBincodeErrorKind(bincode::ErrorKind);

/// `bincode::serialize` on the tuple of a message's fields, which bincode
/// encodes exactly as the struct: the fields in order, the `u8` as one byte,
/// the `u32` as four little-endian bytes, each string and the byte vector as
/// their length (a little-endian `u64`) followed by their bytes. With no size
/// limit and every length known, the call does not fail.
#[verifier::external_body]
fn bincode_serialize(
    m_type: u8,
    m_id: &str,
    remote_ref: &str,
    local_ref: &str,
    op_id: u32,
    op_arg: &[u8],
) -> (r: Result<Vec<u8>, Box<bincode::ErrorKind>>)
    ensures
        r is Ok,
        r matches Ok(bytes) ==> bytes@ == wire(
            MessageView {
                m_type,
                m_id: m_id@,
                remote_ref: remote_ref@,
                local_ref: local_ref@,
                op_id,
                op_arg: op_arg@,
            },
        ),
{
    bincode::serialize(&(m_type, m_id, remote_ref, local_ref, op_id, op_arg))
}

/// `bincode::deserialize` of the tuple of a message's fields from a byte slice,
/// with bincode's default options, which read the format that
/// `bincode_serialize` writes and accept trailing bytes: what comes back is a
/// message whose encoding starts the slice, and when some message's encoding
/// starts the slice, the call succeeds.
#[verifier::external_body]
fn bincode_deserialize(bytes: &[u8]) -> (r: Result<MessageFields, Box<bincode::ErrorKind>>)
    ensures
        r matches Ok(t) ==> decodes_to(bytes@, fields_view(t)),
        is_decodable(bytes@) ==> r is Ok,
{
    bincode::deserialize::<MessageFields>(bytes)
}

impl Message {
    /// A copy of the message.
    pub fn duplicate(&self) -> (m: Message)
        ensures
            m@ == self@,
    {
        Message {
            m_Type: self.m_Type,
            m_ID: self.m_ID.clone(),
            remote_Ref: self.remote_Ref.clone(),
            local_Ref: self.local_Ref.clone(),
            op_Id: self.op_Id,
            op_Arg: self.op_Arg.clone(),
        }
    }
}

/// The bytes that carry `m` over the network.
pub fn encode_message(m: &Message) -> (bytes: Vec<u8>)
    ensures
        bytes@ == wire(m@),
{
    let r = bincode_serialize(
        m.m_Type,
        m.m_ID.as_str(),
        m.remote_Ref.as_str(),
        m.local_Ref.as_str(),
        m.op_Id,
        m.op_Arg.as_slice(),
    );
    match r {
        Ok(bytes) => bytes,
        Err(_) => {
            proof {
                assert(false);
            }
            Vec::new()
        },
    }
}

/// Reads the message that a received buffer starts with; what follows it in
/// the buffer is ignored.
pub fn decode_message(bytes: &[u8]) -> (r: Result<Message, WireError>)
    ensures
        r is Ok <==> is_decodable(bytes@),
        r matches Ok(m) ==> decodes_to(bytes@, m@),
        forall|m: MessageView| #[trigger]
            decodes_to(bytes@, m) ==> (r matches Ok(x) && x@ == m),
        r is Err ==> r == Err::<Message, WireError>(WireError::Malformed),
{
    match bincode_deserialize(bytes) {
        Ok(t) => {
            let (m_type, m_id, remote_ref, local_ref, op_id, op_arg) = t;
            let m = Message {
                m_Type: m_type,
                m_ID: m_id,
                remote_Ref: remote_ref,
                local_Ref: local_ref,
                op_Id: op_id,
                op_Arg: op_arg,
            };
            proof {
                assert(m@ == fields_view(t));
                assert(bytes@.len() == bytes.len());
                assert forall|v: MessageView| #[trigger] decodes_to(bytes@, v) implies v == m@ by {
                    lemma_decoding_unique(bytes@, v, m@);
                }
            }
            Ok(m)
        },
        Err(_) => Err(WireError::Malformed),
    }
}

} // verus!
