//! The Discord IPC frame format: an 8-byte header (opcode and payload length,
//! both little-endian `u32`) followed by the JSON payload, and the checks made
//! on the replies that Discord sends back.

use vstd::prelude::*;

verus! {

/// Opcode of the handshake frame.
pub const OP_HANDSHAKE: u32 = 0;

/// Opcode of an ordinary command frame.
pub const OP_FRAME: u32 = 1;

/// Opcode of the frame that closes the connection.
pub const OP_CLOSE: u32 = 2;

/// Largest reply payload, in bytes, that the client accepts (64 KiB).
pub const MAX_REPLY_LEN: usize = 65536;

/// The four little-endian bytes of `v`.
pub open spec fn le_bytes(v: u32) -> Seq<u8> {
    seq![
        (v & 0xff) as u8,
        ((v >> 8u32) & 0xff) as u8,
        ((v >> 16u32) & 0xff) as u8,
        ((v >> 24u32) & 0xff) as u8,
    ]
}

/// The `u32` whose little-endian bytes are `b0, b1, b2, b3`.
pub open spec fn from_le(b0: u8, b1: u8, b2: u8, b3: u8) -> u32 {
    (b0 as u32) | ((b1 as u32) << 8u32) | ((b2 as u32) << 16u32) | ((b3 as u32) << 24u32)
}

/// The frame that carries `payload` under `opcode`. The length field is the
/// payload length taken modulo 2^32, as a `u32` cast of it gives.
pub open spec fn frame_bytes(opcode: u32, payload: Seq<u8>) -> Seq<u8> {
    le_bytes(opcode) + le_bytes(payload.len() as u32) + payload
}

/// The payload length announced by an 8-byte frame header.
pub open spec fn header_len(header: Seq<u8>) -> u32 {
    from_le(header[4], header[5], header[6], header[7])
}

/// The opcode announced by an 8-byte frame header.
pub open spec fn header_opcode(header: Seq<u8>) -> u32 {
    from_le(header[0], header[1], header[2], header[3])
}

/// A JSON value of `serde_json`, carried through opaque.
#[verifier::external_type_specification]
#[verifier::external_body]
pub struct ExJsonValue(serde_json::Value);

/// The error `serde_json` reports for text that it cannot parse, carried
/// through opaque.
#[verifier::external_type_specification]
#[verifier::external_body]
pub struct ExJsonError(serde_json::Error);

/// Whether `serde_json` accepts `bytes` as one JSON document (a value with
/// only whitespace around it, nested no deeper than its recursion limit).
pub uninterp spec fn json_document(bytes: Seq<u8>) -> bool;

/// The value that `serde_json` reads from `bytes` when they are a JSON
/// document.
pub uninterp spec fn json_value(bytes: Seq<u8>) -> serde_json::Value;

/// Parses `bytes` with `serde_json::from_slice` into a `serde_json::Value`.
/// Trusted: that the call succeeds exactly when `json_document` holds of the
/// bytes, and that the value it returns is `json_value` of the bytes; both
/// depend on the bytes alone. Nothing is claimed of the error it returns.
#[verifier::external_body]
fn parse_json(bytes: &[u8]) -> (res: Result<serde_json::Value, serde_json::Error>)
    ensures
        res is Ok <==> json_document(bytes@),
        res matches Ok(v) ==> v == json_value(bytes@),
{
    serde_json::from_slice(bytes)
}

/// Errors met while reading a reply frame.
pub enum FrameError {
    /// The header announced a payload longer than `MAX_REPLY_LEN` bytes.
    TooLarge(usize),
    /// The payload is not a JSON document.
    InvalidJson(serde_json::Error),
}

/// The four little-endian bytes of `v`.
fn push_le_bytes(out: &mut Vec<u8>, v: u32)
    ensures
        final(out)@ == old(out)@ + le_bytes(v),
{
    out.push((v & 0xff) as u8);
    out.push(((v >> 8u32) & 0xff) as u8);
    out.push(((v >> 16u32) & 0xff) as u8);
    out.push(((v >> 24u32) & 0xff) as u8);
    assert(final(out)@ =~= old(out)@ + le_bytes(v));
}

/// Builds the frame that carries `payload` under `opcode`: the opcode, the
/// payload length, then the payload itself.
pub fn encode_frame(opcode: u32, payload: &[u8]) -> (frame: Vec<u8>)
    ensures
        frame@ == frame_bytes(opcode, payload@),
{
    let mut frame: Vec<u8> = Vec::new();
    push_le_bytes(&mut frame, opcode);
    #[verifier::truncate]
    let len = payload.len() as u32;
    push_le_bytes(&mut frame, len);
    let ghost header = frame@;
    let n = payload.len();
    for i in 0..n
        invariant
            n == payload@.len(),
            header == le_bytes(opcode) + le_bytes(payload@.len() as u32),
            frame@ == header + payload@.subrange(0, i as int),
    {
        frame.push(payload[i]);
        assert(frame@ =~= header + payload@.subrange(0, i + 1));
    }
    assert(payload@.subrange(0, n as int) =~= payload@);
    frame
}

/// Reads the payload length out of a reply header, refusing one longer than
/// `MAX_REPLY_LEN` bytes.
pub fn reply_payload_len(header: &[u8; 8]) -> (res: Result<usize, FrameError>)
    ensures
        header_len(header@) <= MAX_REPLY_LEN ==> (res matches Ok(n) && n == header_len(header@)),
        header_len(header@) > MAX_REPLY_LEN ==> (res matches Err(FrameError::TooLarge(n)) && n
            == header_len(header@)),
{
    let len = (header[4] as u32) | ((header[5] as u32) << 8u32) | ((header[6] as u32) << 16u32)
        | ((header[7] as u32) << 24u32);
    let len = len as usize;
    if len > MAX_REPLY_LEN {
        Err(FrameError::TooLarge(len))
    } else {
        Ok(len)
    }
}

/// Checks that a reply payload is a JSON document and returns its value.
pub fn decode_reply(body: &[u8]) -> (res: Result<serde_json::Value, FrameError>)
    ensures
        res is Ok <==> json_document(body@),
        res matches Ok(v) ==> v == json_value(body@),
        res is Err ==> res->Err_0 is InvalidJson,
{
    match parse_json(body) {
        Ok(v) => Ok(v),
        Err(e) => Err(FrameError::InvalidJson(e)),
    }
}

/// Reading a frame back: the opcode and length fields of the header of a
/// frame give back the opcode and the payload length, the bytes after the
/// header are the payload, and a payload of at most `MAX_REPLY_LEN` bytes is
/// one that the reply check accepts.
pub proof fn lemma_frame_roundtrip(opcode: u32, payload: Seq<u8>)
    requires
        payload.len() <= u32::MAX,
    ensures
        frame_bytes(opcode, payload).len() == payload.len() + 8,
        header_opcode(frame_bytes(opcode, payload).subrange(0, 8)) == opcode,
        header_len(frame_bytes(opcode, payload).subrange(0, 8)) == payload.len(),
        frame_bytes(opcode, payload).subrange(
            8,
            frame_bytes(opcode, payload).len() as int,
        ) == payload,
        payload.len() <= MAX_REPLY_LEN ==> header_len(frame_bytes(opcode, payload).subrange(0, 8))
            <= MAX_REPLY_LEN,
{
    let f = frame_bytes(opcode, payload);
    let len = payload.len() as u32;
    assert(len == payload.len());
    let h = f.subrange(0, 8);
    assert(h[0] == (opcode & 0xff) as u8);
    assert(h[1] == ((opcode >> 8u32) & 0xff) as u8);
    assert(h[2] == ((opcode >> 16u32) & 0xff) as u8);
    assert(h[3] == ((opcode >> 24u32) & 0xff) as u8);
    assert(h[4] == (len & 0xff) as u8);
    assert(h[5] == ((len >> 8u32) & 0xff) as u8);
    assert(h[6] == ((len >> 16u32) & 0xff) as u8);
    assert(h[7] == ((len >> 24u32) & 0xff) as u8);
    lemma_le_roundtrip(opcode);
    lemma_le_roundtrip(len);
    assert(f.subrange(8, f.len() as int) =~= payload);
}

/// Little-endian bytes read back give the number they were made from.
pub proof fn lemma_le_roundtrip(v: u32)
    ensures
        from_le(
            (v & 0xff) as u8,
            ((v >> 8u32) & 0xff) as u8,
            ((v >> 16u32) & 0xff) as u8,
            ((v >> 24u32) & 0xff) as u8,
        ) == v,
{
    assert(((v & 0xff) as u8 as u32) | ((((v >> 8u32) & 0xff) as u8 as u32) << 8u32) | ((((v
        >> 16u32) & 0xff) as u8 as u32) << 16u32) | ((((v >> 24u32) & 0xff) as u8 as u32)
        << 24u32) == v) by (bit_vector);
}

} // verus!
