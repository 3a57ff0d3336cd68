//! Binary frames: decoding masked client frames and encoding unmasked server
//! frames whose payloads fit a 16-bit length.

use vstd::prelude::*;

verus! {

/// Largest payload that this codec frames (the 16-bit extended length).
pub const MAX_PAYLOAD: usize = 65535;

/// First header byte of every frame this codec accepts or emits:
/// FIN set, opcode binary.
pub const FIN_BINARY: u8 = 0x82;

/// Why a frame was refused.
#[derive(Debug, Clone, Copy, PartialEq, Eq, Structural)]
pub enum FrameError {
    /// The buffer ends before the header, masking key or payload does.
    Truncated,
    /// The FIN bit is clear: the message continues in another frame.
    FragmentationUnsupported,
    /// The opcode is not binary.
    UnsupportedOpcode,
    /// The MASK bit is clear, which a client frame must never be.
    MaskRequired,
    /// The length field asks for the 64-bit extended length.
    PayloadTooLarge,
}

/// The length field of a server frame for a payload of `n` bytes: one byte
/// for `n <= 125`, else `126` followed by `n` in big-endian order.
pub open spec fn length_field(n: nat) -> Seq<u8> {
    if n <= 125 {
        seq![n as u8]
    } else {
        seq![126u8, (n / 256) as u8, (n % 256) as u8]
    }
}

/// The server frame carrying `payload`.
pub open spec fn encoded_frame(payload: Seq<u8>) -> Seq<u8> {
    seq![FIN_BINARY] + length_field(payload.len()) + payload
}

/// Encodes `message` as one unmasked binary frame.
pub fn write_ws_frame(message: &[u8]) -> (frame: Vec<u8>)
    requires
        message@.len() <= MAX_PAYLOAD,
    ensures
        frame@ == encoded_frame(message@),
{
    let mut frame: Vec<u8> = Vec::new();
    frame.push(FIN_BINARY);
    let n = message.len();
    if n <= 125 {
        frame.push(n as u8);
    } else {
        frame.push(126);
        frame.push((n / 256) as u8);
        frame.push((n % 256) as u8);
    }
    frame.extend_from_slice(message);
    assert(frame@ =~= encoded_frame(message@));
    frame
}

/// The payload `p` with each byte XORed with the key byte at its position
/// modulo four.
pub open spec fn xor_mask(p: Seq<u8>, key: Seq<u8>) -> Seq<u8> {
    Seq::new(p.len(), |i: int| p[i] ^ key[i % 4])
}

/// FIN bit of the first header byte.
pub open spec fn fin_set(b0: u8) -> bool {
    b0 >> 7u8 == 1
}

/// Opcode: low four bits of the first header byte.
pub open spec fn opcode(b0: u8) -> u8 {
    b0 & 0xFu8
}

/// MASK bit of the second header byte.
pub open spec fn mask_set(b1: u8) -> bool {
    b1 >> 7u8 == 1
}

/// Initial 7-bit length field of the second header byte.
pub open spec fn length7(b1: u8) -> u8 {
    b1 & 0x7Fu8
}

/// Offset of the masking key in a frame whose header starts with `b`
/// (which has the 126 escape in place of the length when it has four bytes).
pub open spec fn key_offset(b: Seq<u8>) -> int {
    if length7(b[1]) == 126 { 4 } else { 2 }
}

/// Payload length that the header of `b` announces.
pub open spec fn payload_length(b: Seq<u8>) -> int {
    if length7(b[1]) == 126 {
        b[2] as int * 256 + b[3] as int
    } else {
        length7(b[1]) as int
    }
}

/// What decoding the buffer `b` yields: the checks in order, then the
/// unmasked payload.
pub open spec fn decoded_frame(b: Seq<u8>) -> Result<Seq<u8>, FrameError> {
    if b.len() < 2 {
        Err(FrameError::Truncated)
    } else if !fin_set(b[0]) {
        Err(FrameError::FragmentationUnsupported)
    } else if opcode(b[0]) != 2 {
        Err(FrameError::UnsupportedOpcode)
    } else if !mask_set(b[1]) {
        Err(FrameError::MaskRequired)
    } else if length7(b[1]) == 127 {
        Err(FrameError::PayloadTooLarge)
    } else if length7(b[1]) == 126 && b.len() < 4 {
        Err(FrameError::Truncated)
    } else if b.len() < key_offset(b) + 4 + payload_length(b) {
        Err(FrameError::Truncated)
    } else {
        let k = key_offset(b);
        Ok(xor_mask(b.subrange(k + 4, k + 4 + payload_length(b)), b.subrange(k, k + 4)))
    }
}

/// Decodes one masked binary client frame into its payload.
pub fn parse_ws_frame(frame_buf: &[u8]) -> (r: Result<Vec<u8>, FrameError>)
    ensures
        match (r, decoded_frame(frame_buf@)) {
            (Ok(m), Ok(p)) => m@ == p,
            (Err(e), Err(f)) => e == f,
            _ => false,
        },
{
    let b = frame_buf;
    if b.len() < 2 {
        return Err(FrameError::Truncated);
    }
    if b[0] >> 7 != 1 {
        return Err(FrameError::FragmentationUnsupported);
    }
    if b[0] & 0xF != 2 {
        return Err(FrameError::UnsupportedOpcode);
    }
    if b[1] >> 7 != 1 {
        return Err(FrameError::MaskRequired);
    }
    let len7 = b[1] & 0x7F;
    if len7 == 127 {
        return Err(FrameError::PayloadTooLarge);
    }
    let mut payload_len: usize = len7 as usize;
    let mut key_at: usize = 2;
    if len7 == 126 {
        if b.len() < 4 {
            return Err(FrameError::Truncated);
        }
        payload_len = (b[2] as usize) * 256 + (b[3] as usize);
        key_at = 4;
    }
    if b.len() < key_at + 4 || b.len() - key_at - 4 < payload_len {
        return Err(FrameError::Truncated);
    }
    let start = key_at + 4;
    let mut message: Vec<u8> = Vec::new();
    let mut i: usize = 0;
    while i < payload_len
        invariant
            b@ == frame_buf@,
            key_at == key_offset(b@),
            payload_len == payload_length(b@),
            start == key_at + 4,
            start + payload_len <= b@.len(),
            i <= payload_len,
            message@ =~= xor_mask(
                b@.subrange(start as int, start + i),
                b@.subrange(key_at as int, key_at + 4),
            ),
        decreases payload_len - i,
    {
        message.push(b[start + i] ^ b[key_at + i % 4]);
        i = i + 1;
    }
    Ok(message)
}

/// The frame a client sends for `payload`: the server frame's header with the
/// MASK bit set, then `key`, then the payload masked with `key`.
pub open spec fn client_frame(payload: Seq<u8>, key: Seq<u8>) -> Seq<u8> {
    let f = length_field(payload.len());
    seq![FIN_BINARY] + f.update(0, f[0] | 0x80u8) + key + xor_mask(payload, key)
}

proof fn lemma_xor_twice(a: u8, k: u8)
    ensures
        (a ^ k) ^ k == a,
{
    assert((a ^ k) ^ k == a) by (bit_vector);
}

proof fn lemma_mask_bit_over_length(x: u8)
    requires
        x < 128,
    ensures
        mask_set(x | 0x80u8),
        length7(x | 0x80u8) == x,
{
    assert((x | 0x80u8) >> 7u8 == 1 && (x | 0x80u8) & 0x7Fu8 == x) by (bit_vector)
        requires
            x < 128,
    ;
}

/// Decoding undoes client masking and server framing: for every payload of at
/// most 65535 bytes and every 4-byte key, decoding the masked client frame
/// yields the payload itself.
pub proof fn lemma_round_trip(payload: Seq<u8>, key: Seq<u8>)
    requires
        payload.len() <= MAX_PAYLOAD,
        key.len() == 4,
    ensures
        decoded_frame(client_frame(payload, key)) == Ok::<Seq<u8>, FrameError>(payload),
{
    let n = payload.len();
    let b = client_frame(payload, key);
    assert(FIN_BINARY >> 7u8 == 1 && FIN_BINARY & 0xFu8 == 2) by (bit_vector);
    let f = length_field(n);
    let h = f.update(0, f[0] | 0x80u8);
    if n <= 125 {
        lemma_mask_bit_over_length(n as u8);
    } else {
        lemma_mask_bit_over_length(126u8);
        assert((n / 256) * 256 + n % 256 == n) by (nonlinear_arith);
        assert(n / 256 <= 255) by (nonlinear_arith)
            requires
                n <= 65535,
        ;
    }
    assert(b[0] == FIN_BINARY);
    assert(b[1] == h[0]);
    let k = key_offset(b);
    assert(k == 1 + h.len());
    if n > 125 {
        assert(b[2] == h[1] && b[3] == h[2]);
    }
    assert(payload_length(b) == n);
    assert(b.subrange(k, k + 4) =~= key);
    let m = xor_mask(payload, key);
    assert(b.subrange(k + 4, k + 4 + n) =~= m);
    assert forall|i: int| 0 <= i < n implies #[trigger] xor_mask(m, key)[i] == payload[i] by {
        lemma_xor_twice(payload[i], key[i % 4]);
    }
    assert(xor_mask(m, key) =~= payload);
}

/// The server frame's length takes the one-byte form up to 125 bytes and the
/// escape 126 with a big-endian 16-bit length from 126 to 65535 bytes.
pub proof fn lemma_length_forms(payload: Seq<u8>)
    requires
        payload.len() <= MAX_PAYLOAD,
    ensures
        payload.len() <= 125 ==> encoded_frame(payload).len() == 2 + payload.len()
            && encoded_frame(payload)[1] == payload.len(),
        payload.len() > 125 ==> encoded_frame(payload).len() == 4 + payload.len()
            && encoded_frame(payload)[1] == 126
            && encoded_frame(payload)[2] as int * 256 + encoded_frame(payload)[3] as int
            == payload.len(),
{
    let n = payload.len();
    if n > 125 {
        assert((n / 256) * 256 + n % 256 == n) by (nonlinear_arith);
        assert(n / 256 <= 255) by (nonlinear_arith)
            requires
                n <= 65535,
        ;
    }
}

/// A frame whose length field is 127 is refused as too large, whatever
/// follows it, once FIN, opcode and MASK are in order.
pub proof fn lemma_length_127_refused(b: Seq<u8>)
    requires
        b.len() >= 2,
        fin_set(b[0]),
        opcode(b[0]) == 2,
        mask_set(b[1]),
        length7(b[1]) == 127,
    ensures
        decoded_frame(b) == Err::<Seq<u8>, FrameError>(FrameError::PayloadTooLarge),
{
}

/// A frame with the MASK bit clear is refused, whatever its payload, once FIN
/// and opcode are in order.
pub proof fn lemma_unmasked_refused(b: Seq<u8>)
    requires
        b.len() >= 2,
        fin_set(b[0]),
        opcode(b[0]) == 2,
        !mask_set(b[1]),
    ensures
        decoded_frame(b) == Err::<Seq<u8>, FrameError>(FrameError::MaskRequired),
{
}

/// A frame with FIN clear is refused as fragmented; one with FIN set and an
/// opcode other than binary is refused as unsupported, whatever follows.
pub proof fn lemma_fin_and_opcode_refused(b: Seq<u8>)
    requires
        b.len() >= 2,
    ensures
        !fin_set(b[0]) ==> decoded_frame(b) == Err::<Seq<u8>, FrameError>(
            FrameError::FragmentationUnsupported,
        ),
        fin_set(b[0]) && opcode(b[0]) != 2 ==> decoded_frame(b) == Err::<Seq<u8>, FrameError>(
            FrameError::UnsupportedOpcode,
        ),
{
}

} // verus!
