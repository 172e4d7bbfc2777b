//! Frame codec: the binary wire format of one frame, with payload masking.

use vstd::prelude::*;
use vstd::string::StringSliceAdditionalSpecFns;

verus! {

/// The six frame types, each carried on the wire as a 4-bit value.
#[derive(Clone, Copy, Debug, PartialEq, Eq, Structural)]
pub enum Opcode {
    Continuation,
    Text,
    Binary,
    Close,
    Ping,
    Pong,
}

/// Why a byte buffer does not hold a frame.
#[derive(Clone, Copy, Debug, PartialEq, Eq, Structural)]
pub enum FrameError {
    /// The opcode nibble of the first byte is none of the six defined values.
    InvalidOpcode(u8),
    /// The buffer ends before the frame that its header declares.
    Truncated,
}

/// The opcode that a 4-bit wire value stands for, if any.
pub open spec fn opcode_of(nibble: u8) -> Option<Opcode> {
    if nibble == 0x0 {
        Some(Opcode::Continuation)
    } else if nibble == 0x1 {
        Some(Opcode::Text)
    } else if nibble == 0x2 {
        Some(Opcode::Binary)
    } else if nibble == 0x8 {
        Some(Opcode::Close)
    } else if nibble == 0x9 {
        Some(Opcode::Ping)
    } else if nibble == 0xA {
        Some(Opcode::Pong)
    } else {
        None
    }
}

impl Opcode {
    /// The 4-bit wire value of this opcode.
    pub open spec fn spec_value(self) -> u8 {
        match self {
            Opcode::Continuation => 0x0,
            Opcode::Text => 0x1,
            Opcode::Binary => 0x2,
            Opcode::Close => 0x8,
            Opcode::Ping => 0x9,
            Opcode::Pong => 0xA,
        }
    }

    pub fn value(self) -> (r: u8)
        ensures
            r == self.spec_value(),
    {
        match self {
            Opcode::Continuation => 0x0,
            Opcode::Text => 0x1,
            Opcode::Binary => 0x2,
            Opcode::Close => 0x8,
            Opcode::Ping => 0x9,
            Opcode::Pong => 0xA,
        }
    }

    /// Reads the opcode from the low nibble of `byte`; the high nibble is ignored.
    pub fn from_nibble(byte: u8) -> (r: Result<Opcode, FrameError>)
        ensures
            r == (match opcode_of(byte & 0x0f) {
                Some(op) => Ok(op),
                None => Err(FrameError::InvalidOpcode(byte & 0x0f)),
            }),
    {
        let n = byte & 0x0f;
        if n == 0x0 {
            Ok(Opcode::Continuation)
        } else if n == 0x1 {
            Ok(Opcode::Text)
        } else if n == 0x2 {
            Ok(Opcode::Binary)
        } else if n == 0x8 {
            Ok(Opcode::Close)
        } else if n == 0x9 {
            Ok(Opcode::Ping)
        } else if n == 0xA {
            Ok(Opcode::Pong)
        } else {
            Err(FrameError::InvalidOpcode(n))
        }
    }
}

impl From<Opcode> for u8 {
    fn from(op: Opcode) -> u8 {
        op.value()
    }
}

impl vstd::std_specs::convert::FromSpecImpl<Opcode> for u8 {
    open spec fn obeys_from_spec() -> bool {
        true
    }

    open spec fn from_spec(op: Opcode) -> u8 {
        op.spec_value()
    }
}

/// Every defined opcode survives the trip to its wire value and back, no two
/// opcodes share a wire value, and a nibble that no opcode has is rejected.
pub proof fn lemma_opcode_mapping(op: Opcode, other: Opcode, nibble: u8)
    ensures
        opcode_of(op.spec_value()) == Some(op),
        op.spec_value() < 16,
        op != other ==> op.spec_value() != other.spec_value(),
        opcode_of(nibble) matches Some(found) ==> found.spec_value() == nibble,
        nibble < 16 ==> (opcode_of(nibble).is_none() <==> (nibble == 3 || nibble == 4 || nibble
            == 5 || nibble == 6 || nibble == 7 || nibble >= 11)),
{
}


/// One frame as it travels on the wire.
#[derive(Clone, Debug)]
pub struct Frame {
    pub fin: bool,
    pub rsv1: bool,
    pub rsv2: bool,
    pub rsv3: bool,
    pub opcode: Opcode,
    pub mask: bool,
    /// Declared payload length, whichever width of length field carries it.
    pub payload_len: usize,
    pub masking_key: Option<[u8; 4]>,
    /// The payload with any masking already removed.
    pub payload: Vec<u8>,
}

/// The mathematical value of a frame.
pub struct FrameView {
    pub fin: bool,
    pub rsv1: bool,
    pub rsv2: bool,
    pub rsv3: bool,
    pub opcode: Opcode,
    pub mask: bool,
    pub payload_len: nat,
    pub masking_key: Option<Seq<u8>>,
    pub payload: Seq<u8>,
}

impl FrameView {
    /// The frame invariants: a key exactly when masked, a key of four bytes,
    /// a payload as long as declared, and a length that a 64-bit field holds.
    pub open spec fn valid(self) -> bool {
        &&& self.masking_key.is_some() == self.mask
        &&& (self.masking_key matches Some(k) ==> k.len() == 4)
        &&& self.payload.len() == self.payload_len
        &&& self.payload_len <= u64::MAX
    }
}

impl View for Frame {
    type V = FrameView;

    open spec fn view(&self) -> FrameView {
        FrameView {
            fin: self.fin,
            rsv1: self.rsv1,
            rsv2: self.rsv2,
            rsv3: self.rsv3,
            opcode: self.opcode,
            mask: self.mask,
            payload_len: self.payload_len as nat,
            masking_key: match self.masking_key {
                Some(k) => Some(k@),
                None => None,
            },
            payload: self.payload@,
        }
    }
}

/// XOR of each payload byte with the key byte at its index modulo four.
pub open spec fn mask_bytes(payload: Seq<u8>, key: Seq<u8>) -> Seq<u8> {
    Seq::new(payload.len(), |i: int| payload[i] ^ key[i % 4])
}

/// Big-endian bytes of a 16-bit length.
pub open spec fn be16(n: u16) -> Seq<u8> {
    seq![(n >> 8) as u8, n as u8]
}

/// Big-endian bytes of a 64-bit length.
pub open spec fn be64(n: u64) -> Seq<u8> {
    seq![
        (n >> 56) as u8,
        (n >> 48) as u8,
        (n >> 40) as u8,
        (n >> 32) as u8,
        (n >> 24) as u8,
        (n >> 16) as u8,
        (n >> 8) as u8,
        n as u8,
    ]
}

/// First header byte: fin, the three reserved bits and the opcode.
pub open spec fn first_byte(f: FrameView) -> u8 {
    (if f.fin { 0x80u8 } else { 0u8 }) | (if f.rsv1 { 0x40u8 } else { 0u8 }) | (if f.rsv2 {
        0x20u8
    } else {
        0u8
    }) | (if f.rsv3 { 0x10u8 } else { 0u8 }) | f.opcode.spec_value()
}

/// Second header byte and extended length: 7 bits for a length under 126,
/// else 126 and 16 bits for one under 65536, else 127 and 64 bits.
pub open spec fn length_field(len: nat, mask: bool) -> Seq<u8> {
    let m: u8 = if mask { 0x80u8 } else { 0u8 };
    if len < 126 {
        seq![m | (len as u8)]
    } else if len < 65536 {
        seq![m | 126u8] + be16(len as u16)
    } else {
        seq![m | 127u8] + be64(len as u64)
    }
}

/// The bytes of a frame on the wire.
pub open spec fn encode(f: FrameView) -> Seq<u8> {
    seq![first_byte(f)] + length_field(f.payload_len, f.mask) + if f.mask {
        let k = f.masking_key.unwrap();
        k + mask_bytes(f.payload, k)
    } else {
        f.payload
    }
}

/// XORs each byte of `data` with `key[i % 4]`; applying it twice restores `data`.
pub fn apply_mask(data: &[u8], key: [u8; 4]) -> (r: Vec<u8>)
    ensures
        r@ == mask_bytes(data@, key@),
{
    let mut out: Vec<u8> = Vec::with_capacity(data.len());
    let mut i: usize = 0;
    while i < data.len()
        invariant
            i <= data@.len(),
            out@ == mask_bytes(data@.subrange(0, i as int), key@),
        decreases data@.len() - i,
    {
        out.push(data[i] ^ key[i % 4]);
        i = i + 1;
        assert(out@ =~= mask_bytes(data@.subrange(0, i as int), key@));
    }
    assert(data@.subrange(0, i as int) =~= data@);
    out
}

impl Frame {
    pub open spec fn wf(&self) -> bool {
        self@.valid()
    }

    /// An unmasked, final frame with no reserved bits, carrying `payload`
    /// (empty when `None`).
    pub fn new(opcode: Opcode, payload: Option<Vec<u8>>) -> (r: Frame)
        ensures
            r.wf(),
            r.fin,
            !r.rsv1 && !r.rsv2 && !r.rsv3,
            r.opcode == opcode,
            !r.mask,
            r.masking_key.is_none(),
            r.payload@ == (match payload {
                Some(p) => p@,
                None => Seq::<u8>::empty(),
            }),
            r.payload_len == r.payload@.len(),
    {
        let (payload_len, payload) = match payload {
            Some(p) => (p.len(), p),
            None => (0, Vec::new()),
        };
        Frame {
            fin: true,
            rsv1: false,
            rsv2: false,
            rsv3: false,
            opcode,
            mask: false,
            payload_len,
            masking_key: None,
            payload,
        }
    }

    /// The wire bytes of this frame.
    pub fn to_bytes(self) -> (r: Vec<u8>)
        requires
            self.wf(),
        ensures
            r@ == encode(self@),
    {
        let mut buffer: Vec<u8> = Vec::new();
        buffer.push(self.header_byte());
        push_length(&mut buffer, self.payload_len, self.mask);
        let ghost head = buffer@;
        let mut body = match self.masking_key {
            Some(k) => {
                buffer.push(k[0]);
                buffer.push(k[1]);
                buffer.push(k[2]);
                buffer.push(k[3]);
                assert(buffer@ =~= head + k@);
                apply_mask(self.payload.as_slice(), k)
            },
            None => self.payload,
        };
        buffer.append(&mut body);
        assert(buffer@ =~= encode(self@));
        buffer
    }

    /// Reads the frame at the start of `buffer`, removing any masking from
    /// its payload. Bytes after the frame are not read.
    pub fn from_bytes(buffer: &[u8]) -> (r: Result<Frame, FrameError>)
        ensures
            match r {
                Ok(f) => decode(buffer@) == Ok::<FrameView, FrameError>(f@) && f.wf(),
                Err(e) => decode(buffer@) == Err::<FrameView, FrameError>(e),
            },
    {
        let ghost s = buffer@;
        if buffer.len() < 1 {
            return Err(FrameError::Truncated);
        }
        let opcode = match Opcode::from_nibble(buffer[0]) {
            Ok(op) => op,
            Err(e) => return Err(e),
        };
        if buffer.len() < 2 {
            return Err(FrameError::Truncated);
        }
        let mask = buffer[1] & 0x80 != 0;
        let selector = buffer[1] & 0x7f;
        let mut i: usize;
        let payload_len: u64;
        if selector == 126 {
            if buffer.len() < 4 {
                return Err(FrameError::Truncated);
            }
            payload_len = (((buffer[2] as u16) << 8) | (buffer[3] as u16)) as u64;
            i = 4;
        } else if selector == 127 {
            if buffer.len() < 10 {
                return Err(FrameError::Truncated);
            }
            payload_len = read_be64(buffer);
            i = 10;
        } else {
            payload_len = selector as u64;
            i = 2;
        }
        assert(i == key_start(s));
        assert(payload_len == declared_len(s));
        let masking_key = if mask {
            if buffer.len() - i < 4 {
                return Err(FrameError::Truncated);
            }
            let k: [u8; 4] = [buffer[i], buffer[i + 1], buffer[i + 2], buffer[i + 3]];
            assert(k@ =~= s.subrange(i as int, i + 4));
            i = i + 4;
            Some(k)
        } else {
            None
        };
        if payload_len > (buffer.len() - i) as u64 {
            return Err(FrameError::Truncated);
        }
        let n = payload_len as usize;
        let body = vstd::slice::slice_subrange(buffer, i, i + n);
        let payload = match masking_key {
            Some(k) => apply_mask(body, k),
            None => vstd::slice::slice_to_vec(body),
        };
        let f = Frame {
            fin: buffer[0] & 0x80 != 0,
            rsv1: buffer[0] & 0x40 != 0,
            rsv2: buffer[0] & 0x20 != 0,
            rsv3: buffer[0] & 0x10 != 0,
            opcode,
            mask,
            payload_len: n,
            masking_key,
            payload,
        };
        assert(f@ == decode(s).unwrap());
        Ok(f)
    }

    fn header_byte(&self) -> (r: u8)
        ensures
            r == first_byte(self@),
    {
        (if self.fin { 0x80u8 } else { 0u8 }) | (if self.rsv1 { 0x40u8 } else { 0u8 }) | (if self.rsv2 {
            0x20u8
        } else {
            0u8
        }) | (if self.rsv3 { 0x10u8 } else { 0u8 }) | self.opcode.value()
    }
}

/// The 64-bit big-endian length in bytes 2 to 9 of `buffer`.
fn read_be64(buffer: &[u8]) -> (r: u64)
    requires
        buffer@.len() >= 10,
    ensures
        r == from_be64(buffer@.subrange(2, 10)),
{
    ((buffer[2] as u64) << 56) | ((buffer[3] as u64) << 48) | ((buffer[4] as u64) << 40) | ((
    buffer[5] as u64) << 32) | ((buffer[6] as u64) << 24) | ((buffer[7] as u64) << 16) | ((
    buffer[8] as u64) << 8) | (buffer[9] as u64)
}

/// Appends the second header byte and the extended length, if any.
fn push_length(buffer: &mut Vec<u8>, len: usize, mask: bool)
    ensures
        final(buffer)@ == old(buffer)@ + length_field(len as nat, mask),
{
    let m: u8 = if mask { 0x80u8 } else { 0u8 };
    let ghost start = buffer@;
    if len < 126 {
        buffer.push(m | (len as u8));
        assert(buffer@ =~= start + length_field(len as nat, mask));
    } else if len < 65536 {
        let n: u16 = len as u16;
        buffer.push(m | 126u8);
        buffer.push((n >> 8) as u8);
        buffer.push(n as u8);
        assert(buffer@ =~= start + length_field(len as nat, mask));
    } else {
        let n: u64 = len as u64;
        buffer.push(m | 127u8);
        buffer.push((n >> 56) as u8);
        buffer.push((n >> 48) as u8);
        buffer.push((n >> 40) as u8);
        buffer.push((n >> 32) as u8);
        buffer.push((n >> 24) as u8);
        buffer.push((n >> 16) as u8);
        buffer.push((n >> 8) as u8);
        buffer.push(n as u8);
        assert(buffer@ =~= start + length_field(len as nat, mask));
    }
}

/// The 7-bit length selector of the second header byte.
pub open spec fn length_selector(s: Seq<u8>) -> u8 {
    s[1] & 0x7f
}

/// Whether the second header byte sets the mask bit.
pub open spec fn masked_bit(s: Seq<u8>) -> bool {
    s[1] & 0x80 != 0
}

/// Number of extended-length bytes that follow the second header byte.
pub open spec fn ext_len_size(s: Seq<u8>) -> int {
    if length_selector(s) == 126 {
        2
    } else if length_selector(s) == 127 {
        8
    } else {
        0
    }
}

/// A 16-bit big-endian value from two bytes.
pub open spec fn from_be16(hi: u8, lo: u8) -> u16 {
    ((hi as u16) << 8) | (lo as u16)
}

/// A 64-bit big-endian value from the first eight bytes of `b`.
pub open spec fn from_be64(b: Seq<u8>) -> u64 {
    ((b[0] as u64) << 56) | ((b[1] as u64) << 48) | ((b[2] as u64) << 40) | ((b[3] as u64) << 32)
        | ((b[4] as u64) << 24) | ((b[5] as u64) << 16) | ((b[6] as u64) << 8) | (b[7] as u64)
}

/// The payload length that the header declares.
pub open spec fn declared_len(s: Seq<u8>) -> nat {
    if length_selector(s) == 126 {
        from_be16(s[2], s[3]) as nat
    } else if length_selector(s) == 127 {
        from_be64(s.subrange(2, 10)) as nat
    } else {
        length_selector(s) as nat
    }
}

/// Where the masking key, if any, begins.
pub open spec fn key_start(s: Seq<u8>) -> int {
    2 + ext_len_size(s)
}

/// Where the payload begins.
pub open spec fn payload_start(s: Seq<u8>) -> int {
    key_start(s) + if masked_bit(s) { 4int } else { 0int }
}

/// The buffer holds the whole header and the whole declared payload.
pub open spec fn frame_complete(s: Seq<u8>) -> bool {
    &&& s.len() >= 2
    &&& s.len() >= key_start(s)
    &&& payload_start(s) + declared_len(s) <= s.len()
}

/// The frame at the start of `s`, or why there is none. Bytes after the
/// frame are not read.
pub open spec fn decode(s: Seq<u8>) -> Result<FrameView, FrameError> {
    if s.len() < 1 {
        Err(FrameError::Truncated)
    } else if opcode_of(s[0] & 0x0f) is None {
        Err(FrameError::InvalidOpcode(s[0] & 0x0f))
    } else if !frame_complete(s) {
        Err(FrameError::Truncated)
    } else {
        let ps = payload_start(s);
        let body = s.subrange(ps, ps + declared_len(s));
        let key = s.subrange(key_start(s), key_start(s) + 4);
        Ok(
            FrameView {
                fin: s[0] & 0x80 != 0,
                rsv1: s[0] & 0x40 != 0,
                rsv2: s[0] & 0x20 != 0,
                rsv3: s[0] & 0x10 != 0,
                opcode: opcode_of(s[0] & 0x0f).unwrap(),
                mask: masked_bit(s),
                payload_len: declared_len(s),
                masking_key: if masked_bit(s) { Some(key) } else { None },
                payload: if masked_bit(s) { mask_bytes(body, key) } else { body },
            },
        )
    }
}

proof fn lemma_first_byte_bits(fin: bool, r1: bool, r2: bool, r3: bool, v: u8)
    requires
        v < 16,
    ensures
        ({
            let b = (if fin { 0x80u8 } else { 0u8 }) | (if r1 { 0x40u8 } else { 0u8 }) | (if r2 {
                0x20u8
            } else {
                0u8
            }) | (if r3 { 0x10u8 } else { 0u8 }) | v;
            &&& (b & 0x80 != 0) == fin
            &&& (b & 0x40 != 0) == r1
            &&& (b & 0x20 != 0) == r2
            &&& (b & 0x10 != 0) == r3
            &&& b & 0x0f == v
        }),
{
    let a: u8 = if fin { 0x80u8 } else { 0u8 };
    let b: u8 = if r1 { 0x40u8 } else { 0u8 };
    let c: u8 = if r2 { 0x20u8 } else { 0u8 };
    let d: u8 = if r3 { 0x10u8 } else { 0u8 };
    assert({
        let x = a | b | c | d | v;
        &&& (x & 0x80 != 0) == (a == 0x80u8)
        &&& (x & 0x40 != 0) == (b == 0x40u8)
        &&& (x & 0x20 != 0) == (c == 0x20u8)
        &&& (x & 0x10 != 0) == (d == 0x10u8)
        &&& x & 0x0f == v
    }) by (bit_vector)
        requires
            v < 16,
            a == 0x80u8 || a == 0u8,
            b == 0x40u8 || b == 0u8,
            c == 0x20u8 || c == 0u8,
            d == 0x10u8 || d == 0u8,
    ;
}

proof fn lemma_second_byte_bits(mask: bool, sel: u8)
    requires
        sel < 128,
    ensures
        ({
            let b = (if mask { 0x80u8 } else { 0u8 }) | sel;
            &&& (b & 0x80 != 0) == mask
            &&& b & 0x7f == sel
        }),
{
    let m: u8 = if mask { 0x80u8 } else { 0u8 };
    assert((m | sel) & 0x80 != 0 <==> m == 0x80u8) by (bit_vector)
        requires
            sel < 128,
            m == 0x80u8 || m == 0u8,
    ;
    assert((m | sel) & 0x7f == sel) by (bit_vector)
        requires
            sel < 128,
            m == 0x80u8 || m == 0u8,
    ;
}

proof fn lemma_be16(n: u16)
    ensures
        from_be16((n >> 8) as u8, n as u8) == n,
{
    assert((((n >> 8) as u8 as u16) << 8) | (n as u8 as u16) == n) by (bit_vector);
}

proof fn lemma_be64(n: u64)
    ensures
        from_be64(be64(n)) == n,
{
    let b = be64(n);
    assert(from_be64(b) == ((((n >> 56) as u8 as u64) << 56) | (((n >> 48) as u8 as u64) << 48)
        | (((n >> 40) as u8 as u64) << 40) | (((n >> 32) as u8 as u64) << 32) | (((
    n >> 24) as u8 as u64) << 24) | (((n >> 16) as u8 as u64) << 16) | (((n >> 8) as u8 as u64)
        << 8) | (n as u8 as u64)));
    assert((((n >> 56) as u8 as u64) << 56) | (((n >> 48) as u8 as u64) << 48) | (((
    n >> 40) as u8 as u64) << 40) | (((n >> 32) as u8 as u64) << 32) | (((n >> 24) as u8 as u64)
        << 24) | (((n >> 16) as u8 as u64) << 16) | (((n >> 8) as u8 as u64) << 8) | (n as u8 as u64)
        == n) by (bit_vector);
}

/// Masking twice with the same key gives back the original bytes.
pub proof fn lemma_mask_involution(payload: Seq<u8>, key: Seq<u8>)
    ensures
        mask_bytes(mask_bytes(payload, key), key) == payload,
{
    let once = mask_bytes(payload, key);
    assert forall|i: int| 0 <= i < payload.len() implies #[trigger] mask_bytes(once, key)[i]
        == payload[i] by {
        let (x, k) = (payload[i], key[i % 4]);
        assert((x ^ k) ^ k == x) by (bit_vector);
    }
    assert(mask_bytes(once, key) =~= payload);
}

/// Decoding the encoding of a valid frame gives the same frame back.
pub proof fn lemma_round_trip(f: FrameView)
    requires
        f.valid(),
    ensures
        decode(encode(f)) == Ok::<FrameView, FrameError>(f),
{
    let s = encode(f);
    let len = f.payload_len;
    let lf = length_field(len, f.mask);
    lemma_first_byte_bits(f.fin, f.rsv1, f.rsv2, f.rsv3, f.opcode.spec_value());
    assert(s[0] == first_byte(f));
    assert(opcode_of(s[0] & 0x0f) == Some(f.opcode));
    let m: u8 = if f.mask { 0x80u8 } else { 0u8 };
    if len < 126 {
        lemma_second_byte_bits(f.mask, len as u8);
        assert(s[1] == m | (len as u8));
        assert(declared_len(s) == len);
    } else if len < 65536 {
        lemma_second_byte_bits(f.mask, 126u8);
        lemma_be16(len as u16);
        assert(s[1] == m | 126u8);
        assert(s[2] == ((len as u16) >> 8) as u8);
        assert(s[3] == (len as u16) as u8);
        assert(declared_len(s) == len);
    } else {
        lemma_second_byte_bits(f.mask, 127u8);
        lemma_be64(len as u64);
        assert(s[1] == m | 127u8);
        assert(s.subrange(2, 10) =~= be64(len as u64));
        assert(declared_len(s) == len);
    }
    assert(key_start(s) == 1 + lf.len());
    let ps = payload_start(s);
    if f.mask {
        let k = f.masking_key.unwrap();
        assert(s.subrange(key_start(s), key_start(s) + 4) =~= k);
        assert(s.subrange(ps, ps + len) =~= mask_bytes(f.payload, k));
        lemma_mask_involution(f.payload, k);
    } else {
        assert(s.subrange(ps, ps + len) =~= f.payload);
    }
}

/// Where each payload length puts the payload: right after the second byte
/// below 126, after a 16-bit length below 65536, after a 64-bit length above.
pub proof fn lemma_length_field_width(len: nat, mask: bool)
    requires
        len <= u64::MAX,
    ensures
        len < 126 ==> length_field(len, mask).len() == 1,
        126 <= len < 65536 ==> length_field(len, mask).len() == 3,
        65536 <= len ==> length_field(len, mask).len() == 9,
        length_field(len, mask)[0] & 0x7f == (if len < 126 {
            len as u8
        } else if len < 65536 {
            126u8
        } else {
            127u8
        }),
{
    if len < 126 {
        lemma_second_byte_bits(mask, len as u8);
    } else if len < 65536 {
        lemma_second_byte_bits(mask, 126u8);
    } else {
        lemma_second_byte_bits(mask, 127u8);
    }
}

/// The payload of a text reply: the received payload followed by ` (echoed)`.
pub open spec fn echoed(payload: Seq<u8>) -> Seq<u8> {
    payload + echo_suffix()
}

/// The bytes that mark a payload as answered.
pub open spec fn echo_suffix() -> Seq<u8> {
    " (echoed)".spec_bytes()
}

/// Marks a payload as answered by appending ` (echoed)`.
pub fn echo(payload: &[u8]) -> (r: Vec<u8>)
    ensures
        r@ == echoed(payload@),
{
    let mut out = vstd::slice::slice_to_vec(payload);
    out.extend_from_slice(" (echoed)".as_bytes());
    assert(out@ =~= echoed(payload@));
    out
}

} // verus!
