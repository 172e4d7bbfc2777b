//! The opening handshake: reading the upgrade request, computing the accept
//! token and writing the upgrade response.

use vstd::prelude::*;
use vstd::string::StringSliceAdditionalSpecFns;

verus! {

/// Why an upgrade request was refused.
#[derive(Clone, Copy, Debug, PartialEq, Eq, Structural)]
pub enum HandshakeError {
    /// A header line before the empty line has no colon.
    MalformedHeader,
    /// No `Sec-WebSocket-Key` header was sent.
    MissingKey,
}

/// How many bytes from `from` on, before `to`, differ from `b`.
pub open spec fn offset_of(s: Seq<u8>, from: int, to: int, b: u8) -> nat
    decreases to - from,
{
    if from >= to || s[from] == b {
        0
    } else {
        1 + offset_of(s, from + 1, to, b)
    }
}

/// First index in `[from, to)` at which `s` holds `b`, or `to` if none.
pub open spec fn find_byte(s: Seq<u8>, from: int, to: int, b: u8) -> int {
    from + offset_of(s, from, to, b)
}

/// Space or horizontal tab.
pub open spec fn is_blank(b: u8) -> bool {
    b == 0x20 || b == 0x09
}

/// First index in `[from, to)` that holds no blank, or `to` if none.
pub open spec fn skip_blanks(s: Seq<u8>, from: int, to: int) -> int
    decreases to - from,
{
    if from >= to {
        to
    } else if is_blank(s[from]) {
        skip_blanks(s, from + 1, to)
    } else {
        from
    }
}

/// End of `[from, to)` once trailing blanks are dropped.
pub open spec fn trim_end(s: Seq<u8>, from: int, to: int) -> int
    decreases to - from,
{
    if to <= from {
        from
    } else if is_blank(s[to - 1]) {
        trim_end(s, from, to - 1)
    } else {
        to
    }
}

/// The bytes of `s` in `[from, to)` without leading and trailing blanks.
pub open spec fn trimmed(s: Seq<u8>, from: int, to: int) -> Seq<u8> {
    let a = skip_blanks(s, from, to);
    s.subrange(a, trim_end(s, a, to))
}

/// Index of the line feed that ends the line starting at `pos`, or the end of `s`.
pub open spec fn line_end(s: Seq<u8>, pos: int) -> int {
    find_byte(s, pos, s.len() as int, 0x0a)
}

/// End of the text of the line starting at `pos`, before any carriage return
/// that precedes its line feed.
pub open spec fn content_end(s: Seq<u8>, pos: int) -> int {
    let e = line_end(s, pos);
    if e > pos && s[e - 1] == 0x0d {
        e - 1
    } else {
        e
    }
}

/// ASCII lower case of one byte.
pub open spec fn lower(b: u8) -> u8 {
    if 0x41 <= b <= 0x5a {
        (b + 32) as u8
    } else {
        b
    }
}

/// `a` equals the lower-case name `name` once its ASCII letters are lowered.
pub open spec fn matches_name(a: Seq<u8>, name: Seq<u8>) -> bool {
    a.len() == name.len() && forall|i: int| 0 <= i < a.len() ==> lower(a[i]) == name[i]
}

/// The header lines from the one at `pos` up to the first empty line (or
/// the end of `s`) each hold a colon.
pub open spec fn headers_well_formed(s: Seq<u8>, pos: int) -> bool
    decreases s.len() - pos,
{
    if pos < 0 || pos >= s.len() || content_end(s, pos) == pos {
        true
    } else if find_byte(s, pos, content_end(s, pos), 0x3a) == content_end(s, pos) {
        false
    } else if line_end(s, pos) >= s.len() {
        true
    } else {
        headers_well_formed(s, line_end(s, pos) + 1)
    }
}

/// The trimmed value of the last header line named `name` (letters compared
/// without case, the name trimmed) from the line at `pos` up to the first
/// empty line; `found` when there is none.
pub open spec fn last_header(s: Seq<u8>, pos: int, name: Seq<u8>, found: Option<Seq<u8>>) -> Option<
    Seq<u8>,
>
    decreases s.len() - pos,
{
    if pos < 0 || pos >= s.len() || content_end(s, pos) == pos {
        found
    } else {
        let ce = content_end(s, pos);
        let colon = find_byte(s, pos, ce, 0x3a);
        let next = if colon < ce && matches_name(trimmed(s, pos, colon), name) {
            Some(trimmed(s, colon + 1, ce))
        } else {
            found
        };
        if line_end(s, pos) >= s.len() {
            next
        } else {
            last_header(s, line_end(s, pos) + 1, name, next)
        }
    }
}

/// Where the header lines begin: after the request line's line feed.
pub open spec fn headers_start(s: Seq<u8>) -> int {
    line_end(s, 0) + 1
}

/// The method: the request line up to its first space.
pub open spec fn request_method(s: Seq<u8>) -> Seq<u8> {
    s.subrange(0, find_byte(s, 0, content_end(s, 0), 0x20))
}

/// The value of the last header named `name` in the request `s`, if any.
pub open spec fn header_value(s: Seq<u8>, name: Seq<u8>) -> Option<Seq<u8>> {
    last_header(s, headers_start(s), name, None)
}

pub open spec fn upgrade_name() -> Seq<u8> {
    "upgrade".spec_bytes()
}

pub open spec fn connection_name() -> Seq<u8> {
    "connection".spec_bytes()
}

pub open spec fn version_name() -> Seq<u8> {
    "sec-websocket-version".spec_bytes()
}

pub open spec fn key_name() -> Seq<u8> {
    "sec-websocket-key".spec_bytes()
}

/// The bytes of an optional byte vector.
pub open spec fn opt_bytes(o: Option<Vec<u8>>) -> Option<Seq<u8>> {
    match o {
        Some(v) => Some(v@),
        None => None,
    }
}

/// The fields of an upgrade request that the handshake reads.
#[derive(Clone, Debug)]
pub struct HandshakeRequest {
    pub method: Vec<u8>,
    pub upgrade: Option<Vec<u8>>,
    pub connection: Option<Vec<u8>>,
    pub version: Option<Vec<u8>>,
    pub key: Vec<u8>,
}

fn find_byte_in(buf: &[u8], from: usize, to: usize, b: u8) -> (r: usize)
    requires
        from <= to <= buf@.len(),
    ensures
        r == find_byte(buf@, from as int, to as int, b),
        from <= r <= to,
        r < to ==> buf@[r as int] == b,
{
    let mut i: usize = from;
    while i < to && buf[i] != b
        invariant
            from <= i <= to,
            to <= buf@.len(),
            find_byte(buf@, from as int, to as int, b) == find_byte(buf@, i as int, to as int, b),
        decreases to - i,
    {
        i = i + 1;
    }
    i
}

fn skip_blanks_in(buf: &[u8], from: usize, to: usize) -> (r: usize)
    requires
        from <= to <= buf@.len(),
    ensures
        r == skip_blanks(buf@, from as int, to as int),
        from <= r <= to,
{
    let mut i: usize = from;
    while i < to && (buf[i] == 0x20 || buf[i] == 0x09)
        invariant
            from <= i <= to,
            to <= buf@.len(),
            skip_blanks(buf@, from as int, to as int) == skip_blanks(buf@, i as int, to as int),
        decreases to - i,
    {
        i = i + 1;
    }
    i
}

fn trim_end_in(buf: &[u8], from: usize, to: usize) -> (r: usize)
    requires
        from <= to <= buf@.len(),
    ensures
        r == trim_end(buf@, from as int, to as int),
        from <= r <= to,
{
    let mut j: usize = to;
    while j > from && (buf[j - 1] == 0x20 || buf[j - 1] == 0x09)
        invariant
            from <= j <= to,
            to <= buf@.len(),
            trim_end(buf@, from as int, to as int) == trim_end(buf@, from as int, j as int),
        decreases j,
    {
        j = j - 1;
    }
    j
}

fn lower_byte(b: u8) -> (r: u8)
    ensures
        r == lower(b),
{
    if 0x41 <= b && b <= 0x5a {
        b + 32
    } else {
        b
    }
}

/// Whether `buf[from..to]` is `name` once its ASCII letters are lowered.
fn name_matches(buf: &[u8], from: usize, to: usize, name: &[u8]) -> (r: bool)
    requires
        from <= to <= buf@.len(),
    ensures
        r == matches_name(buf@.subrange(from as int, to as int), name@),
{
    let ghost a = buf@.subrange(from as int, to as int);
    if to - from != name.len() {
        return false;
    }
    let mut i: usize = 0;
    while i < name.len()
        invariant
            a == buf@.subrange(from as int, to as int),
            from <= to <= buf@.len(),
            to - from == name@.len(),
            i <= name@.len(),
            forall|j: int| 0 <= j < i ==> lower(a[j]) == name@[j],
        decreases name@.len() - i,
    {
        if lower_byte(buf[from + i]) != name[i] {
            return false;
        }
        i = i + 1;
    }
    true
}

fn copy_range(buf: &[u8], from: usize, to: usize) -> (r: Vec<u8>)
    requires
        from <= to <= buf@.len(),
    ensures
        r@ == buf@.subrange(from as int, to as int),
{
    vstd::slice::slice_to_vec(vstd::slice::slice_subrange(buf, from, to))
}

/// `found`, replaced by the value range when the name range equals `name`.
fn keep_if_named(
    buf: &[u8],
    name_range: (usize, usize),
    value_range: (usize, usize),
    name: &[u8],
    found: Option<Vec<u8>>,
) -> (r: Option<Vec<u8>>)
    requires
        name_range.0 <= name_range.1 <= buf@.len(),
        value_range.0 <= value_range.1 <= buf@.len(),
    ensures
        opt_bytes(r) == if matches_name(
            buf@.subrange(name_range.0 as int, name_range.1 as int),
            name@,
        ) {
            Some(buf@.subrange(value_range.0 as int, value_range.1 as int))
        } else {
            opt_bytes(found)
        },
{
    if name_matches(buf, name_range.0, name_range.1, name) {
        Some(copy_range(buf, value_range.0, value_range.1))
    } else {
        found
    }
}

/// Reads the request line and the header lines up to the first empty line.
/// A header line without a colon is refused, and so is a request without a
/// key; of repeated headers the last one counts.
pub fn parse_request(buf: &[u8]) -> (r: Result<HandshakeRequest, HandshakeError>)
    ensures
        !headers_well_formed(buf@, headers_start(buf@)) ==> r == Err::<
            HandshakeRequest,
            HandshakeError,
        >(HandshakeError::MalformedHeader),
        headers_well_formed(buf@, headers_start(buf@)) && header_value(buf@, key_name()) is None
            ==> r == Err::<HandshakeRequest, HandshakeError>(HandshakeError::MissingKey),
        r is Ok <==> headers_well_formed(buf@, headers_start(buf@)) && header_value(
            buf@,
            key_name(),
        ) is Some,
        r matches Ok(req) ==> {
            &&& headers_well_formed(buf@, headers_start(buf@))
            &&& req.method@ == request_method(buf@)
            &&& opt_bytes(req.upgrade) == header_value(buf@, upgrade_name())
            &&& opt_bytes(req.connection) == header_value(buf@, connection_name())
            &&& opt_bytes(req.version) == header_value(buf@, version_name())
            &&& header_value(buf@, key_name()) == Some(req.key@)
        },
{
    let ghost s = buf@;
    let len = buf.len();
    let first_end = find_byte_in(buf, 0, len, 0x0a);
    let first_content = if first_end > 0 && buf[first_end - 1] == 0x0d {
        first_end - 1
    } else {
        first_end
    };
    let method_end = find_byte_in(buf, 0, first_content, 0x20);
    let method = copy_range(buf, 0, method_end);
    let upgrade_n = "upgrade".as_bytes();
    let connection_n = "connection".as_bytes();
    let version_n = "sec-websocket-version".as_bytes();
    let key_n = "sec-websocket-key".as_bytes();
    let mut upgrade: Option<Vec<u8>> = None;
    let mut connection: Option<Vec<u8>> = None;
    let mut version: Option<Vec<u8>> = None;
    let mut key: Option<Vec<u8>> = None;
    let mut pos: usize = if first_end < len {
        first_end + 1
    } else {
        len
    };
    let ghost hs = headers_start(s);
    let mut done = false;
    while !done && pos < len
        invariant
            s == buf@,
            len == s.len(),
            pos <= len,
            done ==> pos < len && content_end(s, pos as int) == pos,
            hs == headers_start(s),
            upgrade_n@ == upgrade_name(),
            connection_n@ == connection_name(),
            version_n@ == version_name(),
            key_n@ == key_name(),
            headers_well_formed(s, hs) == headers_well_formed(s, pos as int),
            header_value(s, upgrade_name()) == last_header(
                s,
                pos as int,
                upgrade_name(),
                opt_bytes(upgrade),
            ),
            header_value(s, connection_name()) == last_header(
                s,
                pos as int,
                connection_name(),
                opt_bytes(connection),
            ),
            header_value(s, version_name()) == last_header(
                s,
                pos as int,
                version_name(),
                opt_bytes(version),
            ),
            header_value(s, key_name()) == last_header(s, pos as int, key_name(), opt_bytes(key)),
        decreases len - pos + if done { 0int } else { 1int },
    {
        let end = find_byte_in(buf, pos, len, 0x0a);
        let content = if end > pos && buf[end - 1] == 0x0d {
            end - 1
        } else {
            end
        };
        if content == pos {
            done = true;
            continue;
        }
        let colon = find_byte_in(buf, pos, content, 0x3a);
        if colon == content {
            assert(content as int == content_end(s, pos as int));
            assert(!headers_well_formed(s, pos as int));
            return Err(HandshakeError::MalformedHeader);
        }
        let name_start = skip_blanks_in(buf, pos, colon);
        let name_end = trim_end_in(buf, name_start, colon);
        let value_start = skip_blanks_in(buf, colon + 1, content);
        let value_end = trim_end_in(buf, value_start, content);
        let names = (name_start, name_end);
        let values = (value_start, value_end);
        upgrade = keep_if_named(buf, names, values, upgrade_n, upgrade);
        connection = keep_if_named(buf, names, values, connection_n, connection);
        version = keep_if_named(buf, names, values, version_n, version);
        key = keep_if_named(buf, names, values, key_n, key);
        pos = if end < len {
            end + 1
        } else {
            len
        };
    }
    match key {
        Some(k) => Ok(HandshakeRequest { method, upgrade, connection, version, key: k }),
        None => Err(HandshakeError::MissingKey),
    }
}

/// The SHA-1 digest of `data`.
pub uninterp spec fn sha1_of(data: Seq<u8>) -> Seq<u8>;

/// Relies on `sha1::Sha1` through `Digest::digest`: the SHA-1 digest of the
/// input, whose output size is 20 bytes.
#[verifier::external_body]
fn sha1_digest(data: &[u8]) -> (r: Vec<u8>)
    ensures
        r@ == sha1_of(data@),
        r@.len() == 20,
{
    <sha1::Sha1 as sha1::Digest>::digest(data).to_vec()
}

/// The character of the standard base64 alphabet for a 6-bit value.
pub open spec fn base64_char(v: u8) -> u8 {
    if v < 26 {
        (0x41 + v) as u8
    } else if v < 52 {
        (0x61 + v - 26) as u8
    } else if v < 62 {
        (0x30 + v - 52) as u8
    } else if v == 62 {
        0x2b
    } else {
        0x2f
    }
}

/// Standard base64 with `=` padding: each group of three bytes becomes four
/// characters, and a last group of one or two bytes is padded to four.
pub open spec fn base64(b: Seq<u8>) -> Seq<u8>
    decreases b.len(),
{
    if b.len() == 0 {
        seq![]
    } else if b.len() == 1 {
        seq![base64_char(b[0] >> 2), base64_char((b[0] & 3) << 4), 0x3du8, 0x3du8]
    } else if b.len() == 2 {
        seq![
            base64_char(b[0] >> 2),
            base64_char(((b[0] & 3) << 4) | (b[1] >> 4)),
            base64_char((b[1] & 15) << 2),
            0x3du8,
        ]
    } else {
        seq![
            base64_char(b[0] >> 2),
            base64_char(((b[0] & 3) << 4) | (b[1] >> 4)),
            base64_char(((b[1] & 15) << 2) | (b[2] >> 6)),
            base64_char(b[2] & 63),
        ] + base64(b.subrange(3, b.len() as int))
    }
}

/// Relies on `base64::engine::general_purpose::STANDARD` through
/// `Engine::encode`: the standard alphabet with padding. Its output length
/// must fit in a `usize`, or it panics.
#[verifier::external_body]
fn base64_encode(data: &[u8]) -> (r: Vec<u8>)
    requires
        data@.len() <= usize::MAX / 2,
    ensures
        r@ == base64(data@),
{
    base64::Engine::encode(&base64::engine::general_purpose::STANDARD, data).into_bytes()
}

/// The GUID that the protocol appends to the client's key.
pub open spec fn accept_guid() -> Seq<u8> {
    "258EAFA5-E914-47DA-95CA-C5AB0DC85B11".spec_bytes()
}

/// The accept token for a client key.
pub open spec fn accept_token(key: Seq<u8>) -> Seq<u8> {
    base64(sha1_of(key + accept_guid()))
}

/// The accept token: base64 of the SHA-1 digest of the key followed by the GUID.
pub fn accept_key(key: &[u8]) -> (r: Vec<u8>)
    ensures
        r@ == accept_token(key@),
{
    let mut plain = vstd::slice::slice_to_vec(key);
    plain.extend_from_slice("258EAFA5-E914-47DA-95CA-C5AB0DC85B11".as_bytes());
    assert(plain@ =~= key@ + accept_guid());
    let digest = sha1_digest(plain.as_slice());
    base64_encode(digest.as_slice())
}

/// The response lines that come before the accept token.
pub open spec fn response_head() -> Seq<u8> {
    "HTTP/1.1 101 OK\r\nUpgrade: websocket\r\nConnection: Upgrade\r\nSec-WebSocket-Accept: ".spec_bytes()
}

/// The line end after the token and the empty line that ends the response.
pub open spec fn response_tail() -> Seq<u8> {
    "\r\n\r\n".spec_bytes()
}

/// The upgrade response that carries `token`.
pub open spec fn upgrade_response(token: Seq<u8>) -> Seq<u8> {
    response_head() + token + response_tail()
}

/// The bytes of the upgrade response for an accept token.
pub fn handshake_response(token: &[u8]) -> (r: Vec<u8>)
    ensures
        r@ == upgrade_response(token@),
{
    let mut out: Vec<u8> = Vec::new();
    out.extend_from_slice(
        "HTTP/1.1 101 OK\r\nUpgrade: websocket\r\nConnection: Upgrade\r\nSec-WebSocket-Accept: ".as_bytes(),
    );
    out.extend_from_slice(token);
    out.extend_from_slice("\r\n\r\n".as_bytes());
    assert(out@ =~= upgrade_response(token@));
    out
}

/// What the handshake answers to the request `s`.
pub open spec fn negotiate_spec(s: Seq<u8>) -> Result<Seq<u8>, HandshakeError> {
    if !headers_well_formed(s, headers_start(s)) {
        Err(HandshakeError::MalformedHeader)
    } else {
        match header_value(s, key_name()) {
            Some(key) => Ok(upgrade_response(accept_token(key))),
            None => Err(HandshakeError::MissingKey),
        }
    }
}

/// Reads an upgrade request and writes the upgrade response.
pub fn negotiate(request: &[u8]) -> (r: Result<Vec<u8>, HandshakeError>)
    ensures
        match r {
            Ok(resp) => negotiate_spec(request@) == Ok::<Seq<u8>, HandshakeError>(resp@),
            Err(e) => negotiate_spec(request@) == Err::<Seq<u8>, HandshakeError>(e),
        },
{
    match parse_request(request) {
        Ok(req) => {
            let token = accept_key(req.key.as_slice());
            Ok(handshake_response(token.as_slice()))
        },
        Err(e) => Err(e),
    }
}

} // verus!
