//! The PROXY-protocol header codec.
//!
//! Outbound, a version-2 binary header names the client and the listening
//! address in front of the payload. Inbound, a header of either version is
//! decoded into the original client address and the offset at which the
//! payload begins. Only IPv4 sources are accepted.
//!
//! Encoding and parsing are done by the `proxy_protocol` crate. What this
//! module believes of it without proof is stated on [`parsed`], on
//! `parse_header` and on `encode_datagram_header`.

use crate::endpoint::{Endpoint, Ipv4};
use proxy_protocol::version1::ProxyAddresses as TextAddresses;
use proxy_protocol::version2::ProxyAddresses as BinaryAddresses;
use proxy_protocol::version2::{ProxyCommand, ProxyTransportProtocol};
use proxy_protocol::ProxyHeader;
use vstd::prelude::*;
use vstd::slice::{slice_subrange, slice_to_vec};

verus! {

/// The two header formats.
#[derive(Clone, Copy, Debug, PartialEq, Eq, Structural)]
pub enum Version {
    /// The text line.
    V1,
    /// The binary block.
    V2,
}

/// The kind of source address that a parsed header carries.
#[derive(Clone, Copy, Debug)]
pub enum Source {
    /// The four octets of the address, most significant first, and the port.
    Ipv4([u8; 4], u16),
    Ipv6,
    Unix,
    /// `UNKNOWN` in a text header, `AF_UNSPEC` in a binary one.
    Unspecified,
}

/// What the parser found at the start of a buffer.
#[derive(Clone, Copy, Debug)]
pub struct Parsed {
    pub source: Source,
    /// How many bytes of the buffer follow the header.
    pub remaining: usize,
}

/// A decoded inbound header.
#[derive(Clone, Copy, Debug, PartialEq, Eq, Structural)]
pub struct DecodedHeader {
    pub version: Version,
    /// The client that the sender of the header speaks for.
    pub original_source: Endpoint,
    /// The offset of the first payload byte.
    pub header_byte_length: usize,
}

/// Why a buffer was not decoded.
#[derive(Clone, Copy, Debug, PartialEq, Eq, Structural)]
pub enum DecodeError {
    /// The header announces more bytes than the buffer holds.
    Truncated,
    /// The buffer does not begin with a well-formed header.
    Malformed,
    /// The header is well formed but its source is not an IPv4 address.
    Unsupported,
}

/// The space that parts the fields of a text header.
pub const SPACE: u8 = 0x20;

/// The carriage return that ends a text header, before the line feed.
pub const CR: u8 = 0x0D;

/// The line feed, the last byte of a text header.
pub const LF: u8 = 0x0A;

/// The length of a version-2 header for IPv4: 16 fixed bytes and a 12-byte
/// address block.
pub const DATAGRAM_HEADER_LEN: usize = 28;

/// The buffer begins with `PROXY` and a space, the mark of a text header.
pub open spec fn is_text(b: Seq<u8>) -> bool {
    &&& b.len() >= 6
    &&& b[0] == 0x50
    &&& b[1] == 0x52
    &&& b[2] == 0x4F
    &&& b[3] == 0x58
    &&& b[4] == 0x59
    &&& b[5] == 0x20
}

/// The buffer begins with the 12-byte signature of a binary header.
pub open spec fn is_binary(b: Seq<u8>) -> bool {
    &&& b.len() >= 12
    &&& b[0] == 0x0D
    &&& b[1] == 0x0A
    &&& b[2] == 0x0D
    &&& b[3] == 0x0A
    &&& b[4] == 0x00
    &&& b[5] == 0x0D
    &&& b[6] == 0x0A
    &&& b[7] == 0x51
    &&& b[8] == 0x55
    &&& b[9] == 0x49
    &&& b[10] == 0x54
    &&& b[11] == 0x0A
}

/// Two bytes read as a big-endian number.
pub open spec fn be16(hi: u8, lo: u8) -> int {
    hi * 0x100 + lo
}

/// The length field of a binary header: how many bytes follow its 16 fixed
/// bytes.
pub open spec fn block_length(b: Seq<u8>) -> int
    recommends
        b.len() >= 16,
{
    be16(b[14], b[15])
}

/// The endpoint with the given octets and port.
pub open spec fn endpoint_of(ip: [u8; 4], port: u16) -> Endpoint {
    Endpoint { ip: Ipv4 { a: ip[0], b: ip[1], c: ip[2], d: ip[3] }, port }
}

/// The endpoint whose address starts at `ip` and whose port starts at `port`.
pub open spec fn endpoint_at(b: Seq<u8>, ip: int, port: int) -> Endpoint {
    Endpoint {
        ip: Ipv4 { a: b[ip], b: b[ip + 1], c: b[ip + 2], d: b[ip + 3] },
        port: be16(b[port], b[port + 1]) as u16,
    }
}

/// The least length of the address block for an address family of a binary
/// header: two addresses and two ports for IPv4 (family 1) and IPv6 (family
/// 2), two socket paths for Unix (family 3), nothing where the family is
/// unspecified.
pub open spec fn least_block(family: u8) -> int {
    if family == 1 {
        12
    } else if family == 2 {
        36
    } else if family == 3 {
        216
    } else {
        0
    }
}

/// The buffer begins with a complete, well-formed binary header: version 2
/// in the high half of byte 12 and a known command in its low half, a known
/// address family in the high half of byte 13 and a known transport in its
/// low half, and an address block that is long enough for the family and
/// that the buffer holds in full.
pub open spec fn is_binary_well_formed(b: Seq<u8>) -> bool {
    &&& is_binary(b)
    &&& b.len() >= 16
    &&& b[12] / 16 == 2
    &&& b[12] % 16 <= 1
    &&& b[13] / 16 <= 3
    &&& b[13] % 16 <= 2
    &&& block_length(b) >= least_block(b[13] / 16)
    &&& b.len() >= 16 + block_length(b)
}

/// The buffer begins with a well-formed binary header for IPv4.
pub open spec fn is_binary_ipv4(b: Seq<u8>) -> bool {
    is_binary_well_formed(b) && b[13] / 16 == 1
}

/// The index of the first `byte` at or after `from`, or the length of the
/// buffer where there is none.
pub open spec fn first_at(b: Seq<u8>, byte: u8, from: int) -> int
    decreases b.len() - from,
{
    if from < 0 || from >= b.len() {
        b.len() as int
    } else if b[from] == byte {
        from
    } else {
        first_at(b, byte, from + 1)
    }
}

/// Where the carriage return that ends a text header for TCP stands: the
/// first one after the third space that follows the protocol tag. It is the
/// length of the buffer where the line has no such end.
pub open spec fn terminator(b: Seq<u8>) -> int {
    let after_source = first_at(b, SPACE, 11);
    let after_destination = first_at(b, SPACE, after_source + 1);
    let after_source_port = first_at(b, SPACE, after_destination + 1);
    first_at(b, CR, after_source_port + 1)
}

/// Bytes 6 to 10 are the protocol tag `TCP4` and the space after it.
pub open spec fn has_tcp4_tag(b: Seq<u8>) -> bool {
    &&& b.len() >= 11
    &&& b[6] == 0x54
    &&& b[7] == 0x43
    &&& b[8] == 0x50
    &&& b[9] == 0x34
    &&& b[10] == 0x20
}

/// The buffer begins with one text line for TCP over IPv4: the mark, the tag
/// `TCP4`, and a carriage return at the [`terminator`] that is followed by
/// the first line feed of the buffer.
pub open spec fn is_tcp4_line(b: Seq<u8>) -> bool {
    &&& is_text(b)
    &&& has_tcp4_tag(b)
    &&& terminator(b) + 1 < b.len()
    &&& first_at(b, LF, 0) == terminator(b) + 1
}

/// The first `end` bytes of the buffer are one line: they end in a carriage
/// return and a line feed, and no line feed stands before that one.
pub open spec fn ends_first_line(b: Seq<u8>, end: int) -> bool {
    &&& 2 <= end <= b.len()
    &&& b[end - 2] == CR
    &&& b[end - 1] == LF
    &&& forall|i: int| 0 <= i < end - 1 ==> b[i] != LF
}

/// The buffer does not stop in the middle of what its header announces: a
/// text header for TCP is not cut right after its carriage return, and a
/// binary header is followed by as many bytes as its length field says.
pub open spec fn is_whole(b: Seq<u8>) -> bool {
    &&& is_text(b) && b.len() > 6 && b[6] == 0x54 ==> terminator(b) + 1 != b.len()
    &&& is_binary(b) && b.len() >= 16 ==> 16 + block_length(b) <= b.len()
}

/// What `proxy_protocol::parse` makes of a buffer: `None` where it returns an
/// error, else the kind of source address and the number of bytes it left
/// unread.
pub uninterp spec fn parsed(b: Seq<u8>) -> Option<Parsed>;

/// What is known of the parser's result `r` on the buffer `b` beyond its
/// name.
pub open spec fn agrees(b: Seq<u8>, r: Option<Parsed>) -> bool {
    &&& !is_text(b) && !is_binary(b) ==> r is None
    &&& r matches Some(p) ==> {
        &&& p.remaining <= b.len()
        &&& is_text(b) && p.source is Ipv4 ==> b.len() - p.remaining == terminator(b) + 2
        &&& is_binary(b) ==> {
            &&& b.len() - p.remaining == 16 + block_length(b)
            &&& p.source is Ipv4 <==> b[13] / 16 == 1
        }
    }
    &&& is_binary(b) ==> (r is Some <==> is_binary_well_formed(b))
    &&& is_binary_ipv4(b) ==> (r matches Some(p) && p.source matches Source::Ipv4(ip, port)
        && endpoint_of(ip, port) == endpoint_at(b, 16, 24))
}

/// The header that wraps an outbound datagram: the signature, version 2 with
/// the command PROXY, IPv4 over a datagram transport, a 12-byte address
/// block, then both addresses and both ports in network byte order.
pub open spec fn datagram_header(source: Endpoint, destination: Endpoint) -> Seq<u8> {
    seq![
        0x0Du8, 0x0A, 0x0D, 0x0A, 0x00, 0x0D, 0x0A, 0x51, 0x55, 0x49, 0x54, 0x0A,
        0x21, 0x12, 0x00, 0x0C,
        source.ip.a, source.ip.b, source.ip.c, source.ip.d,
        destination.ip.a, destination.ip.b, destination.ip.c, destination.ip.d,
        (source.port / 0x100) as u8, (source.port % 0x100) as u8,
        (destination.port / 0x100) as u8, (destination.port % 0x100) as u8,
    ]
}

/// What a parsed header of the given version yields in a buffer of `len`
/// bytes: the source of an IPv4 header, an error for every other kind of
/// address, for a buffer that did not parse, and for a result that claims to
/// have left more than `len` bytes.
pub open spec fn source_of(version: Version, len: int, r: Option<Parsed>) -> Result<
    DecodedHeader,
    DecodeError,
> {
    match r {
        None => Err(DecodeError::Malformed),
        Some(p) => match p.source {
            Source::Ipv4(ip, port) => if p.remaining > len {
                Err(DecodeError::Malformed)
            } else {
                Ok(
                    DecodedHeader {
                        version,
                        original_source: endpoint_of(ip, port),
                        header_byte_length: (len - p.remaining) as usize,
                    },
                )
            },
            _ => Err(DecodeError::Unsupported),
        },
    }
}

/// The meaning of decoding.
///
/// A buffer that stops short of what its header announces is truncated. A
/// well-formed binary header for IPv4 yields the source address read from
/// bytes 16 to 19 and 24 to 25, and ends 16 bytes plus its length field into
/// the buffer; a well-formed one for another family is unsupported, and any
/// other buffer that begins with the signature is malformed. A text header
/// is accepted where it is one line with the tag `TCP4` ([`is_tcp4_line`])
/// in which the parser finds IPv4 addresses: it yields the source that the
/// parser reads from it, and ends after the line feed that follows its
/// carriage return, the first line feed of the buffer. It is unsupported
/// where the parser finds another kind of address in it, and malformed
/// where the parser refuses it or where it is not such a line. A buffer with
/// neither mark is malformed.
pub open spec fn decoded(b: Seq<u8>) -> Result<DecodedHeader, DecodeError> {
    if !is_whole(b) {
        Err(DecodeError::Truncated)
    } else if is_binary_ipv4(b) {
        Ok(
            DecodedHeader {
                version: Version::V2,
                original_source: endpoint_at(b, 16, 24),
                header_byte_length: (16 + block_length(b)) as usize,
            },
        )
    } else if is_binary(b) {
        if is_binary_well_formed(b) {
            Err(DecodeError::Unsupported)
        } else {
            Err(DecodeError::Malformed)
        }
    } else if is_text(b) {
        match parsed(b) {
            Some(p) => match p.source {
                Source::Ipv4(ip, port) => if is_tcp4_line(b) {
                    Ok(
                        DecodedHeader {
                            version: Version::V1,
                            original_source: endpoint_of(ip, port),
                            header_byte_length: (terminator(b) + 2) as usize,
                        },
                    )
                } else {
                    Err(DecodeError::Malformed)
                },
                _ => Err(DecodeError::Unsupported),
            },
            None => Err(DecodeError::Malformed),
        }
    } else {
        Err(DecodeError::Malformed)
    }
}

/// Calls `proxy_protocol::parse` on the buffer.
///
/// Believed of it: the result is a function of the bytes alone; a buffer that
/// begins with neither `PROXY` and a space nor the binary signature is
/// refused; the parser never reads past the buffer; a text header with IPv4
/// addresses ends two bytes after the carriage return that [`terminator`]
/// finds; a buffer that begins with the signature is accepted exactly when
/// [`is_binary_well_formed`] holds, the header then ends 16 bytes plus its
/// length field into the buffer, and it yields IPv4 addresses exactly when
/// its family is 1, the source then being bytes 16 to 19 with the port in
/// bytes 24 and 25. On a buffer that is not [`is_whole`] the parser can
/// panic, so such a buffer is not handed to it.
#[verifier::external_body]
fn parse_header(buf: &[u8]) -> (r: Option<Parsed>)
    requires
        is_whole(buf@),
    ensures
        r == parsed(buf@),
        agrees(buf@, r),
{
    let mut rest = buf;
    let source = match proxy_protocol::parse(&mut rest).ok()? {
        ProxyHeader::Version1 { addresses: TextAddresses::Ipv4 { source, .. } }
        | ProxyHeader::Version2 { addresses: BinaryAddresses::Ipv4 { source, .. }, .. } => {
            Source::Ipv4(source.ip().octets(), source.port())
        },
        ProxyHeader::Version1 { addresses: TextAddresses::Ipv6 { .. } }
        | ProxyHeader::Version2 { addresses: BinaryAddresses::Ipv6 { .. }, .. } => Source::Ipv6,
        ProxyHeader::Version2 { addresses: BinaryAddresses::Unix { .. }, .. } => Source::Unix,
        _ => Source::Unspecified,
    };
    Some(Parsed { source, remaining: rest.len() })
}

/// Calls `proxy_protocol::encode` on a version-2 header with the command
/// PROXY, a datagram transport and the two IPv4 addresses.
///
/// Believed of it: for such a header the encoder has no failing path, and
/// the bytes it returns are those of [`datagram_header`].
#[verifier::external_body]
fn encode_datagram_header(source: Endpoint, destination: Endpoint) -> (r: Option<Vec<u8>>)
    ensures
        r is Some,
        r->0@ == datagram_header(source, destination),
{
    let (s, d) = (source.ip, destination.ip);
    let source = format!("{}.{}.{}.{}:{}", s.a, s.b, s.c, s.d, source.port).parse().ok()?;
    let destination = format!("{}.{}.{}.{}:{}", d.a, d.b, d.c, d.d, destination.port).parse().ok()?;
    let header = ProxyHeader::Version2 {
        command: ProxyCommand::Proxy,
        transport_protocol: ProxyTransportProtocol::Datagram,
        addresses: BinaryAddresses::Ipv4 { source, destination },
    };
    proxy_protocol::encode(header).ok().map(|bytes| bytes.to_vec())
}

/// Where a search ends: at or after its start, on the byte sought unless it
/// ran to the end of the buffer, and past no such byte.
pub proof fn lemma_first_at(b: Seq<u8>, byte: u8, from: int)
    requires
        0 <= from,
    ensures
        from <= first_at(b, byte, from) || first_at(b, byte, from) == b.len(),
        first_at(b, byte, from) <= b.len(),
        first_at(b, byte, from) < b.len() ==> from <= first_at(b, byte, from) && b[first_at(
            b,
            byte,
            from,
        )] == byte,
        forall|i: int| from <= i < first_at(b, byte, from) ==> b[i] != byte,
    decreases b.len() - from,
{
    if from < b.len() && b[from] != byte {
        lemma_first_at(b, byte, from + 1);
    }
}

/// The terminator of a text header is a carriage return, unless the search
/// ran to the end of the buffer.
pub proof fn lemma_terminator(b: Seq<u8>)
    ensures
        0 <= terminator(b) <= b.len(),
        terminator(b) < b.len() ==> b[terminator(b)] == CR,
{
    let after_source = first_at(b, SPACE, 11);
    lemma_first_at(b, SPACE, 11);
    let after_destination = first_at(b, SPACE, after_source + 1);
    lemma_first_at(b, SPACE, after_source + 1);
    let after_source_port = first_at(b, SPACE, after_destination + 1);
    lemma_first_at(b, SPACE, after_destination + 1);
    lemma_first_at(b, CR, after_source_port + 1);
}

/// Tells whether the buffer begins with the mark of a text header.
pub fn has_text_mark(buf: &[u8]) -> (r: bool)
    ensures
        r == is_text(buf@),
{
    buf.len() >= 6 && buf[0] == 0x50 && buf[1] == 0x52 && buf[2] == 0x4F && buf[3] == 0x58
        && buf[4] == 0x59 && buf[5] == 0x20
}

/// Tells whether the buffer begins with the signature of a binary header.
pub fn has_signature(buf: &[u8]) -> (r: bool)
    ensures
        r == is_binary(buf@),
{
    buf.len() >= 12 && buf[0] == 0x0D && buf[1] == 0x0A && buf[2] == 0x0D && buf[3] == 0x0A
        && buf[4] == 0x00 && buf[5] == 0x0D && buf[6] == 0x0A && buf[7] == 0x51 && buf[8] == 0x55
        && buf[9] == 0x49 && buf[10] == 0x54 && buf[11] == 0x0A
}

/// Finds the first `byte` at or after `from`; the length of the buffer where
/// there is none.
pub fn find(buf: &[u8], byte: u8, from: usize) -> (i: usize)
    ensures
        i == first_at(buf@, byte, from as int),
        i <= buf.len(),
        i < buf.len() ==> from <= i && buf[i as int] == byte,
{
    let mut i: usize = from;
    while i < buf.len() && buf[i] != byte
        invariant
            from <= i,
            first_at(buf@, byte, from as int) == first_at(buf@, byte, i as int),
        decreases buf.len() - i,
    {
        i += 1;
    }
    if i >= buf.len() {
        buf.len()
    } else {
        i
    }
}

/// Finds the carriage return that ends a text header for TCP.
pub fn find_terminator(buf: &[u8]) -> (t: usize)
    ensures
        t == terminator(buf@),
        t <= buf.len(),
{
    let n = buf.len();
    let after_source = find(buf, SPACE, 11);
    if after_source >= n {
        return n;
    }
    let after_destination = find(buf, SPACE, after_source + 1);
    if after_destination >= n {
        return n;
    }
    let after_source_port = find(buf, SPACE, after_destination + 1);
    if after_source_port >= n {
        return n;
    }
    find(buf, CR, after_source_port + 1)
}

/// Tells whether the buffer begins with one text line for TCP over IPv4.
pub fn holds_tcp4_line(buf: &[u8]) -> (r: bool)
    ensures
        r == is_tcp4_line(buf@),
{
    let n = buf.len();
    if !has_text_mark(buf) || n < 11 {
        return false;
    }
    if buf[6] != 0x54 || buf[7] != 0x43 || buf[8] != 0x50 || buf[9] != 0x34 || buf[10] != 0x20 {
        return false;
    }
    let t = find_terminator(buf);
    if t >= n || t + 1 >= n {
        return false;
    }
    find(buf, LF, 0) == t + 1
}

/// Tells whether the buffer holds all that its header announces.
pub fn holds_whole_header(buf: &[u8]) -> (r: bool)
    ensures
        r == is_whole(buf@),
{
    let n = buf.len();
    if has_text_mark(buf) {
        if n > 6 && buf[6] == 0x54 {
            let t = find_terminator(buf);
            t == n || t + 1 < n
        } else {
            true
        }
    } else if has_signature(buf) && n >= 16 {
        let announced: usize = (buf[14] as usize) * 0x100 + (buf[15] as usize);
        announced <= n - 16
    } else {
        true
    }
}

/// Reads the source out of what the parser found in a buffer of `len` bytes
/// that holds a header of the given version.
///
/// `len` is taken for granted only as far as it is at least the number of
/// bytes that the parser left; a result that claims more is malformed.
pub fn original_source(version: Version, len: usize, found: Option<Parsed>) -> (r: Result<
    DecodedHeader,
    DecodeError,
>)
    ensures
        r == source_of(version, len as int, found),
{
    match found {
        None => Err(DecodeError::Malformed),
        Some(p) => match p.source {
            Source::Ipv4(ip, port) => {
                if p.remaining > len {
                    Err(DecodeError::Malformed)
                } else {
                    Ok(
                        DecodedHeader {
                            version,
                            original_source: Endpoint::new(ip[0], ip[1], ip[2], ip[3], port),
                            header_byte_length: len - p.remaining,
                        },
                    )
                }
            },
            Source::Ipv6 => Err(DecodeError::Unsupported),
            Source::Unix => Err(DecodeError::Unsupported),
            Source::Unspecified => Err(DecodeError::Unsupported),
        },
    }
}

/// What holds of every header that decodes from a buffer that a machine can
/// hold: it ends within the buffer; a
/// binary one begins with the signature and ends 16 bytes plus its length
/// field into the buffer; a text one is one line with the tag `TCP4` that
/// ends in a carriage return and the first line feed of the buffer.
pub proof fn lemma_decoded_header_end(b: Seq<u8>)
    requires
        b.len() <= usize::MAX,
    ensures
        decoded(b) matches Ok(h) ==> {
            &&& 0 < h.header_byte_length <= b.len()
            &&& h.version == Version::V2 ==> is_binary_ipv4(b) && h.header_byte_length == 16
                + block_length(b)
            &&& h.version == Version::V1 ==> is_tcp4_line(b) && !is_binary(b) && ends_first_line(
                b,
                h.header_byte_length as int,
            )
        },
{
    if decoded(b) is Ok && !is_binary_ipv4(b) {
        lemma_terminator(b);
        lemma_first_at(b, LF, 0);
    }
}

/// Decodes the header at the start of a buffer.
///
/// The header never reaches past the buffer, and a text header is one line:
/// it ends in a carriage return and the first line feed of the buffer.
pub fn decode_header(buf: &[u8]) -> (r: Result<DecodedHeader, DecodeError>)
    ensures
        r == decoded(buf@),
        r matches Ok(h) ==> 0 < h.header_byte_length <= buf.len(),
        r matches Ok(h) ==> h.version == Version::V1 ==> ends_first_line(
            buf@,
            h.header_byte_length as int,
        ),
{
    if !holds_whole_header(buf) {
        return Err(DecodeError::Truncated);
    }
    let text = has_text_mark(buf);
    let one_line = text && holds_tcp4_line(buf);
    let version = if text {
        Version::V1
    } else {
        Version::V2
    };
    let found = parse_header(buf);
    let len = buf.len();
    proof {
        lemma_decoded_header_end(buf@);
    }
    match original_source(version, len, found) {
        Ok(header) => if text && !one_line {
            Err(DecodeError::Malformed)
        } else {
            Ok(header)
        },
        Err(reason) => Err(reason),
    }
}

/// Decodes the header at the start of a datagram and returns the original
/// source with the payload that follows the header.
///
/// The header is what the payload leaves of the datagram. Behind the binary
/// signature it is 16 bytes and the length field long; else it is one text
/// line, which ends in a carriage return and the first line feed of the
/// datagram.
pub fn parse_proxy_protocol(buf: &[u8]) -> (r: Result<(Endpoint, &[u8]), DecodeError>)
    ensures
        match decoded(buf@) {
            Ok(h) => r matches Ok((source, payload)) && source == h.original_source
                && h.header_byte_length <= buf.len() && payload@ == buf@.skip(
                h.header_byte_length as int,
            ),
            Err(e) => r == Err::<(Endpoint, &[u8]), _>(e),
        },
        r matches Ok((_, payload)) ==> payload@.len() < buf@.len(),
        r matches Ok((_, payload)) ==> is_binary(buf@) ==> buf@.len() - payload@.len() == 16
            + block_length(buf@),
        r matches Ok((_, payload)) ==> !is_binary(buf@) ==> ends_first_line(
            buf@,
            buf@.len() - payload@.len(),
        ),
{
    let len = buf.len();
    proof {
        lemma_decoded_header_end(buf@);
    }
    match decode_header(buf) {
        Ok(h) => Ok((h.original_source, slice_subrange(buf, h.header_byte_length, len))),
        Err(e) => Err(e),
    }
}

/// Encodes the header that names `source` as the client of a datagram and
/// `destination` as the address it was sent to.
pub fn encode_header(source: Endpoint, destination: Endpoint) -> (out: Vec<u8>)
    ensures
        out@ == datagram_header(source, destination),
        out.len() == DATAGRAM_HEADER_LEN,
{
    match encode_datagram_header(source, destination) {
        Some(bytes) => bytes,
        None => Vec::new(),
    }
}

/// Puts the header for `source` and `destination` in front of a payload.
pub fn wrap(source: Endpoint, destination: Endpoint, payload: &[u8]) -> (out: Vec<u8>)
    ensures
        out@ == datagram_header(source, destination) + payload@,
{
    let mut out = encode_header(source, destination);
    let mut tail = slice_to_vec(payload);
    out.append(&mut tail);
    out
}

/// Encoding then decoding gives the source back: a buffer made of the header
/// for `source` and `destination` and of any payload decodes to `source`, the
/// header's length is the 28 bytes that were encoded, and what follows them
/// is the payload.
pub proof fn lemma_header_roundtrip(source: Endpoint, destination: Endpoint, payload: Seq<u8>)
    ensures
        datagram_header(source, destination).len() == DATAGRAM_HEADER_LEN,
        decoded(datagram_header(source, destination) + payload) == Ok::<_, DecodeError>(
            DecodedHeader {
                version: Version::V2,
                original_source: source,
                header_byte_length: DATAGRAM_HEADER_LEN,
            },
        ),
        (datagram_header(source, destination) + payload).skip(DATAGRAM_HEADER_LEN as int)
            == payload,
{
    let b = datagram_header(source, destination) + payload;
    assert(is_binary_ipv4(b));
    assert(b.skip(28) =~= payload);
}

/// A buffer that begins with neither the text mark nor the binary signature
/// is malformed.
pub proof fn lemma_unmarked_is_malformed(b: Seq<u8>)
    requires
        !is_text(b),
        !is_binary(b),
    ensures
        decoded(b) == Err::<DecodedHeader, _>(DecodeError::Malformed),
{
}

} // verus!
