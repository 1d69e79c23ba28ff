//! IPv4 transport addresses, the identity of a client.

use vstd::prelude::*;

verus! {

/// An IPv4 address as its four octets, most significant first.
#[derive(Clone, Copy, Debug, PartialEq, Eq, Structural, Hash)]
pub struct Ipv4 {
    pub a: u8,
    pub b: u8,
    pub c: u8,
    pub d: u8,
}

/// An IPv4 address and a port: where a datagram came from or goes to.
#[derive(Clone, Copy, Debug, PartialEq, Eq, Structural, Hash)]
pub struct Endpoint {
    pub ip: Ipv4,
    pub port: u16,
}

impl Ipv4 {
    /// The address as one number, the first octet in the highest byte.
    pub open spec fn bits(self) -> int {
        self.a * 0x100_0000 + self.b * 0x1_0000 + self.c * 0x100 + self.d
    }

    pub fn new(a: u8, b: u8, c: u8, d: u8) -> (ip: Ipv4)
        ensures
            ip == (Ipv4 { a, b, c, d }),
    {
        Ipv4 { a, b, c, d }
    }

    /// The four octets in network order.
    pub fn octets(&self) -> (o: [u8; 4])
        ensures
            o@ == seq![self.a, self.b, self.c, self.d],
    {
        let o: [u8; 4] = [self.a, self.b, self.c, self.d];
        assert(o@ =~= seq![self.a, self.b, self.c, self.d]);
        o
    }
}

impl Endpoint {
    /// The number that stands for this endpoint in a session table: the
    /// address in bits 16 to 47, the port in the low 16 bits.
    pub open spec fn key(self) -> int {
        self.ip.bits() * 0x1_0000 + self.port
    }

    pub fn new(a: u8, b: u8, c: u8, d: u8, port: u16) -> (e: Endpoint)
        ensures
            e == (Endpoint { ip: Ipv4 { a, b, c, d }, port }),
    {
        Endpoint { ip: Ipv4 { a, b, c, d }, port }
    }

    /// Computes [`Endpoint::key`].
    pub fn to_key(&self) -> (k: u64)
        ensures
            k == self.key(),
            k < 0x1_0000_0000_0000,
    {
        let a: u64 = self.ip.a as u64;
        let b: u64 = self.ip.b as u64;
        let c: u64 = self.ip.c as u64;
        let d: u64 = self.ip.d as u64;
        let p: u64 = self.port as u64;
        (a * 0x100_0000 + b * 0x1_0000 + c * 0x100 + d) * 0x1_0000 + p
    }
}

/// A number written as `hi * radix + lo` with `0 <= lo < radix` has one
/// such writing.
proof fn lemma_digits_unique(hi1: int, lo1: int, hi2: int, lo2: int, radix: int)
    requires
        0 <= lo1 < radix,
        0 <= lo2 < radix,
        hi1 * radix + lo1 == hi2 * radix + lo2,
    ensures
        hi1 == hi2,
        lo1 == lo2,
{
    if hi1 < hi2 {
        assert((hi2 - hi1) * radix >= radix) by (nonlinear_arith)
            requires
                hi2 - hi1 >= 1,
                radix > 0,
        ;
        assert((hi2 - hi1) * radix == hi2 * radix - hi1 * radix) by (nonlinear_arith);
    } else if hi2 < hi1 {
        assert((hi1 - hi2) * radix >= radix) by (nonlinear_arith)
            requires
                hi1 - hi2 >= 1,
                radix > 0,
        ;
        assert((hi1 - hi2) * radix == hi1 * radix - hi2 * radix) by (nonlinear_arith);
    }
}

/// A key names one endpoint only: distinct endpoints have distinct keys.
pub proof fn lemma_key_injective(e1: Endpoint, e2: Endpoint)
    requires
        e1.key() == e2.key(),
    ensures
        e1 == e2,
{
    let (i1, i2) = (e1.ip, e2.ip);
    lemma_digits_unique(i1.bits(), e1.port as int, i2.bits(), e2.port as int, 0x1_0000);
    lemma_digits_unique(
        i1.a * 0x1_0000 + i1.b * 0x100 + i1.c,
        i1.d as int,
        i2.a * 0x1_0000 + i2.b * 0x100 + i2.c,
        i2.d as int,
        0x100,
    );
    lemma_digits_unique(
        i1.a * 0x100 + i1.b,
        i1.c as int,
        i2.a * 0x100 + i2.b,
        i2.c as int,
        0x100,
    );
    lemma_digits_unique(i1.a as int, i1.b as int, i2.a as int, i2.b as int, 0x100);
}

} // verus!
