use vstd::prelude::*;

verus! {

broadcast use vstd::array::group_array_axioms;

/// Address family tag for IPv4, as POSIX `AF_INET` on Linux.
pub const AF_INET: u16 = 2;

/// Address family tag for IPv6, as POSIX `AF_INET6` on Linux.
pub const AF_INET6: u16 = 10;

/// Length in bytes of an encoded IPv4 socket address (the size of a
/// `sockaddr_in`).
pub const SOCKADDR_V4_LEN: usize = 16;

/// Length in bytes of an encoded IPv6 socket address (the size of a
/// `sockaddr_in6`).
pub const SOCKADDR_V6_LEN: usize = 28;

/// An IPv4 socket address as plain values: the four address octets in
/// textual order and the port in host order.
#[derive(Clone, Copy, PartialEq, Eq, Debug)]
pub struct SockAddrV4 {
    pub ip: [u8; 4],
    pub port: u16,
}

/// An IPv6 socket address as plain values: the sixteen address octets in
/// network order, the port in host order, and the flow label and scope
/// identifier.
#[derive(Clone, Copy, PartialEq, Eq, Debug)]
pub struct SockAddrV6 {
    pub ip: [u8; 16],
    pub port: u16,
    pub flowinfo: u32,
    pub scope_id: u32,
}

/// A socket address of either family.
#[derive(Clone, Copy, PartialEq, Eq, Debug)]
pub enum SockAddr {
    V4(SockAddrV4),
    V6(SockAddrV6),
}

/// Codec errors. An unknown address family or a malformed byte form is
/// reported as invalid input, as the transport does for a foreign family.
#[derive(Clone, Copy, PartialEq, Eq, Debug)]
pub enum AddrError {
    InvalidInput,
}

/// The two big-endian bytes of a 16-bit value.
pub open spec fn be16(x: u16) -> Seq<u8> {
    seq![(x / 256) as u8, (x % 256) as u8]
}

/// The four big-endian bytes of a 32-bit value.
pub open spec fn be32(x: u32) -> Seq<u8> {
    seq![
        (x / 0x1000000) as u8,
        ((x / 0x10000) % 256) as u8,
        ((x / 256) % 256) as u8,
        (x % 256) as u8,
    ]
}

/// The 16-bit value whose big-endian bytes are `hi`, `lo`.
pub open spec fn u16_of_be(hi: u8, lo: u8) -> u16 {
    (hi * 256 + lo) as u16
}

/// The 32-bit value whose big-endian bytes are `b0` .. `b3`.
pub open spec fn u32_of_be(b0: u8, b1: u8, b2: u8, b3: u8) -> u32 {
    (b0 * 0x1000000 + b1 * 0x10000 + b2 * 256 + b3) as u32
}

/// Byte form of an IPv4 socket address: family tag, port in network order,
/// the four address octets, and eight zero pad bytes, mirroring the field
/// order of `sockaddr_in`.
pub open spec fn spec_encode_v4(a: SockAddrV4) -> Seq<u8> {
    be16(AF_INET) + be16(a.port) + a.ip@ + seq![0u8, 0u8, 0u8, 0u8, 0u8, 0u8, 0u8, 0u8]
}

/// Byte form of an IPv6 socket address: family tag, port in network order,
/// flow label, the sixteen address octets, and the scope identifier,
/// mirroring the field order of `sockaddr_in6`.
pub open spec fn spec_encode_v6(a: SockAddrV6) -> Seq<u8> {
    be16(AF_INET6) + be16(a.port) + be32(a.flowinfo) + a.ip@ + be32(a.scope_id)
}

/// Byte form of a socket address of either family.
pub open spec fn spec_encode(a: SockAddr) -> Seq<u8> {
    match a {
        SockAddr::V4(v) => spec_encode_v4(v),
        SockAddr::V6(v) => spec_encode_v6(v),
    }
}

/// Whether `b` is the byte form of some socket address.
pub open spec fn valid_encoding(b: Seq<u8>) -> bool {
    exists|a: SockAddr| spec_encode(a) == b
}

/// Encodes a socket address into its byte form.
pub fn socket_addr_to_bytes(a: &SockAddr) -> (r: Vec<u8>)
    ensures
        r@ == spec_encode(*a),
{
    let mut r: Vec<u8> = Vec::new();
    match a {
        SockAddr::V4(v) => {
            r.push(0u8);
            r.push(2u8);
            r.push((v.port / 256) as u8);
            r.push((v.port % 256) as u8);
            r.push(v.ip[0]);
            r.push(v.ip[1]);
            r.push(v.ip[2]);
            r.push(v.ip[3]);
            let mut i: usize = 0;
            while i < 8
                invariant
                    i <= 8,
                    r@.len() == 8 + i,
                    r@[0] == 0u8 && r@[1] == 2u8,
                    r@[2] == (v.port / 256) as u8 && r@[3] == (v.port % 256) as u8,
                    r@[4] == v.ip@[0] && r@[5] == v.ip@[1],
                    r@[6] == v.ip@[2] && r@[7] == v.ip@[3],
                    forall|j: int| 8 <= j < r@.len() ==> r@[j] == 0u8,
                decreases 8 - i,
            {
                r.push(0u8);
                i = i + 1;
            }
            proof {
                let s = spec_encode_v4(*v);
                let t = seq![
                    0u8, 2u8, (v.port / 256) as u8, (v.port % 256) as u8,
                    v.ip@[0], v.ip@[1], v.ip@[2], v.ip@[3],
                    0u8, 0u8, 0u8, 0u8, 0u8, 0u8, 0u8, 0u8,
                ];
                assert(s =~= t);
                assert(r@ =~= t);
            }
        }
        SockAddr::V6(v) => {
            r.push(0u8);
            r.push(10u8);
            r.push((v.port / 256) as u8);
            r.push((v.port % 256) as u8);
            r.push((v.flowinfo / 0x1000000) as u8);
            r.push(((v.flowinfo / 0x10000) % 256) as u8);
            r.push(((v.flowinfo / 256) % 256) as u8);
            r.push((v.flowinfo % 256) as u8);
            let mut i: usize = 0;
            while i < 16
                invariant
                    i <= 16,
                    r@.len() == 8 + i,
                    r@[0] == 0u8 && r@[1] == 10u8,
                    r@[2] == (v.port / 256) as u8 && r@[3] == (v.port % 256) as u8,
                    r@[4] == (v.flowinfo / 0x1000000) as u8,
                    r@[5] == ((v.flowinfo / 0x10000) % 256) as u8,
                    r@[6] == ((v.flowinfo / 256) % 256) as u8,
                    r@[7] == (v.flowinfo % 256) as u8,
                    forall|j: int| 8 <= j < r@.len() ==> r@[j] == v.ip@[j - 8],
                decreases 16 - i,
            {
                r.push(v.ip[i]);
                i = i + 1;
            }
            r.push((v.scope_id / 0x1000000) as u8);
            r.push(((v.scope_id / 0x10000) % 256) as u8);
            r.push(((v.scope_id / 256) % 256) as u8);
            r.push((v.scope_id % 256) as u8);
            proof {
                let s = spec_encode_v6(*v);
                let t = seq![
                    0u8, 10u8, (v.port / 256) as u8, (v.port % 256) as u8,
                    (v.flowinfo / 0x1000000) as u8,
                    ((v.flowinfo / 0x10000) % 256) as u8,
                    ((v.flowinfo / 256) % 256) as u8,
                    (v.flowinfo % 256) as u8,
                    v.ip@[0], v.ip@[1], v.ip@[2], v.ip@[3],
                    v.ip@[4], v.ip@[5], v.ip@[6], v.ip@[7],
                    v.ip@[8], v.ip@[9], v.ip@[10], v.ip@[11],
                    v.ip@[12], v.ip@[13], v.ip@[14], v.ip@[15],
                    (v.scope_id / 0x1000000) as u8,
                    ((v.scope_id / 0x10000) % 256) as u8,
                    ((v.scope_id / 256) % 256) as u8,
                    (v.scope_id % 256) as u8,
                ];
                assert(s =~= t);
                assert(r@ =~= t);
            }
        }
    }
    r
}

/// Decodes the byte form of a socket address. The result is pinned by
/// re-encoding: on success the decoded address encodes back to exactly the
/// input, and decoding succeeds exactly on valid encodings.
pub fn bytes_to_socket_addr(b: &[u8]) -> (r: Result<SockAddr, AddrError>)
    ensures
        r.is_ok() <==> valid_encoding(b@),
        r matches Ok(a) ==> spec_encode(a) == b@,
        r matches Err(e) ==> e == AddrError::InvalidInput,
{
    if b.len() == SOCKADDR_V4_LEN && b[0] == 0 && b[1] == 2 {
        let mut i: usize = 8;
        while i < 16
            invariant
                8 <= i <= 16,
                b@.len() == 16,
                forall|j: int| 8 <= j < i ==> b@[j] == 0u8,
            decreases 16 - i,
        {
            if b[i] != 0 {
                proof {
                    lemma_not_valid_bad_pad(b@, i as int);
                }
                return Err(AddrError::InvalidInput);
            }
            i = i + 1;
        }
        let port: u16 = (b[2] as u16) * 256 + (b[3] as u16);
        let a = SockAddr::V4(SockAddrV4 { ip: [b[4], b[5], b[6], b[7]], port });
        proof {
            lemma_be16_reconstruct(b@[2], b@[3]);
            assert(spec_encode(a) =~= b@);
        }
        Ok(a)
    } else if b.len() == SOCKADDR_V6_LEN && b[0] == 0 && b[1] == 10 {
        let port: u16 = (b[2] as u16) * 256 + (b[3] as u16);
        let flowinfo: u32 = (b[4] as u32) * 0x1000000 + (b[5] as u32) * 0x10000
            + (b[6] as u32) * 256 + (b[7] as u32);
        let scope_id: u32 = (b[24] as u32) * 0x1000000 + (b[25] as u32) * 0x10000
            + (b[26] as u32) * 256 + (b[27] as u32);
        let mut ip: [u8; 16] = [0u8; 16];
        let mut i: usize = 0;
        while i < 16
            invariant
                i <= 16,
                b@.len() == 28,
                forall|j: int| 0 <= j < i ==> ip@[j] == b@[j + 8],
            decreases 16 - i,
        {
            ip[i] = b[i + 8];
            i = i + 1;
        }
        let a = SockAddr::V6(SockAddrV6 { ip, port, flowinfo, scope_id });
        proof {
            lemma_be16_reconstruct(b@[2], b@[3]);
            lemma_be32_reconstruct(b@[4], b@[5], b@[6], b@[7]);
            lemma_be32_reconstruct(b@[24], b@[25], b@[26], b@[27]);
            assert(spec_encode(a) =~= b@);
        }
        Ok(a)
    } else {
        proof {
            lemma_not_valid_shape(b@);
        }
        Err(AddrError::InvalidInput)
    }
}

/// Splitting a 16-bit value into big-endian bytes and reassembling them is
/// the identity.
pub proof fn lemma_be16_reconstruct(hi: u8, lo: u8)
    ensures
        be16(u16_of_be(hi, lo)) =~= seq![hi, lo],
{
    let x = u16_of_be(hi, lo);
    assert(x == hi * 256 + lo);
    assert(x / 256 == hi && x % 256 == lo) by (nonlinear_arith)
        requires x == hi * 256 + lo && lo < 256,
    ;
}

/// Splitting a 32-bit value into big-endian bytes and reassembling them is
/// the identity.
pub proof fn lemma_be32_reconstruct(b0: u8, b1: u8, b2: u8, b3: u8)
    ensures
        be32(u32_of_be(b0, b1, b2, b3)) =~= seq![b0, b1, b2, b3],
{
    let x = u32_of_be(b0, b1, b2, b3);
    assert(x == b0 * 0x1000000 + b1 * 0x10000 + b2 * 256 + b3);
    assert(x / 0x1000000 == b0 && (x / 0x10000) % 256 == b1 && (x / 256) % 256 == b2 && x
        % 256 == b3) by (nonlinear_arith)
        requires
            x == b0 * 0x1000000 + b1 * 0x10000 + b2 * 256 + b3,
            b1 < 256 && b2 < 256 && b3 < 256,
    ;
}

proof fn lemma_not_valid_bad_pad(b: Seq<u8>, i: int)
    requires
        b.len() == 16,
        8 <= i < 16,
        b[i] != 0,
    ensures
        !valid_encoding(b),
{
    assert forall|a: SockAddr| spec_encode(a) != b by {
        if spec_encode(a) == b {
            match a {
                SockAddr::V4(v) => {
                    assert(spec_encode_v4(v)[i] == 0u8);
                }
                SockAddr::V6(v) => {
                    assert(spec_encode_v6(v).len() == 28);
                }
            }
        }
    }
}

proof fn lemma_not_valid_shape(b: Seq<u8>)
    requires
        !(b.len() == 16 && b[0] == 0 && b[1] == 2),
        !(b.len() == 28 && b[0] == 0 && b[1] == 10),
    ensures
        !valid_encoding(b),
{
    assert forall|a: SockAddr| spec_encode(a) != b by {
        if spec_encode(a) == b {
            match a {
                SockAddr::V4(v) => {
                    assert(spec_encode_v4(v).len() == 16);
                    assert(spec_encode_v4(v)[0] == 0u8 && spec_encode_v4(v)[1] == 2u8);
                }
                SockAddr::V6(v) => {
                    assert(spec_encode_v6(v).len() == 28);
                    assert(spec_encode_v6(v)[0] == 0u8 && spec_encode_v6(v)[1] == 10u8);
                }
            }
        }
    }
}

/// Encoding is injective: no two distinct socket addresses share a byte
/// form. Together with the decoder's contract this gives the round trip:
/// decoding the encoding of `a` yields exactly `a`.
pub proof fn lemma_encode_injective(a1: SockAddr, a2: SockAddr)
    requires
        spec_encode(a1) == spec_encode(a2),
    ensures
        a1 == a2,
{
    let b = spec_encode(a1);
    match (a1, a2) {
        (SockAddr::V4(v1), SockAddr::V4(v2)) => {
            assert(b[2] == (v1.port / 256) as u8 && b[3] == (v1.port % 256) as u8);
            assert(v1.port / 256 == v2.port / 256 && v1.port % 256 == v2.port % 256);
            assert(v1.port == v2.port) by (nonlinear_arith)
                requires
                    v1.port / 256 == v2.port / 256,
                    v1.port % 256 == v2.port % 256,
            ;
            assert forall|j: int| 0 <= j < 4 implies v1.ip@[j] == v2.ip@[j] by {
                assert(spec_encode_v4(v1)[j + 4] == v1.ip@[j]);
                assert(spec_encode_v4(v2)[j + 4] == v2.ip@[j]);
            }
            assert(v1.ip@ =~= v2.ip@);
            assert(v1.ip == v2.ip);
        }
        (SockAddr::V6(v1), SockAddr::V6(v2)) => {
            lemma_u16_split_injective(v1.port, v2.port, b[2], b[3]);
            lemma_u32_split_injective(v1.flowinfo, v2.flowinfo, b[4], b[5], b[6], b[7]);
            lemma_u32_split_injective(v1.scope_id, v2.scope_id, b[24], b[25], b[26], b[27]);
            assert forall|j: int| 0 <= j < 16 implies v1.ip@[j] == v2.ip@[j] by {
                assert(spec_encode_v6(v1)[j + 8] == v1.ip@[j]);
                assert(spec_encode_v6(v2)[j + 8] == v2.ip@[j]);
            }
            assert(v1.ip@ =~= v2.ip@);
            assert(v1.ip == v2.ip);
        }
        (SockAddr::V4(v1), SockAddr::V6(v2)) => {
            assert(spec_encode_v4(v1).len() == 16);
            assert(spec_encode_v6(v2).len() == 28);
        }
        (SockAddr::V6(v1), SockAddr::V4(v2)) => {
            assert(spec_encode_v6(v1).len() == 28);
            assert(spec_encode_v4(v2).len() == 16);
        }
    }
}

proof fn lemma_u16_split_injective(x1: u16, x2: u16, hi: u8, lo: u8)
    requires
        (x1 / 256) as u8 == hi && (x1 % 256) as u8 == lo,
        (x2 / 256) as u8 == hi && (x2 % 256) as u8 == lo,
    ensures
        x1 == x2,
{
    assert(x1 == x2) by (nonlinear_arith)
        requires
            x1 / 256 == x2 / 256,
            x1 % 256 == x2 % 256,
    ;
}

proof fn lemma_u32_split_injective(x1: u32, x2: u32, b0: u8, b1: u8, b2: u8, b3: u8)
    requires
        (x1 / 0x1000000) as u8 == b0 && ((x1 / 0x10000) % 256) as u8 == b1,
        ((x1 / 256) % 256) as u8 == b2 && (x1 % 256) as u8 == b3,
        (x2 / 0x1000000) as u8 == b0 && ((x2 / 0x10000) % 256) as u8 == b1,
        ((x2 / 256) % 256) as u8 == b2 && (x2 % 256) as u8 == b3,
    ensures
        x1 == x2,
{
    assert(x1 == x2) by (nonlinear_arith)
        requires
            x1 / 0x1000000 == x2 / 0x1000000,
            (x1 / 0x10000) % 256 == (x2 / 0x10000) % 256,
            (x1 / 256) % 256 == (x2 / 256) % 256,
            x1 % 256 == x2 % 256,
    ;
}

/// The encoding of any socket address is a valid encoding, and its length
/// is that of the matching POSIX structure.
pub proof fn lemma_encode_valid(a: SockAddr)
    ensures
        valid_encoding(spec_encode(a)),
        a is V4 ==> spec_encode(a).len() == SOCKADDR_V4_LEN,
        a is V6 ==> spec_encode(a).len() == SOCKADDR_V6_LEN,
{
    assert(spec_encode(a) == spec_encode(a));
}

} // verus!
