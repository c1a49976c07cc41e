//! The packet-information header that some TUN devices put in front of every
//! packet, and the IP version probe that chooses it.

use vstd::prelude::*;

verus! {

/// Length in bytes of the packet-information header.
pub const PACKET_INFORMATION_LENGTH: usize = 4;

/// Why a packet could not be given a packet-information header.
#[derive(Debug, Clone, Copy, PartialEq, Eq, Structural)]
pub enum PacketError {
    /// The packet holds no byte, so it has no IP version.
    ZeroLength,
    /// The first nibble of the packet names neither IPv4 nor IPv6.
    IpVersion(u8),
}

/// The decimal digits of `n`.
pub open spec fn decimal(n: nat) -> Seq<char>
    decreases n,
{
    if n < 10 {
        seq![(48 + n) as char]
    } else {
        decimal(n / 10).push((48 + n % 10) as char)
    }
}

/// The text an error of framing is reported with.
pub open spec fn spec_message(e: PacketError) -> Seq<char> {
    match e {
        PacketError::ZeroLength => "Zero-length data"@,
        PacketError::IpVersion(p) => "IP version "@ + decimal(p as nat),
    }
}

/// `format!("IP version {}", p)`: std writes a `u8` in decimal digits.
#[verifier::external_body]
fn ip_version_message(p: u8) -> (r: String)
    ensures
        r@ == "IP version "@ + decimal(p as nat),
{
    format!("IP version {}", p)
}

impl PacketError {
    /// The text the error is reported with.
    pub fn message(&self) -> (r: String)
        ensures
            r@ == spec_message(*self),
    {
        match self {
            PacketError::ZeroLength => "Zero-length data".to_string(),
            PacketError::IpVersion(p) => ip_version_message(*p),
        }
    }
}

/// The IP version field of a packet whose first byte is `first`.
pub open spec fn ip_version(first: u8) -> u8 {
    (first / 16) as u8
}

/// What probing a packet's IP version gives: `Ok(true)` for IPv6,
/// `Ok(false)` for IPv4, and an error otherwise.
pub open spec fn spec_is_ipv6(packet: Seq<u8>) -> Result<bool, PacketError> {
    if packet.len() == 0 {
        Err(PacketError::ZeroLength)
    } else if ip_version(packet[0]) == 4 {
        Ok(false)
    } else if ip_version(packet[0]) == 6 {
        Ok(true)
    } else {
        Err(PacketError::IpVersion(ip_version(packet[0])))
    }
}

/// Infer the protocol based on the first nibble in the packet buffer.
pub fn is_ipv6(buf: &[u8]) -> (r: Result<bool, PacketError>)
    ensures
        r == spec_is_ipv6(buf@),
{
    if buf.len() == 0 {
        return Err(PacketError::ZeroLength);
    }
    let first = buf[0];
    let version = first >> 4;
    assert(first >> 4 == first / 16) by (bit_vector);
    match version {
        4 => Ok(false),
        6 => Ok(true),
        p => Err(PacketError::IpVersion(p)),
    }
}


/// Big-endian bytes of a 32-bit value.
pub open spec fn be_bytes(v: u32) -> Seq<u8> {
    seq![
        (v / 0x100_0000) as u8,
        ((v / 0x1_0000) % 0x100) as u8,
        ((v / 0x100) % 0x100) as u8,
        (v % 0x100) as u8,
    ]
}

/// The protocol numbers a platform's packet-information header uses for
/// IPv4 and IPv6: EtherTypes on Linux and Android (`0x0800`, `0x86DD`),
/// address families on macOS and iOS (2, 30).
#[derive(Debug, Clone, Copy, PartialEq, Eq, Structural)]
pub struct ProtocolNumbers {
    pub ipv4: u32,
    pub ipv6: u32,
}

/// The packet-information header of a packet of the given IP version.
pub open spec fn spec_packet_information(ipv6: bool, protocols: ProtocolNumbers) -> Seq<u8> {
    if ipv6 {
        be_bytes(protocols.ipv6)
    } else {
        be_bytes(protocols.ipv4)
    }
}

/// The four big-endian bytes of `v`.
fn to_be_bytes(v: u32) -> (r: [u8; 4])
    ensures
        r@ == be_bytes(v),
{
    let r = [
        (v / 0x100_0000) as u8,
        ((v / 0x1_0000) % 0x100) as u8,
        ((v / 0x100) % 0x100) as u8,
        (v % 0x100) as u8,
    ];
    assert(r@ =~= be_bytes(v));
    r
}

/// The packet-information header for a packet of the given IP version: the
/// platform's number for the protocol as a big-endian 32-bit number.
pub fn packet_information(ipv6: bool, protocols: ProtocolNumbers) -> (r: [u8; PACKET_INFORMATION_LENGTH])
    ensures
        r@ == spec_packet_information(ipv6, protocols),
{
    if ipv6 {
        to_be_bytes(protocols.ipv6)
    } else {
        to_be_bytes(protocols.ipv4)
    }
}

/// Different numbers have different big-endian bytes.
pub proof fn lemma_be_bytes_injective(a: u32, b: u32)
    requires
        be_bytes(a) == be_bytes(b),
    ensures
        a == b,
{
    assert(be_bytes(a)[0] == be_bytes(b)[0]);
    assert(be_bytes(a)[1] == be_bytes(b)[1]);
    assert(be_bytes(a)[2] == be_bytes(b)[2]);
    assert(be_bytes(a)[3] == be_bytes(b)[3]);
    assert(a / 0x100_0000 == b / 0x100_0000);
    assert((a / 0x1_0000) % 0x100 == (b / 0x1_0000) % 0x100);
    assert((a / 0x100) % 0x100 == (b / 0x100) % 0x100);
    assert(a % 0x100 == b % 0x100);
    assert(a == b) by (bit_vector)
        requires
            a / 0x100_0000 == b / 0x100_0000,
            (a / 0x1_0000) % 0x100 == (b / 0x1_0000) % 0x100,
            (a / 0x100) % 0x100 == (b / 0x100) % 0x100,
            a % 0x100 == b % 0x100,
    ;
}

/// The header tells IPv4 from IPv6 whenever the platform numbers the two
/// protocols differently, and it is always `PACKET_INFORMATION_LENGTH`
/// bytes long.
pub proof fn lemma_headers_tell_versions_apart(protocols: ProtocolNumbers)
    requires
        protocols.ipv4 != protocols.ipv6,
    ensures
        spec_packet_information(true, protocols) != spec_packet_information(false, protocols),
        spec_packet_information(true, protocols).len() == PACKET_INFORMATION_LENGTH,
        spec_packet_information(false, protocols).len() == PACKET_INFORMATION_LENGTH,
{
    if spec_packet_information(true, protocols) == spec_packet_information(false, protocols) {
        lemma_be_bytes_injective(protocols.ipv6, protocols.ipv4);
    }
}

/// The probe reads the version nibble, the high four bits of the first
/// byte, and nothing else: an empty packet has no version, 4 is IPv4, 6 is
/// IPv6, and any other nibble is refused with that nibble.
pub proof fn lemma_is_ipv6_reads_version_nibble(packet: Seq<u8>)
    ensures
        packet.len() == 0 ==> spec_is_ipv6(packet) == Err::<bool, PacketError>(
            PacketError::ZeroLength,
        ),
        packet.len() > 0 ==> (spec_is_ipv6(packet) == Ok::<bool, PacketError>(false) <==> packet[0]
            / 16 == 4),
        packet.len() > 0 ==> (spec_is_ipv6(packet) == Ok::<bool, PacketError>(true) <==> packet[0]
            / 16 == 6),
        packet.len() > 0 && packet[0] / 16 != 4 && packet[0] / 16 != 6 ==> spec_is_ipv6(packet)
            == Err::<bool, PacketError>(PacketError::IpVersion((packet[0] / 16) as u8)),
{
}

/// Two packets whose first bytes have the same high nibble are probed
/// alike, whatever else they hold.
pub proof fn lemma_is_ipv6_depends_on_nibble_alone(a: Seq<u8>, b: Seq<u8>)
    requires
        a.len() > 0,
        b.len() > 0,
        a[0] / 16 == b[0] / 16,
    ensures
        spec_is_ipv6(a) == spec_is_ipv6(b),
{
}

} // verus!
