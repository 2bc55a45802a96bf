//! IPv4 header checksums.
//!
//! Headers are handled as their in-memory image on a little-endian host: each
//! field is laid out in declaration order, least significant byte first, with no
//! padding. A field that holds a value in network byte order therefore reads
//! byte-swapped, exactly as it would through a pointer to the packed struct.
use vstd::prelude::*;

verus! {

/// An IPv4 header (without options) as laid out in memory.
pub struct IpV4Header {
    pub version_ihl: u8,
    pub type_of_service: u8,
    pub total_length: u16,
    pub identification: u16,
    pub flags_fragment_offset: u16,
    pub time_to_live: u8,
    pub protocol: u8,
    pub header_checksum: u8,
    pub source_address: u32,
    pub destination_address: u32,
}

pub struct UdpHeader {
    pub source_port: u16,
    pub destination_port: u16,
    pub total_length: u16,
    pub checksum: u16,
}

pub struct TcpHeader {
    pub source_port: u16,
    pub destination_port: u16,
    pub seq_num: u32,
    pub ack_sum: u32,
    pub data_offset: u8,
    pub flags: u8,
    pub receive_window: u16,
    pub checksum: u16,
    pub urg_ptr: u16,
}

pub struct IcmpHeader {
    pub icmp_type: u8,
    pub icmp_code: u8,
    pub icmp_checksum: u16,
    pub icmp_ident: u16,
    pub icmp_seq_num: u16,
}

/// Size of the in-memory image of an `IpV4Header`.
pub const IPV4_HEADER_LEN: u16 = 19;

/// Little-endian bytes of a 16-bit value.
pub open spec fn le16(x: u16) -> Seq<u8> {
    seq![(x % 256) as u8, (x / 256) as u8]
}

/// Little-endian bytes of a 32-bit value.
pub open spec fn le32(x: u32) -> Seq<u8> {
    seq![(x % 256) as u8, (x / 256 % 256) as u8, (x / 65536 % 256) as u8, (x / 16777216) as u8]
}

/// The value of a 16-bit field read in the other byte order.
pub open spec fn swap16(x: u16) -> int {
    (x % 256) * 256 + x / 256
}

pub open spec fn ipv4_header_bytes(h: &IpV4Header) -> Seq<u8> {
    seq![h.version_ihl, h.type_of_service] + le16(h.total_length) + le16(h.identification)
        + le16(h.flags_fragment_offset) + seq![h.time_to_live, h.protocol, h.header_checksum]
        + le32(h.source_address) + le32(h.destination_address)
}

pub open spec fn udp_header_bytes(h: &UdpHeader) -> Seq<u8> {
    le16(h.source_port) + le16(h.destination_port) + le16(h.total_length) + le16(h.checksum)
}

pub open spec fn tcp_header_bytes(h: &TcpHeader) -> Seq<u8> {
    le16(h.source_port) + le16(h.destination_port) + le32(h.seq_num) + le32(h.ack_sum) + seq![
        h.data_offset,
        h.flags,
    ] + le16(h.receive_window) + le16(h.checksum) + le16(h.urg_ptr)
}

pub open spec fn icmp_header_bytes(h: &IcmpHeader) -> Seq<u8> {
    seq![h.icmp_type, h.icmp_code] + le16(h.icmp_checksum) + le16(h.icmp_ident) + le16(
        h.icmp_seq_num,
    )
}

/// Sum of the little-endian 16-bit words among the first `i` bytes (`i` even).
pub open spec fn word_sum(b: Seq<u8>, i: int) -> int
    decreases i,
{
    if i <= 1 {
        0
    } else {
        word_sum(b, i - 2) + b[i - 2] + 256 * b[i - 1]
    }
}

/// Sum of all 16-bit words of `b`; a trailing odd byte counts as a word on its own.
pub open spec fn raw_sum(b: Seq<u8>) -> int {
    if b.len() % 2 == 0 {
        word_sum(b, b.len() as int)
    } else {
        word_sum(b, b.len() - 1) + b[b.len() - 1]
    }
}

/// Complement of a 16-bit value, as `!x` computes it.
pub open spec fn complement16(x: int) -> int {
    0xffff - x % 65536
}

pub open spec fn ipv4_checksum_spec(h: &IpV4Header) -> int {
    let c = raw_sum(ipv4_header_bytes(h)) % 65536;
    if c == 0xffff {
        c
    } else {
        complement16(c)
    }
}

/// Bytes of the pseudo header that the UDP and TCP checksums cover.
pub open spec fn pseudo_header_bytes(ip: &IpV4Header) -> Seq<u8> {
    let len = swap16(ip.total_length) - IPV4_HEADER_LEN;
    le32(ip.source_address) + le32(ip.destination_address) + seq![0u8, ip.protocol] + seq![
        (len / 256) as u8,
        (len % 256) as u8,
    ]
}

pub open spec fn udp_tcp_checksum_spec(ip: &IpV4Header, l4: Seq<u8>) -> int {
    let l4_len = swap16(ip.total_length) - IPV4_HEADER_LEN;
    let sum = raw_sum(l4.subrange(0, l4_len)) % 65536 + raw_sum(pseudo_header_bytes(ip)) % 65536;
    let c = complement16(sum / 65536 + sum % 65536);
    if c == 0 {
        0xffff
    } else {
        c
    }
}

fn push_le16(v: &mut Vec<u8>, x: u16)
    ensures
        final(v)@ == old(v)@ + le16(x),
{
    v.push((x % 256) as u8);
    v.push((x / 256) as u8);
}

fn push_le32(v: &mut Vec<u8>, x: u32)
    ensures
        final(v)@ == old(v)@ + le32(x),
{
    v.push((x % 256) as u8);
    v.push((x / 256 % 256) as u8);
    v.push((x / 65536 % 256) as u8);
    v.push((x / 16777216) as u8);
}

impl IpV4Header {
    /// The header's in-memory image.
    pub fn to_bytes(&self) -> (r: Vec<u8>)
        ensures
            r@ == ipv4_header_bytes(self),
    {
        let mut v: Vec<u8> = Vec::new();
        v.push(self.version_ihl);
        v.push(self.type_of_service);
        push_le16(&mut v, self.total_length);
        push_le16(&mut v, self.identification);
        push_le16(&mut v, self.flags_fragment_offset);
        v.push(self.time_to_live);
        v.push(self.protocol);
        v.push(self.header_checksum);
        push_le32(&mut v, self.source_address);
        push_le32(&mut v, self.destination_address);
        assert(v@ =~= ipv4_header_bytes(self));
        v
    }
}

impl UdpHeader {
    /// The header's in-memory image.
    pub fn to_bytes(&self) -> (r: Vec<u8>)
        ensures
            r@ == udp_header_bytes(self),
    {
        let mut v: Vec<u8> = Vec::new();
        push_le16(&mut v, self.source_port);
        push_le16(&mut v, self.destination_port);
        push_le16(&mut v, self.total_length);
        push_le16(&mut v, self.checksum);
        assert(v@ =~= udp_header_bytes(self));
        v
    }
}

impl TcpHeader {
    /// The header's in-memory image.
    pub fn to_bytes(&self) -> (r: Vec<u8>)
        ensures
            r@ == tcp_header_bytes(self),
    {
        let mut v: Vec<u8> = Vec::new();
        push_le16(&mut v, self.source_port);
        push_le16(&mut v, self.destination_port);
        push_le32(&mut v, self.seq_num);
        push_le32(&mut v, self.ack_sum);
        v.push(self.data_offset);
        v.push(self.flags);
        push_le16(&mut v, self.receive_window);
        push_le16(&mut v, self.checksum);
        push_le16(&mut v, self.urg_ptr);
        assert(v@ =~= tcp_header_bytes(self));
        v
    }
}

impl IcmpHeader {
    /// The header's in-memory image.
    pub fn to_bytes(&self) -> (r: Vec<u8>)
        ensures
            r@ == icmp_header_bytes(self),
    {
        let mut v: Vec<u8> = Vec::new();
        v.push(self.icmp_type);
        v.push(self.icmp_code);
        push_le16(&mut v, self.icmp_checksum);
        push_le16(&mut v, self.icmp_ident);
        push_le16(&mut v, self.icmp_seq_num);
        assert(v@ =~= icmp_header_bytes(self));
        v
    }
}

/// Sum of the 16-bit little-endian words of `buf`, wrapping at 2^16; a trailing
/// odd byte is added as a word of its own.
pub fn raw_checksum(buf: &[u8]) -> (r: u16)
    ensures
        r == raw_sum(buf@) % 65536,
{
    let len = buf.len();
    let mut sum: u16 = 0;
    let mut i: usize = 0;
    while i + 1 < len
        invariant
            len == buf@.len(),
            i % 2 == 0,
            i <= len,
            sum == word_sum(buf@, i as int) % 65536,
        decreases len - i,
    {
        let w: u16 = buf[i] as u16 + 256 * (buf[i + 1] as u16);
        sum = ((sum as u32 + w as u32) % 65536) as u16;
        i = i + 2;
    }
    if i < len {
        sum = ((sum as u32 + buf[i] as u32) % 65536) as u16;
    }
    sum
}

/// Checksum of an IPv4 header: the complement of its word sum, except that a
/// sum of `0xffff` is returned as it is.
pub fn ipv4_checksum(buf: &IpV4Header) -> (r: u16)
    ensures
        r == ipv4_checksum_spec(buf),
{
    let bytes = buf.to_bytes();
    let checksum = raw_checksum(bytes.as_slice());
    if checksum == 0xffff {
        checksum
    } else {
        0xffff - checksum
    }
}

/// Word sum of the pseudo header built from `ip`: its addresses, protocol and
/// the length of what follows the header.
pub fn ipv4_p_hdr_checksum(ip: &IpV4Header) -> (r: u16)
    requires
        swap16(ip.total_length) >= IPV4_HEADER_LEN,
    ensures
        r == raw_sum(pseudo_header_bytes(ip)) % 65536,
{
    let total: u16 = (ip.total_length % 256) * 256 + ip.total_length / 256;
    let len: u16 = total - IPV4_HEADER_LEN;
    let mut v: Vec<u8> = Vec::new();
    push_le32(&mut v, ip.source_address);
    push_le32(&mut v, ip.destination_address);
    v.push(0u8);
    v.push(ip.protocol);
    v.push((len / 256) as u8);
    v.push((len % 256) as u8);
    assert(v@ =~= pseudo_header_bytes(ip));
    raw_checksum(v.as_slice())
}

/// UDP or TCP checksum of the segment `l4` that follows the header `ip`: the
/// complement of the folded sum of the segment's words and the pseudo header's,
/// with `0` sent as `0xffff`.
pub fn udp_tcp_checksum(ip: &IpV4Header, l4: &[u8]) -> (r: u16)
    requires
        swap16(ip.total_length) >= IPV4_HEADER_LEN,
        l4@.len() >= swap16(ip.total_length) - IPV4_HEADER_LEN,
    ensures
        r == udp_tcp_checksum_spec(ip, l4@),
{
    let total: u16 = (ip.total_length % 256) * 256 + ip.total_length / 256;
    let l4_len: usize = (total - IPV4_HEADER_LEN) as usize;
    let segment = slice_prefix(l4, l4_len);
    let mut sum: u32 = raw_checksum(segment.as_slice()) as u32;
    sum = sum + ipv4_p_hdr_checksum(ip) as u32;
    let folded: u32 = sum / 65536 + sum % 65536;
    let c: u32 = 0xffff - folded % 65536;
    if c == 0 {
        0xffff
    } else {
        c as u16
    }
}

fn slice_prefix(b: &[u8], n: usize) -> (r: Vec<u8>)
    requires
        n <= b@.len(),
    ensures
        r@ == b@.subrange(0, n as int),
{
    let mut v: Vec<u8> = Vec::new();
    let mut i: usize = 0;
    while i < n
        invariant
            i <= n,
            n <= b@.len(),
            v@ == b@.subrange(0, i as int),
        decreases n - i,
    {
        v.push(b[i]);
        i = i + 1;
    }
    v
}

} // verus!
