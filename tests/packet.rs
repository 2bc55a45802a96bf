use udptun::{IpV4Header, UdpHeader, ipv4_checksum, ipv4_p_hdr_checksum, raw_checksum, udp_tcp_checksum};
use udptun::TcpHeader;
use udptun::IcmpHeader;

fn zero_ip() -> IpV4Header {
    IpV4Header {
        version_ihl: 0,
        type_of_service: 0,
        total_length: 0,
        identification: 0,
        flags_fragment_offset: 0,
        time_to_live: 0,
        protocol: 0,
        header_checksum: 0,
        source_address: 0,
        destination_address: 0,
    }
}

#[test]
fn raw_check_sum_test() {
    assert_eq!(raw_checksum(&[]), 0);
    assert_eq!(raw_checksum(&[1u8]), 1);
    assert_eq!(raw_checksum(&[1u8, 2u8]), 2 * 256 + 1);
    assert_eq!(raw_checksum(&[1u8, 2u8, 3u8]), 2 * 256 + 1 + 3);
}

#[test]
fn ipv4_check_sum_tests() {
    let ip = zero_ip();
    assert_eq!(ipv4_checksum(&ip), !0);
}

#[test]
fn udp_tcp_check_sum_test() {
    let mut ip = zero_ip();
    ip.total_length = ((19 + 8) as u16).to_be();
    let udp = UdpHeader {
        source_port: 0,
        destination_port: 0,
        total_length: (8 as u16).to_be(),
        checksum: 0,
    };
    assert_eq!(udp_tcp_checksum(&ip, &udp.to_bytes()), 0xefff);
}

#[test]
fn raw_checksum_wraps_at_sixteen_bits() {
    assert_eq!(raw_checksum(&[0xff, 0xff, 0x02, 0x00]), 1);
}

#[test]
fn ipv4_header_image_is_nineteen_bytes() {
    let mut ip = zero_ip();
    ip.version_ihl = 0x45;
    ip.total_length = 0x1234;
    ip.destination_address = 0x0a0a0afd;
    let b = ip.to_bytes();
    assert_eq!(b.len(), 19);
    assert_eq!(&b[2..4], &[0x34, 0x12]);
    assert_eq!(&b[15..19], &[0xfd, 0x0a, 0x0a, 0x0a]);
}

#[test]
fn ipv4_checksum_complements_the_sum() {
    let mut ip = zero_ip();
    ip.version_ihl = 0x45;
    // word sum: 0x0045
    assert_eq!(ipv4_checksum(&ip), 0xffff - 0x45);
}

#[test]
fn ipv4_checksum_keeps_all_ones_sum() {
    let mut ip = zero_ip();
    ip.version_ihl = 0xff;
    ip.type_of_service = 0xff;
    assert_eq!(ipv4_checksum(&ip), 0xffff);
}

#[test]
fn pseudo_header_sum() {
    let mut ip = zero_ip();
    ip.total_length = ((19 + 8) as u16).to_be();
    ip.protocol = 17;
    ip.source_address = 1;
    // words: 0x0001 (source), 0x1100 (zero, protocol), 0x0800 (length 8, big-endian)
    assert_eq!(ipv4_p_hdr_checksum(&ip), 0x0001 + 0x1100 + 0x0800);
}

#[test]
fn udp_tcp_checksum_folds_the_carry() {
    let mut ip = zero_ip();
    ip.total_length = ((19 + 4) as u16).to_be();
    // segment words 0xffff and 0x0002, pseudo header word 0x0400
    let seg = [0xffu8, 0xff, 0x02, 0x00, 0x99];
    let sum: u32 = (((0xffffu32 + 2) % 65536) + 0x0400) as u32;
    let folded = (sum >> 16) + (sum & 0xffff);
    assert_eq!(udp_tcp_checksum(&ip, &seg) as u32, !folded & 0xffff);
}

#[test]
fn header_images() {
    let tcp = TcpHeader {
        source_port: 1,
        destination_port: 2,
        seq_num: 3,
        ack_sum: 4,
        data_offset: 5,
        flags: 6,
        receive_window: 7,
        checksum: 8,
        urg_ptr: 9,
    };
    assert_eq!(tcp.to_bytes(), vec![1, 0, 2, 0, 3, 0, 0, 0, 4, 0, 0, 0, 5, 6, 7, 0, 8, 0, 9, 0]);
    let icmp = IcmpHeader { icmp_type: 8, icmp_code: 0, icmp_checksum: 0x0102, icmp_ident: 3, icmp_seq_num: 4 };
    assert_eq!(icmp.to_bytes(), vec![8, 0, 2, 1, 3, 0, 4, 0]);
}
