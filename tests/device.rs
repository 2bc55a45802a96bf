use udptun::device::{
    af_prefix, next_tun_seed, packet_bytes_written, strip_utun_prefix, tunnel_address, utun_frame,
    CtlInfo, SocketAddrCtl, UTUN_CONTROL_NAME,
};

#[test]
fn utun_prefix_follows_ip_version() {
    assert_eq!(af_prefix(&[0x45, 0]), vec![0, 0, 0, 2]);
    assert_eq!(af_prefix(&[0x60, 0]), vec![0, 0, 0, 10]);
    assert_eq!(af_prefix(&[]), vec![0, 0, 0, 2]);
    assert_eq!(utun_frame(&[0x60, 1, 2]), vec![0, 0, 0, 10, 0x60, 1, 2]);
}

#[test]
fn utun_prefix_is_stripped() {
    assert_eq!(strip_utun_prefix(&[0, 0, 0, 2, 0x45, 9]), vec![0x45, 9]);
    assert_eq!(strip_utun_prefix(&[0, 0, 0, 2]), Vec::<u8>::new());
    assert_eq!(packet_bytes_written(104), 100);
    assert_eq!(packet_bytes_written(3), 0);
}

#[test]
fn tun_seeds_run_from_zero_to_254() {
    assert_eq!(next_tun_seed(0), Some(1));
    assert_eq!(next_tun_seed(253), Some(254));
    assert_eq!(next_tun_seed(254), None);
}

#[test]
fn tunnel_addresses() {
    assert_eq!(tunnel_address(253), [10, 10, 10, 253]);
}

#[test]
fn kernel_control_structs() {
    let info = CtlInfo::new(UTUN_CONTROL_NAME.as_bytes());
    assert_eq!(info.ctl_id, 0);
    assert_eq!(&info.ctl_name[..UTUN_CONTROL_NAME.len()], UTUN_CONTROL_NAME.as_bytes());
    assert!(info.ctl_name[UTUN_CONTROL_NAME.len()..].iter().all(|&b| b == 0));
    let addr = SocketAddrCtl::new(7, 3);
    assert_eq!((addr.sc_len, addr.sc_family, addr.ss_sys_addr, addr.sc_id, addr.sc_unit), (32, 32, 2, 7, 4));
}
