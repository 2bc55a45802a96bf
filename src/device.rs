//! Framing and configuration rules of the TUN device. Opening the device and
//! moving bytes through it is done outside the library.
use vstd::prelude::*;

verus! {

/// MTU of the tunnel interface.
pub const MTU: u16 = 1380;

/// Size of the buffers that frames are read into.
pub const FRAME_BUF_LEN: usize = 1600;

/// Length of the address-family tag that the BSD-style utun device puts before
/// every frame.
pub const AF_PREFIX_LEN: usize = 4;

/// Address-family tag of an IPv4 frame.
pub const AF_INET: u8 = 2;

/// Address-family tag of an IPv6 frame.
pub const AF_INET6: u8 = 10;

/// The first device number to try when creating a TUN device.
pub const FIRST_TUN_SEED: u8 = 0;

/// The device number at which the search for a free TUN device gives up.
pub const LAST_TUN_SEED: u8 = 255;

/// The tunnel subnet's address of the server.
pub const GATEWAY_ID: u8 = 1;

/// The IP version that the first byte of a packet announces.
pub open spec fn ip_version(b: u8) -> u8 {
    b / 16
}

/// The 4-byte big-endian address-family tag for a packet.
pub open spec fn af_prefix_spec(packet: Seq<u8>) -> Seq<u8> {
    if packet.len() > 0 && ip_version(packet[0]) == 6 {
        seq![0u8, 0u8, 0u8, AF_INET6]
    } else {
        seq![0u8, 0u8, 0u8, AF_INET]
    }
}

/// The address-family tag that the utun device needs before `packet`: IPv6
/// when the version nibble of its first byte is 6, IPv4 otherwise.
pub fn af_prefix(packet: &[u8]) -> (r: Vec<u8>)
    ensures
        r@ == af_prefix_spec(packet@),
{
    let family = if packet.len() > 0 && packet[0] / 16 == 6 {
        AF_INET6
    } else {
        AF_INET
    };
    let r: Vec<u8> = vec![0u8, 0u8, 0u8, family];
    proof {
        assert(r@ =~= af_prefix_spec(packet@));
    }
    r
}

/// The bytes to write to a utun device for `packet`: the tag, then the packet.
pub fn utun_frame(packet: &[u8]) -> (r: Vec<u8>)
    ensures
        r@ == af_prefix_spec(packet@) + packet@,
{
    let mut r = af_prefix(packet);
    let ghost start = r@;
    let mut i: usize = 0;
    while i < packet.len()
        invariant
            i <= packet@.len(),
            r@ == start + packet@.subrange(0, i as int),
        decreases packet@.len() - i,
    {
        r.push(packet[i]);
        i = i + 1;
        assert(r@ =~= start + packet@.subrange(0, i as int));
    }
    assert(packet@.subrange(0, i as int) =~= packet@);
    r
}

/// The packet in a frame read from a utun device: what follows the tag, or
/// nothing when the frame holds no more than a tag.
pub fn strip_utun_prefix(raw: &[u8]) -> (r: Vec<u8>)
    ensures
        raw@.len() <= AF_PREFIX_LEN ==> r@ == Seq::<u8>::empty(),
        raw@.len() > AF_PREFIX_LEN ==> r@ == raw@.subrange(AF_PREFIX_LEN as int, raw@.len() as int),
{
    let mut r: Vec<u8> = Vec::new();
    if raw.len() <= AF_PREFIX_LEN {
        return r;
    }
    let mut i: usize = AF_PREFIX_LEN;
    while i < raw.len()
        invariant
            AF_PREFIX_LEN <= i <= raw@.len(),
            r@ == raw@.subrange(AF_PREFIX_LEN as int, i as int),
        decreases raw@.len() - i,
    {
        r.push(raw[i]);
        i = i + 1;
        assert(r@ =~= raw@.subrange(AF_PREFIX_LEN as int, i as int));
    }
    r
}

/// The packet bytes that a write of `written` bytes to a utun device carried:
/// the tag does not count.
pub fn packet_bytes_written(written: usize) -> (r: usize)
    ensures
        r == (if written > AF_PREFIX_LEN { written - AF_PREFIX_LEN } else { 0 }),
{
    if written > AF_PREFIX_LEN {
        written - AF_PREFIX_LEN
    } else {
        0
    }
}

/// The device number to try after `seed` failed, or `None` when every number
/// below `LAST_TUN_SEED` has been tried.
pub fn next_tun_seed(seed: u8) -> (r: Option<u8>)
    ensures
        seed + 1 < LAST_TUN_SEED ==> r == Some((seed + 1) as u8),
        seed + 1 >= LAST_TUN_SEED ==> r is None,
{
    if seed < LAST_TUN_SEED - 1 {
        Some(seed + 1)
    } else {
        None
    }
}

/// The address of the endpoint with id `id` on the tunnel subnet `10.10.10.0/24`.
pub fn tunnel_address(id: u8) -> (r: [u8; 4])
    ensures
        r@ == seq![10u8, 10u8, 10u8, id],
{
    let r = [10u8, 10u8, 10u8, id];
    proof {
        assert(r@ =~= seq![10u8, 10u8, 10u8, id]);
    }
    r
}

/// Length of the name field of a kernel-control info request.
pub const CTL_NAME_LEN: usize = 96;

/// Name of the kernel control that provides utun devices.
pub const UTUN_CONTROL_NAME: &'static str = "com.apple.net.utun_control";

/// Size of a kernel-control socket address.
pub const SOCKADDR_CTL_LEN: u8 = 32;

/// Address family of system sockets.
pub const AF_SYSTEM: u8 = 32;

/// System address of kernel controls.
pub const AF_SYS_CONTROL: u16 = 2;

/// A kernel-control info request: the control's name, and the id that the
/// kernel fills in.
pub struct CtlInfo {
    pub ctl_id: u32,
    pub ctl_name: [u8; 96],
}

/// A kernel-control socket address.
pub struct SocketAddrCtl {
    pub sc_len: u8,
    pub sc_family: u8,
    pub ss_sys_addr: u16,
    pub sc_id: u32,
    pub sc_unit: u32,
    pub sc_reserved: [u32; 5],
}

impl CtlInfo {
    /// A request for the control named `name`: the name, then zero bytes.
    pub fn new(name: &[u8]) -> (r: CtlInfo)
        requires
            name@.len() <= CTL_NAME_LEN,
        ensures
            r.ctl_id == 0,
            r.ctl_name@.subrange(0, name@.len() as int) == name@,
            forall|i: int| name@.len() <= i < CTL_NAME_LEN ==> r.ctl_name@[i] == 0,
    {
        let mut buf = [0u8; 96];
        let mut i: usize = 0;
        while i < name.len()
            invariant
                i <= name@.len() <= CTL_NAME_LEN,
                buf@.len() == CTL_NAME_LEN,
                forall|j: int| 0 <= j < i ==> buf@[j] == name@[j],
                forall|j: int| name@.len() <= j < CTL_NAME_LEN ==> buf@[j] == 0,
            decreases name@.len() - i,
        {
            buf[i] = name[i];
            i = i + 1;
        }
        assert(buf@.subrange(0, name@.len() as int) =~= name@);
        CtlInfo { ctl_id: 0, ctl_name: buf }
    }
}

impl SocketAddrCtl {
    /// The address of utun unit `seed + 1` of the control with id `ctl_id`.
    pub fn new(ctl_id: u32, seed: u8) -> (r: SocketAddrCtl)
        ensures
            r.sc_len == SOCKADDR_CTL_LEN,
            r.sc_family == AF_SYSTEM,
            r.ss_sys_addr == AF_SYS_CONTROL,
            r.sc_id == ctl_id,
            r.sc_unit == seed + 1,
            forall|i: int| 0 <= i < 5 ==> r.sc_reserved@[i] == 0,
    {
        SocketAddrCtl {
            sc_len: SOCKADDR_CTL_LEN,
            sc_family: AF_SYSTEM,
            ss_sys_addr: AF_SYS_CONTROL,
            sc_id: ctl_id,
            sc_unit: seed as u32 + 1,
            sc_reserved: [0u32; 5],
        }
    }
}

} // verus!
