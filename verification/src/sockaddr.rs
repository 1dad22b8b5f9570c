use vstd::prelude::*;

verus! {

/// The address family of an IPv4 socket address on Windows (`AF_INET`).
pub const FAMILY_INET: u16 = 2;

/// The address family of an IPv6 socket address on Windows (`AF_INET6`).
pub const FAMILY_INET6: u16 = 23;

/// The address of the peer of an accepted connection.
pub enum RemoteAddr {
    V4 { ip: [u8; 4], port: u16 },
    V6 { ip: [u8; 16], port: u16 },
}

/// The space that `AcceptEx` takes for each address when socket addresses are `size` bytes
/// (16 bytes more than the address), and the size of the buffer that holds the local and the
/// remote address.
pub fn accept_address_space(size: u32) -> (r: (u32, usize))
    requires
        (size + 16) * 2 <= u32::MAX,
    ensures
        r.0 == size + 16,
        r.1 == 2 * (size + 16),
{
    let each = size + 16;
    (each, (each * 2) as usize)
}

/// The address family that a socket address starts with (little endian).
pub open spec fn family_of(raw: Seq<u8>) -> int {
    raw[0] + raw[1] * 256
}

/// The port of a socket address: bytes 2 and 3, in network order.
pub open spec fn port_of(raw: Seq<u8>) -> int {
    raw[2] * 256 + raw[3]
}

/// The peer address held by the socket address `raw` (a `SOCKADDR_IN` or `SOCKADDR_IN6`, as
/// `AcceptEx` leaves them); `None` when `raw` is too short for its family, or of another family.
pub fn decode_sockaddr(raw: &[u8]) -> (r: Option<RemoteAddr>)
    ensures
        raw@.len() < 2 ==> r is None,
        raw@.len() >= 2 && family_of(raw@) == FAMILY_INET && raw@.len() >= 8 ==> (r matches Some(
            RemoteAddr::V4 { ip, port },
        ) && ip@ == raw@.subrange(4, 8) && port == port_of(raw@)),
        raw@.len() >= 2 && family_of(raw@) == FAMILY_INET6 && raw@.len() >= 24 ==> (r matches Some(
            RemoteAddr::V6 { ip, port },
        ) && ip@ == raw@.subrange(8, 24) && port == port_of(raw@)),
        r is Some ==> raw@.len() >= 8 && (family_of(raw@) == FAMILY_INET || family_of(raw@)
            == FAMILY_INET6 && raw@.len() >= 24),
{
    if raw.len() < 2 {
        return None;
    }
    let family = raw[0] as u16 + raw[1] as u16 * 256;
    if family == FAMILY_INET && raw.len() >= 8 {
        let port = raw[2] as u16 * 256 + raw[3] as u16;
        let ip = [raw[4], raw[5], raw[6], raw[7]];
        assert(ip@ =~= raw@.subrange(4, 8));
        Some(RemoteAddr::V4 { ip, port })
    } else if family == FAMILY_INET6 && raw.len() >= 24 {
        let port = raw[2] as u16 * 256 + raw[3] as u16;
        let ip = [
            raw[8],
            raw[9],
            raw[10],
            raw[11],
            raw[12],
            raw[13],
            raw[14],
            raw[15],
            raw[16],
            raw[17],
            raw[18],
            raw[19],
            raw[20],
            raw[21],
            raw[22],
            raw[23],
        ];
        assert(ip@ =~= raw@.subrange(8, 24));
        Some(RemoteAddr::V6 { ip, port })
    } else {
        None
    }
}

} // verus!
