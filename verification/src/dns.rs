use vstd::prelude::*;
use crate::address::SocketAddress;

verus! {

/// The port DNS servers answer on.
pub const DNS_PORT: u16 = 53;

/// The name servers the client's own resolver asks, in order: Yandex's two
/// public resolvers, `77.88.8.8` and `77.88.8.1`, on the DNS port.
pub fn yandex_name_servers() -> (res: Vec<SocketAddress>)
    ensures
        res@ == seq![
            SocketAddress::V4 { ip: [77u8, 88u8, 8u8, 8u8], port: 53u16 },
            SocketAddress::V4 { ip: [77u8, 88u8, 8u8, 1u8], port: 53u16 },
        ],
{
    let mut res: Vec<SocketAddress> = Vec::new();
    res.push(SocketAddress::V4 { ip: [77, 88, 8, 8], port: DNS_PORT });
    res.push(SocketAddress::V4 { ip: [77, 88, 8, 1], port: DNS_PORT });
    assert(res@ =~= seq![
        SocketAddress::V4 { ip: [77u8, 88u8, 8u8, 8u8], port: 53u16 },
        SocketAddress::V4 { ip: [77u8, 88u8, 8u8, 1u8], port: 53u16 },
    ]);
    res
}

} // verus!
