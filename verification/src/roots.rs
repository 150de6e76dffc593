//! The thirteen root name servers, as ordered constants.
//!
//! The ordering is the literal alphabetical order of the roots; within a
//! root, the IPv4 address precedes the IPv6 address.

use vstd::prelude::*;
use crate::types::IpAddress;

verus! {

/// The addresses of the thirteen root name servers, alphabetical, IPv4
/// before IPv6 within each root.
pub open spec fn root_servers_spec() -> Seq<IpAddress> {
    seq![
        IpAddress::V4(198, 41, 0, 4),
        IpAddress::V6(0x2001, 0x503, 0xba3e, 0, 0, 0, 0, 0x2),
        IpAddress::V4(199, 9, 14, 201),
        IpAddress::V6(0x2001, 0x500, 0x200, 0, 0, 0, 0, 0xb),
        IpAddress::V4(192, 33, 4, 12),
        IpAddress::V6(0x2001, 0x500, 0x2e, 0, 0, 0, 0, 0x2),
        IpAddress::V4(199, 7, 91, 13),
        IpAddress::V6(0x2001, 0x500, 0x2d, 0, 0, 0, 0, 0xd),
        IpAddress::V4(192, 203, 230, 10),
        IpAddress::V6(0x2001, 0x500, 0xa8, 0, 0, 0, 0, 0x2),
        IpAddress::V4(192, 5, 5, 241),
        IpAddress::V6(0x2001, 0x500, 0x2f, 0, 0, 0, 0, 0xf),
        IpAddress::V4(192, 112, 36, 4),
        IpAddress::V6(0x2001, 0x500, 0x12, 0, 0, 0, 0, 0xd0d),
        IpAddress::V4(198, 97, 190, 53),
        IpAddress::V6(0x2001, 0x500, 0x1, 0, 0, 0, 0, 0x53),
        IpAddress::V4(192, 36, 148, 17),
        IpAddress::V6(0x2001, 0x7fe, 0, 0, 0, 0, 0, 0x33),
        IpAddress::V4(192, 58, 128, 30),
        IpAddress::V6(0x2001, 0x503, 0xc27, 0, 0, 0, 0, 0x2),
        IpAddress::V4(193, 0, 14, 129),
        IpAddress::V6(0x2001, 0x7fd, 0, 0, 0, 0, 0, 0x1),
        IpAddress::V4(199, 7, 83, 42),
        IpAddress::V6(0x2001, 0x500, 0x9f, 0, 0, 0, 0, 0x42),
        IpAddress::V4(202, 12, 27, 33),
        IpAddress::V6(0x2001, 0xdc3, 0, 0, 0, 0, 0, 0x35),
    ]
}

/// The root server list every resolution starts from.
pub fn root_servers() -> (r: Vec<IpAddress>)
    ensures
        r.deep_view() == root_servers_spec(),
{
    let mut v: Vec<IpAddress> = Vec::new();
    v.push(IpAddress::V4(198, 41, 0, 4));
    v.push(IpAddress::V6(0x2001, 0x503, 0xba3e, 0, 0, 0, 0, 0x2));
    v.push(IpAddress::V4(199, 9, 14, 201));
    v.push(IpAddress::V6(0x2001, 0x500, 0x200, 0, 0, 0, 0, 0xb));
    v.push(IpAddress::V4(192, 33, 4, 12));
    v.push(IpAddress::V6(0x2001, 0x500, 0x2e, 0, 0, 0, 0, 0x2));
    v.push(IpAddress::V4(199, 7, 91, 13));
    v.push(IpAddress::V6(0x2001, 0x500, 0x2d, 0, 0, 0, 0, 0xd));
    v.push(IpAddress::V4(192, 203, 230, 10));
    v.push(IpAddress::V6(0x2001, 0x500, 0xa8, 0, 0, 0, 0, 0x2));
    v.push(IpAddress::V4(192, 5, 5, 241));
    v.push(IpAddress::V6(0x2001, 0x500, 0x2f, 0, 0, 0, 0, 0xf));
    v.push(IpAddress::V4(192, 112, 36, 4));
    v.push(IpAddress::V6(0x2001, 0x500, 0x12, 0, 0, 0, 0, 0xd0d));
    v.push(IpAddress::V4(198, 97, 190, 53));
    v.push(IpAddress::V6(0x2001, 0x500, 0x1, 0, 0, 0, 0, 0x53));
    v.push(IpAddress::V4(192, 36, 148, 17));
    v.push(IpAddress::V6(0x2001, 0x7fe, 0, 0, 0, 0, 0, 0x33));
    v.push(IpAddress::V4(192, 58, 128, 30));
    v.push(IpAddress::V6(0x2001, 0x503, 0xc27, 0, 0, 0, 0, 0x2));
    v.push(IpAddress::V4(193, 0, 14, 129));
    v.push(IpAddress::V6(0x2001, 0x7fd, 0, 0, 0, 0, 0, 0x1));
    v.push(IpAddress::V4(199, 7, 83, 42));
    v.push(IpAddress::V6(0x2001, 0x500, 0x9f, 0, 0, 0, 0, 0x42));
    v.push(IpAddress::V4(202, 12, 27, 33));
    v.push(IpAddress::V6(0x2001, 0xdc3, 0, 0, 0, 0, 0, 0x35));
    assert(v.deep_view() =~= root_servers_spec());
    v
}

} // verus!
