//! The binary (v2) header: a 16-byte prefix, an address block sized by the
//! address family, and a TLV trailer.

use crate::frame::has_v2_signature;
use crate::tlv::{be16_at, extract_tls_info, tls_of_tlvs};
use crate::types::{
    be_value, IpAddress, ProxyError, ProxyInfo, ProxyInfoView, ProxyVersion, SocketAddress,
};
use vstd::prelude::*;

verus! {

/// The endpoints a v2 header declares: source and destination address,
/// then source and destination port.
#[derive(Clone, Copy, Debug, PartialEq, Eq, Structural)]
pub enum V2Addresses {
    Unspecified,
    IPv4(u32, u32, u16, u16),
    IPv6(u128, u128, u16, u16),
    Unix,
}

/// Length of the payload after the prefix: bytes 14 and 15, big-endian.
pub open spec fn v2_payload_len(s: Seq<u8>) -> nat {
    be16_at(s, 14)
}

/// The address family: the high nibble of byte 13.
pub open spec fn v2_family(s: Seq<u8>) -> u8 {
    s[13] / 16
}

/// Size of the address block of the family.
pub open spec fn v2_address_len(s: Seq<u8>) -> nat {
    if v2_family(s) == 1 {
        12
    } else if v2_family(s) == 2 {
        36
    } else if v2_family(s) == 3 {
        216
    } else {
        0
    }
}

/// Whether `s` starts with a well-formed v2 header: the signature, version
/// 2, command LOCAL or PROXY, a known family and transport, a payload long
/// enough for the address block, and all of the payload present.
pub open spec fn v2_valid(s: Seq<u8>) -> bool {
    &&& s.len() >= 16
    &&& has_v2_signature(s)
    &&& s[12] / 16 == 2
    &&& s[12] % 16 <= 1
    &&& v2_family(s) <= 3
    &&& s[13] % 16 <= 2
    &&& v2_payload_len(s) >= v2_address_len(s)
    &&& s.len() >= 16 + v2_payload_len(s)
}

/// Where a v2 header ends.
pub open spec fn v2_end(s: Seq<u8>) -> nat {
    16 + v2_payload_len(s)
}

/// The big-endian value of `s[i..j]`.
pub open spec fn be_range(s: Seq<u8>, i: int, j: int) -> nat {
    be_value(s.subrange(i, j))
}

/// The endpoints in the address block of a valid header.
pub open spec fn v2_addresses(s: Seq<u8>) -> V2Addresses {
    if v2_family(s) == 1 {
        V2Addresses::IPv4(
            be_range(s, 16, 20) as u32,
            be_range(s, 20, 24) as u32,
            be_range(s, 24, 26) as u16,
            be_range(s, 26, 28) as u16,
        )
    } else if v2_family(s) == 2 {
        V2Addresses::IPv6(
            be_range(s, 16, 32) as u128,
            be_range(s, 32, 48) as u128,
            be_range(s, 48, 50) as u16,
            be_range(s, 50, 52) as u16,
        )
    } else if v2_family(s) == 3 {
        V2Addresses::Unix
    } else {
        V2Addresses::Unspecified
    }
}

/// Relies on ppp's `v2::Header::try_from(&[u8])`: it accepts exactly the
/// headers that `v2_valid` describes and reads the address block by family
/// (addresses and ports big-endian; Unix paths are not kept here).
#[verifier::external_body]
fn parse_v2_prefix(buf: &[u8]) -> (r: Result<V2Addresses, String>)
    ensures
        r is Ok <==> v2_valid(buf@),
        r is Ok ==> r->Ok_0 == v2_addresses(buf@),
{
    match ppp::v2::Header::try_from(buf) {
        Ok(h) => Ok(match h.addresses {
            ppp::v2::Addresses::Unspecified => V2Addresses::Unspecified,
            ppp::v2::Addresses::IPv4(a) => V2Addresses::IPv4(a.source_address.into(), a.destination_address.into(), a.source_port, a.destination_port),
            ppp::v2::Addresses::IPv6(a) => V2Addresses::IPv6(a.source_address.into(), a.destination_address.into(), a.source_port, a.destination_port),
            ppp::v2::Addresses::Unix(_) => V2Addresses::Unix,
        }),
        Err(e) => Err(format!("v2 parse error: {:?}", e)),
    }
}

/// Where the TLV trailer starts: after the address block, or at the end of
/// the payload where the family has none.
pub open spec fn v2_tlv_start(s: Seq<u8>) -> nat {
    if v2_family(s) == 0 {
        v2_end(s)
    } else {
        16 + v2_address_len(s)
    }
}

pub open spec fn v2_tlvs(s: Seq<u8>) -> Seq<u8> {
    s.subrange(v2_tlv_start(s) as int, v2_end(s) as int)
}

/// What a valid v2 buffer decodes to; TLS metadata only when asked for.
pub open spec fn v2_decoded(s: Seq<u8>, parse_tls_info: bool) -> ProxyInfoView {
    let tls_info = if parse_tls_info {
        tls_of_tlvs(v2_tlvs(s))
    } else {
        None
    };
    match v2_addresses(s) {
        V2Addresses::IPv4(source, destination, source_port, destination_port) => ProxyInfoView {
            client_addr: SocketAddress { ip: IpAddress::V4(source), port: source_port },
            server_addr: Some(SocketAddress { ip: IpAddress::V4(destination), port: destination_port }),
            tls_info,
            version: ProxyVersion::V2,
        },
        V2Addresses::IPv6(source, destination, source_port, destination_port) => ProxyInfoView {
            client_addr: SocketAddress { ip: IpAddress::V6(source), port: source_port },
            server_addr: Some(SocketAddress { ip: IpAddress::V6(destination), port: destination_port }),
            tls_info,
            version: ProxyVersion::V2,
        },
        _ => ProxyInfoView {
            client_addr: SocketAddress::spec_unspecified(),
            server_addr: None,
            tls_info,
            version: ProxyVersion::V2,
        },
    }
}

/// Decodes a v2 header at the start of `buf`, returning the bytes after it.
pub fn parse_v2_header(buf: &[u8], parse_tls_info: bool) -> (r: Result<(ProxyInfo, Vec<u8>), ProxyError>)
    ensures
        match r {
            Ok((info, rest)) => v2_valid(buf@) && info@ == v2_decoded(buf@, parse_tls_info) && rest@
                == buf@.skip(v2_end(buf@) as int),
            Err(e) => !v2_valid(buf@) && e is InvalidHeader,
        },
{
    let addrs = match parse_v2_prefix(buf) {
        Ok(a) => a,
        Err(msg) => {
            return Err(ProxyError::InvalidHeader(msg));
        },
    };
    let payload_len = (buf[14] as usize) * 256 + buf[15] as usize;
    let end = 16 + payload_len;
    let family = buf[13] / 16;
    let tlv_start = if family == 0 {
        end
    } else if family == 1 {
        16 + 12
    } else if family == 2 {
        16 + 36
    } else {
        16 + 216
    };
    let tls_info = if parse_tls_info {
        let tlvs = vstd::slice::slice_subrange(buf, tlv_start, end);
        assert(tlvs@ =~= v2_tlvs(buf@));
        extract_tls_info(tlvs)
    } else {
        None
    };
    let (client_addr, server_addr) = match addrs {
        V2Addresses::IPv4(source, destination, source_port, destination_port) => (
            SocketAddress { ip: IpAddress::V4(source), port: source_port },
            Some(SocketAddress { ip: IpAddress::V4(destination), port: destination_port }),
        ),
        V2Addresses::IPv6(source, destination, source_port, destination_port) => (
            SocketAddress { ip: IpAddress::V6(source), port: source_port },
            Some(SocketAddress { ip: IpAddress::V6(destination), port: destination_port }),
        ),
        _ => (SocketAddress::unspecified(), None),
    };
    let rest = vstd::slice::slice_to_vec(vstd::slice::slice_subrange(buf, end, buf.len()));
    assert(rest@ =~= buf@.skip(v2_end(buf@) as int));
    Ok((ProxyInfo { client_addr, server_addr, tls_info, version: ProxyVersion::V2 }, rest))
}

} // verus!
