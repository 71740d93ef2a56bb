//! The text (v1) header: one CRLF-terminated line.

use crate::frame::{crlf_at, find_crlf, has_crlf, v1_signature};
use crate::types::{ProxyError, ProxyInfo, ProxyInfoView, ProxyVersion, SocketAddress, IpAddress};
use vstd::prelude::*;

verus! {

/// The endpoints a v1 line declares: source and destination address,
/// then source and destination port.
#[derive(Clone, Copy, Debug, PartialEq, Eq, Structural)]
pub enum V1Addresses {
    Tcp4(u32, u32, u16, u16),
    Tcp6(u128, u128, u16, u16),
    Unknown,
}

/// What ppp reads from a v1 line, `None` where it rejects it.
pub uninterp spec fn v1_parse_of(line: Seq<u8>) -> Option<V1Addresses>;

/// `"PROXY UNKNOWN"`, then `k` spaces, then CR LF.
pub open spec fn v1_unknown_line(k: nat) -> Seq<u8> {
    v1_signature() + seq![0x55u8, 0x4e, 0x4b, 0x4e, 0x4f, 0x57, 0x4e] + Seq::new(k, |i: int| 0x20u8)
        + seq![0x0du8, 0x0a]
}

/// Relies on ppp's `v1::Header::try_from(&[u8])`: the address family,
/// addresses and ports of a line, or an error, as a function of the bytes.
/// An UNKNOWN line with at most four spaces before its CR LF splits into at
/// most seven parts, the last being the newline, and is accepted.
#[verifier::external_body]
fn parse_v1_line(line: &[u8]) -> (r: Result<V1Addresses, String>)
    ensures
        match r {
            Ok(a) => v1_parse_of(line@) == Some(a),
            Err(_) => v1_parse_of(line@) is None,
        },
        forall|k: nat| k <= 4 && line@ == v1_unknown_line(k) ==> r is Ok && r->Ok_0 == V1Addresses::Unknown,
{
    match ppp::v1::Header::try_from(line) {
        Ok(h) => Ok(match h.addresses {
            ppp::v1::Addresses::Tcp4(a) => V1Addresses::Tcp4(a.source_address.into(), a.destination_address.into(), a.source_port, a.destination_port),
            ppp::v1::Addresses::Tcp6(a) => V1Addresses::Tcp6(a.source_address.into(), a.destination_address.into(), a.source_port, a.destination_port),
            ppp::v1::Addresses::Unknown => V1Addresses::Unknown,
        }),
        Err(e) => Err(format!("v1 parse error: {:?}", e)),
    }
}

/// Position of the first CR LF pair.
pub open spec fn first_crlf(s: Seq<u8>) -> int {
    choose|i: int| crlf_at(s, i) && forall|j: int| 0 <= j < i ==> !crlf_at(s, j)
}

/// Where a v1 header ends: just past its first CR LF.
pub open spec fn v1_end(s: Seq<u8>) -> int {
    first_crlf(s) + 2
}

/// The endpoints of a decoded v1 line.
pub open spec fn v1_view(a: V1Addresses) -> ProxyInfoView {
    match a {
        V1Addresses::Tcp4(source, destination, source_port, destination_port) => ProxyInfoView {
            client_addr: SocketAddress { ip: IpAddress::V4(source), port: source_port },
            server_addr: Some(SocketAddress { ip: IpAddress::V4(destination), port: destination_port }),
            tls_info: None,
            version: ProxyVersion::V1,
        },
        V1Addresses::Tcp6(source, destination, source_port, destination_port) => ProxyInfoView {
            client_addr: SocketAddress { ip: IpAddress::V6(source), port: source_port },
            server_addr: Some(SocketAddress { ip: IpAddress::V6(destination), port: destination_port }),
            tls_info: None,
            version: ProxyVersion::V1,
        },
        V1Addresses::Unknown => ProxyInfoView {
            client_addr: SocketAddress::spec_unspecified(),
            server_addr: None,
            tls_info: None,
            version: ProxyVersion::V1,
        },
    }
}

/// Decoding a TCP4 or TCP6 line keeps everything that was read from it:
/// the decoded value determines the family, both addresses and both ports.
pub proof fn lemma_v1_decoding_lossless(a: V1Addresses, b: V1Addresses)
    requires
        !(a is Unknown),
        !(b is Unknown),
        v1_view(a) == v1_view(b),
    ensures
        a == b,
{
}

/// The metadata of a v1 line with the given endpoints: the placeholder
/// client and no server for UNKNOWN, never TLS metadata.
pub fn v1_info(a: V1Addresses) -> (r: ProxyInfo)
    ensures
        r@ == v1_view(a),
{
    let (client_addr, server_addr) = match a {
        V1Addresses::Tcp4(source, destination, source_port, destination_port) => (
            SocketAddress { ip: IpAddress::V4(source), port: source_port },
            Some(SocketAddress { ip: IpAddress::V4(destination), port: destination_port }),
        ),
        V1Addresses::Tcp6(source, destination, source_port, destination_port) => (
            SocketAddress { ip: IpAddress::V6(source), port: source_port },
            Some(SocketAddress { ip: IpAddress::V6(destination), port: destination_port }),
        ),
        V1Addresses::Unknown => (SocketAddress::unspecified(), None),
    };
    ProxyInfo { client_addr, server_addr, tls_info: None, version: ProxyVersion::V1 }
}

/// Whether `s` starts with an UNKNOWN line of at most four spaces.
pub open spec fn starts_with_unknown_line(s: Seq<u8>) -> bool {
    exists|k: int| 0 <= k <= 4 && s.len() >= 15 + k && #[trigger] s.take(15 + k) == v1_unknown_line(k as nat)
}

/// Whether `s` holds a line that ppp accepts.
pub open spec fn v1_decodable(s: Seq<u8>) -> bool {
    has_crlf(s) && v1_parse_of(s.take(v1_end(s))) is Some
}

/// What a v1 buffer decodes to.
pub open spec fn v1_decoded(s: Seq<u8>) -> ProxyInfoView {
    v1_view(v1_parse_of(s.take(v1_end(s)))->0)
}

/// Decodes a v1 header at the start of `buf`, returning the bytes after its
/// CRLF.
pub fn parse_v1_header(buf: &[u8]) -> (r: Result<(ProxyInfo, Vec<u8>), ProxyError>)
    ensures
        match r {
            Ok((info, rest)) => v1_decodable(buf@) && info@ == v1_decoded(buf@) && rest@ == buf@.skip(
                v1_end(buf@),
            ) && crlf_at(buf@, first_crlf(buf@)),
            Err(e) => !v1_decodable(buf@) && e is InvalidHeader,
        },
        starts_with_unknown_line(buf@) ==> match r {
            Ok((info, _)) => info@ == v1_view(V1Addresses::Unknown),
            Err(_) => false,
        },
{
    let pos = match find_crlf(buf) {
        Some(i) => i,
        None => {
            proof {
                if starts_with_unknown_line(buf@) {
                    let k = choose|k: int| 0 <= k <= 4 && buf@.len() >= 15 + k && #[trigger] buf@.take(15 + k) == v1_unknown_line(k as nat);
                    let u = v1_unknown_line(k as nat);
                    assert(u.len() == 15 + k);
                    assert(u[13 + k] == 0x0d && u[14 + k] == 0x0a);
                    assert(buf@[13 + k] == buf@.take(15 + k)[13 + k]);
                    assert(buf@[14 + k] == buf@.take(15 + k)[14 + k]);
                    assert(crlf_at(buf@, 13 + k));
                }
            }
            return Err(ProxyError::InvalidHeader("no CRLF found".to_string()));
        },
    };
    proof {
        let c = first_crlf(buf@);
        assert(crlf_at(buf@, c) && forall|j: int| 0 <= j < c ==> !crlf_at(buf@, j));
        assert(c == pos as int) by {
            if c < pos {
            } else if c > pos {
            }
        }
    }
    assert(crlf_at(buf@, pos as int));
    let n = buf.len();
    assert(pos + 1 < n);
    let end = pos + 2;
    let line = vstd::slice::slice_subrange(buf, 0, end);
    assert(line@ =~= buf@.take(v1_end(buf@)));
    proof {
        if starts_with_unknown_line(buf@) {
            let k = choose|k: int| 0 <= k <= 4 && buf@.len() >= 15 + k && #[trigger] buf@.take(15 + k) == v1_unknown_line(k as nat);
            let u = v1_unknown_line(k as nat);
            assert(u.len() == 15 + k);
            assert forall|j: int| 0 <= j < 13 + k implies buf@[j] != 0x0d by {
                assert(buf@.take(15 + k)[j] == u[j]);
            }
            assert(buf@[13 + k] == buf@.take(15 + k)[13 + k]);
            assert(buf@[14 + k] == buf@.take(15 + k)[14 + k]);
            assert(crlf_at(buf@, 13 + k));
            assert(pos == 13 + k);
            assert(line@ =~= u);
        }
    }
    let addrs = match parse_v1_line(line) {
        Ok(a) => a,
        Err(msg) => {
            return Err(ProxyError::InvalidHeader(msg));
        },
    };
    let rest = vstd::slice::slice_to_vec(vstd::slice::slice_subrange(buf, end, buf.len()));
    assert(rest@ =~= buf@.skip(v1_end(buf@)));
    Ok((v1_info(addrs), rest))
}

} // verus!
