//! Values produced by the header decoder.

use vstd::prelude::*;

verus! {

/// The address bytes of an IP endpoint: IPv4 as a big-endian `u32`, IPv6 as
/// a big-endian `u128`.
#[derive(Clone, Copy, Debug, PartialEq, Eq, Structural)]
pub enum IpAddress {
    V4(u32),
    V6(u128),
}

/// An IP endpoint: an address and a port.
#[derive(Clone, Copy, Debug, PartialEq, Eq, Structural)]
pub struct SocketAddress {
    pub ip: IpAddress,
    pub port: u16,
}

impl SocketAddress {
    /// The placeholder that stands for "no address was disclosed":
    /// the unspecified IPv4 address with port 0.
    pub open spec fn spec_unspecified() -> SocketAddress {
        SocketAddress { ip: IpAddress::V4(0), port: 0 }
    }

    pub fn unspecified() -> (r: SocketAddress)
        ensures
            r == SocketAddress::spec_unspecified(),
    {
        SocketAddress { ip: IpAddress::V4(0), port: 0 }
    }

    pub fn v4(octets: [u8; 4], port: u16) -> (r: SocketAddress)
        ensures
            r.ip == IpAddress::V4(be_value(octets@) as u32),
            r.port == port,
    {
        let mut x: u32 = 0;
        let mut i: usize = 0;
        while i < 4
            invariant
                i <= 4,
                x as nat == be_value(octets@.take(i as int)),
                be_value(octets@.take(i as int)) < pow256(i as nat),
            decreases 4 - i,
        {
            proof {
                lemma_be_value_step(octets@, i as nat);
                lemma_pow256_4_le(i as nat);
            }
            x = x * 256 + octets[i] as u32;
            i = i + 1;
        }
        assert(octets@.take(4) =~= octets@);
        SocketAddress { ip: IpAddress::V4(x), port }
    }
}

/// The big-endian value of a byte string.
pub open spec fn be_value(s: Seq<u8>) -> nat
    decreases s.len(),
{
    if s.len() == 0 {
        0
    } else {
        be_value(s.drop_last()) * 256 + s.last() as nat
    }
}

/// `256` raised to `n`.
pub open spec fn pow256(n: nat) -> nat
    decreases n,
{
    if n == 0 {
        1
    } else {
        256 * pow256((n - 1) as nat)
    }
}

/// One more byte of a prefix extends its big-endian value by one digit, and
/// the value stays below `256` to the length.
pub proof fn lemma_be_value_step(s: Seq<u8>, i: nat)
    requires
        i < s.len(),
        be_value(s.take(i as int)) < pow256(i),
    ensures
        be_value(s.take(i + 1 as int)) == be_value(s.take(i as int)) * 256 + (s[i as int] as nat),
        be_value(s.take(i + 1 as int)) < pow256(i + 1 as nat),
{
    assert(s.take(i + 1 as int).drop_last() =~= s.take(i as int));
    let v = be_value(s.take(i as int));
    assert(v * 256 + (s[i as int] as nat) < pow256(i + 1 as nat)) by (nonlinear_arith)
        requires
            v < pow256(i),
            s[i as int] < 256,
            pow256(i + 1 as nat) == 256 * pow256(i),
    ;
}

pub proof fn lemma_pow256_4_le(i: nat)
    requires
        i < 4,
    ensures
        pow256(i) <= 0x100_0000,
    decreases i,
{
    reveal_with_fuel(pow256, 4);
}

/// The wire format that produced a header.
#[derive(Clone, Copy, Debug, PartialEq, Eq, Structural)]
pub enum ProxyVersion {
    V1,
    V2,
}

/// What the TLVs of a v2 header said about a TLS connection that was
/// terminated upstream.
#[derive(Clone, Debug)]
pub struct ProxyTlsInfo {
    /// Server name from the authority TLV.
    pub sni: Option<String>,
    /// Common name of the client certificate.
    pub client_cert_cn: Option<String>,
    /// Whether the client presented a certificate on this connection.
    pub client_cert_verified: bool,
}

/// The contents of a TLS record as plain values.
pub struct TlsView {
    pub sni: Option<Seq<char>>,
    pub client_cert_cn: Option<Seq<char>>,
    pub client_cert_verified: bool,
}

pub open spec fn string_opt_view(o: Option<String>) -> Option<Seq<char>> {
    match o {
        Some(s) => Some(s@),
        None => None,
    }
}

impl View for ProxyTlsInfo {
    type V = TlsView;

    open spec fn view(&self) -> TlsView {
        TlsView {
            sni: string_opt_view(self.sni),
            client_cert_cn: string_opt_view(self.client_cert_cn),
            client_cert_verified: self.client_cert_verified,
        }
    }
}

/// Connection metadata carried by a PROXY header.
#[derive(Clone, Debug)]
pub struct ProxyInfo {
    /// The original client; the unspecified placeholder where the header
    /// discloses no address.
    pub client_addr: SocketAddress,
    /// The address the client connected to, where the header discloses it.
    pub server_addr: Option<SocketAddress>,
    /// TLS metadata, only from v2 headers and only when asked for.
    pub tls_info: Option<ProxyTlsInfo>,
    pub version: ProxyVersion,
}

/// Why a header could not be read.
#[derive(Debug)]
pub enum ProxyError {
    /// The header did not arrive within the allowed time.
    Timeout,
    /// The header is malformed; the text says how.
    InvalidHeader(String),
    /// Reading from the stream failed.
    Io(std::io::Error),
    /// The stream ended before the header was complete.
    ConnectionClosed,
    /// The stream starts with neither signature.
    NotProxyProtocol,
}

/// Relies on std's `io::Error` only as an opaque value carried by an error.
#[verifier::external_type_specification]
#[verifier::external_body]
pub struct ExIoError(std::io::Error);

} // verus!

verus! {

/// The contents of a `ProxyInfo` as plain values.
pub struct ProxyInfoView {
    pub client_addr: SocketAddress,
    pub server_addr: Option<SocketAddress>,
    pub tls_info: Option<TlsView>,
    pub version: ProxyVersion,
}

pub open spec fn tls_opt_view(o: Option<ProxyTlsInfo>) -> Option<TlsView> {
    match o {
        Some(t) => Some(t@),
        None => None,
    }
}

impl View for ProxyInfo {
    type V = ProxyInfoView;

    open spec fn view(&self) -> ProxyInfoView {
        ProxyInfoView {
            client_addr: self.client_addr,
            server_addr: self.server_addr,
            tls_info: tls_opt_view(self.tls_info),
            version: self.version,
        }
    }
}

} // verus!

verus! {

impl From<std::io::Error> for ProxyError {
    fn from(e: std::io::Error) -> (r: ProxyError) {
        ProxyError::Io(e)
    }
}

impl vstd::std_specs::convert::FromSpecImpl<std::io::Error> for ProxyError {
    open spec fn obeys_from_spec() -> bool {
        true
    }

    open spec fn from_spec(e: std::io::Error) -> ProxyError {
        ProxyError::Io(e)
    }
}

} // verus!
