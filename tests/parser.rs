use proxy_header::config::ProxyProtocolConfig;
use proxy_header::frame::{
    bytes_needed, detect_version, read_header, PROXY_V1_SIGNATURE, PROXY_V2_SIGNATURE,
};
use proxy_header::parser::{decode_header, parse_header_bytes};
use proxy_header::tlv::{extract_tls_info, parse_ssl_tlv};
use proxy_header::types::{IpAddress, ProxyError, ProxyVersion, SocketAddress};
use proxy_header::v1::{v1_info, V1Addresses};

fn v2_ipv4_header(tlvs: &[u8]) -> Vec<u8> {
    let mut h = PROXY_V2_SIGNATURE.to_vec();
    h.push(0x21);
    h.push(0x11);
    let len = 12 + tlvs.len();
    h.push((len >> 8) as u8);
    h.push((len & 0xff) as u8);
    h.extend_from_slice(&[192, 168, 1, 1, 10, 0, 0, 1, 0x30, 0x39, 0x01, 0xbb]);
    h.extend_from_slice(tlvs);
    h
}

fn tlv(kind: u8, value: &[u8]) -> Vec<u8> {
    let mut t = vec![kind, (value.len() >> 8) as u8, (value.len() & 0xff) as u8];
    t.extend_from_slice(value);
    t
}

#[test]
fn test_proxy_v1_signature() {
    assert_eq!(&PROXY_V1_SIGNATURE, b"PROXY ");
}

#[test]
fn test_proxy_v2_signature() {
    assert_eq!(PROXY_V2_SIGNATURE.len(), 12);
}

#[test]
fn test_parse_v1_tcp4() {
    let header = b"PROXY TCP4 192.168.1.1 10.0.0.1 12345 80\r\n";
    let (info, remaining) = parse_header_bytes(header, false).unwrap();

    assert_eq!(info.version, ProxyVersion::V1);
    assert_eq!(info.client_addr, SocketAddress::v4([192, 168, 1, 1], 12345));
    assert_eq!(info.server_addr, Some(SocketAddress::v4([10, 0, 0, 1], 80)));
    assert!(info.tls_info.is_none());
    assert!(remaining.is_empty());
}

#[test]
fn test_parse_v1_tcp6() {
    let header = b"PROXY TCP6 ::1 ::2 12345 80\r\n";
    let (info, _) = parse_header_bytes(header, false).unwrap();

    assert_eq!(info.version, ProxyVersion::V1);
    assert_eq!(info.client_addr, SocketAddress { ip: IpAddress::V6(1), port: 12345 });
}

#[test]
fn test_parse_v1_unknown() {
    let header = b"PROXY UNKNOWN  \r\n";
    let (info, _) = parse_header_bytes(header, false).unwrap();

    assert_eq!(info.version, ProxyVersion::V1);
    assert_eq!(info.client_addr.ip, IpAddress::V4(0));
}

#[test]
fn v1_unknown_has_placeholder_and_no_server() {
    let (info, rest) = parse_header_bytes(b"PROXY UNKNOWN  \r\n", false).unwrap();
    assert_eq!(info.client_addr, SocketAddress::unspecified());
    assert_eq!(info.client_addr.port, 0);
    assert_eq!(info.server_addr, None);
    assert!(rest.is_empty());
}

#[test]
fn v1_tcp6_server_address() {
    let (info, _) = parse_header_bytes(b"PROXY TCP6 ::1 ::2 12345 80\r\n", false).unwrap();
    assert_eq!(info.server_addr, Some(SocketAddress { ip: IpAddress::V6(2), port: 80 }));
    assert!(info.tls_info.is_none());
}

#[test]
fn v1_bad_port_is_invalid() {
    let r = parse_header_bytes(b"PROXY TCP4 192.168.1.1 10.0.0.1 99999 80\r\n", false);
    assert!(matches!(r, Err(ProxyError::InvalidHeader(_))));
}

#[test]
fn v1_bad_address_is_invalid() {
    let r = parse_header_bytes(b"PROXY TCP4 192.168.1.300 10.0.0.1 1 80\r\n", false);
    assert!(matches!(r, Err(ProxyError::InvalidHeader(_))));
}

#[test]
fn v1_missing_tokens_is_invalid() {
    let r = parse_header_bytes(b"PROXY TCP4 192.168.1.1\r\n", false);
    assert!(matches!(r, Err(ProxyError::InvalidHeader(_))));
}

#[test]
fn v1_leftover_returned() {
    let input = b"PROXY TCP4 1.2.3.4 5.6.7.8 1 2\r\nGET / HTTP/1.1\r\n";
    let (info, rest) = parse_header_bytes(input, false).unwrap();
    assert_eq!(info.client_addr, SocketAddress::v4([1, 2, 3, 4], 1));
    assert_eq!(rest, b"GET / HTTP/1.1\r\n".to_vec());
    let header_len = input.len() - rest.len();
    let mut joined = input[..header_len].to_vec();
    joined.extend_from_slice(&rest);
    assert_eq!(joined, input.to_vec());
}

#[test]
fn v1_short_line_leftover_inside_prefix() {
    let input = b"PROXY UNKNOWN\r\nAB";
    let (_, rest) = parse_header_bytes(input, false).unwrap();
    assert_eq!(rest, b"AB".to_vec());
}

#[test]
fn v2_leftover_returned() {
    let mut input = v2_ipv4_header(&[]);
    let header_len = input.len();
    input.extend_from_slice(b"hello");
    let (info, rest) = parse_header_bytes(&input, false).unwrap();
    assert_eq!(info.version, ProxyVersion::V2);
    assert_eq!(rest, b"hello".to_vec());
    let mut joined = input[..header_len].to_vec();
    joined.extend_from_slice(&rest);
    assert_eq!(joined, input);
}

#[test]
fn v2_ipv4_addresses() {
    let input = v2_ipv4_header(&[]);
    let (info, rest) = parse_header_bytes(&input, true).unwrap();
    assert_eq!(info.client_addr, SocketAddress::v4([192, 168, 1, 1], 12345));
    assert_eq!(info.server_addr, Some(SocketAddress::v4([10, 0, 0, 1], 443)));
    assert!(info.tls_info.is_none());
    assert!(rest.is_empty());
}

#[test]
fn v2_ipv6_addresses() {
    let mut h = PROXY_V2_SIGNATURE.to_vec();
    h.extend_from_slice(&[0x21, 0x21, 0, 36]);
    let mut src = [0u8; 16];
    src[15] = 1;
    let mut dst = [0u8; 16];
    dst[0] = 0x20;
    dst[1] = 0x01;
    dst[15] = 2;
    h.extend_from_slice(&src);
    h.extend_from_slice(&dst);
    h.extend_from_slice(&[0, 80, 1, 0xbb]);
    let (info, _) = parse_header_bytes(&h, false).unwrap();
    assert_eq!(info.client_addr, SocketAddress { ip: IpAddress::V6(1), port: 80 });
    let expected_dst = (0x2001u128 << 112) | 2;
    assert_eq!(info.server_addr, Some(SocketAddress { ip: IpAddress::V6(expected_dst), port: 443 }));
}

#[test]
fn v2_local_unspecified() {
    let mut h = PROXY_V2_SIGNATURE.to_vec();
    h.extend_from_slice(&[0x20, 0x00, 0, 0]);
    let (info, rest) = parse_header_bytes(&h, true).unwrap();
    assert_eq!(info.client_addr, SocketAddress::unspecified());
    assert_eq!(info.server_addr, None);
    assert_eq!(info.version, ProxyVersion::V2);
    assert!(rest.is_empty());
}

#[test]
fn v2_bad_version_is_invalid() {
    let mut h = v2_ipv4_header(&[]);
    h[12] = 0x11;
    let r = parse_header_bytes(&h, false);
    assert!(matches!(r, Err(ProxyError::InvalidHeader(_))));
}

#[test]
fn v2_short_address_block_is_invalid() {
    let mut h = PROXY_V2_SIGNATURE.to_vec();
    h.extend_from_slice(&[0x21, 0x11, 0, 4, 1, 2, 3, 4]);
    let r = parse_header_bytes(&h, false);
    assert!(matches!(r, Err(ProxyError::InvalidHeader(_))));
}

#[test]
fn v2_authority_tlv_gives_sni() {
    let input = v2_ipv4_header(&tlv(0x02, b"example.com"));
    let (info, _) = parse_header_bytes(&input, true).unwrap();
    let tls = info.tls_info.unwrap();
    assert_eq!(tls.sni, Some("example.com".to_string()));
    assert_eq!(tls.client_cert_cn, None);
    assert!(!tls.client_cert_verified);
}

#[test]
fn v2_tls_not_requested_gives_none() {
    let input = v2_ipv4_header(&tlv(0x02, b"example.com"));
    let (info, _) = parse_header_bytes(&input, false).unwrap();
    assert!(info.tls_info.is_none());
}

#[test]
fn v2_ssl_tlv_gives_verified_cn() {
    let mut ssl = vec![0x05, 0, 0, 0, 0];
    ssl.extend_from_slice(&tlv(0x02, b"client.example"));
    let input = v2_ipv4_header(&tlv(0x20, &ssl));
    let (info, _) = parse_header_bytes(&input, true).unwrap();
    let tls = info.tls_info.unwrap();
    assert!(tls.client_cert_verified);
    assert_eq!(tls.client_cert_cn, Some("client.example".to_string()));
}

#[test]
fn not_proxy_protocol_detected() {
    let r = parse_header_bytes(b"GET / HTTP/1.1\r\nHost: example\r\n\r\n", false);
    assert!(matches!(r, Err(ProxyError::NotProxyProtocol)));
}

#[test]
fn short_non_proxy_stream_closes() {
    let r = parse_header_bytes(b"GET /\r\n", false);
    assert!(matches!(r, Err(ProxyError::ConnectionClosed)));
}

#[test]
fn v2_oversized_is_invalid() {
    let mut h = PROXY_V2_SIGNATURE.to_vec();
    h.extend_from_slice(&[0x21, 0x11, 0xff, 0xff]);
    assert!(matches!(bytes_needed(&h), Err(ProxyError::InvalidHeader(_))));
    let r = parse_header_bytes(&h, false);
    assert!(matches!(r, Err(ProxyError::InvalidHeader(_))));
}

#[test]
fn v2_largest_size_accepted() {
    let mut h = PROXY_V2_SIGNATURE.to_vec();
    h.extend_from_slice(&[0x21, 0x11, 0x02, 0x08]);
    h.extend_from_slice(&[1, 2, 3, 4, 5, 6, 7, 8, 0, 1, 0, 2]);
    h.extend_from_slice(&tlv(0x30, &[0u8; 505]));
    assert_eq!(h.len(), 536);
    let (info, _) = parse_header_bytes(&h, true).unwrap();
    assert_eq!(info.client_addr, SocketAddress::v4([1, 2, 3, 4], 1));
    assert!(info.tls_info.is_none());
}

#[test]
fn v1_too_long_is_invalid() {
    let mut input = b"PROXY ".to_vec();
    input.extend_from_slice(&[b'A'; 150]);
    let r = parse_header_bytes(&input, false);
    assert!(matches!(r, Err(ProxyError::InvalidHeader(_))));
}

#[test]
fn empty_stream_closes() {
    assert!(matches!(parse_header_bytes(b"", false), Err(ProxyError::ConnectionClosed)));
}

#[test]
fn truncated_v2_stream_closes() {
    let mut h = v2_ipv4_header(&[]);
    h.truncate(20);
    assert!(matches!(parse_header_bytes(&h, false), Err(ProxyError::ConnectionClosed)));
}

#[test]
fn bytes_needed_steps() {
    assert_eq!(bytes_needed(b"").unwrap(), 16);
    assert_eq!(bytes_needed(b"PROXY ").unwrap(), 10);
    assert_eq!(bytes_needed(b"PROXY TCP4 1.2.3").unwrap(), 1);
    assert_eq!(bytes_needed(b"PROXY UNKNOWN\r\nX").unwrap(), 0);
    let h = v2_ipv4_header(&[]);
    assert_eq!(bytes_needed(&h[..16]).unwrap(), 12);
    assert_eq!(bytes_needed(&h[..20]).unwrap(), 8);
    assert_eq!(bytes_needed(&h).unwrap(), 0);
    assert!(matches!(bytes_needed(b"HELLO WORLD 1234"), Err(ProxyError::NotProxyProtocol)));
}

#[test]
fn read_header_reads_exactly_the_header() {
    let mut input = v2_ipv4_header(&[]);
    input.extend_from_slice(b"payload");
    assert_eq!(read_header(&input).unwrap(), 28);
    assert_eq!(read_header(b"PROXY TCP4 1.2.3.4 5.6.7.8 1 2\r\nxyz").unwrap(), 32);
}

#[test]
fn detect_version_classifies() {
    assert_eq!(detect_version(&v2_ipv4_header(&[])), Some(ProxyVersion::V2));
    assert_eq!(detect_version(b"PROXY TCP4"), Some(ProxyVersion::V1));
    assert_eq!(detect_version(b"PROXY"), None);
    assert_eq!(detect_version(b"GET / HTTP/1.1"), None);
}

#[test]
fn decode_header_not_proxy() {
    assert!(matches!(decode_header(b"HTTP/1.1 200 OK", true), Err(ProxyError::NotProxyProtocol)));
}

#[test]
fn ssl_tlv_too_short() {
    assert!(parse_ssl_tlv(&[0x04, 0, 0, 0]).is_none());
}

#[test]
fn ssl_tlv_flags_without_cn() {
    assert_eq!(parse_ssl_tlv(&[0x04, 0, 0, 0, 0]), Some((None, true)));
    assert_eq!(parse_ssl_tlv(&[0x01, 0, 0, 0, 0]), Some((None, false)));
}

#[test]
fn ssl_tlv_truncated_sub_record_is_skipped() {
    let mut ssl = vec![0x04, 0, 0, 0, 0];
    ssl.extend_from_slice(&tlv(0x02, b"first"));
    ssl.extend_from_slice(&[0x02, 0, 50, b'x']);
    assert_eq!(parse_ssl_tlv(&ssl), Some((Some("first".to_string()), true)));
}

#[test]
fn ssl_tlv_last_cn_wins() {
    let mut ssl = vec![0x00, 0, 0, 0, 1];
    ssl.extend_from_slice(&tlv(0x02, b"one"));
    ssl.extend_from_slice(&tlv(0x02, b"two"));
    assert_eq!(parse_ssl_tlv(&ssl), Some((Some("two".to_string()), false)));
}

#[test]
fn tls_standalone_cn() {
    let t = extract_tls_info(&tlv(0x22, b"standalone")).unwrap();
    assert_eq!(t.client_cert_cn, Some("standalone".to_string()));
    assert_eq!(t.sni, None);
    assert!(!t.client_cert_verified);
}

#[test]
fn tls_invalid_utf8_ignored() {
    assert!(extract_tls_info(&tlv(0x02, &[0xff, 0xfe])).is_none());
    let mut tlvs = tlv(0x02, &[0xc3, 0x28]);
    tlvs.extend_from_slice(&tlv(0x22, b"cn"));
    let t = extract_tls_info(&tlvs).unwrap();
    assert_eq!(t.sni, None);
    assert_eq!(t.client_cert_cn, Some("cn".to_string()));
}

#[test]
fn tls_unknown_and_truncated_records() {
    let mut tlvs = tlv(0x04, &[1, 2, 3]);
    tlvs.extend_from_slice(&tlv(0x02, b"host"));
    tlvs.extend_from_slice(&[0x22, 0, 9, b'a']);
    let t = extract_tls_info(&tlvs).unwrap();
    assert_eq!(t.sni, Some("host".to_string()));
    assert_eq!(t.client_cert_cn, None);
}

#[test]
fn tls_empty_region_is_none() {
    assert!(extract_tls_info(&[]).is_none());
    assert!(extract_tls_info(&tlv(0x20, &[0, 0, 0, 0, 0])).is_none());
}

#[test]
fn tls_ssl_then_standalone_cn_order() {
    let mut ssl = vec![0x04, 0, 0, 0, 0];
    ssl.extend_from_slice(&tlv(0x02, b"nested"));
    let mut tlvs = tlv(0x20, &ssl);
    tlvs.extend_from_slice(&tlv(0x22, b"standalone"));
    let t = extract_tls_info(&tlvs).unwrap();
    assert_eq!(t.client_cert_cn, Some("standalone".to_string()));
    let mut tlvs = tlv(0x22, b"standalone");
    tlvs.extend_from_slice(&tlv(0x20, &ssl));
    let t = extract_tls_info(&tlvs).unwrap();
    assert_eq!(t.client_cert_cn, Some("nested".to_string()));
    assert!(t.client_cert_verified);
}

#[test]
fn config_defaults_and_timeout() {
    let c = ProxyProtocolConfig::default();
    assert!(!c.enabled);
    assert!(!c.tls_termination);
    assert_eq!(c.timeout, 5);
    assert_eq!(c.timeout_duration().as_secs(), 5);
    let c = ProxyProtocolConfig { enabled: true, tls_termination: true, timeout: 30 };
    assert_eq!(c.timeout_duration().as_secs(), 30);
}

#[test]
fn ssl_block_without_cn_keeps_earlier_cn() {
    let tlvs = [0x22, 0x00, 0x01, 0x41, 0x20, 0x00, 0x05, 0x00, 0x00, 0x00, 0x00, 0x00];
    let t = extract_tls_info(&tlvs).unwrap();
    assert_eq!(t.client_cert_cn, Some("A".to_string()));
    assert!(!t.client_cert_verified);
}

#[test]
fn later_ssl_block_sets_flag_but_keeps_cn() {
    let mut first = vec![0x04, 0, 0, 0, 0];
    first.extend_from_slice(&tlv(0x02, b"nested"));
    let mut tlvs = tlv(0x20, &first);
    tlvs.extend_from_slice(&tlv(0x20, &[0x00, 0, 0, 0, 0]));
    let t = extract_tls_info(&tlvs).unwrap();
    assert_eq!(t.client_cert_cn, Some("nested".to_string()));
    assert!(!t.client_cert_verified);
}

#[test]
fn v1_info_builds_metadata() {
    let info = v1_info(V1Addresses::Tcp4(0xc0a80101, 0x0a000001, 12345, 80));
    assert_eq!(info.client_addr, SocketAddress::v4([192, 168, 1, 1], 12345));
    assert_eq!(info.server_addr, Some(SocketAddress::v4([10, 0, 0, 1], 80)));
    assert_eq!(info.version, ProxyVersion::V1);
    assert!(info.tls_info.is_none());
    let info = v1_info(V1Addresses::Tcp6(1, 2, 5, 6));
    assert_eq!(info.client_addr, SocketAddress { ip: IpAddress::V6(1), port: 5 });
    assert_eq!(info.server_addr, Some(SocketAddress { ip: IpAddress::V6(2), port: 6 }));
    let info = v1_info(V1Addresses::Unknown);
    assert_eq!(info.client_addr, SocketAddress::unspecified());
    assert_eq!(info.server_addr, None);
}

#[test]
fn v1_unknown_with_up_to_four_spaces() {
    for spaces in 0..5 {
        let mut line = b"PROXY UNKNOWN".to_vec();
        line.extend(std::iter::repeat(b' ').take(spaces));
        line.extend_from_slice(b"\r\nrest-of-stream");
        let (info, rest) = decode_header(&line, false).unwrap();
        assert_eq!(info.client_addr, SocketAddress::unspecified());
        assert_eq!(info.server_addr, None);
        assert_eq!(rest, b"rest-of-stream".to_vec());
    }
}

#[test]
fn last_authority_wins() {
    let mut tlvs = tlv(0x02, b"first.example");
    tlvs.extend_from_slice(&tlv(0x02, b"second.example"));
    tlvs.extend_from_slice(&tlv(0x02, &[0xff]));
    let input = v2_ipv4_header(&tlvs);
    let (info, _) = parse_header_bytes(&input, true).unwrap();
    assert_eq!(info.tls_info.unwrap().sni, Some("second.example".to_string()));
}

#[test]
fn short_streams_close() {
    let mut h = PROXY_V2_SIGNATURE.to_vec();
    h.extend_from_slice(&[0x21, 0x11, 0, 12, 1, 2]);
    assert!(matches!(parse_header_bytes(&h, false), Err(ProxyError::ConnectionClosed)));
    assert!(matches!(parse_header_bytes(&h[..16], false), Err(ProxyError::ConnectionClosed)));
    assert!(matches!(parse_header_bytes(b"PROXY TCP4 1.2.3.4 5", false), Err(ProxyError::ConnectionClosed)));
    assert!(matches!(parse_header_bytes(b"PROX", false), Err(ProxyError::ConnectionClosed)));
}
