//! Dispatch between the two formats, and reading a header off the front of
//! a byte sequence.

use crate::frame::{
    crlf_at, detect_version, frame_outcome, frame_run, frame_state, has_crlf, has_v1_signature,
    has_v2_signature, read_header, v2_total_len, version_of, FrameOutcome, FrameState,
};
use crate::tlv::{last_cn, last_flag, last_sni, lemma_tls_last_wins, tls_informative, tlv_walk};
use crate::types::TlsView;
use crate::types::{ProxyError, ProxyInfo, ProxyInfoView, ProxyVersion};
use crate::v1::{
    parse_v1_header, starts_with_unknown_line, v1_decodable, v1_decoded, v1_end, v1_unknown_line,
    v1_view, V1Addresses,
};
use crate::frame::v1_signature;
use crate::v2::{parse_v2_header, v2_decoded, v2_end, v2_tlvs, v2_valid};
use vstd::prelude::*;

verus! {

/// Whether `s` starts with a header that decodes, in the format its
/// signature announces.
#[verifier::opaque]
pub open spec fn decodable(s: Seq<u8>) -> bool {
    match version_of(s) {
        Some(ProxyVersion::V1) => v1_decodable(s),
        Some(ProxyVersion::V2) => v2_valid(s),
        None => false,
    }
}

/// What a decodable buffer decodes to.
#[verifier::opaque]
pub open spec fn decoded(s: Seq<u8>, parse_tls_info: bool) -> ProxyInfoView {
    match version_of(s) {
        Some(ProxyVersion::V2) => v2_decoded(s, parse_tls_info),
        _ => v1_decoded(s),
    }
}

/// Where the header of a decodable buffer ends.
#[verifier::opaque]
pub open spec fn header_end(s: Seq<u8>) -> int {
    match version_of(s) {
        Some(ProxyVersion::V2) => v2_end(s) as int,
        _ => v1_end(s),
    }
}

/// Decodes the header at the start of `buf` in the format its signature
/// announces, and returns the bytes after the header.
pub fn decode_header(buf: &[u8], parse_tls_info: bool) -> (r: Result<(ProxyInfo, Vec<u8>), ProxyError>)
    ensures
        match r {
            Ok((info, rest)) => decodable(buf@) && info@ == decoded(buf@, parse_tls_info) && rest@
                == buf@.skip(header_end(buf@)) && 0 <= header_end(buf@) <= buf@.len(),
            Err(e) => !decodable(buf@) && if version_of(buf@) is None {
                e is NotProxyProtocol
            } else {
                e is InvalidHeader
            },
        },
        !has_v2_signature(buf@) && starts_with_unknown_line(buf@) ==> match r {
            Ok((info, _)) => info@ == v1_view(V1Addresses::Unknown),
            Err(_) => false,
        },
{
    proof {
        if starts_with_unknown_line(buf@) {
            let k = choose|k: int|
                0 <= k <= 4 && buf@.len() >= 15 + k && #[trigger] buf@.take(15 + k) == v1_unknown_line(
                    k as nat,
                );
            assert(buf@.take(15 + k).take(6) =~= v1_signature());
            assert(buf@.take(6) =~= buf@.take(15 + k).take(6));
        }
    }
    reveal(decoded);
    reveal(decodable);
    reveal(header_end);
    match detect_version(buf) {
        Some(ProxyVersion::V2) => parse_v2_header(buf, parse_tls_info),
        Some(ProxyVersion::V1) => parse_v1_header(buf),
        None => Err(ProxyError::NotProxyProtocol),
    }
}

/// Reads a header off the front of `input`, which stands for everything a
/// stream delivers, exactly as from a stream: framing first, then decoding.
/// Returns the metadata and every byte of `input` after the header.
pub fn parse_header_bytes(input: &[u8], parse_tls_info: bool) -> (r: Result<(ProxyInfo, Vec<u8>), ProxyError>)
    ensures
        match frame_outcome(input@) {
            FrameOutcome::Framed(n) => {
                let h = input@.take(n as int);
                match r {
                    Ok((info, rest)) => decodable(h) && info@ == decoded(h, parse_tls_info) && rest@
                        == input@.skip(header_end(h)),
                    Err(e) => !decodable(h) && e is InvalidHeader,
                }
            },
            FrameOutcome::Closed => r is Err && r->Err_0 is ConnectionClosed,
            FrameOutcome::Oversized => r is Err && r->Err_0 is InvalidHeader,
            FrameOutcome::Unrecognized => r is Err && r->Err_0 is NotProxyProtocol,
        },
        input@.len() >= 16 && starts_with_unknown_line(input@) ==> match r {
            Ok((info, _)) => info@ == v1_view(V1Addresses::Unknown),
            Err(_) => false,
        },
{
    proof {
        if input@.len() >= 16 && starts_with_unknown_line(input@) {
            lemma_unknown_line_framed(input@);
        }
    }
    let n = match read_header(input) {
        Ok(n) => n,
        Err(e) => {
            return Err(e);
        },
    };
    proof {
        lemma_framed_header_signed(input@);
    }
    let header = vstd::slice::slice_subrange(input, 0, n);
    assert(header@ =~= input@.take(n as int));
    assert(frame_outcome(input@) == FrameOutcome::Framed(n as nat));
    match decode_header(header, parse_tls_info) {
        Ok((info, leftover)) => {
            assert(leftover@.len() == n - header_end(header@));
            let end = n - leftover.len();
            let rest = vstd::slice::slice_to_vec(vstd::slice::slice_subrange(input, end, input.len()));
            assert(rest@ =~= input@.skip(header_end(header@)));
            Ok((info, rest))
        },
        Err(e) => Err(e),
    }
}

/// A framed header carries one of the two signatures.
proof fn lemma_framed_has_signature(s: Seq<u8>, k: nat)
    requires
        frame_run(s, k) is Framed,
    ensures
        version_of(s.take(frame_run(s, k)->Framed_0 as int)) is Some,
        frame_run(s, k)->Framed_0 <= s.len(),
    decreases s.len() - k,
{
    if k <= s.len() {
        match frame_state(s.take(k as int)) {
            FrameState::Need(n) => {
                if k < s.len() && n != 0 {
                    if k + n > s.len() {
                        lemma_framed_has_signature(s, s.len());
                    } else {
                        lemma_framed_has_signature(s, k + n);
                    }
                }
            },
            _ => {},
        }
    }
}

proof fn lemma_framed_header_signed(s: Seq<u8>)
    requires
        frame_outcome(s) is Framed,
    ensures
        version_of(s.take(frame_outcome(s)->Framed_0 as int)) is Some,
        frame_outcome(s)->Framed_0 <= s.len(),
{
    reveal(frame_outcome);
    lemma_framed_has_signature(s, 0);
}

/// The first CR LF pair of a buffer that has one.
proof fn lemma_first_crlf(s: Seq<u8>, i: int)
    requires
        crlf_at(s, i),
    ensures
        crlf_at(s, crate::v1::first_crlf(s)),
        forall|j: int| 0 <= j < crate::v1::first_crlf(s) ==> !crlf_at(s, j),
    decreases i,
{
    if exists|j: int| 0 <= j < i && crlf_at(s, j) {
        let j = choose|j: int| 0 <= j < i && crlf_at(s, j);
        lemma_first_crlf(s, j);
    } else {
        assert(crlf_at(s, i) && forall|j: int| 0 <= j < i ==> !crlf_at(s, j));
    }
}

/// The header of a decodable buffer ends within it.
pub proof fn lemma_header_end_bounded(h: Seq<u8>)
    requires
        decodable(h),
    ensures
        0 <= header_end(h) <= h.len(),
{
    reveal(decodable);
    reveal(header_end);
    if version_of(h) == Some(ProxyVersion::V1) {
        let i = choose|i: int| crlf_at(h, i);
        lemma_first_crlf(h, i);
    }
}

/// TLS metadata is only ever handed out when one of its fields carries
/// information.
pub proof fn lemma_tls_info_informative(s: Seq<u8>, parse_tls_info: bool)
    ensures
        decoded(s, parse_tls_info).tls_info is Some ==> tls_informative(
            decoded(s, parse_tls_info).tls_info->0,
        ),
{
    reveal(decoded);
}

/// Without the request for TLS metadata, none is returned, whatever the
/// trailer holds.
pub proof fn lemma_tls_opt_out(s: Seq<u8>)
    ensures
        decoded(s, false).tls_info is None,
{
    reveal(decoded);
}

/// With TLS metadata asked for, a v2 header reports the server name of its
/// last valid authority record, the common name met last in either
/// encoding, and the flag of its last SSL block; and reports nothing where
/// none of the three is present.
pub proof fn lemma_v2_tls_last_wins(s: Seq<u8>)
    requires
        version_of(s) == Some(ProxyVersion::V2),
    ensures
        ({
            let recs = tlv_walk(v2_tlvs(s));
            let t = TlsView {
                sni: last_sni(recs),
                client_cert_cn: last_cn(recs),
                client_cert_verified: last_flag(recs),
            };
            decoded(s, true).tls_info == if tls_informative(t) {
                Some(t)
            } else {
                None
            }
        }),
{
    reveal(decoded);
    lemma_tls_last_wins(tlv_walk(v2_tlvs(s)));
}

proof fn lemma_v1_run_closed(s: Seq<u8>, k: nat)
    requires
        16 <= k <= s.len() < 107,
        !has_v2_signature(s),
        has_v1_signature(s),
        !has_crlf(s),
    ensures
        frame_run(s, k) == FrameOutcome::Closed,
    decreases s.len() - k,
{
    let t = s.take(k as int);
    assert(t.take(12) =~= s.take(12));
    assert(t.take(6) =~= s.take(6));
    assert(!has_crlf(t)) by {
        if has_crlf(t) {
            let i = choose|i: int| crlf_at(t, i);
            assert(crlf_at(s, i));
        }
    }
    if k < s.len() {
        lemma_v1_run_closed(s, k + 1);
    }
}

/// A stream that ends before its header is complete fails as closed: before
/// the 16-byte prefix, inside a v2 header of allowed size, or inside a v1
/// line that is still short of 107 bytes and has no CR LF.
pub proof fn lemma_short_stream_closed(s: Seq<u8>)
    requires
        s.len() < 16 || (has_v2_signature(s) && v2_total_len(s) <= 536 && s.len() < v2_total_len(
            s,
        )) || (!has_v2_signature(s) && has_v1_signature(s) && s.len() < 107 && !has_crlf(s)),
    ensures
        frame_outcome(s) == FrameOutcome::Closed,
{
    reveal(frame_outcome);
    let all = s.take(s.len() as int);
    assert(all =~= s);
    if s.len() < 16 {
        assert(frame_state(s.take(0)) == FrameState::Need(16));
        if s.len() > 0 {
            assert(frame_state(all) == FrameState::Need((16 - s.len()) as nat));
            assert(frame_run(s, s.len()) == FrameOutcome::Closed);
            assert(frame_run(s, 0) == frame_run(s, s.len()));
        }
    } else {
        lemma_run_reaches_prefix(s);
        if has_v2_signature(s) {
            let p = s.take(16);
            assert(v2_total_len(p) == v2_total_len(s));
            assert(frame_state(p) == FrameState::Need((v2_total_len(s) - 16) as nat));
            if s.len() > 16 {
                assert(frame_state(all) == FrameState::Need((v2_total_len(s) - s.len()) as nat));
                assert(frame_run(s, s.len()) == FrameOutcome::Closed);
                assert(frame_run(s, 16) == frame_run(s, s.len()));
            }
        } else {
            lemma_v1_run_closed(s, 16);
        }
    }
}

proof fn lemma_v1_run_to_crlf(s: Seq<u8>, k: nat, c: int)
    requires
        0 <= c,
        crlf_at(s, c),
        forall|j: int| 0 <= j < c ==> !crlf_at(s, j),
        has_v1_signature(s),
        !has_v2_signature(s),
        c + 2 <= 107,
        16 <= k <= s.len(),
        k == 16 || k <= c + 2,
    ensures
        frame_run(s, k) == FrameOutcome::Framed(if k >= c + 2 {
            k
        } else {
            (c + 2) as nat
        }),
    decreases s.len() - k,
{
    let t = s.take(k as int);
    assert(t.take(12) =~= s.take(12));
    assert(t.take(6) =~= s.take(6));
    if k >= c + 2 {
        assert(crlf_at(t, c));
    } else {
        assert(!has_crlf(t)) by {
            if has_crlf(t) {
                let i = choose|i: int| crlf_at(t, i);
                assert(crlf_at(s, i));
            }
        }
        lemma_v1_run_to_crlf(s, k + 1, c);
    }
}

/// A stream that starts with a whole v1 line of at most 107 bytes, and
/// holds at least the 16-byte prefix, is framed at the prefix if the line
/// ends within it, else just past the line's first CR LF.
pub proof fn lemma_v1_line_framed(s: Seq<u8>)
    requires
        s.len() >= 16,
        has_v1_signature(s),
        !has_v2_signature(s),
        has_crlf(s),
        v1_end(s) <= 107,
    ensures
        frame_outcome(s) == FrameOutcome::Framed(if v1_end(s) <= 16 {
            16nat
        } else {
            v1_end(s) as nat
        }),
{
    let i = choose|i: int| crlf_at(s, i);
    lemma_first_crlf(s, i);
    let c = crate::v1::first_crlf(s);
    lemma_run_reaches_prefix(s);
    lemma_v1_run_to_crlf(s, 16, c);
}

/// A stream that starts with an UNKNOWN line of at most four spaces, and
/// holds at least the 16-byte prefix, is framed so that the header read
/// starts with that line.
pub proof fn lemma_unknown_line_framed(s: Seq<u8>)
    requires
        s.len() >= 16,
        starts_with_unknown_line(s),
    ensures
        frame_outcome(s) is Framed,
        starts_with_unknown_line(s.take(frame_outcome(s)->Framed_0 as int)),
        !has_v2_signature(s.take(frame_outcome(s)->Framed_0 as int)),
{
    let k = choose|k: int|
        0 <= k <= 4 && s.len() >= 15 + k && #[trigger] s.take(15 + k) == v1_unknown_line(k as nat);
    let u = v1_unknown_line(k as nat);
    assert(u.len() == 15 + k);
    assert forall|j: int| 0 <= j < 13 + k implies !crlf_at(s, j) by {
        assert(s.take(15 + k)[j] == u[j]);
    }
    assert(s[13 + k] == s.take(15 + k)[13 + k]);
    assert(s[14 + k] == s.take(15 + k)[14 + k]);
    assert(crlf_at(s, 13 + k));
    assert(s.take(15 + k).take(6) =~= v1_signature());
    assert(s.take(6) =~= s.take(15 + k).take(6));
    assert(s[0] == s.take(15 + k)[0]);
    assert(!has_v2_signature(s)) by {
        if has_v2_signature(s) {
            assert(s.take(12)[0] == s[0]);
        }
    }
    lemma_run_reaches_prefix(s);
    lemma_v1_run_to_crlf(s, 16, 13 + k);
    let n = frame_outcome(s)->Framed_0;
    let h = s.take(n as int);
    assert(h.take(15 + k) =~= s.take(15 + k));
    assert(h.take(12)[0] == s[0]);
}

/// The padded UNKNOWN line `"PROXY UNKNOWN  \r\n"`, with any bytes after it,
/// is an UNKNOWN line in the sense the decoders state.
pub proof fn lemma_padded_unknown_line(rest: Seq<u8>)
    ensures
        starts_with_unknown_line(v1_unknown_line(2) + rest),
{
    let s = v1_unknown_line(2) + rest;
    assert(s.take(17) =~= v1_unknown_line(2));
    let k: int = 2;
    assert(s.take(15 + k) == v1_unknown_line(k as nat));
}

/// A stream that ends before any byte arrives fails as closed.
pub proof fn lemma_empty_stream_closed(s: Seq<u8>)
    requires
        s.len() == 0,
    ensures
        frame_outcome(s) == FrameOutcome::Closed,
{
    reveal(frame_outcome);
    assert(frame_state(s.take(0)) == FrameState::Need(16));
}

/// After the first 16 bytes, the frame reader goes on exactly as it does
/// from the prefix alone.
proof fn lemma_run_reaches_prefix(s: Seq<u8>)
    requires
        s.len() >= 16,
    ensures
        frame_outcome(s) == frame_run(s, 16),
        has_v2_signature(s.take(16)) == has_v2_signature(s),
        has_v1_signature(s.take(16)) == has_v1_signature(s),
{
    reveal(frame_outcome);
    assert(s.take(0).len() == 0);
    assert(frame_state(s.take(0)) == FrameState::Need(16));
    assert(s.take(16).take(12) =~= s.take(12));
    assert(s.take(16).take(6) =~= s.take(6));
}

/// A stream of at least 16 bytes that starts with neither signature is
/// reported as carrying no PROXY header, never as another failure.
pub proof fn lemma_no_signature_not_proxy(s: Seq<u8>)
    requires
        s.len() >= 16,
        !has_v2_signature(s),
        !has_v1_signature(s),
    ensures
        frame_outcome(s) == FrameOutcome::Unrecognized,
{
    lemma_run_reaches_prefix(s);
}

/// A v2 prefix that announces more than 536 bytes in all is refused as
/// invalid once the 16-byte prefix is in, before any of the payload is read.
pub proof fn lemma_v2_oversized_refused(s: Seq<u8>)
    requires
        s.len() >= 16,
        has_v2_signature(s),
        v2_total_len(s) > 536,
    ensures
        frame_outcome(s) == FrameOutcome::Oversized,
{
    lemma_run_reaches_prefix(s);
    assert(v2_total_len(s.take(16)) == v2_total_len(s));
}

proof fn lemma_v1_run_without_crlf(s: Seq<u8>, k: nat)
    requires
        16 <= k <= 107 <= s.len(),
        !has_v2_signature(s),
        has_v1_signature(s),
        !has_crlf(s.take(107)),
    ensures
        frame_run(s, k) == FrameOutcome::Oversized,
    decreases 107 - k,
{
    let t = s.take(k as int);
    assert(t.take(12) =~= s.take(12));
    assert(t.take(6) =~= s.take(6));
    assert(!has_crlf(t)) by {
        if has_crlf(t) {
            let i = choose|i: int| crlf_at(t, i);
            assert(crlf_at(s.take(107), i));
        }
    }
    if k < 107 {
        lemma_v1_run_without_crlf(s, k + 1);
    }
}

/// A v1 stream with no CR LF in its first 107 bytes is refused as invalid
/// after those bytes, without waiting for more.
pub proof fn lemma_v1_too_long_refused(s: Seq<u8>)
    requires
        s.len() >= 107,
        !has_v2_signature(s),
        has_v1_signature(s),
        !has_crlf(s.take(107)),
    ensures
        frame_outcome(s) == FrameOutcome::Oversized,
{
    lemma_run_reaches_prefix(s);
    lemma_v1_run_without_crlf(s, 16);
}

/// Where a run of the frame reader can stand after `k` bytes: before the
/// prefix is complete, or within the header it announces.
pub open spec fn reachable(s: Seq<u8>, k: nat) -> bool {
    ||| k == 0
    ||| 16 <= k && (has_v2_signature(s) ==> k <= v2_total_len(s)) && (!has_v2_signature(s)
        && has_v1_signature(s) ==> k <= 107 && (k == 16 || !has_crlf(s.take(k - 1))))
}

proof fn lemma_run_exact(s: Seq<u8>, k: nat)
    requires
        k <= s.len(),
        reachable(s, k),
        frame_run(s, k) is Framed,
    ensures
        ({
            let n = frame_run(s, k)->Framed_0;
            &&& s.len() >= 16
            &&& has_v2_signature(s) ==> n == v2_total_len(s)
            &&& !has_v2_signature(s) && has_v1_signature(s) ==> 16 <= n <= 107 && has_crlf(
                s.take(n as int),
            ) && (n == 16 || !has_crlf(s.take(n - 1)))
        }),
    decreases s.len() - k,
{
    let t = s.take(k as int);
    if k >= 16 {
        assert(t.take(12) =~= s.take(12));
        assert(t.take(6) =~= s.take(6));
    }
    match frame_state(t) {
        FrameState::Need(m) => {
            let next = if k + m > s.len() {
                s.len()
            } else {
                k + m
            };
            if k == 0 && s.len() < 16 {
                assert(frame_state(s.take(s.len() as int)) == FrameState::Need((16 - s.len()) as nat));
            } else {
                assert(k < s.len() && m != 0);
                assert(frame_run(s, k) == frame_run(s, next));
                lemma_run_exact(s, next);
            }
        },
        _ => {},
    }
}

/// The frame reader stops exactly at the end of the header: for v2 at the
/// size its prefix announces; for v1 at the 16-byte prefix if that already
/// holds a CR LF, else just past the first CR LF, and never past 107 bytes.
pub proof fn lemma_framing_is_exact(s: Seq<u8>)
    requires
        frame_outcome(s) is Framed,
    ensures
        ({
            let n = frame_outcome(s)->Framed_0;
            &&& has_v2_signature(s) ==> n == v2_total_len(s)
            &&& !has_v2_signature(s) && has_v1_signature(s) ==> 16 <= n <= 107 && has_crlf(
                s.take(n as int),
            ) && (n == 16 || !has_crlf(s.take(n - 1)))
        }),
{
    reveal(frame_outcome);
    lemma_run_exact(s, 0);
}

/// The header bytes followed by what is handed back give the input again:
/// nothing is lost or repeated at the header's boundary, and the boundary
/// lies within what the frame reader read.
pub proof fn lemma_header_and_rest_restore_input(s: Seq<u8>)
    requires
        frame_outcome(s) is Framed,
        decodable(s.take(frame_outcome(s)->Framed_0 as int)),
    ensures
        ({
            let n = frame_outcome(s)->Framed_0;
            let e = header_end(s.take(n as int));
            0 <= e <= n && s.take(e) + s.skip(e) == s
        }),
{
    let n = frame_outcome(s)->Framed_0;
    lemma_framed_header_signed(s);
    let h = s.take(n as int);
    let e = header_end(h);
    lemma_header_end_bounded(h);
    assert(s.take(e) + s.skip(e) =~= s);
}

} // verus!
