//! Version detection and framing: how many bytes of a stream belong to the
//! header, decided from the bytes read so far.

use crate::types::{ProxyError, ProxyVersion};
use vstd::prelude::*;

verus! {

/// The v1 signature, `"PROXY "`.
pub const PROXY_V1_SIGNATURE: [u8; 6] = [0x50, 0x52, 0x4f, 0x58, 0x59, 0x20];

/// The v2 signature, `"\r\n\r\n\0\r\nQUIT\n"`.
pub const PROXY_V2_SIGNATURE: [u8; 12] = [
    0x0d,
    0x0a,
    0x0d,
    0x0a,
    0x00,
    0x0d,
    0x0a,
    0x51,
    0x55,
    0x49,
    0x54,
    0x0a,
];

/// Bytes read before the version is decided: the v2 prefix.
pub const PREFIX_LEN: usize = 16;

/// Largest header accepted, prefix included.
pub const MAX_HEADER_SIZE: usize = 536;

/// Largest v1 line, CRLF included.
pub const MAX_V1_LEN: usize = 107;

pub open spec fn v1_signature() -> Seq<u8> {
    seq![0x50u8, 0x52, 0x4f, 0x58, 0x59, 0x20]
}

pub open spec fn v2_signature() -> Seq<u8> {
    seq![0x0du8, 0x0a, 0x0d, 0x0a, 0x00, 0x0d, 0x0a, 0x51, 0x55, 0x49, 0x54, 0x0a]
}

pub open spec fn has_v2_signature(s: Seq<u8>) -> bool {
    s.len() >= 12 && s.take(12) == v2_signature()
}

pub open spec fn has_v1_signature(s: Seq<u8>) -> bool {
    s.len() >= 6 && s.take(6) == v1_signature()
}

/// The version a buffer announces: v2 first, then v1.
pub open spec fn version_of(s: Seq<u8>) -> Option<ProxyVersion> {
    if has_v2_signature(s) {
        Some(ProxyVersion::V2)
    } else if has_v1_signature(s) {
        Some(ProxyVersion::V1)
    } else {
        None
    }
}

/// A CR LF pair starts at `i`.
pub open spec fn crlf_at(s: Seq<u8>, i: int) -> bool {
    0 <= i && i + 1 < s.len() && s[i] == 0x0d && s[i + 1] == 0x0a
}

pub open spec fn has_crlf(s: Seq<u8>) -> bool {
    exists|i: int| crlf_at(s, i)
}

/// Total size of a v2 header announced by its prefix: the prefix and the
/// big-endian length in bytes 14 and 15.
pub open spec fn v2_total_len(s: Seq<u8>) -> nat {
    16 + s[14] as nat * 256 + s[15] as nat
}

/// Where framing stands after the bytes `s` have been read.
pub enum FrameState {
    /// This many more bytes may be read without passing the header's end.
    Need(nat),
    /// `s` holds a whole header.
    Complete,
    /// The header would be larger than allowed.
    Oversized,
    /// The stream carries neither signature.
    Unrecognized,
}

pub open spec fn frame_state(s: Seq<u8>) -> FrameState {
    if s.len() < 16 {
        FrameState::Need((16 - s.len()) as nat)
    } else if has_v2_signature(s) {
        if v2_total_len(s) > 536 {
            FrameState::Oversized
        } else if s.len() >= v2_total_len(s) {
            FrameState::Complete
        } else {
            FrameState::Need((v2_total_len(s) - s.len()) as nat)
        }
    } else if has_v1_signature(s) {
        if has_crlf(s) {
            FrameState::Complete
        } else if s.len() >= 107 {
            FrameState::Oversized
        } else {
            FrameState::Need(1)
        }
    } else {
        FrameState::Unrecognized
    }
}

/// How reading a header from a stream that holds exactly `s` ends, once
/// `k` bytes of it have been read; each read asks for what `frame_state`
/// allows and gets as much of it as the stream still has.
pub enum FrameOutcome {
    /// The header is the first this many bytes.
    Framed(nat),
    Closed,
    Oversized,
    Unrecognized,
}

pub open spec fn frame_run(s: Seq<u8>, k: nat) -> FrameOutcome
    decreases s.len() - k,
{
    if k > s.len() {
        FrameOutcome::Closed
    } else {
        match frame_state(s.take(k as int)) {
            FrameState::Complete => FrameOutcome::Framed(k),
            FrameState::Oversized => FrameOutcome::Oversized,
            FrameState::Unrecognized => FrameOutcome::Unrecognized,
            FrameState::Need(n) => {
                if k >= s.len() || n == 0 {
                    FrameOutcome::Closed
                } else if k + n > s.len() {
                    frame_run(s, s.len())
                } else {
                    frame_run(s, k + n)
                }
            },
        }
    }
}

/// How reading a header from a stream that holds exactly `s` ends.
#[verifier::opaque]
pub open spec fn frame_outcome(s: Seq<u8>) -> FrameOutcome {
    frame_run(s, 0)
}

fn prefix_equals(buf: &[u8], sig: &[u8]) -> (r: bool)
    ensures
        r == (buf@.len() >= sig@.len() && buf@.take(sig@.len() as int) == sig@),
{
    if buf.len() < sig.len() {
        return false;
    }
    let mut i: usize = 0;
    while i < sig.len()
        invariant
            i <= sig@.len() <= buf@.len(),
            forall|j: int| 0 <= j < i ==> buf@[j] == sig@[j],
        decreases sig.len() - i,
    {
        if buf[i] != sig[i] {
            assert(buf@.take(sig@.len() as int)[i as int] != sig@[i as int]);
            return false;
        }
        i = i + 1;
    }
    assert(buf@.take(sig@.len() as int) =~= sig@);
    true
}

/// Whether `buf` starts with the v2 signature.
pub fn starts_with_v2_signature(buf: &[u8]) -> (r: bool)
    ensures
        r == has_v2_signature(buf@),
{
    let sig = PROXY_V2_SIGNATURE;
    assert(sig@ =~= v2_signature());
    prefix_equals(buf, sig.as_slice())
}

/// Whether `buf` starts with the v1 signature.
pub fn starts_with_v1_signature(buf: &[u8]) -> (r: bool)
    ensures
        r == has_v1_signature(buf@),
{
    let sig = PROXY_V1_SIGNATURE;
    assert(sig@ =~= v1_signature());
    prefix_equals(buf, sig.as_slice())
}

/// Classifies a buffer by its signature.
pub fn detect_version(buf: &[u8]) -> (r: Option<ProxyVersion>)
    ensures
        r == version_of(buf@),
{
    if starts_with_v2_signature(buf) {
        Some(ProxyVersion::V2)
    } else if starts_with_v1_signature(buf) {
        Some(ProxyVersion::V1)
    } else {
        None
    }
}

/// The position of the first CR LF pair in `buf`.
pub fn find_crlf(buf: &[u8]) -> (r: Option<usize>)
    ensures
        match r {
            Some(i) => crlf_at(buf@, i as int) && forall|j: int| 0 <= j < i ==> !crlf_at(buf@, j),
            None => !has_crlf(buf@),
        },
{
    let mut i: usize = 0;
    while i < buf.len() && buf.len() - i >= 2
        invariant
            i <= buf@.len(),
            forall|j: int| 0 <= j < i ==> !crlf_at(buf@, j),
        decreases buf.len() - i,
    {
        if buf[i] == 0x0d && buf[i + 1] == 0x0a {
            return Some(i);
        }
        i = i + 1;
    }
    assert forall|j: int| !crlf_at(buf@, j) by {
        if 0 <= j && j >= i {
        }
    }
    None
}

/// The v2 header size announced by a prefix.
pub fn v2_header_len(buf: &[u8]) -> (r: usize)
    requires
        buf@.len() >= 16,
    ensures
        r == v2_total_len(buf@),
{
    16 + (buf[14] as usize) * 256 + buf[15] as usize
}

/// The framing decision after the bytes `buf` have been read: `Ok(n)` with
/// `n > 0` asks for at most `n` more bytes, `Ok(0)` says the header is
/// complete.
pub fn bytes_needed(buf: &[u8]) -> (r: Result<usize, ProxyError>)
    ensures
        match frame_state(buf@) {
            FrameState::Need(n) => r == Ok::<usize, ProxyError>(n as usize),
            FrameState::Complete => r == Ok::<usize, ProxyError>(0),
            FrameState::Oversized => r is Err && r->Err_0 is InvalidHeader,
            FrameState::Unrecognized => r is Err && r->Err_0 is NotProxyProtocol,
        },
{
    if buf.len() < PREFIX_LEN {
        return Ok(PREFIX_LEN - buf.len());
    }
    if starts_with_v2_signature(buf) {
        let total = v2_header_len(buf);
        if total > MAX_HEADER_SIZE {
            Err(ProxyError::InvalidHeader("v2 header too large".to_string()))
        } else if buf.len() >= total {
            Ok(0)
        } else {
            Ok(total - buf.len())
        }
    } else if starts_with_v1_signature(buf) {
        if find_crlf(buf).is_some() {
            Ok(0)
        } else if buf.len() >= MAX_V1_LEN {
            Err(ProxyError::InvalidHeader("v1 header too long".to_string()))
        } else {
            Ok(1)
        }
    } else {
        Err(ProxyError::NotProxyProtocol)
    }
}

/// Frames a header at the start of `input`, which stands for everything a
/// stream will ever deliver: reads only what `bytes_needed` allows and
/// returns the header's length.
pub fn read_header(input: &[u8]) -> (r: Result<usize, ProxyError>)
    ensures
        match frame_outcome(input@) {
            FrameOutcome::Framed(n) => r is Ok && r->Ok_0 == n,
            FrameOutcome::Closed => r is Err && r->Err_0 is ConnectionClosed,
            FrameOutcome::Oversized => r is Err && r->Err_0 is InvalidHeader,
            FrameOutcome::Unrecognized => r is Err && r->Err_0 is NotProxyProtocol,
        },
{
    reveal(frame_outcome);
    let mut k: usize = 0;
    loop
        invariant
            k <= input@.len(),
            frame_run(input@, k as nat) == frame_outcome(input@),
        decreases input@.len() - k,
    {
        let read = vstd::slice::slice_subrange(input, 0, k);
        assert(read@ =~= input@.take(k as int));
        match bytes_needed(read) {
            Err(e) => {
                return Err(e);
            },
            Ok(n) => {
                if n == 0 {
                    return Ok(k);
                }
                if k == input.len() {
                    return Err(ProxyError::ConnectionClosed);
                }
                if n > input.len() - k {
                    k = input.len();
                } else {
                    k = k + n;
                }
            },
        }
    }
}

} // verus!
