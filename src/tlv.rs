//! The TLV trailer of a v2 header and the TLS metadata it carries.

use crate::types::{ProxyTlsInfo, TlsView, string_opt_view};
use vstd::prelude::*;
use vstd::utf8::{decode_utf8, valid_utf8};

verus! {

/// TLV type of the authority (server name).
pub const PP2_TYPE_AUTHORITY: u8 = 0x02;

/// TLV type of the SSL block.
pub const PP2_TYPE_SSL: u8 = 0x20;

/// TLV type of the client certificate's common name.
pub const PP2_SUBTYPE_SSL_CN: u8 = 0x22;

/// Sub-TLV type of the common name inside an SSL block.
pub const SSL_SUB_CN: u8 = 0x02;

/// Client flag: a certificate was presented on this connection.
pub const PP2_CLIENT_CERT_CONN: u8 = 0x04;

/// The big-endian 16-bit length stored at `s[i]`, `s[i + 1]`.
pub open spec fn be16_at(s: Seq<u8>, i: int) -> nat {
    s[i] as nat * 256 + s[i + 1] as nat
}

/// The records of a TLV region in order: `Some((type, value))` for each
/// whole record, and a final `None` where the bytes left are too few for the
/// record they announce.
pub open spec fn tlv_walk(s: Seq<u8>) -> Seq<Option<(u8, Seq<u8>)>>
    decreases s.len(),
{
    if s.len() == 0 {
        seq![]
    } else if s.len() < 3 || s.len() < 3 + be16_at(s, 1) {
        seq![None]
    } else {
        let n = 3 + be16_at(s, 1);
        seq![Some((s[0], s.subrange(3, n as int)))] + tlv_walk(s.skip(n as int))
    }
}

/// One record of a TLV region.
pub struct TlvRecord {
    pub kind: u8,
    pub value: Vec<u8>,
}

pub open spec fn record_view(o: Option<TlvRecord>) -> Option<(u8, Seq<u8>)> {
    match o {
        Some(t) => Some((t.kind, t.value@)),
        None => None,
    }
}

/// Relies on ppp's `v2::TypeLengthValues` iterator: it yields each whole
/// record (type byte, 16-bit big-endian length, value), then one error
/// where the remaining bytes are too few, and stops.
#[verifier::external_body]
fn tlv_records(bytes: &[u8]) -> (r: Vec<Option<TlvRecord>>)
    ensures
        r@.len() == tlv_walk(bytes@).len(),
        forall|i: int| 0 <= i < r@.len() ==> record_view(#[trigger] r@[i]) == tlv_walk(bytes@)[i],
{
    let mut r = Vec::new();
    for t in ppp::v2::TypeLengthValues::from(bytes) {
        r.push(match t {
            Ok(t) => Some(TlvRecord { kind: t.kind, value: t.value.to_vec() }),
            Err(_) => None,
        });
    }
    r
}

/// The text of a byte string that is valid UTF-8.
pub open spec fn utf8_of(b: Seq<u8>) -> Option<Seq<char>> {
    if valid_utf8(b) {
        Some(decode_utf8(b))
    } else {
        None
    }
}

/// Relies on `std::str::from_utf8`: it accepts exactly the valid UTF-8
/// byte strings, and the text is their characters.
#[verifier::external_body]
fn utf8_text(b: &[u8]) -> (r: Option<String>)
    ensures
        string_opt_view(r) == utf8_of(b@),
{
    match std::str::from_utf8(b) {
        Ok(s) => Some(s.to_string()),
        Err(_) => None,
    }
}

/// The common name found in the sub-TLVs of an SSL block from offset `off`
/// on, `cn` standing for what was found before: the last valid UTF-8 value
/// of a CN sub-record wins; the walk stops at a record that does not fit.
pub open spec fn ssl_cn_from(v: Seq<u8>, off: nat, cn: Option<Seq<char>>) -> Option<Seq<char>>
    decreases v.len() - off,
{
    if off + 3 > v.len() {
        cn
    } else {
        let end = off + 3 + be16_at(v, off + 1 as int);
        if end > v.len() {
            cn
        } else {
            let found = if v[off as int] == 0x02 {
                match utf8_of(v.subrange(off + 3 as int, end as int)) {
                    Some(t) => Some(t),
                    None => cn,
                }
            } else {
                cn
            };
            ssl_cn_from(v, end, found)
        }
    }
}

/// Whether the client flags of an SSL block say a certificate was presented.
pub open spec fn ssl_verified(v: Seq<u8>) -> bool {
    v[0] & 0x04 != 0
}

/// An SSL block: `None` when shorter than the flags and verify fields,
/// else the common name and the certificate flag.
pub open spec fn ssl_view(v: Seq<u8>) -> Option<(Option<Seq<char>>, bool)> {
    if v.len() < 5 {
        None
    } else {
        Some((ssl_cn_from(v, 5, None), ssl_verified(v)))
    }
}

/// Reads an SSL block: its client flags, its verify code, and the common
/// name among its sub-TLVs.
pub fn parse_ssl_tlv(value: &[u8]) -> (r: Option<(Option<String>, bool)>)
    ensures
        match r {
            Some((cn, verified)) => ssl_view(value@) == Some((string_opt_view(cn), verified)),
            None => ssl_view(value@) is None,
        },
{
    if value.len() < 5 {
        return None;
    }
    let client_flags = value[0];
    let client_verified = (client_flags & PP2_CLIENT_CERT_CONN) != 0;
    let mut cn: Option<String> = None;
    let mut offset: usize = 5;
    while offset <= value.len() && value.len() - offset >= 3
        invariant
            5 <= offset <= value@.len(),
            client_verified == ssl_verified(value@),
            ssl_cn_from(value@, offset as nat, string_opt_view(cn)) == ssl_cn_from(value@, 5, None),
        decreases value.len() - offset,
    {
        let sub_type = value[offset];
        let sub_len = (value[offset + 1] as usize) * 256 + value[offset + 2] as usize;
        let start = offset + 3;
        if sub_len > value.len() - start {
            assert(ssl_cn_from(value@, offset as nat, string_opt_view(cn)) == string_opt_view(cn));
            return Some((cn, client_verified));
        }
        let end = start + sub_len;
        if sub_type == SSL_SUB_CN {
            let text = utf8_text(vstd::slice::slice_subrange(value, start, end));
            if text.is_some() {
                cn = text;
            }
        }
        offset = end;
    }
    Some((cn, client_verified))
}

/// The TLS metadata after one more record.
///
/// A common name comes either from a standalone CN record or from a CN
/// sub-record of an SSL block; the protocol sets no precedence between the
/// two, so the one met last in the trailer is kept. An SSL block without a
/// CN sub-record leaves the name found before it, and sets the certificate
/// flag from its own client flags.
pub open spec fn tls_step(st: TlsView, rec: Option<(u8, Seq<u8>)>) -> TlsView {
    match rec {
        None => st,
        Some((kind, v)) => {
            if kind == 0x02 {
                match utf8_of(v) {
                    Some(t) => TlsView {
                        sni: Some(t),
                        client_cert_cn: st.client_cert_cn,
                        client_cert_verified: st.client_cert_verified,
                    },
                    None => st,
                }
            } else if kind == 0x20 {
                match ssl_view(v) {
                    Some((cn, verified)) => TlsView {
                        sni: st.sni,
                        client_cert_cn: if cn is Some {
                            cn
                        } else {
                            st.client_cert_cn
                        },
                        client_cert_verified: verified,
                    },
                    None => st,
                }
            } else if kind == 0x22 {
                match utf8_of(v) {
                    Some(t) => TlsView {
                        sni: st.sni,
                        client_cert_cn: Some(t),
                        client_cert_verified: st.client_cert_verified,
                    },
                    None => st,
                }
            } else {
                st
            }
        },
    }
}

pub open spec fn tls_empty() -> TlsView {
    TlsView { sni: None, client_cert_cn: None, client_cert_verified: false }
}

/// The TLS metadata after the records `recs`, in order.
pub open spec fn tls_fold(recs: Seq<Option<(u8, Seq<u8>)>>) -> TlsView
    decreases recs.len(),
{
    if recs.len() == 0 {
        tls_empty()
    } else {
        tls_step(tls_fold(recs.drop_last()), recs.last())
    }
}

/// Whether any field carries information.
pub open spec fn tls_informative(t: TlsView) -> bool {
    t.sni is Some || t.client_cert_cn is Some || t.client_cert_verified
}

/// The TLS metadata of a TLV region, `None` where it carries nothing.
pub open spec fn tls_of_tlvs(s: Seq<u8>) -> Option<TlsView> {
    let t = tls_fold(tlv_walk(s));
    if tls_informative(t) {
        Some(t)
    } else {
        None
    }
}

/// Collects the server name, the client certificate's common name and its
/// flag from a TLV region.
pub fn extract_tls_info(tlvs: &[u8]) -> (r: Option<ProxyTlsInfo>)
    ensures
        match r {
            Some(t) => tls_of_tlvs(tlvs@) == Some(t@) && tls_informative(t@),
            None => tls_of_tlvs(tlvs@) is None,
        },
{
    let records = tlv_records(tlvs);
    let ghost recs = tlv_walk(tlvs@);
    let mut sni: Option<String> = None;
    let mut client_cert_cn: Option<String> = None;
    let mut client_cert_verified = false;
    let mut i: usize = 0;
    while i < records.len()
        invariant
            i <= records@.len() == recs.len(),
            recs == tlv_walk(tlvs@),
            forall|j: int| 0 <= j < records@.len() ==> record_view(#[trigger] records@[j]) == recs[j],
            tls_fold(recs.take(i as int)) == (TlsView {
                sni: string_opt_view(sni),
                client_cert_cn: string_opt_view(client_cert_cn),
                client_cert_verified,
            }),
        decreases records.len() - i,
    {
        assert(recs.take(i + 1 as int).drop_last() =~= recs.take(i as int));
        assert(record_view(records@[i as int]) == recs[i as int]);
        match &records[i] {
            None => {},
            Some(rec) => {
                if rec.kind == PP2_TYPE_AUTHORITY {
                    let text = utf8_text(rec.value.as_slice());
                    if text.is_some() {
                        sni = text;
                    }
                } else if rec.kind == PP2_TYPE_SSL {
                    match parse_ssl_tlv(rec.value.as_slice()) {
                        Some((cn, verified)) => {
                            if cn.is_some() {
                                client_cert_cn = cn;
                            }
                            client_cert_verified = verified;
                        },
                        None => {},
                    }
                } else if rec.kind == PP2_SUBTYPE_SSL_CN {
                    let text = utf8_text(rec.value.as_slice());
                    if text.is_some() {
                        client_cert_cn = text;
                    }
                }
            },
        }
        i = i + 1;
    }
    assert(recs.take(i as int) =~= recs);
    if sni.is_some() || client_cert_cn.is_some() || client_cert_verified {
        Some(ProxyTlsInfo { sni, client_cert_cn, client_cert_verified })
    } else {
        None
    }
}

} // verus!

verus! {

/// The server name a record carries: a valid UTF-8 authority value.
pub open spec fn sni_in(rec: Option<(u8, Seq<u8>)>) -> Option<Seq<char>> {
    match rec {
        Some((kind, v)) => if kind == 0x02 {
            utf8_of(v)
        } else {
            None
        },
        None => None,
    }
}

/// The common name a record carries, in either encoding.
pub open spec fn cn_in(rec: Option<(u8, Seq<u8>)>) -> Option<Seq<char>> {
    match rec {
        Some((kind, v)) => if kind == 0x22 {
            utf8_of(v)
        } else if kind == 0x20 && v.len() >= 5 {
            ssl_cn_from(v, 5, None)
        } else {
            None
        },
        None => None,
    }
}

/// The certificate flag a record carries: that of a well-formed SSL block.
pub open spec fn flag_in(rec: Option<(u8, Seq<u8>)>) -> Option<bool> {
    match rec {
        Some((kind, v)) => if kind == 0x20 && v.len() >= 5 {
            Some(ssl_verified(v))
        } else {
            None
        },
        None => None,
    }
}

/// The last server name among `recs`.
pub open spec fn last_sni(recs: Seq<Option<(u8, Seq<u8>)>>) -> Option<Seq<char>>
    decreases recs.len(),
{
    if recs.len() == 0 {
        None
    } else if sni_in(recs.last()) is Some {
        sni_in(recs.last())
    } else {
        last_sni(recs.drop_last())
    }
}

/// The last common name among `recs`, whichever encoding carried it.
pub open spec fn last_cn(recs: Seq<Option<(u8, Seq<u8>)>>) -> Option<Seq<char>>
    decreases recs.len(),
{
    if recs.len() == 0 {
        None
    } else if cn_in(recs.last()) is Some {
        cn_in(recs.last())
    } else {
        last_cn(recs.drop_last())
    }
}

/// The certificate flag of the last well-formed SSL block, false without one.
pub open spec fn last_flag(recs: Seq<Option<(u8, Seq<u8>)>>) -> bool
    decreases recs.len(),
{
    if recs.len() == 0 {
        false
    } else if flag_in(recs.last()) is Some {
        flag_in(recs.last())->0
    } else {
        last_flag(recs.drop_last())
    }
}

/// Each field of the TLS metadata comes from the last record that carries
/// it: the server name from the last valid authority, the common name from
/// the last standalone CN or SSL-block CN, the flag from the last SSL block.
pub proof fn lemma_tls_last_wins(recs: Seq<Option<(u8, Seq<u8>)>>)
    ensures
        tls_fold(recs).sni == last_sni(recs),
        tls_fold(recs).client_cert_cn == last_cn(recs),
        tls_fold(recs).client_cert_verified == last_flag(recs),
    decreases recs.len(),
{
    if recs.len() > 0 {
        lemma_tls_last_wins(recs.drop_last());
    }
}

} // verus!
