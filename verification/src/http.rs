//! Plain-value model of the HTTP traffic the gateway handles: the inbound
//! request, the downstream request the gateway builds, and the response the
//! caller receives.
//!
//! Header names are expected as the HTTP layer hands them over: lowercased.
//! A header sequence keeps declaration order; a lookup returns the first
//! entry with the given name, as the HTTP layer's map does.

use vstd::prelude::*;

verus! {

/// An inbound request, reduced to the parts the gateway reads: method, raw
/// path (no normalization), headers in order, and the fully buffered body.
pub struct InboundRequest {
    pub method: String,
    pub path: String,
    pub headers: Vec<(String, String)>,
    pub body: Vec<u8>,
}

/// The downstream request the gateway builds for the resolved backend.
pub struct OutboundRequest {
    pub method: String,
    pub uri: String,
    pub headers: Vec<(String, String)>,
    pub body: Vec<u8>,
}

/// A response body: a fixed text for responses the gateway synthesizes, or
/// the backend's bytes passed through unchanged.
pub enum ResponseBody {
    Text(String),
    Bytes(Vec<u8>),
}

/// The response handed back to the original caller.
pub struct GatewayResponse {
    pub status: u16,
    pub headers: Vec<(String, String)>,
    pub body: ResponseBody,
}

/// A header sequence as a mathematical value: (name, value) pairs of
/// character sequences.
pub open spec fn header_view(hs: Seq<(String, String)>) -> Seq<(Seq<char>, Seq<char>)> {
    hs.map_values(|h: (String, String)| (h.0@, h.1@))
}

/// The value of the first header with the given name, if any.
pub open spec fn lookup(hs: Seq<(Seq<char>, Seq<char>)>, name: Seq<char>) -> Option<Seq<char>>
    decreases hs.len(),
{
    if hs.len() == 0 {
        None
    } else if hs[0].0 == name {
        Some(hs[0].1)
    } else {
        lookup(hs.drop_first(), name)
    }
}

/// The credential an inbound request carries: the value of its first
/// `authorization` header, or the empty string when the header is absent.
pub open spec fn credential_of(hs: Seq<(String, String)>) -> Seq<char> {
    match lookup(header_view(hs), "authorization"@) {
        Some(v) => v,
        None => Seq::empty(),
    }
}

/// Whether an entry survives the authorization overwrite: every header but
/// `authorization` does.
pub open spec fn keeps_header(p: (Seq<char>, Seq<char>)) -> bool {
    p.0 != "authorization"@
}

/// The inbound headers with every `authorization` entry removed.
pub open spec fn strip_authorization(hs: Seq<(Seq<char>, Seq<char>)>) -> Seq<(Seq<char>, Seq<char>)> {
    hs.filter(|p: (Seq<char>, Seq<char>)| keeps_header(p))
}

/// The headers of the downstream request: the inbound headers with
/// `authorization` overwritten by `credential` — removed wherever it stood,
/// then appended with the forwarded credential, so the backend always
/// receives exactly one `authorization` header.
pub open spec fn outbound_headers(
    hs: Seq<(Seq<char>, Seq<char>)>,
    credential: Seq<char>,
) -> Seq<(Seq<char>, Seq<char>)> {
    strip_authorization(hs).push(("authorization"@, credential))
}

/// A lookup lands on the first entry carrying the name: if entry `i` has it
/// and no earlier entry does, the lookup returns entry `i`'s value.
pub proof fn lemma_lookup_found(hs: Seq<(Seq<char>, Seq<char>)>, name: Seq<char>, i: int)
    requires
        0 <= i < hs.len(),
        hs[i].0 == name,
        forall|j: int| 0 <= j < i ==> hs[j].0 != name,
    ensures
        lookup(hs, name) == Some(hs[i].1),
    decreases i,
{
    if i == 0 {
    } else {
        assert(hs[0].0 != name);
        assert(forall|j: int| 0 <= j < i - 1 ==> hs.drop_first()[j] == hs[j + 1]);
        lemma_lookup_found(hs.drop_first(), name, i - 1);
        assert(hs.drop_first()[i - 1] == hs[i]);
    }
}

/// A lookup over a sequence in which no entry carries the name finds nothing.
pub proof fn lemma_lookup_absent(hs: Seq<(Seq<char>, Seq<char>)>, name: Seq<char>)
    requires
        forall|j: int| 0 <= j < hs.len() ==> hs[j].0 != name,
    ensures
        lookup(hs, name) is None,
    decreases hs.len(),
{
    if hs.len() > 0 {
        assert(forall|j: int| 0 <= j < hs.len() - 1 ==> hs.drop_first()[j] == hs[j + 1]);
        lemma_lookup_absent(hs.drop_first(), name);
    }
}

/// The downstream request carries exactly the forwarded credential: in the
/// headers built by the authorization overwrite, the `authorization` header
/// reads `credential`, whatever the inbound headers held.
pub proof fn lemma_outbound_authorization(hs: Seq<(Seq<char>, Seq<char>)>, credential: Seq<char>)
    ensures
        lookup(outbound_headers(hs, credential), "authorization"@) == Some(credential),
{
    broadcast use Seq::lemma_filter_len, Seq::lemma_filter_pred;

    let stripped = strip_authorization(hs);
    let out = outbound_headers(hs, credential);
    assert(forall|j: int| 0 <= j < stripped.len() ==> keeps_header(#[trigger] stripped[j]));
    assert(forall|j: int| 0 <= j < out.len() - 1 ==> out[j] == stripped[j]);
    lemma_lookup_found(out, "authorization"@, out.len() - 1);
}

/// Extracts the credential of an inbound header sequence: the value of its
/// first `authorization` header, or the empty string when it is absent.
pub fn extract_auth_header(headers: &Vec<(String, String)>) -> (r: String)
    ensures
        r@ == credential_of(headers@),
{
    let name: String = "authorization".to_owned();
    let ghost hv = header_view(headers@);
    let mut i: usize = 0;
    while i < headers.len()
        invariant
            i <= headers.len(),
            name@ == "authorization"@,
            hv == header_view(headers@),
            forall|j: int| 0 <= j < i ==> (#[trigger] hv[j]).0 != "authorization"@,
        decreases headers.len() - i,
    {
        if headers[i].0 == name {
            proof {
                assert(hv[i as int].0 == "authorization"@);
                lemma_lookup_found(hv, "authorization"@, i as int);
            }
            return headers[i].1.clone();
        }
        assert(hv[i as int].0 != "authorization"@);
        i += 1;
    }
    proof {
        lemma_lookup_absent(hv, "authorization"@);
    }
    String::new()
}

/// Rebuilds a header sequence with `authorization` overwritten by
/// `credential`: every other header is kept in order, every `authorization`
/// entry is dropped, and a single `authorization: credential` entry is
/// appended.
pub fn with_authorization(headers: &Vec<(String, String)>, credential: &String) -> (r: Vec<
    (String, String),
>)
    ensures
        header_view(r@) == outbound_headers(header_view(headers@), credential@),
{
    let name: String = "authorization".to_owned();
    let mut out: Vec<(String, String)> = Vec::new();
    let mut i: usize = 0;
    while i < headers.len()
        invariant
            i <= headers.len(),
            name@ == "authorization"@,
            header_view(out@) =~= strip_authorization(
                header_view(headers@.subrange(0, i as int)),
            ),
        decreases headers.len() - i,
    {
        let ghost prefix = header_view(headers@.subrange(0, i as int));
        let ghost entry = (headers@[i as int].0@, headers@[i as int].1@);
        let keep = !(headers[i].0 == name);
        if keep {
            out.push((headers[i].0.clone(), headers[i].1.clone()));
        }
        i += 1;
        proof {
            reveal(Seq::filter);
            let prefix1 = header_view(headers@.subrange(0, i as int));
            assert(prefix1 =~= prefix.push(entry));
            assert(prefix.push(entry).drop_last() =~= prefix);
            assert(keep == keeps_header(entry));
        }
    }
    proof {
        assert(headers@.subrange(0, headers@.len() as int) =~= headers@);
    }
    out.push((name, credential.clone()));
    proof {
        assert(header_view(out@) =~= outbound_headers(header_view(headers@), credential@));
    }
    out
}

/// Copies a fully buffered body byte for byte.
pub fn clone_bytes(v: &Vec<u8>) -> (r: Vec<u8>)
    ensures
        r@ == v@,
{
    let mut r: Vec<u8> = Vec::new();
    let mut i: usize = 0;
    while i < v.len()
        invariant
            i <= v.len(),
            r@ =~= v@.subrange(0, i as int),
        decreases v.len() - i,
    {
        r.push(v[i]);
        i += 1;
    }
    proof {
        assert(v@.subrange(0, v@.len() as int) =~= v@);
    }
    r
}

} // verus!
