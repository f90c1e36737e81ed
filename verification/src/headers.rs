//! Extraction of certification data from canister response headers.
//!
//! A canister response may carry an `IC-Certificate` header whose value is a
//! comma-separated list of `<name>=:<base64>:` fields, and a
//! `Content-Encoding` header naming how the body is compressed.  This module
//! scans the headers (names compared case-insensitively), base64-decodes the
//! certificate and tree fields, and applies the duplicate policy: the first
//! successfully decoded value of a field is retained, later successes are
//! dropped, and a later value replaces an earlier decode error.

use vstd::prelude::*;

use crate::ascii::{
    bytes_eq, eq_ignore_case, lower_bytes, split_bytes, split_on, trim, trim_spec,
};

use base64::Engine;
use vstd::string::StringSliceAdditionalSpecFns;

verus! {

/// The bytes of an ASCII string literal.
pub open spec fn ascii_bytes(s: Seq<char>) -> Seq<u8> {
    s.map_values(|c: char| c as u8)
}

/// Header name that carries certification data, lower-case.
pub open spec fn ic_certificate_header() -> Seq<u8> {
    ascii_bytes("ic-certificate"@)
}

/// Header name that carries the body encoding, lower-case.
pub open spec fn content_encoding_header() -> Seq<u8> {
    ascii_bytes("content-encoding"@)
}

/// Field name for the certificate inside `IC-Certificate`.
pub open spec fn certificate_field() -> Seq<u8> {
    ascii_bytes("certificate"@)
}

/// Field name for the hash tree inside `IC-Certificate`.
pub open spec fn tree_field() -> Seq<u8> {
    ascii_bytes("tree"@)
}

fn ic_certificate_label() -> (r: &'static [u8])
    ensures
        r@ == ic_certificate_header(),
        lower_bytes(r@) == r@,
{
    let s = "ic-certificate";
    proof {
        reveal_strlit("ic-certificate");
        vstd::string::is_ascii_spec_bytes(s);
        assert(s.spec_bytes() =~= ic_certificate_header());
        assert(lower_bytes(ic_certificate_header()) =~= ic_certificate_header());
    }
    s.as_bytes()
}

fn content_encoding_label() -> (r: &'static [u8])
    ensures
        r@ == content_encoding_header(),
        lower_bytes(r@) == r@,
{
    let s = "content-encoding";
    proof {
        reveal_strlit("content-encoding");
        vstd::string::is_ascii_spec_bytes(s);
        assert(s.spec_bytes() =~= content_encoding_header());
        assert(lower_bytes(content_encoding_header()) =~= content_encoding_header());
    }
    s.as_bytes()
}

fn certificate_field_label() -> (r: &'static [u8])
    ensures
        r@ == certificate_field(),
{
    let s = "certificate";
    proof {
        reveal_strlit("certificate");
        vstd::string::is_ascii_spec_bytes(s);
        assert(s.spec_bytes() =~= certificate_field());
    }
    s.as_bytes()
}

fn tree_field_label() -> (r: &'static [u8])
    ensures
        r@ == tree_field(),
{
    let s = "tree";
    proof {
        reveal_strlit("tree");
        vstd::string::is_ascii_spec_bytes(s);
        assert(s.spec_bytes() =~= tree_field());
    }
    s.as_bytes()
}

/// What the standard base64 engine decodes a byte string to, if anything.
pub uninterp spec fn b64_decode_of(s: Seq<u8>) -> Option<Seq<u8>>;

/// Relies on `base64::engine::general_purpose::STANDARD.decode`: the result
/// is a function of the input bytes alone.
#[verifier::external_body]
fn base64_decode(v: &[u8]) -> (r: Option<Vec<u8>>)
    ensures
        (match r {
            Some(d) => Some(d@),
            None => None,
        }) == b64_decode_of(v@),
{
    base64::engine::general_purpose::STANDARD.decode(v).ok()
}

/// Decodes one base64 payload pulled out of the `IC-Certificate` header; an
/// absent payload or a malformed encoding is an error.
pub fn decode_hash_tree(value: Option<&[u8]>) -> (r: Result<Vec<u8>, ()>)
    ensures
        (match r {
            Ok(v) => Ok(v@),
            Err(()) => Err(()),
        }) == decode_hash_tree_spec(
            match value {
                Some(v) => Some(v@),
                None => None,
            },
        ),
{
    match value {
        Some(v) => match base64_decode(v) {
            Some(d) => Ok(d),
            None => Err(()),
        },
        None => Err(()),
    }
}

/// Specification of [`decode_hash_tree`].
pub open spec fn decode_hash_tree_spec(value: Option<Seq<u8>>) -> Result<Seq<u8>, ()> {
    match value {
        Some(v) => match b64_decode_of(v) {
            Some(d) => Ok(d),
            None => Err(()),
        },
        None => Err(()),
    }
}

/// The certification fields of one canister response.  `None` means the
/// field never occurred; `Err` means every occurrence failed to decode.
pub struct HeadersData {
    pub certificate: Option<Result<Vec<u8>, ()>>,
    pub tree: Option<Result<Vec<u8>, ()>>,
    pub encoding: Option<Vec<u8>>,
}

/// Mathematical image of [`HeadersData`].
pub struct SpecHeadersData {
    pub certificate: Option<Result<Seq<u8>, ()>>,
    pub tree: Option<Result<Seq<u8>, ()>>,
    pub encoding: Option<Seq<u8>>,
}

impl View for HeadersData {
    type V = SpecHeadersData;

    open spec fn view(&self) -> SpecHeadersData {
        SpecHeadersData {
            certificate: match self.certificate {
                None => None,
                Some(Ok(v)) => Some(Ok(v@)),
                Some(Err(())) => Some(Err(())),
            },
            tree: match self.tree {
                None => None,
                Some(Ok(v)) => Some(Ok(v@)),
                Some(Err(())) => Some(Err(())),
            },
            encoding: match self.encoding {
                None => None,
                Some(v) => Some(v@),
            },
        }
    }
}

impl SpecHeadersData {
    /// The state before any header has been read.
    pub open spec fn empty() -> SpecHeadersData {
        SpecHeadersData { certificate: None, tree: None, encoding: None }
    }
}

/// `=` then `:` starts at `k`, with room for the final `:` after it.
pub open spec fn field_sep_at(f: Seq<u8>, k: int) -> bool {
    0 <= k && k + 3 <= f.len() && f[k] == 61 && f[k + 1] == 58
}

/// The rightmost separator position at or below `i`, if any.
pub open spec fn last_field_sep(f: Seq<u8>, i: int) -> Option<int>
    decreases i + 1,
{
    if i < 0 {
        None
    } else if field_sep_at(f, i) {
        Some(i)
    } else {
        last_field_sep(f, i - 1)
    }
}

/// Splits a trimmed field of the shape `<name>=:<payload>:` into name and
/// payload, the way a greedy leftmost match of `^(.*)=:(.*):$` does: the
/// name runs to the rightmost `=:` that still leaves the closing `:`.
pub open spec fn field_split_spec(f: Seq<u8>) -> Option<(Seq<u8>, Seq<u8>)> {
    if f.len() >= 3 && f[f.len() - 1] == 58 {
        match last_field_sep(f, f.len() - 3) {
            Some(k) => Some((f.subrange(0, k), f.subrange(k + 2, f.len() - 1))),
            None => None,
        }
    } else {
        None
    }
}

fn copy_range(s: &[u8], a: usize, b: usize) -> (r: Vec<u8>)
    requires
        a <= b <= s@.len(),
    ensures
        r@ == s@.subrange(a as int, b as int),
{
    let mut out: Vec<u8> = Vec::new();
    let mut i: usize = a;
    while i < b
        invariant
            a <= i <= b <= s@.len(),
            out@ == s@.subrange(a as int, i as int),
        decreases b - i,
    {
        out.push(s[i]);
        proof {
            assert(s@.subrange(a as int, i as int).push(s@[i as int]) =~= s@.subrange(
                a as int,
                i + 1,
            ));
        }
        i += 1;
    }
    out
}

fn field_split(f: &[u8]) -> (r: Option<(Vec<u8>, Vec<u8>)>)
    ensures
        (match r {
            Some((name, value)) => Some((name@, value@)),
            None => None,
        }) == field_split_spec(f@),
{
    let n = f.len();
    if n < 3 || f[n - 1] != 58 {
        return None;
    }
    let mut i: usize = n - 2;
    // Scan downward for the rightmost `=:`; `i` is one past the candidate.
    while i > 0
        invariant
            n == f@.len() >= 3,
            f@[n - 1] == 58,
            i <= n - 2,
            last_field_sep(f@, n - 3) == last_field_sep(f@, i - 1),
        decreases i,
    {
        if f[i - 1] == 61 && f[i] == 58 {
            let k = i - 1;
            assert(last_field_sep(f@, n - 3) == Some(k as int));
            let name = copy_range(f, 0, k);
            let value = copy_range(f, k + 2, n - 1);
            return Some((name, value));
        }
        proof {
            assert(!field_sep_at(f@, i - 1));
        }
        i -= 1;
    }
    assert(last_field_sep(f@, n - 3) is None);
    None
}

/// Applies the duplicate policy: the first success wins, a later value
/// replaces an earlier decode error.
pub open spec fn merge_field(
    acc: Option<Result<Seq<u8>, ()>>,
    new: Result<Seq<u8>, ()>,
) -> Option<Result<Seq<u8>, ()>> {
    match acc {
        None => Some(new),
        Some(prev) => if prev is Ok {
            Some(prev)
        } else {
            Some(new)
        },
    }
}

/// The duplicate policy, stated: the first successfully decoded value of
/// a field is kept — a later success never overrides it — while a later
/// value, of either kind, replaces an earlier decode error, and the first
/// occurrence is taken as it came.
pub proof fn lemma_duplicate_policy(acc: Option<Result<Seq<u8>, ()>>, new: Result<Seq<u8>, ()>)
    ensures
        (acc matches Some(prev) && prev is Ok) ==> merge_field(acc, new) == acc,
        (acc matches Some(prev) && prev is Err) ==> merge_field(acc, new) == Some(new),
        acc is None ==> merge_field(acc, new) == Some(new),
{
}

/// Folds one comma-separated piece of an `IC-Certificate` value into the
/// accumulated headers data.
pub open spec fn apply_field(acc: SpecHeadersData, piece: Seq<u8>) -> SpecHeadersData {
    let t = trim_spec(piece);
    match field_split_spec(t) {
        Some((name, value)) => {
            let decoded: Result<Seq<u8>, ()> = match b64_decode_of(value) {
                Some(d) => Ok(d),
                None => Err(()),
            };
            if name == certificate_field() {
                SpecHeadersData { certificate: merge_field(acc.certificate, decoded), ..acc }
            } else if name == tree_field() {
                SpecHeadersData { tree: merge_field(acc.tree, decoded), ..acc }
            } else {
                acc
            }
        },
        None => acc,
    }
}

/// Folds a whole list of comma-separated pieces, left to right.
pub open spec fn apply_fields(acc: SpecHeadersData, pieces: Seq<Seq<u8>>) -> SpecHeadersData
    decreases pieces.len(),
{
    if pieces.len() == 0 {
        acc
    } else {
        apply_field(apply_fields(acc, pieces.drop_last()), pieces.last())
    }
}

/// Folds one response header into the accumulated headers data.
pub open spec fn apply_header(acc: SpecHeadersData, name: Seq<u8>, value: Seq<u8>)
    -> SpecHeadersData {
    if lower_bytes(name) == ic_certificate_header() {
        apply_fields(acc, split_bytes(value, 44))
    } else if lower_bytes(name) == content_encoding_header() {
        SpecHeadersData { encoding: Some(trim_spec(value)), ..acc }
    } else {
        acc
    }
}

/// The headers data of a response: every header folded in, in order.
pub open spec fn extract_spec(headers: Seq<(Seq<u8>, Seq<u8>)>) -> SpecHeadersData
    decreases headers.len(),
{
    if headers.len() == 0 {
        SpecHeadersData::empty()
    } else {
        apply_header(
            extract_spec(headers.drop_last()),
            headers.last().0,
            headers.last().1,
        )
    }
}

/// Scans canister response headers for `IC-Certificate` and
/// `Content-Encoding` and decodes what they carry.
pub fn extract_headers_data(headers: &Vec<(Vec<u8>, Vec<u8>)>) -> (r: HeadersData)
    ensures
        r@ == extract_spec(headers.deep_view()),
{
    let mut data = HeadersData { certificate: None, tree: None, encoding: None };
    let n = headers.len();
    let mut i: usize = 0;
    while i < n
        invariant
            n == headers@.len(),
            i <= n,
            data@ == extract_spec(headers.deep_view().subrange(0, i as int)),
        decreases n - i,
    {
        let name: &Vec<u8> = &headers[i].0;
        let value: &Vec<u8> = &headers[i].1;
        let ghost hs = headers.deep_view();
        let ghost acc0 = data@;
        proof {
            assert(hs.subrange(0, i + 1).drop_last() =~= hs.subrange(0, i as int));
            assert(hs.subrange(0, i + 1).last() == hs[i as int]);
            assert(hs[i as int].0 =~= name@);
            assert(hs[i as int].1 =~= value@);
        }
        if eq_ignore_case(name.as_slice(), ic_certificate_label()) {
            let pieces = split_on(value.as_slice(), 44);
            let m = pieces.len();
            let mut j: usize = 0;
            while j < m
                invariant
                    m == pieces@.len(),
                    j <= m,
                    pieces.deep_view() == split_bytes(value@, 44),
                    data@ == apply_fields(acc0, pieces.deep_view().subrange(0, j as int)),
                decreases m - j,
            {
                let ghost ps = pieces.deep_view();
                proof {
                    assert(ps.subrange(0, j + 1).drop_last() =~= ps.subrange(0, j as int));
                    assert(ps.subrange(0, j + 1).last() == ps[j as int]);
                    assert(ps[j as int] =~= pieces@[j as int]@);
                }
                let ghost before = data@;
                let t = trim(pieces[j].as_slice());
                match field_split(t.as_slice()) {
                    Some((fname, fvalue)) => {
                        proof {
                            assert(field_split_spec(t@) == Some((fname@, fvalue@)));
                        }
                        let decoded = decode_hash_tree(Some(fvalue.as_slice()));
                        if bytes_eq(fname.as_slice(), certificate_field_label()) {
                            data.certificate = merge_field_exec(data.certificate, decoded);
                        } else if bytes_eq(fname.as_slice(), tree_field_label()) {
                            data.tree = merge_field_exec(data.tree, decoded);
                        }
                    },
                    None => {},
                }
                proof {
                    assert(data@ == apply_field(before, ps[j as int]));
                    assert(data@ == apply_fields(acc0, ps.subrange(0, j + 1)));
                }
                j += 1;
            }
            proof {
                assert(pieces.deep_view().subrange(0, m as int) =~= pieces.deep_view());
                assert(data@ == apply_header(acc0, hs[i as int].0, hs[i as int].1));
                assert(data@ == extract_spec(hs.subrange(0, i + 1)));
            }
        } else if eq_ignore_case(name.as_slice(), content_encoding_label()) {
            data.encoding = Some(trim(value.as_slice()));
            proof {
                assert(data@ == apply_header(acc0, hs[i as int].0, hs[i as int].1));
            }
        } else {
            proof {
                assert(data@ == apply_header(acc0, hs[i as int].0, hs[i as int].1));
            }
        }
        i += 1;
    }
    proof {
        assert(headers.deep_view().subrange(0, n as int) =~= headers.deep_view());
    }
    data
}

proof fn lemma_fields_keep_ok(acc: SpecHeadersData, pieces: Seq<Seq<u8>>)
    ensures
        (acc.certificate matches Some(r) && r is Ok) ==> apply_fields(acc, pieces).certificate
            == acc.certificate,
        (acc.tree matches Some(r) && r is Ok) ==> apply_fields(acc, pieces).tree == acc.tree,
        apply_fields(acc, pieces).encoding == acc.encoding,
    decreases pieces.len(),
{
    if pieces.len() > 0 {
        lemma_fields_keep_ok(acc, pieces.drop_last());
    }
}

/// The duplicate policy over a whole header scan: once a certificate or
/// tree field has decoded successfully in some prefix of the headers, no
/// later header changes it.
pub proof fn lemma_first_decoded_value_survives(headers: Seq<(Seq<u8>, Seq<u8>)>, k: int)
    requires
        0 <= k <= headers.len(),
    ensures
        (extract_spec(headers.subrange(0, k)).certificate matches Some(r) && r is Ok)
            ==> extract_spec(headers).certificate == extract_spec(
            headers.subrange(0, k),
        ).certificate,
        (extract_spec(headers.subrange(0, k)).tree matches Some(r) && r is Ok) ==> extract_spec(
            headers,
        ).tree == extract_spec(headers.subrange(0, k)).tree,
    decreases headers.len() - k,
{
    if k < headers.len() {
        let pre = headers.subrange(0, k);
        let nxt = headers.subrange(0, k + 1);
        assert(nxt.drop_last() =~= pre);
        lemma_fields_keep_ok(extract_spec(pre), split_bytes(nxt.last().1, 44));
        lemma_first_decoded_value_survives(headers, k + 1);
    } else {
        assert(headers.subrange(0, headers.len() as int) =~= headers);
    }
}

fn merge_field_exec(acc: Option<Result<Vec<u8>, ()>>, new: Result<Vec<u8>, ()>) -> (r: Option<
    Result<Vec<u8>, ()>,
>)
    ensures
        (match r {
            None => None,
            Some(Ok(v)) => Some(Ok(v@)),
            Some(Err(())) => Some(Err(())),
        }) == merge_field(
            match acc {
                None => None,
                Some(Ok(v)) => Some(Ok(v@)),
                Some(Err(())) => Some(Err(())),
            },
            match new {
                Ok(v) => Ok(v@),
                Err(()) => Err(()),
            },
        ),
{
    match acc {
        None => Some(new),
        Some(Ok(prev)) => Some(Ok(prev)),
        Some(Err(())) => Some(new),
    }
}

} // verus!
