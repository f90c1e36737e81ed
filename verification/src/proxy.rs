//! The reverse-proxy transformations: stripping hop-by-hop headers,
//! rebasing the request target onto the forward URL, and recording the
//! connecting client in `X-Forwarded-For`.

use vstd::prelude::*;

use crate::ascii::{append_bytes, eq_ignore_case, lower_bytes, to_lower};
use crate::headers::ascii_bytes;
use crate::message::GatewayRequest;
use crate::resolver::header_value;

use std::str::FromStr;
use vstd::string::StringSliceAdditionalSpecFns;

verus! {

/// The hop-by-hop header names, lower-case.
pub open spec fn hop_header_names() -> Seq<Seq<u8>> {
    seq![
        ascii_bytes("connection"@),
        ascii_bytes("keep-alive"@),
        ascii_bytes("proxy-authenticate"@),
        ascii_bytes("proxy-authorization"@),
        ascii_bytes("te"@),
        ascii_bytes("trailers"@),
        ascii_bytes("transfer-encoding"@),
        ascii_bytes("upgrade"@),
    ]
}

/// A name names a hop-by-hop header, case-insensitively.
pub open spec fn is_hop_header_spec(name: Seq<u8>) -> bool {
    hop_header_names().contains(lower_bytes(name))
}

/// Whether a header name is hop-by-hop and must not cross the proxy.
pub fn is_hop_header(name: &str) -> (r: bool)
    ensures
        r == is_hop_header_spec(name.spec_bytes()),
{
    is_hop_header_bytes(name.as_bytes())
}

/// [`is_hop_header`], on a name already held as bytes.
pub fn is_hop_header_bytes(name: &[u8]) -> (r: bool)
    ensures
        r == is_hop_header_spec(name@),
{
    let s0 = "connection";
    let s1 = "keep-alive";
    let s2 = "proxy-authenticate";
    let s3 = "proxy-authorization";
    let s4 = "te";
    let s5 = "trailers";
    let s6 = "transfer-encoding";
    let s7 = "upgrade";
    proof {
        reveal_strlit("connection");
        reveal_strlit("keep-alive");
        reveal_strlit("proxy-authenticate");
        reveal_strlit("proxy-authorization");
        reveal_strlit("te");
        reveal_strlit("trailers");
        reveal_strlit("transfer-encoding");
        reveal_strlit("upgrade");
        vstd::string::is_ascii_spec_bytes(s0);
        vstd::string::is_ascii_spec_bytes(s1);
        vstd::string::is_ascii_spec_bytes(s2);
        vstd::string::is_ascii_spec_bytes(s3);
        vstd::string::is_ascii_spec_bytes(s4);
        vstd::string::is_ascii_spec_bytes(s5);
        vstd::string::is_ascii_spec_bytes(s6);
        vstd::string::is_ascii_spec_bytes(s7);
        assert(s0.spec_bytes() =~= hop_header_names()[0]);
        assert(s1.spec_bytes() =~= hop_header_names()[1]);
        assert(s2.spec_bytes() =~= hop_header_names()[2]);
        assert(s3.spec_bytes() =~= hop_header_names()[3]);
        assert(s4.spec_bytes() =~= hop_header_names()[4]);
        assert(s5.spec_bytes() =~= hop_header_names()[5]);
        assert(s6.spec_bytes() =~= hop_header_names()[6]);
        assert(s7.spec_bytes() =~= hop_header_names()[7]);
        assert forall|j: int| 0 <= j < hop_header_names().len() implies lower_bytes(
            hop_header_names()[j],
        ) == hop_header_names()[j] by {
            assert(lower_bytes(hop_header_names()[0]) =~= hop_header_names()[0]);
            assert(lower_bytes(hop_header_names()[1]) =~= hop_header_names()[1]);
            assert(lower_bytes(hop_header_names()[2]) =~= hop_header_names()[2]);
            assert(lower_bytes(hop_header_names()[3]) =~= hop_header_names()[3]);
            assert(lower_bytes(hop_header_names()[4]) =~= hop_header_names()[4]);
            assert(lower_bytes(hop_header_names()[5]) =~= hop_header_names()[5]);
            assert(lower_bytes(hop_header_names()[6]) =~= hop_header_names()[6]);
            assert(lower_bytes(hop_header_names()[7]) =~= hop_header_names()[7]);
        }
    }
    let r = eq_ignore_case(name, s0.as_bytes()) || eq_ignore_case(name, s1.as_bytes())
        || eq_ignore_case(name, s2.as_bytes()) || eq_ignore_case(name, s3.as_bytes())
        || eq_ignore_case(name, s4.as_bytes()) || eq_ignore_case(name, s5.as_bytes())
        || eq_ignore_case(name, s6.as_bytes()) || eq_ignore_case(name, s7.as_bytes());
    proof {
        if r {
            assert(is_hop_header_spec(name@));
        } else {
            assert forall|j: int| 0 <= j < hop_header_names().len() implies lower_bytes(name@)
                != hop_header_names()[j] by {}
            assert(!hop_header_names().contains(lower_bytes(name@)));
        }
    }
    r
}

/// The predicate a header must meet to cross the proxy.
pub open spec fn keeps_header(h: (Seq<u8>, Seq<u8>)) -> bool {
    !is_hop_header_spec(h.0)
}

/// The headers that cross the proxy: the hop-by-hop ones removed, order
/// kept.
pub open spec fn stripped_headers(headers: Seq<(Seq<u8>, Seq<u8>)>) -> Seq<(Seq<u8>, Seq<u8>)> {
    headers.filter(|h: (Seq<u8>, Seq<u8>)| keeps_header(h))
}

/// A copy of the headers without the hop-by-hop ones, order kept.
pub fn remove_hop_headers(headers: &Vec<(Vec<u8>, Vec<u8>)>) -> (r: Vec<(Vec<u8>, Vec<u8>)>)
    ensures
        r.deep_view() == stripped_headers(headers.deep_view()),
{
    let ghost pred = |h: (Seq<u8>, Seq<u8>)| keeps_header(h);
    let mut out: Vec<(Vec<u8>, Vec<u8>)> = Vec::new();
    let n = headers.len();
    proof {
        reveal(Seq::filter);
        assert(headers.deep_view().subrange(0, 0) =~= Seq::<(Seq<u8>, Seq<u8>)>::empty());
        assert(out.deep_view() =~= headers.deep_view().subrange(0, 0).filter(pred));
    }
    let mut i: usize = 0;
    while i < n
        invariant
            n == headers@.len(),
            i <= n,
            out.deep_view() == headers.deep_view().subrange(0, i as int).filter(
                |h: (Seq<u8>, Seq<u8>)| keeps_header(h),
            ),
        decreases n - i,
    {
        let ghost hs = headers.deep_view();
        proof {
            reveal(Seq::filter);
            assert(hs.subrange(0, i + 1).drop_last() =~= hs.subrange(0, i as int));
            assert(hs.subrange(0, i + 1).last() == hs[i as int]);
            assert(hs[i as int].0 =~= headers@[i as int].0@);
            assert(hs[i as int].1 =~= headers@[i as int].1@);
        }
        let ghost out0 = out.deep_view();
        if !is_hop_header_bytes(headers[i].0.as_slice()) {
            let name = vstd::slice::slice_to_vec(headers[i].0.as_slice());
            let value = vstd::slice::slice_to_vec(headers[i].1.as_slice());
            out.push((name, value));
            proof {
                assert(out.deep_view() =~~= out0.push(hs[i as int]));
            }
        }
        i += 1;
    }
    proof {
        assert(headers.deep_view().subrange(0, n as int) =~= headers.deep_view());
    }
    out
}

/// Hop-by-hop stripping: nothing that [`remove_hop_headers`] returns names
/// a hop-by-hop header.
pub proof fn lemma_hop_by_hop_stripping(headers: Seq<(Seq<u8>, Seq<u8>)>)
    ensures
        forall|i: int|
            0 <= i < stripped_headers(headers).len() ==> !is_hop_header_spec(
                (#[trigger] stripped_headers(headers)[i]).0,
            ),
{
    broadcast use vstd::seq_lib::group_filter_ensures;

}

/// What the URI parser reads a forward URL as: its scheme and authority.
pub uninterp spec fn uri_scheme_authority_of(s: Seq<u8>) -> Option<(Seq<u8>, Seq<u8>)>;

/// Relies on `hyper::Uri::from_str`, `Uri::scheme_str` and
/// `Uri::authority`: both components of a parsed URL, functions of the
/// text alone.
#[verifier::external_body]
fn uri_scheme_authority(s: &[u8]) -> (r: Option<(Vec<u8>, Vec<u8>)>)
    ensures
        (match r {
            Some((sch, auth)) => Some((sch@, auth@)),
            None => None,
        }) == uri_scheme_authority_of(s@),
{
    let t = core::str::from_utf8(s).ok()?;
    let u = hyper::Uri::from_str(t).ok()?;
    let sch = u.scheme_str()?.as_bytes().to_vec();
    let auth = u.authority()?.as_str().as_bytes().to_vec();
    Some((sch, auth))
}

/// The separator between a scheme and an authority.
pub open spec fn scheme_separator() -> Seq<u8> {
    ascii_bytes("://"@)
}

/// The target of a proxied request: the forward URL's scheme and authority
/// with the original path-and-query.
pub open spec fn forward_uri_spec(forward_url: Seq<u8>, path_and_query: Seq<u8>) -> Option<
    Seq<u8>,
> {
    match uri_scheme_authority_of(forward_url) {
        Some((sch, auth)) => Some(sch + scheme_separator() + auth + path_and_query),
        None => None,
    }
}

/// Rebases the original path-and-query onto the forward URL.
pub fn forward_uri(forward_url: &[u8], path_and_query: &[u8]) -> (r: Option<Vec<u8>>)
    ensures
        (match r {
            Some(u) => Some(u@),
            None => None,
        }) == forward_uri_spec(forward_url@, path_and_query@),
{
    let (sch, auth) = match uri_scheme_authority(forward_url) {
        Some(p) => p,
        None => {
            return None;
        },
    };
    let sep = "://";
    proof {
        reveal_strlit("://");
        vstd::string::is_ascii_spec_bytes(sep);
        assert(sep.spec_bytes() =~= scheme_separator());
    }
    let mut out: Vec<u8> = sch;
    append_bytes(&mut out, sep.as_bytes());
    append_bytes(&mut out, auth.as_slice());
    append_bytes(&mut out, path_and_query);
    Some(out)
}

/// The header recording the chain of clients a request passed through.
pub open spec fn x_forwarded_for_name() -> Seq<u8> {
    ascii_bytes("x-forwarded-for"@)
}

fn x_forwarded_for_label() -> (r: &'static [u8])
    ensures
        r@ == x_forwarded_for_name(),
        lower_bytes(r@) == r@,
{
    let s = "x-forwarded-for";
    proof {
        reveal_strlit("x-forwarded-for");
        vstd::string::is_ascii_spec_bytes(s);
        assert(s.spec_bytes() =~= x_forwarded_for_name());
        assert(lower_bytes(x_forwarded_for_name()) =~= x_forwarded_for_name());
    }
    s.as_bytes()
}

/// The separator when a client is appended to an existing header value.
pub open spec fn forwarded_for_separator() -> Seq<u8> {
    ascii_bytes(", "@)
}

/// The `X-Forwarded-For` value after this hop: the client IP alone when
/// the header was absent, else the old value with the IP appended.
pub open spec fn forwarded_for_value(
    headers: Seq<(Seq<u8>, Seq<u8>)>,
    client_ip: Seq<u8>,
) -> Seq<u8> {
    match header_value(headers, x_forwarded_for_name()) {
        Some(old_value) => old_value + forwarded_for_separator() + client_ip,
        None => client_ip,
    }
}

/// A header does not name `X-Forwarded-For`.
pub open spec fn not_forwarded_for(h: (Seq<u8>, Seq<u8>)) -> bool {
    lower_bytes(h.0) != x_forwarded_for_name()
}

/// The proxied headers: the kept headers without any `X-Forwarded-For`,
/// with one `X-Forwarded-For` carrying [`forwarded_for_value`] at the end.
pub open spec fn proxied_headers_spec(
    headers: Seq<(Seq<u8>, Seq<u8>)>,
    client_ip: Seq<u8>,
) -> Seq<(Seq<u8>, Seq<u8>)> {
    let kept = stripped_headers(headers);
    kept.filter(|h: (Seq<u8>, Seq<u8>)| not_forwarded_for(h)).push(
        (x_forwarded_for_name(), forwarded_for_value(kept, client_ip)),
    )
}

/// Builds the proxied request: hop-by-hop headers stripped, target rebased
/// onto the forward URL, client IP recorded in `X-Forwarded-For`.  `Err`
/// when the forward URL does not parse.
pub fn create_proxied_request(
    client_ip: &[u8],
    forward_url: &[u8],
    request: GatewayRequest,
) -> (r: Result<GatewayRequest, ()>)
    ensures
        r is Err <==> forward_uri_spec(forward_url@, request.uri@) is None,
        (r matches Ok(out) ==> {
            &&& Some(out.uri@) == forward_uri_spec(forward_url@, request.uri@)
            &&& out.method == request.method
            &&& out.body == request.body
            &&& out.headers.deep_view() == proxied_headers_spec(
                request.headers.deep_view(),
                client_ip@,
            )
        }),
{
    let uri = match forward_uri(forward_url, request.uri.as_slice()) {
        Some(u) => u,
        None => {
            return Err(());
        },
    };
    let kept = remove_hop_headers(&request.headers);
    let xff_value: Vec<u8> = match crate::resolver::header_value_exec(
        &kept,
        x_forwarded_for_label(),
    ) {
        Some(old_value) => {
            let sep = ", ";
            proof {
                reveal_strlit(", ");
                vstd::string::is_ascii_spec_bytes(sep);
                assert(sep.spec_bytes() =~= forwarded_for_separator());
            }
            let mut v = vstd::slice::slice_to_vec(old_value.as_slice());
            append_bytes(&mut v, sep.as_bytes());
            append_bytes(&mut v, client_ip);
            v
        },
        None => vstd::slice::slice_to_vec(client_ip),
    };
    let ghost kept_view = kept.deep_view();
    let mut headers = remove_forwarded_for(&kept);
    let ghost headers0 = headers.deep_view();
    headers.push((vstd::slice::slice_to_vec(x_forwarded_for_label()), xff_value));
    proof {
        assert(headers.deep_view() =~~= headers0.push(
            (x_forwarded_for_name(), forwarded_for_value(kept_view, client_ip@)),
        ));
    }
    Ok(GatewayRequest { method: request.method, uri, headers, body: request.body })
}

fn remove_forwarded_for(headers: &Vec<(Vec<u8>, Vec<u8>)>) -> (r: Vec<(Vec<u8>, Vec<u8>)>)
    ensures
        r.deep_view() == headers.deep_view().filter(|h: (Seq<u8>, Seq<u8>)| not_forwarded_for(h)),
{
    let ghost pred = |h: (Seq<u8>, Seq<u8>)| not_forwarded_for(h);
    let mut out: Vec<(Vec<u8>, Vec<u8>)> = Vec::new();
    let n = headers.len();
    proof {
        reveal(Seq::filter);
        assert(headers.deep_view().subrange(0, 0) =~= Seq::<(Seq<u8>, Seq<u8>)>::empty());
        assert(out.deep_view() =~= headers.deep_view().subrange(0, 0).filter(pred));
    }
    let mut i: usize = 0;
    while i < n
        invariant
            n == headers@.len(),
            i <= n,
            out.deep_view() == headers.deep_view().subrange(0, i as int).filter(
                |h: (Seq<u8>, Seq<u8>)| not_forwarded_for(h),
            ),
        decreases n - i,
    {
        let ghost hs = headers.deep_view();
        proof {
            reveal(Seq::filter);
            assert(hs.subrange(0, i + 1).drop_last() =~= hs.subrange(0, i as int));
            assert(hs.subrange(0, i + 1).last() == hs[i as int]);
            assert(hs[i as int].0 =~= headers@[i as int].0@);
            assert(hs[i as int].1 =~= headers@[i as int].1@);
        }
        let ghost out0 = out.deep_view();
        let lowered = to_lower(headers[i].0.as_slice());
        if !crate::ascii::bytes_eq(lowered.as_slice(), x_forwarded_for_label()) {
            let name = vstd::slice::slice_to_vec(headers[i].0.as_slice());
            let value = vstd::slice::slice_to_vec(headers[i].1.as_slice());
            out.push((name, value));
            proof {
                assert(out.deep_view() =~~= out0.push(hs[i as int]));
            }
        }
        i += 1;
    }
    proof {
        assert(headers.deep_view().subrange(0, n as int) =~= headers.deep_view());
    }
    out
}

/// `X-Forwarded-For` append: with the header present the new value is the
/// old one, a comma and a space, and the client; with it absent the new
/// value is the client alone.
pub proof fn lemma_x_forwarded_for_append(
    headers: Seq<(Seq<u8>, Seq<u8>)>,
    client_ip: Seq<u8>,
    old_value: Seq<u8>,
)
    ensures
        header_value(headers, x_forwarded_for_name()) == Some(old_value) ==> forwarded_for_value(
            headers,
            client_ip,
        ) == old_value + forwarded_for_separator() + client_ip,
        header_value(headers, x_forwarded_for_name()) is None ==> forwarded_for_value(
            headers,
            client_ip,
        ) == client_ip,
{
}

} // verus!
