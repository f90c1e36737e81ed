//! The canister-ID resolver: maps an incoming request to the canister that
//! should serve it.
//!
//! Resolution order, first success wins: the `Host` header (alias lookup on
//! progressively shorter label prefixes, then configured suffix rules, then
//! a hardcoded localhost fallback), the URI query parameter `canisterId`,
//! and the same query parameter of the `Referer` header.

use vstd::prelude::*;

use crate::ascii::{bytes_eq, lower_bytes, split_bytes, split_on, to_lower};
use crate::headers::ascii_bytes;
use crate::message::{CanisterId, GatewayRequest};

use std::str::FromStr;
use vstd::string::StringSliceAdditionalSpecFns;

verus! {

/// What `Principal::from_text` yields for a textual canister id: its
/// canonical bytes, or nothing when the text is not a canister id.
pub uninterp spec fn principal_of_text(s: Seq<u8>) -> Option<Seq<u8>>;

/// The host component a URI parser finds in a string, if any.
pub uninterp spec fn uri_host_of(s: Seq<u8>) -> Option<Seq<u8>>;

/// The query component a URI parser finds in a string, if any.
pub uninterp spec fn uri_query_of(s: Seq<u8>) -> Option<Seq<u8>>;

/// The path component a URI parser finds in a string, if any.
pub uninterp spec fn uri_path_of(s: Seq<u8>) -> Option<Seq<u8>>;

/// The decoded key/value pairs of a query string in
/// `application/x-www-form-urlencoded` form.
pub uninterp spec fn form_pairs_of(q: Seq<u8>) -> Seq<(Seq<u8>, Seq<u8>)>;

/// Relies on `ic_agent::export::Principal::from_text`: parsing the textual
/// form is a function of the text alone; the value is its canonical bytes.
#[verifier::external_body]
fn principal_from_text(s: &[u8]) -> (r: Option<Vec<u8>>)
    ensures
        (match r {
            Some(b) => Some(b@),
            None => None,
        }) == principal_of_text(s@),
{
    match core::str::from_utf8(s) {
        Ok(t) => ic_agent::export::Principal::from_text(t).ok().map(|p| p.as_slice().to_vec()),
        Err(_) => None,
    }
}

/// Relies on `hyper::Uri::from_str` and `Uri::host`: the host of a parsed
/// URI reference, a function of the text alone.
#[verifier::external_body]
fn uri_host(s: &[u8]) -> (r: Option<Vec<u8>>)
    ensures
        (match r {
            Some(h) => Some(h@),
            None => None,
        }) == uri_host_of(s@),
{
    match core::str::from_utf8(s) {
        Ok(t) => match hyper::Uri::from_str(t) {
            Ok(u) => u.host().map(|h| h.as_bytes().to_vec()),
            Err(_) => None,
        },
        Err(_) => None,
    }
}

/// Relies on `hyper::Uri::from_str` and `Uri::query`, as [`uri_host`].
#[verifier::external_body]
pub(crate) fn uri_query(s: &[u8]) -> (r: Option<Vec<u8>>)
    ensures
        (match r {
            Some(q) => Some(q@),
            None => None,
        }) == uri_query_of(s@),
{
    match core::str::from_utf8(s) {
        Ok(t) => match hyper::Uri::from_str(t) {
            Ok(u) => u.query().map(|q| q.as_bytes().to_vec()),
            Err(_) => None,
        },
        Err(_) => None,
    }
}

/// Relies on `hyper::Uri::from_str` and `Uri::path`, as [`uri_host`].
#[verifier::external_body]
pub(crate) fn uri_path(s: &[u8]) -> (r: Option<Vec<u8>>)
    ensures
        (match r {
            Some(p) => Some(p@),
            None => None,
        }) == uri_path_of(s@),
{
    match core::str::from_utf8(s) {
        Ok(t) => match hyper::Uri::from_str(t) {
            Ok(u) => Some(u.path().as_bytes().to_vec()),
            Err(_) => None,
        },
        Err(_) => None,
    }
}

/// Relies on `url::form_urlencoded::parse`: the decoded pairs are a
/// function of the query bytes alone.
#[verifier::external_body]
fn form_urlencoded_pairs(q: &[u8]) -> (r: Vec<(Vec<u8>, Vec<u8>)>)
    ensures
        r.deep_view() == form_pairs_of(q@),
{
    url::form_urlencoded::parse(q)
        .map(|(k, v)| (k.into_owned().into_bytes(), v.into_owned().into_bytes()))
        .collect()
}

/// The labels of a host: lower-cased and split on `.`.
pub open spec fn labels_of(host: Seq<u8>) -> Seq<Seq<u8>> {
    split_bytes(lower_bytes(host), 46)
}

fn labels_of_exec(host: &[u8]) -> (r: Vec<Vec<u8>>)
    ensures
        r.deep_view() == labels_of(host@),
{
    let lowered = to_lower(host);
    split_on(lowered.as_slice(), 46)
}

/// The resolver's configuration: alias label sequences each naming one
/// canister, and host suffixes granting canister-from-subdomain parsing.
/// Built once by [`DnsConfig::new`]; alias keys are distinct.
pub struct DnsConfig {
    pub aliases: Vec<(Vec<Vec<u8>>, CanisterId)>,
    pub suffixes: Vec<Vec<Vec<u8>>>,
}

/// Mathematical image of [`DnsConfig`].
pub struct SpecDnsConfig {
    pub aliases: Seq<(Seq<Seq<u8>>, Seq<u8>)>,
    pub suffixes: Seq<Seq<Seq<u8>>>,
}

impl View for DnsConfig {
    type V = SpecDnsConfig;

    open spec fn view(&self) -> SpecDnsConfig {
        SpecDnsConfig { aliases: self.aliases.deep_view(), suffixes: self.suffixes.deep_view() }
    }
}

/// The id an alias list gives to exactly this label sequence.
pub open spec fn alias_get(al: Seq<(Seq<Seq<u8>>, Seq<u8>)>, key: Seq<Seq<u8>>) -> Option<Seq<u8>>
    decreases al.len(),
{
    if al.len() == 0 {
        None
    } else if al[0].0 == key {
        Some(al[0].1)
    } else {
        alias_get(al.drop_first(), key)
    }
}

/// Alias lookup against progressively shorter label prefixes, longest
/// first: the first prefix of length at most `k` with an alias wins.
pub open spec fn alias_prefix_lookup(
    al: Seq<(Seq<Seq<u8>>, Seq<u8>)>,
    labels: Seq<Seq<u8>>,
    k: int,
) -> Option<Seq<u8>>
    decreases k,
{
    if k <= 0 {
        None
    } else {
        match alias_get(al, labels.take(k)) {
            Some(id) => Some(id),
            None => alias_prefix_lookup(al, labels, k - 1),
        }
    }
}

/// The trailing labels of `labels` equal `sfx`.
pub open spec fn ends_with_labels(labels: Seq<Seq<u8>>, sfx: Seq<Seq<u8>>) -> bool {
    sfx.len() <= labels.len() && labels.skip(labels.len() - sfx.len()) == sfx
}

/// The first configured suffix that matches the trailing labels and whose
/// immediately preceding label parses as a canister id.  A suffix whose
/// preceding label does not parse falls through silently.
pub open spec fn suffix_match(sfxs: Seq<Seq<Seq<u8>>>, labels: Seq<Seq<u8>>) -> Option<Seq<u8>>
    decreases sfxs.len(),
{
    if sfxs.len() == 0 {
        None
    } else {
        let sfx = sfxs[0];
        if ends_with_labels(labels, sfx) && labels.len() > sfx.len() {
            match principal_of_text(labels[labels.len() - sfx.len() - 1]) {
                Some(id) => Some(id),
                None => suffix_match(sfxs.drop_first(), labels),
            }
        } else {
            suffix_match(sfxs.drop_first(), labels)
        }
    }
}

/// The label `localhost`.
pub open spec fn localhost_name() -> Seq<u8> {
    ascii_bytes("localhost"@)
}

/// The hardcoded fallback: a host ending in `localhost` parses the label
/// before it; any other host parses its leading label.
pub open spec fn hostname_fallback(labels: Seq<Seq<u8>>) -> Option<Seq<u8>> {
    if labels.len() >= 2 && labels.last() == localhost_name() {
        principal_of_text(labels[labels.len() - 2])
    } else if labels.len() >= 1 {
        principal_of_text(labels[0])
    } else {
        None
    }
}

/// Resolution from host labels: alias first, then suffix rules, then the
/// fallback.
pub open spec fn resolve_labels(config: SpecDnsConfig, labels: Seq<Seq<u8>>) -> Option<Seq<u8>> {
    match alias_prefix_lookup(config.aliases, labels, labels.len() as int) {
        Some(id) => Some(id),
        None => match suffix_match(config.suffixes, labels) {
            Some(id) => Some(id),
            None => hostname_fallback(labels),
        },
    }
}

/// Resolution from a `Host` header value: parse it as a URI authority and
/// resolve its labels.
pub open spec fn resolve_hostname_spec(hostname: Seq<u8>, config: SpecDnsConfig) -> Option<
    Seq<u8>,
> {
    match uri_host_of(hostname) {
        Some(h) => resolve_labels(config, labels_of(h)),
        None => None,
    }
}

/// The name of the query parameter naming a canister.
pub open spec fn canister_id_param() -> Seq<u8> {
    ascii_bytes("canisterId"@)
}

/// The value of the first `canisterId` parameter among decoded pairs.
pub open spec fn first_canister_param(pairs: Seq<(Seq<u8>, Seq<u8>)>) -> Option<Seq<u8>>
    decreases pairs.len(),
{
    if pairs.len() == 0 {
        None
    } else if pairs[0].0 == canister_id_param() {
        Some(pairs[0].1)
    } else {
        first_canister_param(pairs.drop_first())
    }
}

/// Resolution from a URI: the first `canisterId` query parameter, parsed;
/// no parameter, or one that does not parse, resolves nothing.
pub open spec fn resolve_uri_spec(uri: Seq<u8>) -> Option<Seq<u8>> {
    match uri_query_of(uri) {
        Some(q) => match first_canister_param(form_pairs_of(q)) {
            Some(v) => principal_of_text(v),
            None => None,
        },
        None => None,
    }
}

/// The value of the first header whose lower-cased name is `name`.
pub open spec fn header_value(headers: Seq<(Seq<u8>, Seq<u8>)>, name: Seq<u8>) -> Option<Seq<u8>>
    decreases headers.len(),
{
    if headers.len() == 0 {
        None
    } else if lower_bytes(headers[0].0) == name {
        Some(headers[0].1)
    } else {
        header_value(headers.drop_first(), name)
    }
}

/// The header name `host`.
pub open spec fn host_header_name() -> Seq<u8> {
    ascii_bytes("host"@)
}

/// The header name `referer`.
pub open spec fn referer_header_name() -> Seq<u8> {
    ascii_bytes("referer"@)
}

/// Full resolution of one request: host header, then request URI query,
/// then referer query; the first success wins.
pub open spec fn resolve_spec(
    headers: Seq<(Seq<u8>, Seq<u8>)>,
    uri: Seq<u8>,
    config: SpecDnsConfig,
) -> Option<Seq<u8>> {
    let from_host = match header_value(headers, host_header_name()) {
        Some(h) => resolve_hostname_spec(h, config),
        None => None,
    };
    match from_host {
        Some(id) => Some(id),
        None => match resolve_uri_spec(uri) {
            Some(id) => Some(id),
            None => match header_value(headers, referer_header_name()) {
                Some(referer) => resolve_uri_spec(referer),
                None => None,
            },
        },
    }
}

fn alias_get_exec(al: &Vec<(Vec<Vec<u8>>, CanisterId)>, key: &Vec<Vec<u8>>) -> (r: Option<
    CanisterId,
>)
    ensures
        (match r {
            Some(c) => Some(c@),
            None => None,
        }) == alias_get(al.deep_view(), key.deep_view()),
{
    let n = al.len();
    proof {
        assert(al.deep_view().skip(0) =~= al.deep_view());
    }
    let mut i: usize = 0;
    while i < n
        invariant
            n == al@.len(),
            i <= n,
            alias_get(al.deep_view(), key.deep_view()) == alias_get(
                al.deep_view().skip(i as int),
                key.deep_view(),
            ),
        decreases n - i,
    {
        proof {
            assert(al.deep_view().skip(i as int).drop_first() =~= al.deep_view().skip(i + 1));
            assert(al.deep_view().skip(i as int)[0] == al.deep_view()[i as int]);
        }
        if labels_eq(&al[i].0, key) {
            let id = CanisterId { bytes: vstd::slice::slice_to_vec(al[i].1.bytes.as_slice()) };
            return Some(id);
        }
        i += 1;
    }
    proof {
        assert(al.deep_view().skip(n as int) =~= Seq::<(Seq<Seq<u8>>, Seq<u8>)>::empty());
    }
    None
}

fn labels_eq(a: &Vec<Vec<u8>>, b: &Vec<Vec<u8>>) -> (r: bool)
    ensures
        r <==> a.deep_view() == b.deep_view(),
{
    if a.len() != b.len() {
        proof {
            assert(a.deep_view().len() != b.deep_view().len());
        }
        return false;
    }
    let n = a.len();
    let mut i: usize = 0;
    while i < n
        invariant
            n == a@.len() == b@.len(),
            i <= n,
            forall|j: int| 0 <= j < i ==> a.deep_view()[j] == b.deep_view()[j],
        decreases n - i,
    {
        if !bytes_eq(a[i].as_slice(), b[i].as_slice()) {
            proof {
                assert(a.deep_view()[i as int] =~= a@[i as int]@);
                assert(b.deep_view()[i as int] =~= b@[i as int]@);
            }
            return false;
        }
        proof {
            assert(a.deep_view()[i as int] =~= a@[i as int]@);
            assert(b.deep_view()[i as int] =~= b@[i as int]@);
        }
        i += 1;
    }
    proof {
        assert(a.deep_view() =~= b.deep_view());
    }
    true
}

fn take_labels(labels: &Vec<Vec<u8>>, k: usize) -> (r: Vec<Vec<u8>>)
    requires
        k <= labels@.len(),
    ensures
        r.deep_view() == labels.deep_view().take(k as int),
{
    let mut out: Vec<Vec<u8>> = Vec::new();
    let mut i: usize = 0;
    while i < k
        invariant
            i <= k <= labels@.len(),
            out.deep_view() == labels.deep_view().take(i as int),
        decreases k - i,
    {
        let ghost out0 = out.deep_view();
        out.push(vstd::slice::slice_to_vec(labels[i].as_slice()));
        proof {
            assert(out.deep_view() =~~= out0.push(labels.deep_view()[i as int]));
            assert(out0.push(labels.deep_view()[i as int]) =~= labels.deep_view().take(i + 1));
        }
        i += 1;
    }
    out
}

fn alias_prefix_lookup_exec(al: &Vec<(Vec<Vec<u8>>, CanisterId)>, labels: &Vec<Vec<u8>>) -> (r:
    Option<CanisterId>)
    ensures
        (match r {
            Some(c) => Some(c@),
            None => None,
        }) == alias_prefix_lookup(al.deep_view(), labels.deep_view(), labels.deep_view().len() as int),
{
    let mut k: usize = labels.len();
    while k > 0
        invariant
            k <= labels@.len(),
            alias_prefix_lookup(al.deep_view(), labels.deep_view(), labels.deep_view().len() as int)
                == alias_prefix_lookup(al.deep_view(), labels.deep_view(), k as int),
        decreases k,
    {
        let key = take_labels(labels, k);
        match alias_get_exec(al, &key) {
            Some(id) => {
                return Some(id);
            },
            None => {},
        }
        k -= 1;
    }
    None
}

fn ends_with_labels_exec(labels: &Vec<Vec<u8>>, sfx: &Vec<Vec<u8>>) -> (r: bool)
    ensures
        r <==> ends_with_labels(labels.deep_view(), sfx.deep_view()),
{
    if sfx.len() > labels.len() {
        return false;
    }
    let off = labels.len() - sfx.len();
    let n = sfx.len();
    let mut i: usize = 0;
    while i < n
        invariant
            n == sfx@.len(),
            off + n == labels@.len(),
            off + n <= usize::MAX,
            i <= n,
            forall|j: int| 0 <= j < i ==> labels.deep_view().skip(off as int)[j]
                == sfx.deep_view()[j],
        decreases n - i,
    {
        if !bytes_eq(labels[off + i].as_slice(), sfx[i].as_slice()) {
            proof {
                assert(labels.deep_view().skip(off as int)[i as int] =~= labels@[off + i]@);
                assert(sfx.deep_view()[i as int] =~= sfx@[i as int]@);
            }
            return false;
        }
        proof {
            assert(labels.deep_view().skip(off as int)[i as int] =~= labels@[off + i]@);
            assert(sfx.deep_view()[i as int] =~= sfx@[i as int]@);
        }
        i += 1;
    }
    proof {
        assert(labels.deep_view().skip(off as int) =~= sfx.deep_view());
    }
    true
}

fn suffix_match_exec(sfxs: &Vec<Vec<Vec<u8>>>, labels: &Vec<Vec<u8>>) -> (r: Option<CanisterId>)
    ensures
        (match r {
            Some(c) => Some(c@),
            None => None,
        }) == suffix_match(sfxs.deep_view(), labels.deep_view()),
{
    let n = sfxs.len();
    proof {
        assert(sfxs.deep_view().skip(0) =~= sfxs.deep_view());
    }
    let mut i: usize = 0;
    while i < n
        invariant
            n == sfxs@.len(),
            i <= n,
            suffix_match(sfxs.deep_view(), labels.deep_view()) == suffix_match(
                sfxs.deep_view().skip(i as int),
                labels.deep_view(),
            ),
        decreases n - i,
    {
        proof {
            assert(sfxs.deep_view().skip(i as int).drop_first() =~= sfxs.deep_view().skip(i + 1));
            assert(sfxs.deep_view().skip(i as int)[0] == sfxs.deep_view()[i as int]);
        }
        let sfx = &sfxs[i];
        if ends_with_labels_exec(labels, sfx) && labels.len() > sfx.len() {
            let idx = labels.len() - sfx.len() - 1;
            proof {
                assert(labels.deep_view()[idx as int] =~= labels@[idx as int]@);
            }
            match principal_from_text(labels[idx].as_slice()) {
                Some(bytes) => {
                    return Some(CanisterId { bytes });
                },
                None => {},
            }
        }
        i += 1;
    }
    proof {
        assert(sfxs.deep_view().skip(n as int) =~= Seq::<Seq<Seq<u8>>>::empty());
    }
    None
}

fn localhost_label() -> (r: &'static [u8])
    ensures
        r@ == localhost_name(),
{
    let s = "localhost";
    proof {
        reveal_strlit("localhost");
        vstd::string::is_ascii_spec_bytes(s);
        assert(s.spec_bytes() =~= localhost_name());
    }
    s.as_bytes()
}

fn hostname_fallback_exec(labels: &Vec<Vec<u8>>) -> (r: Option<CanisterId>)
    ensures
        (match r {
            Some(c) => Some(c@),
            None => None,
        }) == hostname_fallback(labels.deep_view()),
{
    let n = labels.len();
    if n >= 2 && bytes_eq(labels[n - 1].as_slice(), localhost_label()) {
        proof {
            assert(labels.deep_view().last() =~= labels@[n - 1]@);
            assert(labels.deep_view()[n - 2] =~= labels@[n - 2]@);
        }
        match principal_from_text(labels[n - 2].as_slice()) {
            Some(bytes) => Some(CanisterId { bytes }),
            None => None,
        }
    } else if n >= 1 {
        proof {
            assert(labels.deep_view().last() =~= labels@[n - 1]@);
            assert(labels.deep_view()[0] =~= labels@[0]@);
        }
        match principal_from_text(labels[0].as_slice()) {
            Some(bytes) => Some(CanisterId { bytes }),
            None => None,
        }
    } else {
        None
    }
}

/// Resolves a canister id from a `Host` header value.
pub fn resolve_canister_id_from_hostname(hostname: &[u8], dns_canister_config: &DnsConfig) -> (r:
    Option<CanisterId>)
    ensures
        (match r {
            Some(c) => Some(c@),
            None => None,
        }) == resolve_hostname_spec(hostname@, dns_canister_config@),
{
    let host = match uri_host(hostname) {
        Some(h) => h,
        None => {
            return None;
        },
    };
    let labels = labels_of_exec(host.as_slice());
    match alias_prefix_lookup_exec(&dns_canister_config.aliases, &labels) {
        Some(id) => Some(id),
        None => match suffix_match_exec(&dns_canister_config.suffixes, &labels) {
            Some(id) => Some(id),
            None => hostname_fallback_exec(&labels),
        },
    }
}

fn canister_id_param_label() -> (r: &'static [u8])
    ensures
        r@ == canister_id_param(),
{
    let s = "canisterId";
    proof {
        reveal_strlit("canisterId");
        vstd::string::is_ascii_spec_bytes(s);
        assert(s.spec_bytes() =~= canister_id_param());
    }
    s.as_bytes()
}

/// Resolves a canister id from the `canisterId` query parameter of a URI.
pub fn resolve_canister_id_from_uri(uri: &[u8]) -> (r: Option<CanisterId>)
    ensures
        (match r {
            Some(c) => Some(c@),
            None => None,
        }) == resolve_uri_spec(uri@),
{
    let query = match uri_query(uri) {
        Some(q) => q,
        None => {
            return None;
        },
    };
    let pairs = form_urlencoded_pairs(query.as_slice());
    let n = pairs.len();
    proof {
        assert(pairs.deep_view().skip(0) =~= pairs.deep_view());
    }
    let mut i: usize = 0;
    while i < n
        invariant
            n == pairs@.len(),
            i <= n,
            uri_query_of(uri@) == Some(query@),
            pairs.deep_view() == form_pairs_of(query@),
            first_canister_param(pairs.deep_view()) == first_canister_param(
                pairs.deep_view().skip(i as int),
            ),
        decreases n - i,
    {
        proof {
            assert(pairs.deep_view().skip(i as int).drop_first() =~= pairs.deep_view().skip(
                i + 1,
            ));
            assert(pairs.deep_view().skip(i as int)[0] == pairs.deep_view()[i as int]);
            assert(pairs.deep_view()[i as int].0 =~= pairs@[i as int].0@);
            assert(pairs.deep_view()[i as int].1 =~= pairs@[i as int].1@);
        }
        if bytes_eq(pairs[i].0.as_slice(), canister_id_param_label()) {
            return match principal_from_text(pairs[i].1.as_slice()) {
                Some(bytes) => Some(CanisterId { bytes }),
                None => None,
            };
        }
        i += 1;
    }
    proof {
        assert(pairs.deep_view().skip(n as int) =~= Seq::<(Seq<u8>, Seq<u8>)>::empty());
    }
    None
}

pub fn header_value_exec<'a>(headers: &'a Vec<(Vec<u8>, Vec<u8>)>, name: &[u8]) -> (r: Option<
    &'a Vec<u8>,
>)
    ensures
        (match r {
            Some(v) => Some(v@),
            None => None,
        }) == header_value(headers.deep_view(), name@),
{
    let n = headers.len();
    proof {
        assert(headers.deep_view().skip(0) =~= headers.deep_view());
    }
    let mut i: usize = 0;
    while i < n
        invariant
            n == headers@.len(),
            i <= n,
            header_value(headers.deep_view(), name@) == header_value(
                headers.deep_view().skip(i as int),
                name@,
            ),
        decreases n - i,
    {
        proof {
            assert(headers.deep_view().skip(i as int).drop_first() =~= headers.deep_view().skip(
                i + 1,
            ));
            assert(headers.deep_view().skip(i as int)[0] == headers.deep_view()[i as int]);
            assert(headers.deep_view()[i as int].0 =~= headers@[i as int].0@);
            assert(headers.deep_view()[i as int].1 =~= headers@[i as int].1@);
        }
        let lowered = to_lower(headers[i].0.as_slice());
        if bytes_eq(lowered.as_slice(), name) {
            return Some(&headers[i].1);
        }
        i += 1;
    }
    proof {
        assert(headers.deep_view().skip(n as int) =~= Seq::<(Seq<u8>, Seq<u8>)>::empty());
    }
    None
}

fn host_header_label() -> (r: &'static [u8])
    ensures
        r@ == host_header_name(),
{
    let s = "host";
    proof {
        reveal_strlit("host");
        vstd::string::is_ascii_spec_bytes(s);
        assert(s.spec_bytes() =~= host_header_name());
    }
    s.as_bytes()
}

fn referer_header_label() -> (r: &'static [u8])
    ensures
        r@ == referer_header_name(),
{
    let s = "referer";
    proof {
        reveal_strlit("referer");
        vstd::string::is_ascii_spec_bytes(s);
        assert(s.spec_bytes() =~= referer_header_name());
    }
    s.as_bytes()
}

/// Tries to resolve a canister id from an HTTP request; `None` when no rule
/// applies.
pub fn resolve_canister_id(request: &GatewayRequest, dns_canister_config: &DnsConfig) -> (r:
    Option<CanisterId>)
    ensures
        (match r {
            Some(c) => Some(c@),
            None => None,
        }) == resolve_spec(request.headers.deep_view(), request.uri@, dns_canister_config@),
{
    match header_value_exec(&request.headers, host_header_label()) {
        Some(h) => {
            match resolve_canister_id_from_hostname(h.as_slice(), dns_canister_config) {
                Some(id) => {
                    return Some(id);
                },
                None => {},
            }
        },
        None => {},
    }
    match resolve_canister_id_from_uri(request.uri.as_slice()) {
        Some(id) => {
            return Some(id);
        },
        None => {},
    }
    match header_value_exec(&request.headers, referer_header_label()) {
        Some(referer) => resolve_canister_id_from_uri(referer.as_slice()),
        None => None,
    }
}

/// The first position of byte `b` in `s` at or after `i`.
pub open spec fn find_from(s: Seq<u8>, b: u8, i: int) -> Option<int>
    decreases s.len() - i,
{
    if i < 0 || i >= s.len() {
        None
    } else if s[i] == b {
        Some(i)
    } else {
        find_from(s, b, i + 1)
    }
}

fn find_byte(s: &[u8], b: u8) -> (r: Option<usize>)
    ensures
        (match r {
            Some(i) => Some(i as int),
            None => None,
        }) == find_from(s@, b, 0),
        (r matches Some(i) ==> i < s@.len()),
{
    let n = s.len();
    let mut i: usize = 0;
    while i < n
        invariant
            n == s@.len(),
            i <= n,
            find_from(s@, b, 0) == find_from(s@, b, i as int),
        decreases n - i,
    {
        if s[i] == b {
            return Some(i);
        }
        i += 1;
    }
    None
}

/// How one `domain.name:canister-id` alias entry reads: the labels of the
/// part before the first `:`, and the canonical bytes of the id after it.
pub open spec fn parse_alias_spec(entry: Seq<u8>) -> Option<(Seq<Seq<u8>>, Seq<u8>)> {
    match find_from(entry, 58, 0) {
        Some(i) => {
            let key = labels_of(entry.subrange(0, i));
            match principal_of_text(entry.subrange(i + 1, entry.len() as int)) {
                Some(id) => Some((key, id)),
                None => None,
            }
        },
        None => None,
    }
}

/// The alias list a sequence of entries builds: entries in order, `None` on
/// a malformed entry or a duplicate key.
pub open spec fn build_aliases(entries: Seq<Seq<u8>>) -> Option<Seq<(Seq<Seq<u8>>, Seq<u8>)>>
    decreases entries.len(),
{
    if entries.len() == 0 {
        Some(Seq::empty())
    } else {
        match build_aliases(entries.drop_last()) {
            Some(prev) => match parse_alias_spec(entries.last()) {
                Some((key, id)) => if alias_get(prev, key) is Some {
                    None
                } else {
                    Some(prev.push((key, id)))
                },
                None => None,
            },
            None => None,
        }
    }
}

proof fn lemma_build_none(entries: Seq<Seq<u8>>, i: int)
    requires
        0 <= i <= entries.len(),
        build_aliases(entries.subrange(0, i)) is None,
    ensures
        build_aliases(entries) is None,
    decreases entries.len() - i,
{
    if i < entries.len() {
        assert(entries.subrange(0, i + 1).drop_last() =~= entries.subrange(0, i));
        lemma_build_none(entries, i + 1);
    } else {
        assert(entries.subrange(0, entries.len() as int) =~= entries);
    }
}

impl DnsConfig {
    /// Builds the configuration from `domain.name:canister-id` alias
    /// entries and host-suffix entries.  A malformed entry or a duplicate
    /// alias key is a fatal configuration error.
    pub fn new(aliases: &Vec<Vec<u8>>, suffixes: &Vec<Vec<u8>>) -> (r: Result<DnsConfig, ()>)
        ensures
            (match r {
                Ok(c) => Some(c@.aliases),
                Err(()) => None,
            }) == build_aliases(aliases.deep_view()),
            (r matches Ok(c) ==> c@.suffixes == suffixes.deep_view().map_values(
                |s: Seq<u8>| labels_of(s),
            )),
    {
        let mut alias_list: Vec<(Vec<Vec<u8>>, CanisterId)> = Vec::new();
        let n = aliases.len();
        proof {
            assert(aliases.deep_view().subrange(0, 0) =~= Seq::<Seq<u8>>::empty());
            assert(alias_list.deep_view() =~= Seq::<(Seq<Seq<u8>>, Seq<u8>)>::empty());
        }
        let mut i: usize = 0;
        while i < n
            invariant
                n == aliases@.len(),
                i <= n,
                build_aliases(aliases.deep_view().subrange(0, i as int)) == Some(
                    alias_list.deep_view(),
                ),
            decreases n - i,
        {
            let ghost es = aliases.deep_view();
            proof {
                assert(es.subrange(0, i + 1).drop_last() =~= es.subrange(0, i as int));
                assert(es.subrange(0, i + 1).last() == es[i as int]);
                assert(es[i as int] =~= aliases@[i as int]@);
            }
            let entry: &Vec<u8> = &aliases[i];
            let colon = match find_byte(entry.as_slice(), 58) {
                Some(c) => c,
                None => {
                    proof {
                        lemma_build_none(es, i + 1);
                    }
                    return Err(());
                },
            };
            let entry_len = entry.len();
            assert(colon < entry_len);
            let name_part = vstd::slice::slice_subrange(entry.as_slice(), 0, colon);
            let id_part = vstd::slice::slice_subrange(entry.as_slice(), colon + 1, entry_len);
            let key = labels_of_exec(name_part);
            let id_bytes = match principal_from_text(id_part) {
                Some(b) => b,
                None => {
                    proof {
                        lemma_build_none(es, i + 1);
                    }
                    return Err(());
                },
            };
            match alias_get_exec(&alias_list, &key) {
                Some(_) => {
                    proof {
                        lemma_build_none(es, i + 1);
                    }
                    return Err(());
                },
                None => {},
            }
            let ghost list0 = alias_list.deep_view();
            let ghost keyv = key.deep_view();
            let ghost idv = id_bytes@;
            proof {
                assert(parse_alias_spec(es[i as int]) == Some((keyv, idv)));
            }
            alias_list.push((key, CanisterId { bytes: id_bytes }));
            proof {
                assert(alias_list.deep_view() =~~= list0.push((keyv, idv)));
                assert(build_aliases(es.subrange(0, i + 1)) == Some(alias_list.deep_view()));
            }
            i += 1;
        }
        proof {
            assert(aliases.deep_view().subrange(0, n as int) =~= aliases.deep_view());
        }
        let mut suffix_list: Vec<Vec<Vec<u8>>> = Vec::new();
        let m = suffixes.len();
        proof {
            assert(suffix_list.deep_view() =~= suffixes.deep_view().subrange(0, 0).map_values(
                |s: Seq<u8>| labels_of(s),
            ));
        }
        let mut j: usize = 0;
        while j < m
            invariant
                m == suffixes@.len(),
                j <= m,
                build_aliases(aliases.deep_view()) == Some(alias_list.deep_view()),
                suffix_list.deep_view() == suffixes.deep_view().subrange(0, j as int).map_values(
                    |s: Seq<u8>| labels_of(s),
                ),
            decreases m - j,
        {
            let ghost ss = suffixes.deep_view();
            let ghost sl0 = suffix_list.deep_view();
            proof {
                assert(ss[j as int] =~= suffixes@[j as int]@);
            }
            suffix_list.push(labels_of_exec(suffixes[j].as_slice()));
            proof {
                assert(suffix_list.deep_view() =~~= sl0.push(labels_of(ss[j as int])));
                assert(sl0.push(labels_of(ss[j as int])) =~= ss.subrange(0, j + 1).map_values(
                    |s: Seq<u8>| labels_of(s),
                ));
            }
            j += 1;
        }
        proof {
            assert(suffixes.deep_view().subrange(0, m as int) =~= suffixes.deep_view());
        }
        Ok(DnsConfig { aliases: alias_list, suffixes: suffix_list })
    }
}

/// Resolution determinism: the result is a pure function of the request's
/// headers and URI and of the configuration; equal views resolve equally.
pub proof fn lemma_resolution_determinism(
    headers1: Seq<(Seq<u8>, Seq<u8>)>,
    uri1: Seq<u8>,
    config1: SpecDnsConfig,
    headers2: Seq<(Seq<u8>, Seq<u8>)>,
    uri2: Seq<u8>,
    config2: SpecDnsConfig,
)
    requires
        headers1 == headers2,
        uri1 == uri2,
        config1 == config2,
    ensures
        resolve_spec(headers1, uri1, config1) == resolve_spec(headers2, uri2, config2),
{
}

/// Alias precedence: whenever any alias prefix matches the host labels, the
/// suffix rules and the fallback are never consulted.
pub proof fn lemma_alias_precedence(config: SpecDnsConfig, labels: Seq<Seq<u8>>, id: Seq<u8>)
    requires
        alias_prefix_lookup(config.aliases, labels, labels.len() as int) == Some(id),
    ensures
        resolve_labels(config, labels) == Some(id),
{
}

/// Alias precedence from the `Host` header itself: when the header parses
/// to a host whose labels an alias matches, hostname resolution returns
/// the alias target, whatever the suffix rules would say.
pub proof fn lemma_alias_precedence_hostname(
    config: SpecDnsConfig,
    hostname: Seq<u8>,
    host: Seq<u8>,
    id: Seq<u8>,
)
    requires
        uri_host_of(hostname) == Some(host),
        alias_prefix_lookup(
            config.aliases,
            labels_of(host),
            labels_of(host).len() as int,
        ) == Some(id),
    ensures
        resolve_hostname_spec(hostname, config) == Some(id),
{
    lemma_alias_precedence(config, labels_of(host), id);
}

} // verus!
