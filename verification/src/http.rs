//! HTTP on its way through the tunnel: which headers pass, what is rewritten, and what a
//! client is told when there is no response.

use crate::access;
use crate::access::is_gateway_disconnected_error;
use crate::config;
use crate::config::{ListenerConfig, TargetConfig};
use crate::text;
use vstd::prelude::*;

verus! {

/// The headers that concern one hop only.
pub open spec fn hop_by_hop() -> Seq<Seq<char>> {
    seq![
        "connection"@,
        "keep-alive"@,
        "proxy-authenticate"@,
        "proxy-authorization"@,
        "te"@,
        "trailer"@,
        "transfer-encoding"@,
        "upgrade"@,
    ]
}

/// The headers of a response that do not pass: those of one hop, and the length, which is
/// set anew.
pub open spec fn not_in_responses() -> Seq<Seq<char>> {
    hop_by_hop().push("content-length"@)
}

/// Whether a header is one of a list, whatever its case.
pub open spec fn is_listed(name: Seq<char>, list: Seq<Seq<char>>) -> bool {
    exists|i: int| 0 <= i < list.len() && text::same_ignoring_case(name, #[trigger] list[i])
}

/// Whether a header of a request goes to the target: not those of one hop, and not the
/// host, which is the target's.
pub open spec fn passes_in_request(name: Seq<char>) -> bool {
    !is_listed(name, hop_by_hop()) && !text::same_ignoring_case(name, "host"@)
}

/// Whether a header of a response passes.
pub open spec fn passes_in_response(name: Seq<char>) -> bool {
    !is_listed(name, not_in_responses())
}

/// The headers that a request goes to the target with, but for the host.
pub open spec fn request_headers_kept(headers: Seq<(String, String)>) -> Seq<(String, String)>
    decreases headers.len(),
{
    if headers.len() == 0 {
        Seq::empty()
    } else {
        let before = request_headers_kept(headers.drop_last());
        if passes_in_request(headers.last().0@) {
            before.push(headers.last())
        } else {
            before
        }
    }
}

/// The headers that a response reaches the client with.
pub open spec fn response_headers_kept(headers: Seq<(String, String)>) -> Seq<(String, String)>
    decreases headers.len(),
{
    if headers.len() == 0 {
        Seq::empty()
    } else {
        let before = response_headers_kept(headers.drop_last());
        if passes_in_response(headers.last().0@) {
            before.push(headers.last())
        } else {
            before
        }
    }
}

/// The headers whose value is text.
pub open spec fn text_headers_kept(headers: Seq<(String, Option<String>)>) -> Seq<(String, String)>
    decreases headers.len(),
{
    if headers.len() == 0 {
        Seq::empty()
    } else {
        let before = text_headers_kept(headers.drop_last());
        match headers.last().1 {
            Some(value) => before.push((headers.last().0, value)),
            None => before,
        }
    }
}

/// The scheme of a target, `http` where it names none.
pub open spec fn scheme_of(target: TargetConfig) -> Seq<char> {
    match target.scheme {
        Some(scheme) => scheme@,
        None => "http"@,
    }
}

/// The beginning of the addresses at a target.
pub open spec fn origin_of(target: TargetConfig) -> Seq<char> {
    scheme_of(target) + "://"@ + target.host@
}

/// Whether a part of a cookie stays: not the domain, and not that it is for secure
/// connections only.
pub open spec fn cookie_part_kept(part: Seq<char>) -> bool {
    &&& !text::begins_with(text::lowered(text::trimmed(part)), text::lowered("domain="@))
    &&& !text::same_ignoring_case(text::trimmed(part), "secure"@)
}

/// The parts of a cookie that stay.
pub open spec fn cookie_parts_kept(parts: Seq<Seq<char>>) -> Seq<Seq<char>>
    decreases parts.len(),
{
    if parts.len() == 0 {
        Seq::empty()
    } else {
        let before = cookie_parts_kept(parts.drop_last());
        if cookie_part_kept(parts.last()) {
            before.push(parts.last())
        } else {
            before
        }
    }
}

/// A cookie without its domain and without its restriction to secure connections.
pub open spec fn rewritten_cookie(value: Seq<char>) -> Seq<char> {
    text::joined(cookie_parts_kept(text::split_parts(value, ';')), ";"@)
}

/// The value with which a header of the target's response passes.
pub open spec fn rewritten(target: TargetConfig, name: Seq<char>, value: Seq<char>) -> Seq<char> {
    if target.rewrite_location && text::same_ignoring_case(name, "location"@) && text::begins_with(
        value,
        origin_of(target),
    ) {
        value.skip(origin_of(target).len() as int)
    } else if target.rewrite_cookie && text::same_ignoring_case(name, "set-cookie"@) {
        rewritten_cookie(value)
    } else {
        value
    }
}

/// What headers hold.
pub open spec fn header_texts(headers: Seq<(String, String)>) -> Seq<(Seq<char>, Seq<char>)> {
    headers.map_values(|header: (String, String)| (header.0@, header.1@))
}

/// The headers of a target's response as they pass: those that are text and may pass,
/// rewritten where the target asks for that.
pub open spec fn forwarded_response(
    target: TargetConfig,
    headers: Seq<(String, Option<String>)>,
) -> Seq<(Seq<char>, Seq<char>)>
    decreases headers.len(),
{
    if headers.len() == 0 {
        Seq::empty()
    } else {
        let before = forwarded_response(target, headers.drop_last());
        let name = headers.last().0@;
        match headers.last().1 {
            Some(value) => if passes_in_response(name) {
                before.push((name, rewritten(target, name, value@)))
            } else {
                before
            },
            None => before,
        }
    }
}

/// The headers that concern one hop only.
pub fn hop_by_hop_headers() -> (headers: Vec<String>)
    ensures
        text::texts(headers@) == hop_by_hop(),
{
    let mut headers: Vec<String> = Vec::new();
    headers.push("connection".to_owned());
    headers.push("keep-alive".to_owned());
    headers.push("proxy-authenticate".to_owned());
    headers.push("proxy-authorization".to_owned());
    headers.push("te".to_owned());
    headers.push("trailer".to_owned());
    headers.push("transfer-encoding".to_owned());
    headers.push("upgrade".to_owned());
    assert(text::texts(headers@) =~= hop_by_hop());
    headers
}

/// The headers of a response that do not pass.
pub fn response_headers_to_skip() -> (headers: Vec<String>)
    ensures
        text::texts(headers@) == not_in_responses(),
{
    let mut headers = hop_by_hop_headers();
    let ghost before = headers@;
    headers.push("content-length".to_owned());
    assert(text::texts(headers@) =~= text::texts(before).push("content-length"@));
    headers
}

/// Whether a header is one of a list, whatever its case.
pub fn header_listed(name: &str, list: &Vec<String>) -> (result: bool)
    ensures
        result == is_listed(name@, text::texts(list@)),
{
    let ghost all = text::texts(list@);
    let mut i: usize = 0;
    while i < list.len()
        invariant
            i <= list@.len(),
            all == text::texts(list@),
            forall|j: int|
                0 <= j < i ==> !text::same_ignoring_case(name@, #[trigger] all[j]),
        decreases list.len() - i,
    {
        if text::equal_ignoring_case(name, list[i].as_str()) {
            assert(text::same_ignoring_case(name@, all[i as int]));
            return true;
        }
        i = i + 1;
    }
    false
}

/// The headers that a request goes to the target with: those that may pass, in order, and
/// then the target as the host.
pub fn target_request_headers(headers: &Vec<(String, String)>, host: &String) -> (result: Vec<
    (String, String),
>)
    ensures
        result@.len() == request_headers_kept(headers@).len() + 1,
        result@.drop_last() == request_headers_kept(headers@),
        result@.last().0@ == "host"@,
        result@.last().1 == *host,
{
    let skip = hop_by_hop_headers();
    let mut result: Vec<(String, String)> = Vec::new();
    let mut i: usize = 0;
    assert(result@ =~= request_headers_kept(headers@.take(0)));
    while i < headers.len()
        invariant
            i <= headers@.len(),
            text::texts(skip@) == hop_by_hop(),
            result@ == request_headers_kept(headers@.take(i as int)),
        decreases headers.len() - i,
    {
        assert(headers@.take(i + 1).drop_last() =~= headers@.take(i as int));
        let name = headers[i].0.as_str();
        if !header_listed(name, &skip) && !text::equal_ignoring_case(name, "host") {
            result.push((headers[i].0.clone(), headers[i].1.clone()));
        }
        i = i + 1;
    }
    assert(headers@.take(i as int) =~= headers@);
    let ghost kept = result@;
    result.push(("host".to_owned(), host.clone()));
    assert(result@.drop_last() =~= kept);
    result
}

/// The headers that a response reaches the client with.
pub fn client_response_headers(headers: &Vec<(String, String)>) -> (result: Vec<(String, String)>)
    ensures
        result@ == response_headers_kept(headers@),
{
    let skip = response_headers_to_skip();
    let mut result: Vec<(String, String)> = Vec::new();
    let mut i: usize = 0;
    assert(result@ =~= response_headers_kept(headers@.take(0)));
    while i < headers.len()
        invariant
            i <= headers@.len(),
            text::texts(skip@) == not_in_responses(),
            result@ == response_headers_kept(headers@.take(i as int)),
        decreases headers.len() - i,
    {
        assert(headers@.take(i + 1).drop_last() =~= headers@.take(i as int));
        if !header_listed(headers[i].0.as_str(), &skip) {
            result.push((headers[i].0.clone(), headers[i].1.clone()));
        }
        i = i + 1;
    }
    assert(headers@.take(i as int) =~= headers@);
    result
}

/// The headers of a client's request whose value is text; only those go through the
/// tunnel.
pub fn client_request_headers(headers: &Vec<(String, Option<String>)>) -> (result: Vec<
    (String, String),
>)
    ensures
        result@ == text_headers_kept(headers@),
{
    let mut result: Vec<(String, String)> = Vec::new();
    let mut i: usize = 0;
    assert(result@ =~= text_headers_kept(headers@.take(0)));
    while i < headers.len()
        invariant
            i <= headers@.len(),
            result@ == text_headers_kept(headers@.take(i as int)),
        decreases headers.len() - i,
    {
        assert(headers@.take(i + 1).drop_last() =~= headers@.take(i as int));
        match &headers[i].1 {
            Some(value) => result.push((headers[i].0.clone(), value.clone())),
            None => {},
        }
        i = i + 1;
    }
    assert(headers@.take(i as int) =~= headers@);
    result
}

/// The headers of a target's response as they pass.
pub fn target_response_headers(
    target: &TargetConfig,
    headers: &Vec<(String, Option<String>)>,
) -> (result: Vec<(String, String)>)
    ensures
        header_texts(result@) == forwarded_response(*target, headers@),
{
    let skip = response_headers_to_skip();
    let mut result: Vec<(String, String)> = Vec::new();
    let mut i: usize = 0;
    assert(header_texts(result@) =~= forwarded_response(*target, headers@.take(0)));
    while i < headers.len()
        invariant
            i <= headers@.len(),
            text::texts(skip@) == not_in_responses(),
            header_texts(result@) == forwarded_response(*target, headers@.take(i as int)),
        decreases headers.len() - i,
    {
        assert(headers@.take(i + 1).drop_last() =~= headers@.take(i as int));
        let ghost before = result@;
        let name = headers[i].0.as_str();
        if !header_listed(name, &skip) {
            match &headers[i].1 {
                Some(value) => {
                    let value = rewrite_header(target, name, value.as_str());
                    let ghost pushed = (headers@[i as int].0@, value@);
                    result.push((headers[i].0.clone(), value));
                    assert(header_texts(result@) =~= header_texts(before).push(pushed));
                },
                None => {},
            }
        }
        i = i + 1;
    }
    assert(headers@.take(i as int) =~= headers@);
    result
}

/// The scheme of a target.
fn target_scheme(target: &TargetConfig) -> (result: String)
    ensures
        result@ == scheme_of(*target),
{
    match &target.scheme {
        Some(scheme) => scheme.clone(),
        None => "http".to_owned(),
    }
}

/// The parts of a cookie that stay.
pub fn kept_cookie_parts(parts: &Vec<String>) -> (result: Vec<String>)
    ensures
        text::texts(result@) == cookie_parts_kept(text::texts(parts@)),
{
    let ghost all = text::texts(parts@);
    let mut result: Vec<String> = Vec::new();
    let mut i: usize = 0;
    assert(text::texts(result@) =~= cookie_parts_kept(all.take(0)));
    while i < parts.len()
        invariant
            i <= parts@.len(),
            all == text::texts(parts@),
            text::texts(result@) == cookie_parts_kept(all.take(i as int)),
        decreases parts.len() - i,
    {
        assert(all.take(i + 1).drop_last() =~= all.take(i as int));
        let inner = text::trim(parts[i].as_str());
        let ghost before = result@;
        if !text::begins_with_ignoring_case(inner.as_str(), "domain=")
            && !text::equal_ignoring_case(inner.as_str(), "secure") {
            result.push(parts[i].clone());
            assert(text::texts(result@) =~= text::texts(before).push(all[i as int]));
        }
        i = i + 1;
    }
    assert(all.take(i as int) =~= all);
    result
}

/// The value with which a header of the target's response passes.
pub fn rewrite_header(target: &TargetConfig, name: &str, value: &str) -> (result: String)
    ensures
        result@ == rewritten(*target, name@, value@),
{
    if target.rewrite_location && text::equal_ignoring_case(name, "location") {
        let mut origin = target_scheme(target);
        origin.append("://");
        origin.append(target.host.as_str());
        match text::strip_prefix(value, origin.as_str()) {
            Some(rest) => {
                return rest;
            },
            None => {},
        }
    }
    if target.rewrite_cookie && text::equal_ignoring_case(name, "set-cookie") {
        let parts = text::split(value, ';');
        let kept = kept_cookie_parts(&parts);
        return text::join(&kept, ";");
    }
    value.to_owned()
}

/// The address of a TCP target.
pub open spec fn target_address_text(target: TargetConfig) -> Seq<char> {
    target.host@ + ":"@ + text::decimal(target.port as nat)
}

/// The address of a TCP target.
pub fn target_address(target: &TargetConfig) -> (result: String)
    ensures
        result@ == target_address_text(*target),
{
    let mut result = target.host.clone();
    result.append(":");
    result.append(text::number(target.port as u64).as_str());
    result
}

/// The address of a request at a target.
pub fn target_url(target: &TargetConfig, path_and_query: &str) -> (result: String)
    ensures
        result@ == scheme_of(*target) + "://"@ + target_address_text(*target) + path_and_query@,
{
    let mut result = target_scheme(target);
    result.append("://");
    result.append(target_address(target).as_str());
    result.append(path_and_query);
    result
}

/// The path and query of a request; `/` where the client gave none.
pub fn path_or_root(path_and_query: Option<String>) -> (result: String)
    ensures
        result@ == match path_and_query {
            Some(path) => path@,
            None => "/"@,
        },
{
    match path_and_query {
        Some(path) => path,
        None => "/".to_owned(),
    }
}

/// What a client is told whose request got no response.
#[derive(Debug, PartialEq, Eq)]
pub struct ErrorResponse {
    pub status: u16,
    /// Whether the connection to the client ends with the response.
    pub close: bool,
    pub body: String,
}

/// The outermost of the causes of an error.
pub open spec fn outermost_cause(causes: Seq<String>) -> Seq<char> {
    if causes.len() > 0 {
        causes[0]@
    } else {
        Seq::empty()
    }
}

/// What a client is told whose request got no response, by the causes of the error,
/// outermost first: that the service is unavailable where there is no session with the
/// gateway, and else what went wrong.
pub fn error_response(causes: &Vec<String>) -> (response: ErrorResponse)
    ensures
        if exists|i: int|
            0 <= i < causes@.len() && access::tells_disconnected(#[trigger] causes@[i]@) {
            response.status == 503 && response.close && response.body@ == "gateway disconnected"@
        } else {
            response.status == 502 && !response.close && response.body@
                == "gateway request failed: "@ + outermost_cause(causes@)
        },
{
    if is_gateway_disconnected_error(causes) {
        return ErrorResponse {
            status: 503,
            close: true,
            body: "gateway disconnected".to_owned(),
        };
    }
    let mut body = "gateway request failed: ".to_owned();
    if causes.len() > 0 {
        body.append(causes[0].as_str());
    }
    assert(body@ =~= "gateway request failed: "@ + outermost_cause(causes@));
    ErrorResponse { status: 502, close: false, body }
}

/// Why a listener cannot be started.
#[derive(Debug, PartialEq, Eq)]
pub struct CertificateMissing {
    pub listener: String,
}

impl CertificateMissing {
    /// The text of the error.
    pub fn message(&self) -> (result: String)
        ensures
            result@ == "listener '"@ + self.listener@
                + "' uses local_scheme=https but auto_cert is false"@,
    {
        let mut result = "listener '".to_owned();
        result.append(self.listener.as_str());
        result.append("' uses local_scheme=https but auto_cert is false");
        result
    }
}

/// Whether a listener speaks HTTPS with its clients; for that it must make a certificate.
pub fn listens_with_tls(listener: &ListenerConfig) -> (result: Result<bool, CertificateMissing>)
    ensures
        match result {
            Ok(tls) => {
                &&& tls == (config::optional_text(listener.local_scheme) == Some("https"@))
                &&& tls ==> listener.auto_cert
            },
            Err(error) => {
                &&& config::optional_text(listener.local_scheme) == Some("https"@)
                &&& !listener.auto_cert
                &&& error.listener == listener.name
            },
        },
{
    let tls = match &listener.local_scheme {
        Some(scheme) => text::same(scheme.as_str(), "https"),
        None => false,
    };
    if tls && !listener.auto_cert {
        return Err(CertificateMissing { listener: listener.name.clone() });
    }
    Ok(tls)
}

/// The first byte of a TLS handshake.
pub const TLS_HANDSHAKE: u8 = 0x16;

/// What a client is told that speaks plain HTTP where HTTPS is expected, by the first byte
/// that it sent; nothing where it sent none or begins a TLS handshake.
pub fn plain_http_reply(first: Option<u8>, host: &str) -> (reply: Option<String>)
    ensures
        match reply {
            Some(text) => {
                &&& first is Some
                &&& first->0 != TLS_HANDSHAKE
                &&& text@
                    == "HTTP/1.1 400 Bad Request\r\nContent-Type: text/plain; charset=utf-8\r\nConnection: close\r\n\r\nThis listener expects HTTPS. Open https://"@
                    + host@ + "/ instead of http://"@ + host@ + "/.\r\n"@
            },
            None => first is None || first->0 == TLS_HANDSHAKE,
        },
{
    match first {
        None => None,
        Some(byte) => {
            if byte == TLS_HANDSHAKE {
                return None;
            }
            let mut reply =
                "HTTP/1.1 400 Bad Request\r\nContent-Type: text/plain; charset=utf-8\r\nConnection: close\r\n\r\nThis listener expects HTTPS. Open https://".to_owned();
            reply.append(host);
            reply.append("/ instead of http://");
            reply.append(host);
            reply.append("/.\r\n");
            Some(reply)
        },
    }
}

/// No header of one hop passes in either direction, nor does the client's host reach the
/// target.
pub proof fn law_hop_by_hop_stays(name: Seq<char>, i: int)
    requires
        0 <= i < hop_by_hop().len(),
        text::same_ignoring_case(name, hop_by_hop()[i]),
    ensures
        !passes_in_request(name),
        !passes_in_response(name),
{
    assert(not_in_responses()[i] == hop_by_hop()[i]);
}

/// Every header that reaches the target was sent by the client and may pass.
pub proof fn law_request_headers_come_from_client(headers: Seq<(String, String)>, i: int)
    requires
        0 <= i < request_headers_kept(headers).len(),
    ensures
        passes_in_request(request_headers_kept(headers)[i].0@),
        headers.contains(request_headers_kept(headers)[i]),
    decreases headers.len(),
{
    let front = headers.drop_last();
    let before = request_headers_kept(front);
    let last = (headers.len() - 1) as int;
    if i < before.len() {
        law_request_headers_come_from_client(front, i);
        let k = front.index_of(before[i]);
        assert(headers[k] == before[i]);
    } else {
        assert(headers[last] == request_headers_kept(headers)[i]);
    }
}

/// Where a target asks for no rewriting, its headers pass as they are.
pub proof fn law_no_rewriting_unless_asked(target: TargetConfig, name: Seq<char>, value: Seq<char>)
    requires
        !target.rewrite_location,
        !target.rewrite_cookie,
    ensures
        rewritten(target, name, value) == value,
{
}

/// Only redirects and cookies are rewritten.
pub proof fn law_only_location_and_cookie_rewritten(
    target: TargetConfig,
    name: Seq<char>,
    value: Seq<char>,
)
    requires
        !text::same_ignoring_case(name, "location"@),
        !text::same_ignoring_case(name, "set-cookie"@),
    ensures
        rewritten(target, name, value) == value,
{
}

/// A redirect to a place at the target becomes one to the same place at the listener.
pub proof fn law_redirects_stay_local(target: TargetConfig, name: Seq<char>, path: Seq<char>)
    requires
        target.rewrite_location,
        text::same_ignoring_case(name, "location"@),
    ensures
        rewritten(target, name, origin_of(target) + path) == path,
{
    let value = origin_of(target) + path;
    assert(value.take(origin_of(target).len() as int) =~= origin_of(target));
    assert(value.skip(origin_of(target).len() as int) =~= path);
}

/// No part of a rewritten cookie is its domain or restricts it to secure connections.
pub proof fn law_cookie_parts(parts: Seq<Seq<char>>, i: int)
    requires
        0 <= i < cookie_parts_kept(parts).len(),
    ensures
        cookie_part_kept(cookie_parts_kept(parts)[i]),
        parts.contains(cookie_parts_kept(parts)[i]),
    decreases parts.len(),
{
    let front = parts.drop_last();
    let before = cookie_parts_kept(front);
    let last = (parts.len() - 1) as int;
    if i < before.len() {
        law_cookie_parts(front, i);
        let k = front.index_of(before[i]);
        assert(parts[k] == before[i]);
    } else {
        assert(parts[last] == cookie_parts_kept(parts)[i]);
    }
}

/// A cookie that has neither a domain nor a restriction to secure connections passes as it
/// is.
pub proof fn law_local_cookies_unchanged(value: Seq<char>)
    requires
        forall|i: int|
            0 <= i < text::split_parts(value, ';').len() ==> cookie_part_kept(
                #[trigger] text::split_parts(value, ';')[i],
            ),
    ensures
        rewritten_cookie(value) == value,
{
    reveal_strlit(";");
    assert(";"@ =~= seq![';']);
    lemma_all_parts_kept(text::split_parts(value, ';'));
    text::law_join_of_split(value, ';');
}

proof fn lemma_all_parts_kept(parts: Seq<Seq<char>>)
    requires
        forall|i: int| 0 <= i < parts.len() ==> cookie_part_kept(#[trigger] parts[i]),
    ensures
        cookie_parts_kept(parts) == parts,
    decreases parts.len(),
{
    if parts.len() > 0 {
        let front = parts.drop_last();
        assert forall|i: int| 0 <= i < front.len() implies cookie_part_kept(
            #[trigger] front[i],
        ) by {
            assert(front[i] == parts[i]);
        }
        lemma_all_parts_kept(front);
        assert(parts[parts.len() - 1] == parts.last());
        assert(front.push(parts.last()) =~= parts);
    } else {
        assert(cookie_parts_kept(parts) =~= parts);
    }
}

/// The headers that concern one hop only, by name.
pub open spec fn is_for_one_hop(name: Seq<char>) -> bool {
    ||| text::same_ignoring_case(name, "connection"@)
    ||| text::same_ignoring_case(name, "keep-alive"@)
    ||| text::same_ignoring_case(name, "proxy-authenticate"@)
    ||| text::same_ignoring_case(name, "proxy-authorization"@)
    ||| text::same_ignoring_case(name, "te"@)
    ||| text::same_ignoring_case(name, "trailer"@)
    ||| text::same_ignoring_case(name, "transfer-encoding"@)
    ||| text::same_ignoring_case(name, "upgrade"@)
}

proof fn lemma_for_one_hop(name: Seq<char>)
    ensures
        is_listed(name, hop_by_hop()) == is_for_one_hop(name),
        is_listed(name, not_in_responses()) == (is_for_one_hop(name) || text::same_ignoring_case(
            name,
            "content-length"@,
        )),
{
    let hop = hop_by_hop();
    let response = not_in_responses();
    assert(forall|i: int| 0 <= i < 8 ==> response[i] == hop[i]);
    assert(response[8] == "content-length"@);
    if is_for_one_hop(name) {
        let i: int = if text::same_ignoring_case(name, "connection"@) {
            0
        } else if text::same_ignoring_case(name, "keep-alive"@) {
            1
        } else if text::same_ignoring_case(name, "proxy-authenticate"@) {
            2
        } else if text::same_ignoring_case(name, "proxy-authorization"@) {
            3
        } else if text::same_ignoring_case(name, "te"@) {
            4
        } else if text::same_ignoring_case(name, "trailer"@) {
            5
        } else if text::same_ignoring_case(name, "transfer-encoding"@) {
            6
        } else {
            7
        };
        assert(text::same_ignoring_case(name, hop[i]));
        assert(text::same_ignoring_case(name, response[i]));
    }
    if text::same_ignoring_case(name, "content-length"@) {
        assert(text::same_ignoring_case(name, response[8]));
    }
}

/// The headers that are taken off at each hop are these eight, and from a response the length
/// as well.
pub proof fn law_headers_taken_off(hop: Vec<String>, response: Vec<String>, name: Seq<char>)
    requires
        call_ensures(hop_by_hop_headers, (), hop),
        call_ensures(response_headers_to_skip, (), response),
    ensures
        (exists|i: int|
            0 <= i < hop@.len() && text::same_ignoring_case(name, (#[trigger] hop@[i])@))
            == is_for_one_hop(name),
        (exists|i: int|
            0 <= i < response@.len() && text::same_ignoring_case(name, (#[trigger] response@[i])@))
            == (is_for_one_hop(name) || text::same_ignoring_case(name, "content-length"@)),
{
    lemma_for_one_hop(name);
    let a = text::texts(hop@);
    let b = text::texts(response@);
    if is_listed(name, a) {
        let i = choose|i: int|
            0 <= i < a.len() && text::same_ignoring_case(name, #[trigger] a[i]);
        assert(text::same_ignoring_case(name, hop@[i]@));
    }
    if is_listed(name, b) {
        let i = choose|i: int|
            0 <= i < b.len() && text::same_ignoring_case(name, #[trigger] b[i]);
        assert(text::same_ignoring_case(name, response@[i]@));
    }
    assert forall|i: int|
        0 <= i < hop@.len() && text::same_ignoring_case(
            name,
            (#[trigger] hop@[i])@,
        ) implies is_listed(name, a) by {
        assert(a[i] == hop@[i]@);
    }
    assert forall|i: int|
        0 <= i < response@.len() && text::same_ignoring_case(
            name,
            (#[trigger] response@[i])@,
        ) implies is_listed(name, b) by {
        assert(b[i] == response@[i]@);
    }
}

/// A name is in a list exactly if one of the entries is the same up to case.
pub proof fn law_header_listed(name: &str, list: &Vec<String>, result: bool)
    requires
        call_ensures(header_listed, (name, list), result),
    ensures
        result == exists|i: int|
            0 <= i < list@.len() && text::same_ignoring_case(name@, (#[trigger] list@[i])@),
{
    let all = text::texts(list@);
    if result {
        let i = choose|i: int|
            0 <= i < all.len() && text::same_ignoring_case(name@, #[trigger] all[i]);
        assert(text::same_ignoring_case(name@, list@[i]@));
    }
    assert forall|i: int|
        0 <= i < list@.len() && text::same_ignoring_case(
            name@,
            (#[trigger] list@[i])@,
        ) implies result by {
        assert(all[i] == list@[i]@);
    }
}

proof fn lemma_request_headers_filtered(headers: Seq<(String, String)>)
    ensures
        request_headers_kept(headers) == headers.filter(
            |header: (String, String)|
                !is_for_one_hop(header.0@) && !text::same_ignoring_case(header.0@, "host"@),
        ),
    decreases headers.len(),
{
    reveal(Seq::filter);
    if headers.len() > 0 {
        lemma_request_headers_filtered(headers.drop_last());
        lemma_for_one_hop(headers.last().0@);
    }
}

/// A request reaches the target with all headers of the client, in order and as they are, but
/// for those of one hop and the host, and behind them with the target as the host.
pub proof fn law_request_headers(
    headers: &Vec<(String, String)>,
    host: &String,
    result: Vec<(String, String)>,
)
    requires
        call_ensures(target_request_headers, (headers, host), result),
    ensures
        result@.len() > 0,
        result@.drop_last() == headers@.filter(
            |header: (String, String)|
                !is_for_one_hop(header.0@) && !text::same_ignoring_case(header.0@, "host"@),
        ),
        result@.last().0@ == "host"@,
        result@.last().1@ == host@,
{
    lemma_request_headers_filtered(headers@);
}

proof fn lemma_response_headers_filtered(headers: Seq<(String, String)>)
    ensures
        response_headers_kept(headers) == headers.filter(
            |header: (String, String)|
                !is_for_one_hop(header.0@) && !text::same_ignoring_case(
                    header.0@,
                    "content-length"@,
                ),
        ),
    decreases headers.len(),
{
    reveal(Seq::filter);
    if headers.len() > 0 {
        lemma_response_headers_filtered(headers.drop_last());
        lemma_for_one_hop(headers.last().0@);
    }
}

/// A response reaches the client with all headers, in order and as they are, but for those of
/// one hop and the length.
pub proof fn law_response_headers(headers: &Vec<(String, String)>, result: Vec<(String, String)>)
    requires
        call_ensures(client_response_headers, (headers,), result),
    ensures
        result@ == headers@.filter(
            |header: (String, String)|
                !is_for_one_hop(header.0@) && !text::same_ignoring_case(
                    header.0@,
                    "content-length"@,
                ),
        ),
{
    lemma_response_headers_filtered(headers@);
}

proof fn lemma_text_headers_filtered(headers: Seq<(String, Option<String>)>)
    ensures
        text_headers_kept(headers) == headers.filter(
            |header: (String, Option<String>)| header.1 is Some,
        ).map_values(|header: (String, Option<String>)| (header.0, header.1->0)),
    decreases headers.len(),
{
    reveal(Seq::filter);
    let kept = headers.filter(|header: (String, Option<String>)| header.1 is Some);
    let plain = |header: (String, Option<String>)| (header.0, header.1->0);
    if headers.len() > 0 {
        let front = headers.drop_last();
        lemma_text_headers_filtered(front);
        let before = front.filter(|header: (String, Option<String>)| header.1 is Some);
        if headers.last().1 is Some {
            assert(kept.map_values(plain) =~= before.map_values(plain).push(
                (headers.last().0, headers.last().1->0),
            ));
        }
    }
    assert(text_headers_kept(headers) =~= kept.map_values(plain));
}

/// A client's request goes through the tunnel with all its headers whose value is text, in
/// order and as they are.
pub proof fn law_client_request_headers(
    headers: &Vec<(String, Option<String>)>,
    result: Vec<(String, String)>,
)
    requires
        call_ensures(client_request_headers, (headers,), result),
    ensures
        result@ == headers@.filter(
            |header: (String, Option<String>)| header.1 is Some,
        ).map_values(|header: (String, Option<String>)| (header.0, header.1->0)),
{
    lemma_text_headers_filtered(headers@);
}

/// The headers of a target's response that pass: those with a text that are neither of one
/// hop nor the length.
pub open spec fn passes_to_client(header: (String, Option<String>)) -> bool {
    &&& header.1 is Some
    &&& !is_for_one_hop(header.0@)
    &&& !text::same_ignoring_case(header.0@, "content-length"@)
}

proof fn lemma_forwarded_response(target: TargetConfig, headers: Seq<(String, Option<String>)>)
    ensures
        forwarded_response(target, headers) == headers.filter(
            |header: (String, Option<String>)| passes_to_client(header),
        ).map_values(
            |header: (String, Option<String>)|
                (header.0@, rewritten(target, header.0@, header.1->0@)),
        ),
    decreases headers.len(),
{
    reveal(Seq::filter);
    let kept = headers.filter(|header: (String, Option<String>)| passes_to_client(header));
    let shown = |header: (String, Option<String>)|
        (header.0@, rewritten(target, header.0@, header.1->0@));
    if headers.len() > 0 {
        let front = headers.drop_last();
        lemma_forwarded_response(target, front);
        lemma_for_one_hop(headers.last().0@);
        let before = front.filter(|header: (String, Option<String>)| passes_to_client(header));
        if passes_to_client(headers.last()) {
            assert(kept.map_values(shown) =~= before.map_values(shown).push(
                shown(headers.last()),
            ));
        }
    }
    assert(forwarded_response(target, headers) =~= kept.map_values(shown));
}

/// A target's response goes through the tunnel with all its headers whose value is text, in
/// order, but for those of one hop and the length; the names stay as they are, and each value
/// is what rewriting that header gives.
pub proof fn law_target_response_headers(
    target: TargetConfig,
    headers: Vec<(String, Option<String>)>,
    result: Vec<(String, String)>,
    i: int,
    name: &str,
    value: &str,
    rewritten_value: String,
)
    requires
        call_ensures(target_response_headers, (&target, &headers), result),
        0 <= i < result@.len(),
        ({
            let kept = headers@.filter(
                |header: (String, Option<String>)| passes_to_client(header),
            );
            kept.len() > i ==> name@ == kept[i].0@ && value@ == kept[i].1->0@
        }),
        call_ensures(rewrite_header, (&target, name, value), rewritten_value),
    ensures
        result@.len() == headers@.filter(
            |header: (String, Option<String>)| passes_to_client(header),
        ).len(),
        result@[i].0@ == name@,
        result@[i].1@ == rewritten_value@,
{
    lemma_forwarded_response(target, headers@);
    let kept = headers@.filter(|header: (String, Option<String>)| passes_to_client(header));
    assert(header_texts(result@).len() == result@.len());
    assert(header_texts(result@)[i] == (result@[i].0@, result@[i].1@));
}

/// The beginning of a target's addresses: its scheme, or `http` where it names none, and its
/// host.
pub open spec fn target_origin(target: TargetConfig) -> Seq<char> {
    match target.scheme {
        Some(scheme) => scheme@ + "://"@ + target.host@,
        None => "http"@ + "://"@ + target.host@,
    }
}

/// Where a target asks for it, a redirect to a place at the target becomes one to the same
/// place at the listener, and one to another place stays as it is.
pub proof fn law_redirects(
    target: TargetConfig,
    name: &str,
    value: &str,
    result: String,
    path: Seq<char>,
)
    requires
        call_ensures(rewrite_header, (&target, name, value), result),
        target.rewrite_location,
        text::same_ignoring_case(name@, "location"@),
    ensures
        value@ == target_origin(target) + path ==> result@ == path,
        result@ == value@ || value@ == target_origin(target) + result@,
{
    let origin = target_origin(target);
    assert(origin == origin_of(target));
    lemma_location_is_no_cookie(name@);
    if value@ == origin + path {
        assert(value@.take(origin.len() as int) =~= origin);
        assert(value@.skip(origin.len() as int) =~= path);
    }
    if text::begins_with(value@, origin) {
        assert(value@ =~= origin + value@.skip(origin.len() as int));
    }
}

proof fn lemma_location_is_no_cookie(name: Seq<char>)
    ensures
        !(text::same_ignoring_case(name, "location"@) && text::same_ignoring_case(
            name,
            "set-cookie"@,
        )),
{
    reveal_strlit("location");
    reveal_strlit("set-cookie");
    text::lemma_same_ignoring_case(name, "location"@);
    text::lemma_same_ignoring_case(name, "set-cookie"@);
}

/// A header is left as it is unless it is a redirect and the target asks for redirects to be
/// rewritten, or a cookie and the target asks for cookies to be.
pub proof fn law_other_headers_unchanged(
    target: TargetConfig,
    name: &str,
    value: &str,
    result: String,
)
    requires
        call_ensures(rewrite_header, (&target, name, value), result),
        !(target.rewrite_location && text::same_ignoring_case(name@, "location"@)),
        !(target.rewrite_cookie && text::same_ignoring_case(name@, "set-cookie"@)),
    ensures
        result@ == value@,
{
}

/// Whether a part of a cookie is its domain or restricts it to secure connections.
pub open spec fn binds_cookie_to_target(part: Seq<char>) -> bool {
    ||| text::begins_up_to_case(text::trimmed(part), "domain="@)
    ||| text::same_ignoring_case(text::trimmed(part), "secure"@)
}

proof fn lemma_cookie_parts_filtered(parts: Seq<Seq<char>>)
    ensures
        cookie_parts_kept(parts) == parts.filter(
            |part: Seq<char>| !binds_cookie_to_target(part),
        ),
    decreases parts.len(),
{
    reveal(Seq::filter);
    if parts.len() > 0 {
        lemma_cookie_parts_filtered(parts.drop_last());
        text::lemma_begins_up_to_case(text::trimmed(parts.last()), "domain="@);
    }
}

/// Where a target asks for it, a cookie loses its domain and its restriction to secure
/// connections and nothing else: all other parts stay as they are and in order.
pub proof fn law_cookies(target: TargetConfig, name: &str, value: &str, result: String)
    requires
        call_ensures(rewrite_header, (&target, name, value), result),
        target.rewrite_cookie,
        text::same_ignoring_case(name@, "set-cookie"@),
    ensures
        result@ == text::joined(
            text::split_parts(value@, ';').filter(
                |part: Seq<char>| !binds_cookie_to_target(part),
            ),
            ";"@,
        ),
        (forall|i: int|
            0 <= i < text::split_parts(value@, ';').len() ==> !binds_cookie_to_target(
                #[trigger] text::split_parts(value@, ';')[i],
            )) ==> result@ == value@,
{
    let parts = text::split_parts(value@, ';');
    lemma_location_is_no_cookie(name@);
    lemma_cookie_parts_filtered(parts);
    if forall|i: int| 0 <= i < parts.len() ==> !binds_cookie_to_target(#[trigger] parts[i]) {
        assert forall|i: int| 0 <= i < parts.len() implies cookie_part_kept(
            #[trigger] parts[i],
        ) by {
            assert(!binds_cookie_to_target(parts[i]));
            text::lemma_begins_up_to_case(text::trimmed(parts[i]), "domain="@);
        }
        law_local_cookies_unchanged(value@);
    }
}

/// Filtering the parts of a cookie leaves out exactly the domain and the restriction to
/// secure connections: what is left is not one of these, and every other part is left.
pub proof fn law_cookie_parts_exactly(parts: &Vec<String>, result: Vec<String>, part: Seq<char>)
    requires
        call_ensures(kept_cookie_parts, (parts,), result),
    ensures
        text::texts(result@).contains(part) <==> text::texts(parts@).contains(part)
            && !text::begins_up_to_case(text::trimmed(part), "domain="@)
            && !text::same_ignoring_case(text::trimmed(part), "secure"@),
        text::texts(result@) == text::texts(parts@).filter(
            |one: Seq<char>| !binds_cookie_to_target(one),
        ),
{
    let all = text::texts(parts@);
    lemma_cookie_parts_filtered(all);
    lemma_cookie_parts_contain(all, part);
}

proof fn lemma_cookie_parts_contain(parts: Seq<Seq<char>>, part: Seq<char>)
    ensures
        cookie_parts_kept(parts).contains(part) <==> parts.contains(part)
            && !binds_cookie_to_target(part),
    decreases parts.len(),
{
    if parts.len() > 0 {
        let front = parts.drop_last();
        lemma_cookie_parts_contain(front, part);
        text::lemma_begins_up_to_case(text::trimmed(parts.last()), "domain="@);
        let before = cookie_parts_kept(front);
        let kept = cookie_parts_kept(parts);
        if before.contains(part) {
            let i = before.index_of(part);
            assert(kept[i] == part);
        }
        if front.contains(part) {
            let i = front.index_of(part);
            assert(parts[i] == part);
        }
        if parts.last() == part {
            assert(parts[parts.len() - 1] == part);
            if !binds_cookie_to_target(part) {
                assert(kept[kept.len() - 1] == part);
            }
        }
        if parts.contains(part) {
            let i = parts.index_of(part);
            if i < front.len() {
                assert(front[i] == part);
            }
        }
        if kept.contains(part) {
            let i = kept.index_of(part);
            if i < before.len() {
                assert(before[i] == part);
            }
        }
    }
}

/// A TCP target is reached at its own host and port.
pub proof fn law_target_address(target: &TargetConfig, result: String)
    requires
        call_ensures(target_address, (target,), result),
    ensures
        ({
            let port = result@.skip(target.host@.len() as int + 1);
            &&& result@ == target.host@ + ":"@ + port
            &&& text::number_read(port) == target.port
            &&& forall|i: int| 0 <= i < port.len() ==> '0' <= #[trigger] port[i] <= '9'
        }),
{
    reveal_strlit(":");
    text::lemma_number_read(target.port as nat);
    let digits = text::decimal(target.port as nat);
    assert(result@.skip(target.host@.len() as int + 1) =~= digits);
}

/// A request is sent to the scheme of its target, or `http` where it names none, at the host
/// and port of the target, and to the path of the request.
pub proof fn law_target_url(
    target: TargetConfig,
    path_and_query: &str,
    result: String,
    address: String,
)
    requires
        call_ensures(target_url, (&target, path_and_query), result),
        call_ensures(target_address, (&target,), address),
    ensures
        result@ == match target.scheme {
            Some(scheme) => scheme@,
            None => "http"@,
        } + "://"@ + address@ + path_and_query@,
{
}

/// A request without a path goes to the root, and every other one to its own path.
pub proof fn law_request_path(path_and_query: Option<String>, result: String)
    requires
        call_ensures(path_or_root, (path_and_query,), result),
    ensures
        path_and_query matches Some(path) ==> result@ == path@,
        path_and_query is None ==> result@ == "/"@,
{
}

/// A client is told that the service is unavailable, and its connection ends, exactly if one
/// of the causes is that there is no session; else it is told the outermost cause as a
/// failure of the gateway.
pub proof fn law_error_response(causes: &Vec<String>, response: ErrorResponse)
    requires
        call_ensures(error_response, (causes,), response),
    ensures
        response.status == 503 || response.status == 502,
        response.close == (response.status == 503),
        (response.status == 503) == exists|i: int|
            0 <= i < causes@.len() && ({
                let cause = (#[trigger] causes@[i])@;
                ||| cause == "gateway disconnected"@
                ||| cause == "gateway websocket closed"@
                ||| cause == "gateway websocket write failed"@
                ||| cause == "gateway error gateway websocket closed"@
                ||| cause == "gateway error gateway websocket write failed"@
            }),
        response.status == 503 ==> response.body@ == "gateway disconnected"@,
        response.status == 502 && causes@.len() > 0 ==> response.body@
            == "gateway request failed: "@ + causes@[0]@,
{
}

/// A listener speaks HTTPS exactly if it is set to `https` and may make a certificate; set so
/// without that it is refused by its name.
pub proof fn law_tls(listener: &ListenerConfig, result: Result<bool, CertificateMissing>)
    requires
        call_ensures(listens_with_tls, (listener,), result),
    ensures
        ({
            let https = listener.local_scheme is Some && listener.local_scheme->0@ == "https"@;
            &&& result is Err <==> https && !listener.auto_cert
            &&& result matches Ok(tls) ==> tls == https
            &&& result matches Err(error) ==> error.listener@ == listener.name@
        }),
{
}

/// A client that begins with anything but a TLS handshake is told to use HTTPS at the host;
/// one that begins with a handshake, or sends nothing, is told nothing.
pub proof fn law_plain_http(first: Option<u8>, host: &str, reply: Option<String>)
    requires
        call_ensures(plain_http_reply, (first, host), reply),
    ensures
        reply is Some <==> first is Some && first->0 != 22,
        reply matches Some(text) ==> text@
            == "HTTP/1.1 400 Bad Request\r\nContent-Type: text/plain; charset=utf-8\r\nConnection: close\r\n\r\nThis listener expects HTTPS. Open https://"@
            + host@ + "/ instead of http://"@ + host@ + "/.\r\n"@,
{
}

/// A listener without a certificate is told as such, by its name.
pub proof fn law_certificate_text(error: CertificateMissing, text: String)
    requires
        call_ensures(CertificateMissing::message, (&error,), text),
    ensures
        text@ == "listener '"@ + error.listener@
            + "' uses local_scheme=https but auto_cert is false"@,
{
}

} // verus!
