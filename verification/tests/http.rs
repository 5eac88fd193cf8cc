use ws_net::config::{ListenerConfig, TargetConfig};
use ws_net::http::{
    client_request_headers, client_response_headers, error_response, hop_by_hop_headers,
    listens_with_tls, path_or_root, plain_http_reply, response_headers_to_skip, rewrite_header,
    target_address, target_request_headers, target_response_headers, target_url, ErrorResponse,
};
use ws_net::message::Mode;

fn target() -> TargetConfig {
    TargetConfig {
        mode: Mode::Http,
        host: "admin.internal".to_string(),
        port: 443,
        scheme: Some("https".to_string()),
        accept_invalid_certs: false,
        rewrite_location: true,
        rewrite_cookie: true,
    }
}

fn pair(name: &str, value: &str) -> (String, String) {
    (name.to_string(), value.to_string())
}

fn maybe(name: &str, value: Option<&str>) -> (String, Option<String>) {
    (name.to_string(), value.map(str::to_string))
}

#[test]
fn redirects_to_the_target_become_local() {
    let target = target();
    assert_eq!(
        rewrite_header(&target, "Location", "https://admin.internal/login?next=1"),
        "/login?next=1"
    );
    assert_eq!(
        rewrite_header(&target, "location", "https://admin.internal:443/x"),
        ":443/x"
    );
    assert_eq!(
        rewrite_header(&target, "location", "http://admin.internal/x"),
        "http://admin.internal/x"
    );
    let mut plain = target.clone();
    plain.scheme = None;
    assert_eq!(rewrite_header(&plain, "location", "http://admin.internal/x"), "/x");
    plain.rewrite_location = false;
    assert_eq!(
        rewrite_header(&plain, "location", "http://admin.internal/x"),
        "http://admin.internal/x"
    );
}

#[test]
fn cookies_lose_their_domain_and_their_restriction() {
    let target = target();
    assert_eq!(
        rewrite_header(&target, "Set-Cookie", "id=1; Domain=admin.internal; Path=/; Secure; HttpOnly"),
        "id=1; Path=/; HttpOnly"
    );
    assert_eq!(rewrite_header(&target, "set-cookie", "id=secure;DOMAIN=x"), "id=secure");
    assert_eq!(rewrite_header(&target, "set-cookie", "Secure"), "");
    assert_eq!(
        rewrite_header(&target, "set-cookie", "id=1; Path=/;HttpOnly"),
        "id=1; Path=/;HttpOnly"
    );
    assert_eq!(rewrite_header(&target, "cookie", "a;secure"), "a;secure");
    let mut kept = target.clone();
    kept.rewrite_cookie = false;
    assert_eq!(rewrite_header(&kept, "set-cookie", "a; secure"), "a; secure");
}

#[test]
fn headers_of_one_hop_do_not_pass() {
    assert_eq!(
        hop_by_hop_headers(),
        vec![
            "connection",
            "keep-alive",
            "proxy-authenticate",
            "proxy-authorization",
            "te",
            "trailer",
            "transfer-encoding",
            "upgrade",
        ]
    );
    let mut expected = hop_by_hop_headers();
    expected.push("content-length".to_string());
    assert_eq!(response_headers_to_skip(), expected);

    assert_eq!(
        target_request_headers(
            &vec![
                pair("Accept", "*/*"),
                pair("Connection", "close"),
                pair("HOST", "localhost"),
                pair("Content-Length", "3"),
                pair("TE", "trailers"),
                pair("x", "y"),
            ],
            &"admin.internal".to_string(),
        ),
        vec![
            pair("Accept", "*/*"),
            pair("Content-Length", "3"),
            pair("x", "y"),
            pair("host", "admin.internal"),
        ]
    );
    assert_eq!(
        client_response_headers(&vec![
            pair("Content-Length", "3"),
            pair("Upgrade", "h2c"),
            pair("Content-Type", "text/html"),
        ]),
        vec![pair("Content-Type", "text/html")]
    );
}

#[test]
fn response_headers_are_filtered_and_rewritten() {
    assert_eq!(
        target_response_headers(
            &target(),
            &vec![
                maybe("location", Some("https://admin.internal/a")),
                maybe("content-length", Some("5")),
                maybe("x-binary", None),
                maybe("etag", Some("abc")),
                maybe("set-cookie", Some("k=v; secure")),
            ],
        ),
        vec![pair("location", "/a"), pair("etag", "abc"), pair("set-cookie", "k=v")]
    );
}

#[test]
fn only_text_headers_go_through_the_tunnel() {
    assert_eq!(
        client_request_headers(&vec![
            maybe("a", Some("1")),
            maybe("b", None),
            maybe("connection", Some("close")),
        ]),
        vec![pair("a", "1"), pair("connection", "close")]
    );
}

#[test]
fn addresses_are_put_together() {
    let mut target = target();
    assert_eq!(target_address(&target), "admin.internal:443");
    assert_eq!(target_url(&target, "/p?q"), "https://admin.internal:443/p?q");
    target.scheme = None;
    target.port = 65535;
    assert_eq!(target_url(&target, "/"), "http://admin.internal:65535/");
    assert_eq!(path_or_root(Some("/x".to_string())), "/x");
    assert_eq!(path_or_root(None), "/");
}

#[test]
fn clients_are_told_why_there_is_no_response() {
    let causes = |causes: &[&str]| causes.iter().map(|cause| cause.to_string()).collect();
    assert_eq!(
        error_response(&causes(&["send", "gateway disconnected"])),
        ErrorResponse { status: 503, close: true, body: "gateway disconnected".to_string() }
    );
    assert_eq!(
        error_response(&causes(&["gateway error HTTP_TARGET_ERROR: no", "inner"])),
        ErrorResponse {
            status: 502,
            close: false,
            body: "gateway request failed: gateway error HTTP_TARGET_ERROR: no".to_string(),
        }
    );
}

#[test]
fn https_needs_a_certificate() {
    let mut listener = ListenerConfig {
        name: "web".to_string(),
        mode: Mode::Http,
        gateway: None,
        server_url: None,
        listen: "127.0.0.1:1".to_string(),
        host: "h".to_string(),
        port: 1,
        scheme: None,
        local_scheme: None,
        auto_cert: false,
        accept_invalid_certs: false,
        rewrite_location: false,
        rewrite_cookie: false,
    };
    assert_eq!(listens_with_tls(&listener), Ok(false));
    listener.local_scheme = Some("http".to_string());
    assert_eq!(listens_with_tls(&listener), Ok(false));
    listener.local_scheme = Some("https".to_string());
    let error = listens_with_tls(&listener).unwrap_err();
    assert_eq!(
        error.message(),
        "listener 'web' uses local_scheme=https but auto_cert is false"
    );
    listener.auto_cert = true;
    assert_eq!(listens_with_tls(&listener), Ok(true));
}

#[test]
fn plain_http_is_turned_away_where_https_is_expected() {
    assert_eq!(plain_http_reply(None, "h"), None);
    assert_eq!(plain_http_reply(Some(0x16), "h"), None);
    assert_eq!(
        plain_http_reply(Some(b'G'), "h").unwrap(),
        "HTTP/1.1 400 Bad Request\r\nContent-Type: text/plain; charset=utf-8\r\nConnection: close\r\n\r\nThis listener expects HTTPS. Open https://h/ instead of http://h/.\r\n"
    );
}
