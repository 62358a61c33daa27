use yulink::network::{
    external_probe, find_header, first_text_snippet, http_get, http_ok, medium_of, parse_http_url,
    parse_status, resolve_url, select_medium, Adapter, HttpAction, Medium, IF_TYPE_ETHERNET,
    IF_TYPE_WIRELESS,
};

#[test]
fn splits_http_urls() {
    assert_eq!(
        parse_http_url("http://172.26.255.2/"),
        Some(("172.26.255.2".to_string(), 80, "/".to_string()))
    );
    assert_eq!(
        parse_http_url("http://127.0.0.1:8080/a?b=c"),
        Some(("127.0.0.1".to_string(), 8080, "/a?b=c".to_string()))
    );
    assert_eq!(
        parse_http_url("http://host"),
        Some(("host".to_string(), 80, "/".to_string()))
    );
    assert_eq!(parse_http_url("https://host/"), None);
    assert_eq!(parse_http_url("http://host:99999/"), None);
}

#[test]
fn resolves_locations() {
    assert_eq!(
        resolve_url("http://a/b/c", "http://x/y"),
        Some("http://x/y".to_string())
    );
    assert_eq!(resolve_url("http://a:81/b/c", "/d"), Some("http://a:81/d".to_string()));
    assert_eq!(resolve_url("http://a/b/c", "d"), Some("http://a/b/d".to_string()));
}

#[test]
fn reads_headers_and_status() {
    let text = "HTTP/1.1 302 Found\r\nLocation: /next\r\nX: y\r\n\r\nbody";
    assert_eq!(parse_status(text), Some(302));
    assert_eq!(find_header(text, "location"), Some("/next".to_string()));
    assert_eq!(find_header(text, "missing"), None);
    assert_eq!(parse_status("garbage"), None);
}

#[test]
fn snippets_and_verdicts() {
    assert_eq!(first_text_snippet("\n  \n  hello world  \nmore"), "hello world");
    assert_eq!(first_text_snippet(""), "");
    let long: String = std::iter::repeat('x').take(200).collect();
    assert_eq!(first_text_snippet(&long).chars().count(), 120);

    assert!(http_ok(&Some((200, String::new()))));
    assert!(http_ok(&Some((404, String::new()))));
    assert!(!http_ok(&Some((500, String::new()))));
    assert!(!http_ok(&None));

    assert_eq!(external_probe(&Some((204, String::new())), 5), (true, "HTTP 204".to_string()));
    assert_eq!(
        external_probe(&Some((200, "Microsoft Connect Test".to_string())), 5),
        (true, "HTTP 200 命中探活文本".to_string())
    );
    assert_eq!(
        external_probe(&Some((200, "  ".to_string())), 5),
        (true, "HTTP 200 空正文".to_string())
    );
    assert_eq!(
        external_probe(&Some((200, "<html>portal</html>".to_string())), 5),
        (false, "HTTP 200 但正文非预期（<html>portal</html>）".to_string())
    );
    assert_eq!(
        external_probe(&Some((302, "moved".to_string())), 5),
        (false, "HTTP 302（moved）".to_string())
    );
    assert_eq!(external_probe(&None, 5), (false, "连接失败或超时（5s）".to_string()));
}

#[test]
fn follows_redirects_up_to_a_limit() {
    let (mut get, action) = http_get("http://a/start", 8192);
    match action {
        HttpAction::Send { host, port, request } => {
            assert_eq!(host, "a");
            assert_eq!(port, 80);
            assert_eq!(request, "GET /start HTTP/1.0\r\nHost: a\r\nConnection: close\r\n\r\n");
        }
        other => panic!("unexpected {other:?}"),
    }
    let mut hops = 0;
    loop {
        let reply = format!("HTTP/1.1 302 Found\r\nLocation: /hop{hops}\r\n\r\n");
        match get.on_response(Some(reply.into_bytes())) {
            HttpAction::Send { .. } => hops += 1,
            HttpAction::Done(r) => {
                assert_eq!(r, None);
                break;
            }
        }
    }
    assert_eq!(hops, 4);

    let (mut get, _) = http_get("http://a/", 8192);
    match get.on_response(Some(b"HTTP/1.1 200 OK\r\nX: y\r\n\r\nhi\r\n\r\nthere".to_vec())) {
        HttpAction::Done(Some((code, body))) => {
            assert_eq!(code, 200);
            assert_eq!(body, "hi\r\n\r\nthere");
        }
        other => panic!("unexpected {other:?}"),
    }
    // only the first `limit` bytes are read; a head that never ends has no body
    let (mut get, _) = http_get("http://a/", 20);
    match get.on_response(Some(b"HTTP/1.1 204 No Content\r\n\r\n".to_vec())) {
        HttpAction::Done(Some((code, body))) => {
            assert_eq!(code, 204);
            assert_eq!(body, "");
        }
        other => panic!("unexpected {other:?}"),
    }
    let (mut get, _) = http_get("http://a/", 30);
    match get.on_response(Some(b"HTTP/1.1 200 OK\r\n\r\n0123456789abcdef".to_vec())) {
        HttpAction::Done(Some((_, body))) => assert_eq!(body, "0123456789a"),
        other => panic!("unexpected {other:?}"),
    }
    let (mut get, _) = http_get("http://a/", 8192);
    assert!(matches!(get.on_response(None), HttpAction::Done(None)));
    let (_, action) = http_get("https://a/", 8192);
    assert!(matches!(action, HttpAction::Done(None)));
}

#[test]
fn picks_the_medium() {
    assert_eq!(medium_of(IF_TYPE_WIRELESS), Medium::Wireless);
    assert_eq!(medium_of(IF_TYPE_ETHERNET), Medium::Wired);
    assert_eq!(medium_of(24), Medium::Other);
    let adapters = vec![
        Adapter { index: 1, if_type: 24, up: true },
        Adapter { index: 2, if_type: IF_TYPE_ETHERNET, up: false },
        Adapter { index: 3, if_type: IF_TYPE_WIRELESS, up: true },
        Adapter { index: 4, if_type: IF_TYPE_ETHERNET, up: true },
    ];
    assert_eq!(select_medium(Some(4), &adapters), Medium::Wired);
    assert_eq!(select_medium(Some(2), &adapters), Medium::Wireless);
    assert_eq!(select_medium(None, &adapters), Medium::Wireless);
    assert_eq!(select_medium(Some(9), &[].to_vec()), Medium::Other);
}
