use yulink::bridge::{head_complete, hex_val, parse_beacon_line, percent_decode, request_line};

#[test]
fn decodes_percent_escapes() {
    assert_eq!(percent_decode("a%20b"), "a b");
    assert_eq!(percent_decode("%E7%99%BB%E5%BD%95"), "登录");
    assert_eq!(percent_decode("100%"), "100%");
    assert_eq!(percent_decode("%zz%4"), "%zz%4");
    assert_eq!(percent_decode("%41"), "A");
    assert_eq!(percent_decode("%FF"), "\u{FFFD}");
    assert_eq!(percent_decode("plain"), "plain");
}

#[test]
fn hex_digits() {
    assert_eq!(hex_val(b'0'), Some(0));
    assert_eq!(hex_val(b'f'), Some(15));
    assert_eq!(hex_val(b'C'), Some(12));
    assert_eq!(hex_val(b'g'), None);
}

#[test]
fn reads_beacon_reports() {
    let ev = parse_beacon_line("GET /report?run=7&state=ok&msg=%E6%88%90%E5%8A%9F HTTP/1.1").unwrap();
    assert_eq!(ev.run, 7);
    assert_eq!(ev.state, "ok");
    assert_eq!(ev.msg, "成功");

    let ev = parse_beacon_line("POST /report?state=started&run=x HTTP/1.1").unwrap();
    assert_eq!(ev.run, 0);
    assert_eq!(ev.state, "started");
    assert_eq!(ev.msg, "");

    // a later pair wins
    let ev = parse_beacon_line("GET /report?state=a&state=b HTTP/1.1").unwrap();
    assert_eq!(ev.state, "b");

    assert!(parse_beacon_line("PUT /report?state=ok HTTP/1.1").is_none());
    assert!(parse_beacon_line("GET /other?state=ok HTTP/1.1").is_none());
    assert!(parse_beacon_line("GET /report HTTP/1.1").is_none());
    assert!(parse_beacon_line("GET /report?run=1 HTTP/1.1").is_none());
    assert!(parse_beacon_line("").is_none());
}

#[test]
fn request_heads() {
    assert!(head_complete(b"GET / HTTP/1.1\r\nHost: x\r\n\r\n"));
    assert!(!head_complete(b"GET / HTTP/1.1\r\nHost: x\r\n"));
    assert!(!head_complete(b""));
    assert!(head_complete(&vec![b'a'; 65537]));
    assert_eq!(
        request_line(b"GET /report?state=ok HTTP/1.1\r\nHost: x\r\n\r\n"),
        Some("GET /report?state=ok HTTP/1.1".to_string())
    );
    assert_eq!(request_line(b""), None);
    assert_eq!(request_line(b"\xffGET"), Some("\u{FFFD}GET".to_string()));
}
