use orbien::client::tls_term::{
    apply_host_rewrite, rewrite_host_text, split_head, HeadError, HeadReader, HttpFault,
    TlsTermPlugin,
};
use orbien::config::client::PluginConfig;
use orbien::net::http_lines::split_lines;
use orbien::net::tcp::TcpKeepaliveConfig;
use orbien::net::xff::{apply_x_forwarded_for, forward_text};

const HEAD: &str = "GET / HTTP/1.1\r\nHost: a\r\n\r\nbody";

#[test]
fn lines_keep_their_endings() {
    assert_eq!(split_lines("a\r\nb\nc"), vec!["a\r\n", "b\n", "c"]);
    assert_eq!(split_lines(""), Vec::<String>::new());
    assert_eq!(split_lines("\n\n"), vec!["\n", "\n"]);
}

#[test]
fn visitor_is_added_to_a_head() {
    let mut head = HEAD.as_bytes().to_vec();
    apply_x_forwarded_for(&mut head, "1.2.3.4", "https").unwrap();
    assert_eq!(
        String::from_utf8(head).unwrap(),
        "GET / HTTP/1.1\r\nHost: a\r\nX-Forwarded-For: 1.2.3.4\r\nX-Forwarded-Proto: https\r\n\r\nbody"
    );
}

#[test]
fn visitors_are_listed_in_turn() {
    let once = forward_text(HEAD, "1.1.1.1", "").unwrap();
    let twice = forward_text(&once, "2.2.2.2", "").unwrap();
    assert_eq!(
        twice,
        "GET / HTTP/1.1\r\nHost: a\r\nX-Forwarded-For: 1.1.1.1, 2.2.2.2\r\n\r\nbody"
    );
    let odd = forward_text("GET /\n  x-FORWARDED-for:  9.9.9.9 \n\n", "8.8.8.8", "").unwrap();
    assert_eq!(odd, "GET /\nX-Forwarded-For: 9.9.9.9, 8.8.8.8\n\n");
}

#[test]
fn last_of_several_lists_is_continued() {
    let text = "GET /\nX-Forwarded-For: a\nX-Forwarded-For: b\n\nX-Forwarded-For: c\n";
    assert_eq!(
        forward_text(text, "z", "").unwrap(),
        "GET /\nX-Forwarded-For: a\nX-Forwarded-For: b, z\n\nX-Forwarded-For: c\n"
    );
}

#[test]
fn protocol_is_kept_where_it_is_named() {
    let text = "GET /\nx-forwarded-proto: http\n\n";
    assert_eq!(forward_text(text, "", "https").unwrap(), text);
    let once = forward_text("GET /\n\n", "", "https").unwrap();
    assert_eq!(once, "GET /\nX-Forwarded-Proto: https\n\n");
    assert_eq!(forward_text(&once, "", "http").unwrap(), once);
}

#[test]
fn body_and_lossy_bytes_of_a_request() {
    let mut head = b"GET /\xff\n\nbody".to_vec();
    apply_x_forwarded_for(&mut head, "ip", "").unwrap();
    assert_eq!(
        String::from_utf8(head).unwrap(),
        "GET /\u{fffd}\nX-Forwarded-For: ip\n\nbody"
    );
    let mut empty: Vec<u8> = Vec::new();
    let e = apply_x_forwarded_for(&mut empty, "ip", "").unwrap_err();
    assert_eq!(e.message(), "empty http request");
    assert!(empty.is_empty());
}

#[test]
fn host_is_rewritten_or_added() {
    assert_eq!(
        rewrite_host_text(HEAD, "b").unwrap(),
        "GET / HTTP/1.1\r\nHost: b\r\n\r\nbody"
    );
    assert_eq!(rewrite_host_text("GET /\n\n", "b").unwrap(), "GET /\nHost: b\n\n");
    let mut head = HEAD.as_bytes().to_vec();
    apply_host_rewrite(&mut head, "").unwrap();
    assert_eq!(head, HEAD.as_bytes());
    apply_host_rewrite(&mut head, "x").unwrap();
    apply_host_rewrite(&mut head, "y").unwrap();
    assert_eq!(head, b"GET / HTTP/1.1\r\nHost: y\r\n\r\nbody");
    let mut empty: Vec<u8> = Vec::new();
    assert!(apply_host_rewrite(&mut empty, "x").is_err());
    assert!(apply_host_rewrite(&mut empty, "").is_ok());
}

#[test]
fn head_is_cut_off_what_was_read() {
    let mut reader = HeadReader::new();
    assert!(reader.read(b"GET / HTTP/1.1\r\nHo").unwrap().is_none());
    let done = reader.read(b"st: a\r\n\r\nrest").unwrap().unwrap();
    assert_eq!(done.head, b"GET / HTTP/1.1\r\nHost: a\r\n\r\n");
    assert_eq!(done.body, b"rest");
}

#[test]
fn bad_heads_are_refused() {
    assert!(matches!(HeadReader::new().read(b""), Err(HeadError::Closed)));
    let big = vec![b'a'; 65537];
    assert!(matches!(HeadReader::new().read(&big), Err(HeadError::TooLarge)));
    let token = HeadReader::new().read(b"G\x01T / HTTP/1.1\r\n\r\n");
    assert!(matches!(token, Err(HeadError::Malformed(HttpFault::Token))));
    let version = HeadReader::new().read(b"GET / HTTP/9.9\r\n\r\n");
    assert!(matches!(version, Err(HeadError::Malformed(HttpFault::Version))));
    let name = HeadReader::new().read(b"GET / HTTP/1.1\r\nbad name: x\r\n\r\n");
    assert!(matches!(name, Err(HeadError::Malformed(HttpFault::HeaderName))));
    let value = HeadReader::new().read(b"GET / HTTP/1.1\r\na: \x01\r\n\r\n");
    assert!(matches!(value, Err(HeadError::Malformed(HttpFault::HeaderValue))));
    let mut many = b"GET / HTTP/1.1\r\n".to_vec();
    for _ in 0..65 {
        many.extend_from_slice(b"a: b\r\n");
    }
    many.extend_from_slice(b"\r\n");
    let too_many = HeadReader::new().read(&many);
    assert!(matches!(too_many, Err(HeadError::Malformed(HttpFault::TooManyHeaders))));
    let line = HeadReader::new().read(b"\rGET / HTTP/1.1\r\n\r\n");
    assert!(matches!(line, Err(HeadError::Malformed(HttpFault::NewLine))));
    assert_eq!(HeadError::TooLarge.message(), "http headers too large");
    assert_eq!(HeadError::Malformed(HttpFault::Status).message(), "invalid response status");
}

#[test]
fn head_is_split_where_the_parser_says() {
    let buf = b"abcdef".to_vec();
    let h = split_head(&buf, Ok(Some(2))).unwrap().unwrap();
    assert_eq!((h.head, h.body), (b"ab".to_vec(), b"cdef".to_vec()));
    assert!(split_head(&buf, Ok(None)).unwrap().is_none());
    assert!(matches!(split_head(&buf, Ok(Some(7))), Err(HeadError::BeyondBuffer)));
    assert!(matches!(
        split_head(&buf, Err(HttpFault::Token)),
        Err(HeadError::Malformed(HttpFault::Token))
    ));
}

#[test]
fn tls_plugin_prepares_requests() {
    let mut cfg = PluginConfig {
        plugin_type: "tls-term".to_string(),
        service: " 127.0.0.1:80 ".to_string(),
        cert_file: String::new(),
        key_file: String::new(),
        host_header_rewrite: "inner".to_string(),
        username: String::new(),
        password: String::new(),
    };
    let plugin = TlsTermPlugin::new("", &cfg).unwrap();
    assert_eq!(plugin.local_addr, "127.0.0.1:80");
    assert_eq!(plugin.cert_common_name, "localhost");
    assert_eq!(plugin.name(), "tls-term");
    assert_eq!(TlsTermPlugin::new("cn", &cfg).unwrap().cert_common_name, "cn");
    let mut head = HEAD.as_bytes().to_vec();
    plugin.prepare_head(&mut head, "5.6.7.8").unwrap();
    assert_eq!(
        String::from_utf8(head).unwrap(),
        "GET / HTTP/1.1\r\nHost: inner\r\nX-Forwarded-For: 5.6.7.8\r\nX-Forwarded-Proto: https\r\n\r\nbody"
    );
    let mut empty: Vec<u8> = Vec::new();
    assert!(plugin.prepare_head(&mut empty, "x").is_err());
    cfg.service = " ".to_string();
    let e = TlsTermPlugin::new("", &cfg).err().unwrap();
    assert_eq!(e.message(), "tls-term requires plugin.service (e.g. \"127.0.0.1:80\")");
}

#[test]
fn keepalive_probes_need_an_interval() {
    assert_eq!(TcpKeepaliveConfig::default().probe_secs(), Some((30, 10)));
    assert_eq!(TcpKeepaliveConfig::new(5, 0).interval_secs, 10);
    assert_eq!(TcpKeepaliveConfig::new(0, 0).interval_secs, 0);
    assert!(!TcpKeepaliveConfig::new(0, 7).enabled());
    assert_eq!(TcpKeepaliveConfig { idle_secs: 3, interval_secs: 0 }.probe_secs(), Some((3, 1)));
    assert_eq!(TcpKeepaliveConfig::new(0, 7).probe_secs(), None);
}

#[test]
fn two_proxies_are_listed_in_order() {
    let mut head = b"GET / HTTP/1.1\r\nHost: x\r\n\r\n".to_vec();
    apply_x_forwarded_for(&mut head, "1.1.1.1", "https").unwrap();
    apply_x_forwarded_for(&mut head, "2.2.2.2", "https").unwrap();
    assert_eq!(
        String::from_utf8(head).unwrap(),
        "GET / HTTP/1.1\r\nHost: x\r\nX-Forwarded-For: 1.1.1.1, 2.2.2.2\r\n\
         X-Forwarded-Proto: https\r\n\r\n"
    );
}
