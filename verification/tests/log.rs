use revproxy::context::Context;
use revproxy::hello::HelloService;
use revproxy::log::{Entry, LogLayer};
use revproxy::message::{Body, Header, Request, Response, Version};
use revproxy::uri::Uri;

fn request(path: &str, query: Option<&str>, headers: &[(&str, &str)]) -> Request {
    Request {
        method: "GET".to_string(),
        uri: Uri { scheme: None, authority: None, path: path.to_string(), query: query.map(|q| q.to_string()) },
        version: Version::Http11,
        headers: headers.iter().map(|(n, v)| Header { name: n.to_string(), value: v.to_string() }).collect(),
    }
}

fn from(addr: Option<&str>) -> Context {
    Context { secure: false, addr: addr.map(|a| a.to_string()), alpn: None, server_name: None }
}

#[test]
fn time_is_written_in_common_log_format() {
    assert_eq!(LogLayer::time_local(0, 0).unwrap(), "[01/Jan/1970:00:00:00 +0000]");
    assert_eq!(LogLayer::time_local(1_700_000_000, 3600).unwrap(), "[14/Nov/2023:23:13:20 +0100]");
    assert_eq!(LogLayer::time_local(1_700_000_000, -(5 * 3600 + 1800)).unwrap(), "[14/Nov/2023:16:43:20 -0530]");
    assert_eq!(LogLayer::time_local(951_782_400, 0).unwrap(), "[29/Feb/2000:00:00:00 +0000]");
}

#[test]
fn time_out_of_range_has_no_text() {
    assert!(LogLayer::time_local(i64::MAX, 0).is_none());
    assert!(LogLayer::time_local(0, 86_400).is_none());
    assert!(LogLayer::time_local(0, -86_400).is_none());
}

#[test]
fn access_log_line() {
    let req = request("/x", Some("y=1"), &[("user-agent", "ua"), ("referer", "r")]);
    let entry = LogLayer::begin(&from(Some("10.0.0.1")), &req, "[01/Jan/1970:00:00:00 +0000]".to_string());
    let resp = HelloService {}.call(&req).unwrap();
    assert_eq!(
        LogLayer::call(&entry, Some(&resp)),
        "10.0.0.1 - - [01/Jan/1970:00:00:00 +0000] \"/x?y=1\" 200 12 \"r\" \"ua\"\n"
    );
}

#[test]
fn failed_service_is_logged_as_500_and_nothing() {
    let req = request("/x", None, &[]);
    let entry = LogLayer::begin(&from(Some("10.0.0.1")), &req, "[t]".to_string());
    assert_eq!(LogLayer::call(&entry, None), "10.0.0.1 - - [t] \"/x\" 500 0 \"-\" \"-\"\n");
}

#[test]
fn unknown_fields_are_dashes() {
    let e = LogLayer::begin(&from(None), &request("/", None, &[]), "[t]".to_string());
    assert_eq!(e.remote_addr, "-");
    assert_eq!(e.referer, "-");
    assert_eq!(e.user_agent, "-");
    assert_eq!(e.request, "/");
    assert_eq!(e.time_local, "[t]");
}

#[test]
fn first_header_of_a_name_is_logged() {
    let e = LogLayer::begin(&from(None), &request("/", None, &[("referer", "a"), ("referer", "b")]), String::new());
    assert_eq!(e.referer, "a");
}

#[test]
fn request_text_is_path_and_query() {
    let mut uri = Uri { scheme: None, authority: None, path: "/a/b".to_string(), query: Some("c=d&e".to_string()) };
    assert_eq!(LogLayer::request_text(&uri), "/a/b?c=d&e");
    uri.path = String::new();
    assert_eq!(LogLayer::request_text(&uri), "/?c=d&e");
    uri.query = None;
    assert_eq!(LogLayer::request_text(&uri), "/");
    uri.authority = Some("example.com:443".to_string());
    assert_eq!(LogLayer::request_text(&uri), "/");
    uri.scheme = Some("http".to_string());
    uri.path = "/p".to_string();
    assert_eq!(LogLayer::request_text(&uri), "/p");
}

#[test]
fn status_and_size_are_decimal() {
    let e = Entry {
        remote_addr: "::1".to_string(),
        time_local: "[t]".to_string(),
        request: "/".to_string(),
        referer: "-".to_string(),
        user_agent: "curl/8".to_string(),
    };
    assert_eq!(LogLayer::format(&e, 404, 0), "::1 - - [t] \"/\" 404 0 \"-\" \"curl/8\"\n");
    assert_eq!(LogLayer::format(&e, 65535, u64::MAX), "::1 - - [t] \"/\" 65535 18446744073709551615 \"-\" \"curl/8\"\n");
    assert_eq!(LogLayer::format(&e, 7, 10), "::1 - - [t] \"/\" 7 10 \"-\" \"curl/8\"\n");
}

#[test]
fn size_is_the_lower_bound_of_the_body() {
    let e = LogLayer::begin(&from(None), &request("/", None, &[]), "[t]".to_string());
    let file = Response { status: 200, headers: Vec::new(), body: Body::File("/f".to_string()) };
    assert_eq!(LogLayer::call(&e, Some(&file)), "- - - [t] \"/\" 200 0 \"-\" \"-\"\n");
    let stream = Response { status: 206, headers: Vec::new(), body: Body::Upstream(99) };
    assert_eq!(LogLayer::call(&e, Some(&stream)), "- - - [t] \"/\" 206 99 \"-\" \"-\"\n");
    let text = Response { status: 200, headers: Vec::new(), body: Body::Text("h\u{e9}".to_string()) };
    assert_eq!(LogLayer::call(&e, Some(&text)), "- - - [t] \"/\" 200 3 \"-\" \"-\"\n");
}
