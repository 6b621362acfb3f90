use revproxy::message::{Request, Version};
use revproxy::router::{Route, RouterService};
use revproxy::service::HttpError;
use revproxy::uri::{Uri, UriExt};

fn get(path: &str, query: Option<&str>) -> Request {
    Request {
        method: "GET".to_string(),
        uri: Uri { scheme: None, authority: None, path: path.to_string(), query: query.map(|q| q.to_string()) },
        version: Version::Http11,
        headers: Vec::new(),
    }
}

fn router(prefixes: &[&str]) -> RouterService<usize> {
    RouterService::new(
        prefixes.iter().enumerate().map(|(i, p)| Route { route: p.to_string(), service: i }).collect(),
    )
}

#[test]
fn first_matching_prefix_wins() {
    let r = router(&["/api/v2/", "/api/", "/"]);
    assert_eq!(r.find("/api/v2/x"), Some(0));
    assert_eq!(r.find("/api/v1/x"), Some(1));
    assert_eq!(r.find("/other"), Some(2));
    let shadowed = router(&["/", "/api/"]);
    assert_eq!(shadowed.find("/api/x"), Some(0));
}

#[test]
fn no_prefix_means_no_route() {
    let r = router(&["/api/", "/static/"]);
    assert_eq!(r.find("/index.html"), None);
    assert_eq!(r.find("/api"), None);
    match r.call(get("/index.html", None)) {
        Err(HttpError::String(m)) => assert_eq!(m, "No route"),
        other => panic!("unexpected {:?}", other),
    }
}

#[test]
fn prefix_is_stripped_but_for_its_slash() {
    let r = router(&["/api/"]);
    let (i, req) = r.call(get("/api/hello", Some("a=b"))).unwrap();
    assert_eq!(i, 0);
    assert_eq!(req.uri.path, "/hello");
    assert_eq!(req.uri.query.as_deref(), Some("a=b"));
    assert_eq!(req.method, "GET");
}

#[test]
fn prefix_equal_to_path_leaves_root() {
    let r = router(&["/api/"]);
    let (_, req) = r.call(get("/api/", None)).unwrap();
    assert_eq!(req.uri.path, "/");
}

#[test]
fn prefix_without_slash_cannot_be_stripped() {
    let r = router(&["/api"]);
    assert!(r.is_wf());
    match r.call(get("/api/hello", None)) {
        Err(HttpError::String(m)) => assert_eq!(m, "path does not start with slash"),
        other => panic!("unexpected {:?}", other),
    }
}

#[test]
fn empty_prefix_is_not_well_formed() {
    assert!(!router(&["/a/", ""]).is_wf());
    assert!(router(&[]).is_wf());
}

#[test]
fn normalised_path_is_routed() {
    let r = router(&["/api/"]);
    let mut req = get("/api/./v1/../hello", None);
    req.uri = req.uri.normalize_path().unwrap();
    assert_eq!(req.uri.path, "/api/hello");
    let (i, req) = r.call(req).unwrap();
    assert_eq!(i, 0);
    assert_eq!(req.uri.path, "/hello");
}

#[test]
fn scheme_and_authority_survive_routing() {
    let r = router(&["/a/"]);
    let mut req = get("/a/b", None);
    req.uri.scheme = Some("https".to_string());
    req.uri.authority = Some("example.com".to_string());
    let (_, out) = r.call(req).unwrap();
    assert_eq!(out.uri.to_string(), "https://example.com/b");
}

#[test]
fn rewrite_reads_the_rest_anew() {
    let uri = Uri { scheme: None, authority: None, path: "/x/y".to_string(), query: Some("q=1".to_string()) };
    let out = RouterService::<()>::rewrite(&uri, "/x/").unwrap();
    assert_eq!(out.path, "/y");
    assert_eq!(out.query.as_deref(), Some("q=1"));
}
