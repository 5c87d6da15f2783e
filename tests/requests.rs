use hedge::config::{Config, DEFAULT_PORT};
use hedge::form::{form_url, form_value, multipart_url, MultipartField};
use hedge::response::{render, Outcome};
use hedge::route::{route, route_with_boundary, Method, Route};
use hedge::service::{handle_form, handle_multipart, resolve, submit};
use hedge::store::LinkTable;

fn field(name: Option<&str>, text: Option<&str>) -> Option<MultipartField> {
    Some(MultipartField { name: name.map(|s| s.to_string()), text: text.map(|s| s.to_string()) })
}

fn codes(list: &[&str]) -> Vec<String> {
    list.iter().map(|s| s.to_string()).collect()
}

#[test]
fn get_root_is_welcome() {
    assert!(matches!(route(Method::Get, "/", None), Route::Welcome));
}

#[test]
fn get_path_resolves_code() {
    match route(Method::Get, "/abcd", None) {
        Route::Resolve(c) => assert_eq!(c, "abcd"),
        other => panic!("{:?}", other),
    }
}

#[test]
fn post_root_picks_body_kind() {
    assert!(matches!(route(Method::Post, "/", None), Route::ShortenForm));
    assert!(matches!(
        route(Method::Post, "/", Some("application/x-www-form-urlencoded")),
        Route::ShortenForm
    ));
    match route(Method::Post, "/", Some("multipart/form-data; boundary=XyZ123")) {
        Route::ShortenMultipart(b) => assert_eq!(b, "XyZ123"),
        other => panic!("{:?}", other),
    }
    assert!(matches!(route(Method::Post, "/", Some("multipart/form-data")), Route::ShortenForm));
    assert!(matches!(
        route_with_boundary(Method::Post, "/", Some("b".to_string())),
        Route::ShortenMultipart(_)
    ));
}

#[test]
fn other_requests_have_no_route() {
    assert!(matches!(route(Method::Post, "/abcd", None), Route::NoRoute));
    assert!(matches!(route(Method::Other, "/", None), Route::NoRoute));
    assert!(matches!(route(Method::Other, "/abcd", None), Route::NoRoute));
}

#[test]
fn unknown_code_is_not_found() {
    let t = LinkTable::new();
    let code = match route(Method::Get, "/zzzz", None) {
        Route::Resolve(c) => c,
        other => panic!("{:?}", other),
    };
    let o = resolve(&t, &code);
    assert!(matches!(o, Outcome::NotFound));
    let r = render(&o, b"localhost:3000");
    assert_eq!(r.status, 404);
    assert!(r.body.is_empty());
    assert_eq!(r.location, None);
}

#[test]
fn known_code_redirects() {
    let mut t = LinkTable::new();
    t.insert("https://example.com/x".to_string(), "abcd".to_string()).unwrap();
    let r = render(&resolve(&t, "abcd"), b"h");
    assert_eq!(r.status, 301);
    assert_eq!(r.location, Some("https://example.com/x".to_string()));
    assert_eq!(r.content_type, Some("text/html".to_string()));
    assert_eq!(
        r.body,
        b"You will be redirected to: https://example.com/x. If not, click the link.".to_vec()
    );
}

#[test]
fn form_without_shorten_field_is_unprocessable() {
    let mut t = LinkTable::new();
    let o = handle_form(&mut t, b"foo=bar", &codes(&["abcd"]));
    assert!(matches!(o, Outcome::Unprocessable));
    assert_eq!(render(&o, b"h").status, 422);
    assert!(render(&o, b"h").body.is_empty());
    assert_eq!(t.len(), 0);
}

#[test]
fn form_and_multipart_give_one_code() {
    let mut t = LinkTable::new();
    let first = handle_form(&mut t, b"shorten=https://example.com", &codes(&["abcd"]));
    let again = handle_multipart(&mut t, field(Some("shorten"), Some("https://example.com")), &codes(&["wxyz"]));
    let (a, b) = match (first, again) {
        (Outcome::Shortened(a), Outcome::Shortened(b)) => (a, b),
        _ => panic!("not shortened"),
    };
    assert_eq!(a.code, "abcd");
    assert!(a.created);
    assert_eq!(b.code, "abcd");
    assert!(!b.created);
    assert_eq!(t.len(), 1);

    let mut u = LinkTable::new();
    let m = handle_multipart(&mut u, field(Some("shorten"), Some("https://example.com")), &codes(&["abcd"]));
    let f = handle_form(&mut u, b"shorten=https://example.com", &codes(&["wxyz"]));
    match (m, f) {
        (Outcome::Shortened(m), Outcome::Shortened(f)) => {
            assert_eq!(m.code, "abcd");
            assert_eq!(f.code, "abcd");
        }
        _ => panic!("not shortened"),
    }
}

#[test]
fn shortened_response_is_the_short_link() {
    let mut t = LinkTable::new();
    let o = handle_form(&mut t, b"shorten=https://example.com", &codes(&["Ab_-"]));
    let r = render(&o, b"sho.rt");
    assert_eq!(r.status, 200);
    assert_eq!(r.content_type, Some("text/html".to_string()));
    assert_eq!(r.body, b"https://sho.rt/Ab_-\n".to_vec());
}

#[test]
fn exhausted_codes_are_unavailable() {
    let mut t = LinkTable::new();
    t.insert("https://a.example".to_string(), "abcd".to_string()).unwrap();
    let o = submit(&mut t, Some("https://b.example".to_string()), &codes(&["abcd"]));
    assert!(matches!(o, Outcome::Unavailable));
    assert_eq!(render(&o, b"h").status, 500);
    assert!(matches!(submit(&mut t, None, &codes(&["wxyz"])), Outcome::Unprocessable));
}

#[test]
fn form_decodes_and_last_value_wins() {
    assert_eq!(form_url(b"shorten=a%20b+c"), Some("a b c".to_string()));
    assert_eq!(form_url(b"shorten=first&shorten=second"), Some("second".to_string()));
    assert_eq!(form_url(b"x=1&shorten=https%3A%2F%2Fe.org%2Fp&y=2"), Some("https://e.org/p".to_string()));
    assert_eq!(form_url(b""), None);
    let pairs = vec![("k".to_string(), "1".to_string()), ("j".to_string(), "2".to_string())];
    assert_eq!(form_value(&pairs, "k"), Some("1".to_string()));
    assert_eq!(form_value(&pairs, "z"), None);
}

#[test]
fn multipart_needs_a_shorten_text_field() {
    assert_eq!(multipart_url(field(Some("shorten"), Some("u"))), Some("u".to_string()));
    assert_eq!(multipart_url(field(Some("other"), Some("u"))), None);
    assert_eq!(multipart_url(field(None, Some("u"))), None);
    assert_eq!(multipart_url(field(Some("shorten"), None)), None);
    assert_eq!(multipart_url(None), None);
    let mut t = LinkTable::new();
    let o = handle_multipart(&mut t, field(Some("other"), Some("u")), &codes(&["abcd"]));
    assert!(matches!(o, Outcome::Unprocessable));
}

#[test]
fn welcome_page_names_the_host() {
    let r = render(&Outcome::Welcome, b"example.org:3000");
    assert_eq!(r.status, 200);
    assert_eq!(r.content_type, Some("text/plain".to_string()));
    let text = String::from_utf8(r.body).unwrap();
    assert!(text.ends_with("curl -F'shorten=https://shorten.some/long/url' example.org:3000\n"));
    assert_eq!(
        text,
        "\nThis URL shortening service is powered by hedge.\n\n    github.com/nerdypepper/hedge\n\nTo shorten urls:\n\n    curl -F'shorten=https://shorten.some/long/url' example.org:3000\n"
    );
    let r = render(&Outcome::Welcome, b"bad\xffhost");
    let text = String::from_utf8(r.body).unwrap();
    assert!(text.ends_with("bad\u{FFFD}host\n"));
}

#[test]
fn welcome_page_without_host_ends_with_the_example() {
    let r = render(&Outcome::Welcome, b"");
    assert_eq!(
        String::from_utf8(r.body).unwrap(),
        "\nThis URL shortening service is powered by hedge.\n\n    github.com/nerdypepper/hedge\n\nTo shorten urls:\n\n    curl -F'shorten=https://shorten.some/long/url' \n"
    );
}

#[test]
fn config_defaults_and_options() {
    let d = Config::default();
    assert!(!d.help);
    assert_eq!(d.port, 3000);
    assert_eq!(DEFAULT_PORT, 3000);
    assert_eq!(d.db_path, "./urls.db_3");
    let c = Config::from_options(true, Some(8080), Some("/tmp/x.db".to_string()));
    assert!(c.help);
    assert_eq!(c.port, 8080);
    assert_eq!(c.db_path, "/tmp/x.db");
    let c = Config::from_options(false, None, None);
    assert_eq!(c.port, 3000);
    assert_eq!(c.db_path, "./urls.db_3");
}
