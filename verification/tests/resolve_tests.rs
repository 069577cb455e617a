use icon_finder::document::LinkTag;
use icon_finder::icon::Icon;
use icon_finder::resolve::{
    candidate_of, collect_candidates, fallback_icons, get_icon_url, http_origin, https_origin,
    icons_from_links, is_icon_tag, next_attempt, resolve_icons, seed, Page,
};

fn pairs(icons: &[Icon]) -> Vec<(u8, String)> {
    icons.iter().map(|i| (i.priority, i.href.clone())).collect()
}

fn expect(items: &[(u8, &str)]) -> Vec<(u8, String)> {
    items.iter().map(|(p, h)| (*p, h.to_string())).collect()
}

fn page(base: &str, body: &str) -> Page {
    Page { base_url: base.to_string(), body: body.to_string(), set_cookies: Vec::new() }
}

fn link(rel: Option<&str>, href: Option<&str>, sizes: Option<&str>) -> LinkTag {
    LinkTag {
        rel: rel.map(|s| s.to_string()),
        href: href.map(|s| s.to_string()),
        sizes: sizes.map(|s| s.to_string()),
    }
}

#[test]
fn unreachable_domain_gives_both_defaults() {
    let icons = resolve_icons("dom", None);
    assert_eq!(
        pairs(&icons),
        expect(&[(35, "https://dom/favicon.ico"), (35, "http://dom/favicon.ico")])
    );
    let (icons, cookies) = get_icon_url("dom", None);
    assert_eq!(
        pairs(&icons),
        expect(&[(35, "https://dom/favicon.ico"), (35, "http://dom/favicon.ico")])
    );
    assert_eq!(cookies, "");
    assert_eq!(pairs(&fallback_icons("dom")), pairs(&icons));
}

#[test]
fn declared_icon_ranks_before_the_default() {
    let p = page(
        "https://real.example.com",
        "<html><head><link rel=\"icon\" href=\"/f.png\" sizes=\"32x32\"></head><body></body></html>",
    );
    let icons = resolve_icons("example.com", Some(&p));
    assert_eq!(
        pairs(&icons),
        expect(&[
            (1, "https://real.example.com/f.png"),
            (35, "https://real.example.com/favicon.ico"),
        ])
    );
}

#[test]
fn sized_png_then_unsized_ico_then_default() {
    let p = page(
        "https://a.b",
        "<head><link rel=\"shortcut icon\" href=\"/static/fav.ico\">\
         <link rel=\"icon\" type=\"image/png\" sizes=\"64x64\" href=\"/static/fav-64.png\"></head>",
    );
    let icons = resolve_icons("a.b", Some(&p));
    assert_eq!(
        pairs(&icons),
        expect(&[
            (2, "https://a.b/static/fav-64.png"),
            (30, "https://a.b/static/fav.ico"),
            (35, "https://a.b/favicon.ico"),
        ])
    );
}

#[test]
fn duplicate_of_the_default_is_kept() {
    let p = page("https://a.b", "<link rel=\"icon\" href=\"/favicon.ico\">");
    let icons = resolve_icons("a.b", Some(&p));
    assert_eq!(
        pairs(&icons),
        expect(&[(30, "https://a.b/favicon.ico"), (35, "https://a.b/favicon.ico")])
    );
}

#[test]
fn non_square_ranks_last() {
    let p = page(
        "http://a.b",
        "<link rel=\"icon\" href=\"wide.png\" sizes=\"48x20\">\
         <link rel=\"apple-touch-icon\" href=\"//cdn.a.b/touch.png\">\
         <link rel=\"icon\" href=\"https://c.d/odd.jpg?v=3\" sizes=\"512x512\">",
    );
    let icons = resolve_icons("a.b", Some(&p));
    assert_eq!(
        pairs(&icons),
        expect(&[
            (5, "https://c.d/odd.jpg?v=3"),
            (10, "http://cdn.a.b/touch.png"),
            (35, "http://a.b/favicon.ico"),
            (200, "http://a.b/wide.png"),
        ])
    );
}

#[test]
fn page_without_icons_gives_the_default_alone() {
    let p = page(
        "https://a.b",
        "<html><head><link rel=\"stylesheet\" href=\"/s.css\"><title>t</title></head></html>",
    );
    assert_eq!(pairs(&resolve_icons("a.b", Some(&p))), expect(&[(35, "https://a.b/favicon.ico")]));
    let empty = page("https://a.b", "");
    assert_eq!(
        pairs(&resolve_icons("a.b", Some(&empty))),
        expect(&[(35, "https://a.b/favicon.ico")])
    );
    let junk = page("https://a.b", "<<<>>> not html \u{0}");
    assert_eq!(pairs(&resolve_icons("a.b", Some(&junk))), expect(&[(35, "https://a.b/favicon.ico")]));
}

#[test]
fn equal_priorities_keep_document_order() {
    let p = page(
        "https://a.b",
        "<link rel=\"icon\" href=\"/one.png\">\
         <link rel=\"icon\" href=\"/two.png\">\
         <link rel=\"icon\" href=\"/three.png\">",
    );
    let icons = resolve_icons("a.b", Some(&p));
    assert_eq!(
        pairs(&icons),
        expect(&[
            (10, "https://a.b/one.png"),
            (10, "https://a.b/two.png"),
            (10, "https://a.b/three.png"),
            (35, "https://a.b/favicon.ico"),
        ])
    );
}

#[test]
fn cookies_come_with_the_icons() {
    let p = Page {
        base_url: "https://a.b".to_string(),
        body: "<link rel=\"icon\" href=\"/f.png\" sizes=\"16x16\">".to_string(),
        set_cookies: vec!["sid=1; Path=/".to_string(), "broken".to_string(), "t=2".to_string()],
    };
    let (icons, cookies) = get_icon_url("a.b", Some(&p));
    assert_eq!(pairs(&icons), expect(&[(4, "https://a.b/f.png"), (35, "https://a.b/favicon.ico")]));
    assert_eq!(cookies, "sid=1; t=2; ");
}

#[test]
fn rel_must_match_the_icon_pattern() {
    assert!(is_icon_tag(&link(Some("icon"), Some("/f.png"), None)));
    assert!(is_icon_tag(&link(Some("shortcut icon"), Some("/f.ico"), None)));
    assert!(is_icon_tag(&link(Some("apple-touch-icon-precomposed"), Some("/f.png"), None)));
    assert!(!is_icon_tag(&link(Some("stylesheet"), Some("/f.png"), None)));
    assert!(!is_icon_tag(&link(Some("Icon"), Some("/f.png"), None)));
    assert!(!is_icon_tag(&link(Some("icons"), Some("/f.png"), None)));
    assert!(!is_icon_tag(&link(None, Some("/f.png"), None)));
}

#[test]
fn href_must_name_an_image_file() {
    assert!(is_icon_tag(&link(Some("icon"), Some("/f.JPG"), None)));
    assert!(is_icon_tag(&link(Some("icon"), Some("/f.jpeg?x=1"), None)));
    assert!(!is_icon_tag(&link(Some("icon"), Some("/f.svg"), None)));
    assert!(!is_icon_tag(&link(Some("icon"), Some("/f.png#frag"), None)));
    assert!(!is_icon_tag(&link(Some("icon"), Some(".png"), None)));
    assert!(!is_icon_tag(&link(Some("icon"), None, None)));
}

#[test]
fn candidate_of_resolves_then_scores() {
    let icon = candidate_of("https://a.b", &link(Some("icon"), Some("f.jpg"), Some("24x24"))).unwrap();
    assert_eq!((icon.priority, icon.href.as_str()), (3, "https://a.b/f.jpg"));
    let upper = candidate_of("https://a.b", &link(Some("icon"), Some("/f.PNG"), None)).unwrap();
    assert_eq!((upper.priority, upper.href.as_str()), (30, "https://a.b/f.PNG"));
    assert!(candidate_of("https://a.b", &link(Some("next"), Some("/f.png"), None)).is_none());
}

#[test]
fn candidates_come_in_discovery_order_with_the_default_last() {
    let tags = vec![
        link(Some("icon"), Some("/a.ico"), None),
        link(Some("author"), Some("/me.png"), None),
        link(Some("icon"), Some("/b.png"), Some("32x32")),
    ];
    let all = collect_candidates("https://a.b", &tags);
    assert_eq!(
        pairs(&all),
        expect(&[(30, "https://a.b/a.ico"), (1, "https://a.b/b.png"), (35, "https://a.b/favicon.ico")])
    );
    let ranked = icons_from_links("https://a.b", &tags);
    assert_eq!(
        pairs(&ranked),
        expect(&[(1, "https://a.b/b.png"), (30, "https://a.b/a.ico"), (35, "https://a.b/favicon.ico")])
    );
    assert_eq!(pairs(&icons_from_links("https://a.b", &Vec::new())), expect(&[(35, "https://a.b/favicon.ico")]));
}

#[test]
fn origins_and_attempts() {
    assert_eq!(https_origin("github.com"), "https://github.com");
    assert_eq!(http_origin("github.com"), "http://github.com");
    assert_eq!(next_attempt("github.com", 0), Some("https://github.com".to_string()));
    assert_eq!(next_attempt("github.com", 1), Some("http://github.com".to_string()));
    assert_eq!(next_attempt("github.com", 2), None);
    assert_eq!(next_attempt("github.com", 255), None);
    let s = seed("https://github.com");
    assert_eq!((s.priority, s.href.as_str()), (35, "https://github.com/favicon.ico"));
}
