use geopard::bookmarks::{Bookmark, BookmarkBuilder, Bookmarks};
use geopard::config::Fonts;
use geopard::hosts_file::{parse_known_hosts, render_known_hosts, render_line};
use geopard::known_hosts::{
    validate, Certificate, CertificateError, CertificateValidator, KnownHostsMap, KnownHostsRepo,
};

fn cert(fingerprint: &str) -> Certificate {
    Certificate {
        fingerprint: fingerprint.to_string(),
        not_valid_before: None,
        not_valid_after: None,
    }
}

#[test]
fn tofu_first_use_pins_the_fingerprint() {
    let mut store = KnownHostsMap::new();
    let c = cert("aa11");
    let r = validate(&mut store, "example.org", &c, 1000);
    assert_eq!(r, Ok(()));
    assert_eq!(store.get("example.org"), Some("aa11"));
}

#[test]
fn tofu_mismatch_is_bad_identity_and_keeps_the_pin() {
    let mut store = KnownHostsMap::new();
    assert_eq!(validate(&mut store, "example.org", &cert("aa11"), 0), Ok(()));
    let r = validate(&mut store, "example.org", &cert("bb22"), 0);
    assert_eq!(r, Err(CertificateError::BadIdentity));
    assert_eq!(store.get("example.org"), Some("aa11"));
}

#[test]
fn expired_certificate_is_rejected() {
    let mut store = KnownHostsMap::new();
    let c = Certificate {
        fingerprint: "aa11".to_string(),
        not_valid_before: None,
        not_valid_after: Some(500),
    };
    let r = validate(&mut store, "example.org", &c, 1000);
    assert_eq!(r, Err(CertificateError::Expired));
}

#[test]
fn not_yet_activated_certificate_is_rejected() {
    let mut store = KnownHostsMap::new();
    let c = Certificate {
        fingerprint: "aa11".to_string(),
        not_valid_before: Some(2000),
        not_valid_after: None,
    };
    let r = validate(&mut store, "example.org", &c, 1000);
    assert_eq!(r, Err(CertificateError::NotActivated));
}

#[test]
fn session_override_accepts_any_certificate() {
    let mut store = KnownHostsMap::new();
    assert_eq!(validate(&mut store, "example.org", &cert("aa11"), 0), Ok(()));
    let mut kh = CertificateValidator::new(store);
    kh.override_trust("example.org");
    let r = kh.validate("example.org", &cert("completely-different"), 0);
    assert_eq!(r, Ok(()));
    // The underlying store still pins the first fingerprint.
    assert_eq!(kh.store().get("example.org"), Some("aa11"));
}

#[test]
fn removal_resets_trust_to_first_use() {
    let store = KnownHostsMap::new();
    let mut kh = CertificateValidator::new(store);
    assert_eq!(kh.validate("example.org", &cert("aa11"), 0), Ok(()));
    kh.remove_known("example.org");
    assert_eq!(kh.store().get("example.org"), None);
    // The next validation re-pins whatever is presented.
    assert_eq!(kh.validate("example.org", &cert("bb22"), 0), Ok(()));
    assert_eq!(kh.store().get("example.org"), Some("bb22"));
}

#[test]
fn store_insert_reports_newness_and_remove_reports_existence() {
    let mut store = KnownHostsMap::new();
    assert!(store.insert("a", "1"));
    assert!(!store.insert("a", "2"));
    assert_eq!(store.get("a"), Some("2"));
    assert!(store.remove("a"));
    assert!(!store.remove("a"));
    assert_eq!(store.get("a"), None);
}

#[test]
fn durable_store_round_trip() {
    let mut store = KnownHostsMap::new();
    let pairs = [
        ("one.example", "f1f1"),
        ("two.example", "f2f2"),
        ("three.example", "f3f3"),
        ("four.example", "f4f4"),
    ];
    for (host, sha) in pairs {
        store.insert(host, sha);
    }
    let text = render_known_hosts(&store);
    let reloaded = parse_known_hosts(&text).unwrap();
    for (host, sha) in pairs {
        assert_eq!(reloaded.get(host), Some(sha));
    }
}

#[test]
fn render_writes_one_line_per_host() {
    let mut store = KnownHostsMap::new();
    store.insert("a.example", "0011");
    store.insert("b.example", "2233");
    let text = render_known_hosts(&store);
    assert_eq!(text, "a.example 0011\nb.example 2233\n");
    assert_eq!(render_line("h", "f"), "h f\n");
}

#[test]
fn strict_loader_fails_on_a_malformed_line() {
    assert!(parse_known_hosts("no-space-here\n").is_err());
    assert!(parse_known_hosts("good line\nbad\n").is_err());
}

#[test]
fn loader_takes_the_last_pair_for_a_duplicated_host() {
    let m = parse_known_hosts("h f1\nh f2\n").unwrap();
    assert_eq!(m.get("h"), Some("f2"));
}

#[test]
fn loader_strips_a_carriage_return_at_a_line_end() {
    let m = parse_known_hosts("h f\r\n").unwrap();
    assert_eq!(m.get("h"), Some("f"));
}

#[test]
fn loader_accepts_an_empty_file_and_no_final_newline() {
    let empty = parse_known_hosts("").unwrap();
    assert_eq!(empty.get("h"), None);
    let m = parse_known_hosts("h f").unwrap();
    assert_eq!(m.get("h"), Some("f"));
}

#[test]
fn bookmark_builder_carries_every_field() {
    let b = BookmarkBuilder::new()
        .title("Gemini Project")
        .description(Some("the protocol's home"))
        .url("gemini://geminiprotocol.net")
        .build();
    assert_eq!(b.title(), "Gemini Project");
    assert_eq!(b.description(), Some("the protocol's home".to_string()));
    assert_eq!(b.url(), "gemini://geminiprotocol.net");
}

#[test]
fn bookmark_setters_replace_fields() {
    let mut b = BookmarkBuilder::new().title("old").url("about:blank").build();
    b.set_title("new");
    b.set_description("described");
    b.set_url("gemini://example.org");
    assert_eq!(b.title(), "new");
    assert_eq!(b.description(), Some("described".to_string()));
    assert_eq!(b.url(), "gemini://example.org");
}

#[test]
fn bookmarks_store_inserts_updates_and_removes() {
    let mut bs = Bookmarks::new();
    bs.insert_bookmark(BookmarkBuilder::new().title("first").build());
    assert_eq!(bs.len(), 1);
    assert_eq!(bs.get(1).unwrap().title(), "first");
    // Inserting again replaces the bookmark under key 1.
    bs.insert_bookmark(BookmarkBuilder::new().title("second").build());
    assert_eq!(bs.len(), 1);
    assert_eq!(bs.get(1).unwrap().title(), "second");
    bs.update_bookmark(7, BookmarkBuilder::new().title("seventh").build());
    assert_eq!(bs.len(), 2);
    bs.remove_bookmark(1);
    assert_eq!(bs.len(), 1);
    assert!(bs.get(1).is_none());
    assert_eq!(bs.get(7).unwrap().title(), "seventh");
    bs.remove_bookmark(42);
    assert_eq!(bs.len(), 1);
}

#[test]
fn default_fonts_have_the_documented_values() {
    let h = Fonts::default_heading();
    assert_eq!(h.family, "Cantarell");
    assert_eq!(h.weight, 800);
    let p = Fonts::default_preformatted();
    assert_eq!(p.family, "monospace");
    assert_eq!(p.weight, 500);
    let q = Fonts::default_quote();
    assert_eq!(q.family, "Cantarell");
    assert_eq!(q.weight, 500);
    let t = Fonts::default_paragraph();
    assert_eq!(t.family, "Cantarell");
    assert_eq!(t.weight, 500);
}
