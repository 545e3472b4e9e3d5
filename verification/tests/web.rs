use tessera::web::{has_prose, host_of, link_target, resolve, tokens};

#[test]
fn a_relative_href_resolves_against_the_directory_it_sits_in() {
    assert_eq!(resolve("http://h/a/b/index.html", "c.html").as_deref(), Some("http://h/a/b/c.html"));
    assert_eq!(resolve("http://h/a/b/", "c.html").as_deref(), Some("http://h/a/b/c.html"));
    assert_eq!(resolve("http://h/a/b/", "/c.html").as_deref(), Some("http://h/c.html"));
    assert_eq!(resolve("http://h/a/", "https://x/c.html").as_deref(), Some("https://x/c.html"));
}

#[test]
fn a_host_is_read_lowercased_and_without_credentials() {
    assert_eq!(host_of("https://User@Example.Invalid:8080/a?b").as_deref(), Some("example.invalid:8080"));
    assert_eq!(host_of("https:///nothing").as_deref(), None);
}

#[test]
fn discovery_never_leaves_the_host_it_was_pointed_at() {
    assert_eq!(link_target("http://h/docs/", "other.html").as_deref(), Some("http://h/docs/other.html"));
    assert_eq!(link_target("http://h/docs/", "http://elsewhere/x"), None);
    assert_eq!(link_target("http://h/docs/", "#top"), None);
    assert_eq!(link_target("http://h/docs/", "mailto:someone@h"), None);
    assert_eq!(link_target("http://h/docs/", "../"), None);
}

#[test]
fn a_listing_has_no_prose_and_a_page_does() {
    let listing = vec![("report.html".to_string(), "report.html".to_string())];
    assert!(!has_prose(&listing));
    let page = vec![(
        "The notification period comes to 85 days.".to_string(),
        String::new(),
    )];
    assert!(has_prose(&page));
}

#[test]
fn a_question_becomes_lowercase_words() {
    assert_eq!(tokens("What is the Buffer?"), vec!["what", "is", "the", "buffer"]);
}
