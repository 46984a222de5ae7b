use acl_engine::pattern::{classify, ExecutionContext, RemoteUrlPattern};

#[test]
fn url_pattern_domain_wildcard() {
    let pattern: RemoteUrlPattern = "http://*".parse().unwrap();

    assert!(pattern.test("http://tauri.app/path"));
    assert!(pattern.test("http://tauri.app/path?q=1"));

    assert!(pattern.test("http://localhost/path"));
    assert!(pattern.test("http://localhost/path?q=1"));

    let pattern: RemoteUrlPattern = "http://*.tauri.app".parse().unwrap();

    assert!(!pattern.test("http://tauri.app/path"));
    assert!(!pattern.test("http://tauri.app/path?q=1"));
    assert!(pattern.test("http://api.tauri.app/path"));
    assert!(pattern.test("http://api.tauri.app/path?q=1"));
    assert!(!pattern.test("http://localhost/path"));
    assert!(!pattern.test("http://localhost/path?q=1"));
}

#[test]
fn url_pattern_path_wildcard() {
    let pattern: RemoteUrlPattern = "http://localhost/*".parse().unwrap();
    assert!(pattern.test("http://localhost/path"));
    assert!(pattern.test("http://localhost/path?q=1"));
}

#[test]
fn url_pattern_scheme_wildcard() {
    let pattern: RemoteUrlPattern = "*://localhost".parse().unwrap();
    assert!(pattern.test("http://localhost/path"));
    assert!(pattern.test("https://localhost/path?q=1"));
    assert!(pattern.test("custom://localhost/path"));
}

#[test]
fn normalization_widens_path_query_and_fragment() {
    let pattern: RemoteUrlPattern = "http://example.com".parse().unwrap();
    let components = pattern.components();
    assert_eq!(components.pathname, "*");
    assert_eq!(components.search, "*");
    assert_eq!(components.hash, "*");
    assert_eq!(components.protocol, "http");
    assert_eq!(components.hostname, "example.com");
    assert!(pattern.test("http://example.com/deep/path?q=1#frag"));
}

#[test]
fn equality_ignores_source_spelling() {
    let bare: RemoteUrlPattern = "http://example.com".parse().unwrap();
    let with_root: RemoteUrlPattern = "http://example.com/".parse().unwrap();
    assert_ne!(bare.as_str(), with_root.as_str());
    assert_eq!(bare, with_root);
}

#[test]
fn equality_differs_when_a_component_differs() {
    let first: RemoteUrlPattern = "http://example.com".parse().unwrap();
    let second: RemoteUrlPattern = "http://example.org".parse().unwrap();
    let third: RemoteUrlPattern = "https://example.com".parse().unwrap();
    assert_ne!(first, second);
    assert_ne!(first, third);
}

#[test]
fn clone_is_equal_and_matches_alike() {
    let pattern: RemoteUrlPattern = "http://*.tauri.app".parse().unwrap();
    let copy = pattern.clone();
    assert_eq!(pattern, copy);
    assert_eq!(pattern.as_str(), copy.as_str());
    assert!(copy.test("http://api.tauri.app/path"));
    assert!(!copy.test("http://tauri.app/path"));
}

#[test]
fn malformed_pattern_fails_to_parse() {
    assert!(RemoteUrlPattern::parse("").is_err());
}

#[test]
fn classify_local_content() {
    let patterns: Vec<RemoteUrlPattern> = vec![];
    assert_eq!(
        classify(true, "http://localhost/app", &patterns),
        Some(ExecutionContext::Local)
    );
}

#[test]
fn classify_takes_first_matching_pattern() {
    let patterns: Vec<RemoteUrlPattern> = vec![
        "http://*.tauri.app".parse().unwrap(),
        "*://localhost".parse().unwrap(),
        "http://*".parse().unwrap(),
    ];
    match classify(false, "http://localhost/path", &patterns) {
        Some(ExecutionContext::Remote { url: matched }) => {
            assert_eq!(matched.as_str(), "*://localhost");
        }
        other => panic!("expected a remote context, got {:?}", other),
    }
}

#[test]
fn classify_fails_closed_without_a_match() {
    let patterns: Vec<RemoteUrlPattern> = vec!["http://*.tauri.app".parse().unwrap()];
    assert_eq!(classify(false, "http://evil.example/path", &patterns), None);
}

#[test]
fn default_execution_context_is_local() {
    assert_eq!(ExecutionContext::default(), ExecutionContext::Local);
}

#[test]
fn unparseable_url_never_matches() {
    let pattern: RemoteUrlPattern = "http://*".parse().unwrap();
    assert!(!pattern.test("not a url"));
}
