use mcpls_core::paths::FilePath;
use mcpls_core::resources::{
    make_uri, parse_source_uri, parse_uri, percent_decode, percent_encode, uri_to_path,
    ResourceUriError,
};

#[test]
fn test_read_resource_rejects_file_scheme() {
    let result = parse_uri("file:///some/file.rs");
    assert!(result.is_err());
}

#[test]
fn test_subscribe_rejects_https_scheme() {
    let result = parse_uri("https://evil.com/file.rs");
    assert!(result.is_err());
}

#[test]
fn paths_are_escaped_and_read_back() {
    let path = FilePath::new("/workspace/a b/é#?.rs");
    let uri = make_uri(&path).unwrap();
    assert_eq!(uri, "lsp-diagnostics:///workspace/a%20b/%C3%A9%23%3F.rs");
    assert_eq!(parse_uri(&uri).unwrap(), path);
    assert_eq!(percent_encode("a/b~c"), "a/b~c");
    assert_eq!(percent_decode("%41%2f").as_deref(), Some("A/"));
    assert_eq!(percent_decode("%4"), None);
    assert_eq!(percent_decode("%zz"), None);
    assert_eq!(percent_decode("%FF"), None);
}

#[test]
fn only_absolute_paths_have_a_uri() {
    assert_eq!(
        make_uri(&FilePath::new("relative.rs")),
        Err(ResourceUriError::NotAbsolute)
    );
    assert!(parse_uri("lsp-diagnostics://relative.rs").is_err());
    assert!(parse_uri("lsp-diagnostics:///%zz").is_err());
}

#[test]
fn file_uris_have_a_path() {
    assert_eq!(
        uri_to_path("file:///workspace/a%20b.rs"),
        Some(FilePath::new("/workspace/a b.rs"))
    );
    assert_eq!(uri_to_path("https://example.org/a.rs"), None);
    assert_eq!(uri_to_path("not a uri"), None);
}

#[test]
fn source_uris_keep_their_selectors() {
    let source = parse_source_uri("mcpls-source:///workspace/a.rs?start_line=1&end_line=2").unwrap();
    assert_eq!(source.path, FilePath::new("/workspace/a.rs"));
    assert_eq!(parse_source_uri("lsp-diagnostics:///workspace/a.rs"), None);
}
