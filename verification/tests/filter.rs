use claude_code_sync::filter::FilterConfig;

#[test]
fn test_filter_with_attachments() {
    let filter = FilterConfig {
        exclude_attachments: true,
        ..Default::default()
    };

    assert!(filter.should_include("session.jsonl"));
    assert!(filter.should_include("/path/to/session.jsonl"));

    assert!(!filter.should_include("image.png"));
    assert!(!filter.should_include("document.pdf"));
    assert!(!filter.should_include("archive.zip"));
    assert!(!filter.should_include("/path/to/file.jpg"));
}

#[test]
fn test_filter_without_attachments_exclusion() {
    let filter = FilterConfig::default();

    assert!(filter.should_include("session.jsonl"));
    assert!(filter.should_include("image.png"));
    assert!(filter.should_include("document.pdf"));
}

#[test]
fn files_without_the_extension_are_attachments() {
    let filter = FilterConfig { exclude_attachments: true, ..Default::default() };
    assert!(!filter.should_include(".jsonl"));
    assert!(!filter.should_include("jsonl"));
    assert!(!filter.should_include("a.jsonl.bak"));
    assert!(!filter.should_include("a.jsonl/.."));
    assert!(!filter.should_include(""));
    assert!(filter.should_include("a.b.jsonl"));
    assert!(filter.should_include("a.jsonl/"));
}

#[test]
fn excluding_attachments_on_request() {
    let filter = FilterConfig::default();
    let stricter = filter.excluding_attachments(true);
    assert!(stricter.exclude_attachments);
    assert_eq!(filter.excluding_attachments(false), filter);
    assert_eq!(stricter.excluding_attachments(false), stricter);
}
