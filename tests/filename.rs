use pdf_gateway::filename::{is_upload_field, sanitize_filename};

#[test]
fn test_sanitize_filename() {
    assert_eq!(sanitize_filename("test.docx"), "test.docx");
    assert_eq!(sanitize_filename("/tmp/test.docx"), "test.docx");
    assert_eq!(sanitize_filename(""), "document");
}

#[test]
fn sanitize_skips_trailing_separators_and_dots() {
    assert_eq!(sanitize_filename("a/b/"), "b");
    assert_eq!(sanitize_filename("a/b/."), "b");
    assert_eq!(sanitize_filename("a//b"), "b");
    assert_eq!(sanitize_filename("./report.odt"), "report.odt");
}

#[test]
fn sanitize_rejects_names_that_leave_the_directory() {
    assert_eq!(sanitize_filename(".."), "document");
    assert_eq!(sanitize_filename("../.."), "document");
    assert_eq!(sanitize_filename("a/.."), "document");
    assert_eq!(sanitize_filename("."), "document");
    assert_eq!(sanitize_filename("/"), "document");
    assert_eq!(sanitize_filename("///"), "document");
}

#[test]
fn sanitize_keeps_dotted_and_unicode_names() {
    assert_eq!(sanitize_filename("../../etc/passwd"), "passwd");
    assert_eq!(sanitize_filename("..."), "...");
    assert_eq!(sanitize_filename(".hidden"), ".hidden");
    assert_eq!(sanitize_filename("dir/résumé.docx"), "résumé.docx");
    assert_eq!(sanitize_filename("C:\\Windows\\test.docx"), "C:\\Windows\\test.docx");
}

#[test]
fn sanitized_names_have_no_separator_and_are_not_empty() {
    let inputs = ["", "/", "a/b/c", "x/", "..", "/.", "a b/c d", "\"q\"/x"];
    for raw in inputs {
        let s = sanitize_filename(raw);
        assert!(!s.is_empty());
        assert!(!s.contains('/'));
        assert_ne!(s, ".");
        assert_ne!(s, "..");
    }
}

#[test]
fn only_the_file_field_carries_the_upload() {
    assert!(is_upload_field(Some("file")));
    assert!(!is_upload_field(Some("files")));
    assert!(!is_upload_field(Some("File")));
    assert!(!is_upload_field(Some("")));
    assert!(!is_upload_field(None));
}
