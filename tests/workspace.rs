use pdf_gateway::workspace::{Workspace, DEFAULT_ROOT};

#[test]
fn created_ids_are_hyphenated_uuids_and_fresh() {
    let a = Workspace::create(DEFAULT_ROOT);
    let b = Workspace::create(DEFAULT_ROOT);
    let id = a.id();
    assert_eq!(id.len(), 36);
    for (i, c) in id.chars().enumerate() {
        if i == 8 || i == 13 || i == 18 || i == 23 {
            assert_eq!(c, '-');
        } else {
            assert!(c.is_ascii_hexdigit() && !c.is_ascii_uppercase());
        }
    }
    assert_ne!(a.id(), b.id());
    assert_ne!(a.dir(), b.dir());
    assert!(a.dir().starts_with("/tmp/convert/"));
}

#[test]
fn with_id_checks_the_id() {
    assert!(Workspace::with_id("/r", "abc").is_some());
    assert!(Workspace::with_id("/r", "").is_none());
    assert!(Workspace::with_id("/r", ".").is_none());
    assert!(Workspace::with_id("/r", "..").is_none());
    assert!(Workspace::with_id("/r", "a/b").is_none());
    assert!(Workspace::with_id("/r", "...").is_some());
}

#[test]
fn paths_lie_inside_the_workspace() {
    let w = Workspace::with_id("/tmp/convert", "req1").unwrap();
    assert_eq!(w.dir(), "/tmp/convert/req1");
    assert_eq!(w.input_path("/etc/passwd"), "/tmp/convert/req1/passwd");
    assert_eq!(w.input_path("../../x.docx"), "/tmp/convert/req1/x.docx");
    assert_eq!(w.input_path(""), "/tmp/convert/req1/document");
    assert_eq!(w.profile_arg(), "-env:UserInstallation=file:///tmp/convert/req1/user");
}

#[test]
fn engine_arguments() {
    let w = Workspace::with_id("/tmp/convert", "req1").unwrap();
    let args = w.engine_args("/tmp/convert/req1/a.docx");
    let expected = vec![
        "--headless",
        "--nodefault",
        "--nofirststartwizard",
        "--nolockcheck",
        "--nologo",
        "--norestore",
        "--convert-to",
        "pdf",
        "--outdir",
        "/tmp/convert/req1",
        "-env:UserInstallation=file:///tmp/convert/req1/user",
        "/tmp/convert/req1/a.docx",
    ];
    assert_eq!(args, expected);
}

#[test]
fn different_ids_have_disjoint_directories() {
    let a = Workspace::with_id("/tmp/convert", "ab").unwrap();
    let b = Workspace::with_id("/tmp/convert", "abc").unwrap();
    let da = a.dir();
    let db = b.dir();
    assert!(!db.starts_with(&format!("{}/", da)));
    assert!(!a.profile_arg().contains(&db));
    assert!(!b.input_path("f").starts_with(&format!("{}/", da)));
}
