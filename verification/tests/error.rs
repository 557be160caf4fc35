use sitegen::error::SiteError;
use sitegen::load::entry_name;

#[test]
fn invalid_name_message() {
    let e = SiteError::InvalidName { path: "content/b\u{fffd}d".to_string() };
    assert_eq!(e.message(), "expected file 'content/b\u{fffd}d' to have valid utf-8 filename");
}

#[test]
fn invalid_encoding_message() {
    let e = SiteError::InvalidEncoding { file: "bad.md".to_string() };
    assert_eq!(e.message(), "file 'bad.md' contains invalid utf-8");
}

#[test]
fn io_failure_message() {
    let e = SiteError::IoFailure {
        operation: "create dir at".to_string(),
        path: "build/a".to_string(),
        reason: "File exists".to_string(),
    };
    assert_eq!(e.message(), "unable to create dir at 'build/a': File exists");
}

#[test]
fn render_failure_message() {
    let e = SiteError::RenderFailure { file: "notes.md".to_string() };
    assert_eq!(e.message(), "file 'notes.md' could not be rendered");
}

#[test]
fn entry_name_accepts_utf8() {
    assert_eq!(entry_name("notes.md".as_bytes(), "content/notes.md"), Ok("notes.md".to_string()));
    assert_eq!(entry_name("é".as_bytes(), "content/é"), Ok("é".to_string()));
}

#[test]
fn entry_name_refuses_other_bytes() {
    assert_eq!(
        entry_name(&[0x62, 0xff, 0x64], "content/b?d"),
        Err(SiteError::InvalidName { path: "content/b?d".to_string() })
    );
}
