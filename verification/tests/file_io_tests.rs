use resourcer::FileAnalysisError;
use resourcer::PathProbe;
use resourcer::check_js_path;
use resourcer::has_js_extension;

#[test]
fn wrong_extension() {
    assert!(!has_js_extension("notes.txt"));
    let err = check_js_path("notes.txt", PathProbe::IsFile).unwrap_err();
    assert!(matches!(err, FileAnalysisError::InvalidExtension(p) if p == "notes.txt"));
}

#[test]
fn js_extension_recognized() {
    assert!(has_js_extension("app.js"));
    assert!(has_js_extension("/srv/dist/main.min.js"));
    assert!(!has_js_extension(".js"));
    assert!(!has_js_extension("dir.js/file"));
    assert!(!has_js_extension("nodots"));
    assert!(!has_js_extension("style.json"));
}

#[test]
fn missing_file() {
    let err = check_js_path("/tmp/nonexistent.js", PathProbe::Missing).unwrap_err();
    assert!(matches!(err, FileAnalysisError::NotFound(p) if p == "/tmp/nonexistent.js"));
}

#[test]
fn read_permission_denied() {
    let err = check_js_path("guarded.js", PathProbe::Denied).unwrap_err();
    assert!(matches!(err, FileAnalysisError::PermissionDenied(p) if p == "guarded.js"));
}

#[test]
fn valid_js_file() {
    assert!(check_js_path("script.js", PathProbe::IsFile).is_ok());
}

#[test]
fn directory_is_not_a_js_file() {
    let err = check_js_path("dir.js", PathProbe::NotFile).unwrap_err();
    assert!(matches!(err, FileAnalysisError::InvalidExtension(_)));
}

#[test]
fn probe_failures_surface_as_io() {
    let err = check_js_path("x.js", PathProbe::Failed("strange".to_string())).unwrap_err();
    assert!(matches!(err, FileAnalysisError::Io(m) if m == "strange"));
}
