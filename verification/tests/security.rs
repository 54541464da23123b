use cross_path::{CrossPath, PathError, PathStyle};
use cross_path::security::PathSecurityChecker;

#[test]
fn test_traversal_is_rejected() {
    // Any input containing the literal "../" fails the safety check with a
    // SecurityError, whatever the path would resolve to.
    let cp = CrossPath::new("../benign/file.txt").unwrap();
    match cp.is_safe() {
        Err(PathError::SecurityError(msg)) => {
            assert_eq!(msg, "Path traversal attack detected");
        }
        other => panic!("expected a SecurityError, got {:?}", other),
    }
}

#[test]
fn test_backslash_traversal_is_rejected() {
    let cp = CrossPath::new("..\\config").unwrap();
    match cp.is_safe() {
        Err(PathError::SecurityError(msg)) => {
            assert_eq!(msg, "Path traversal attack detected");
        }
        other => panic!("expected a SecurityError, got {:?}", other),
    }
}

#[test]
fn test_dangerous_extension_is_rejected() {
    let cp = CrossPath::new("downloads/Setup.EXE").unwrap();
    match cp.is_safe() {
        Err(PathError::SecurityError(msg)) => {
            assert_eq!(msg, "Path contains dangerous patterns");
        }
        other => panic!("expected a SecurityError, got {:?}", other),
    }
}

#[test]
fn test_pseudo_filesystem_root_is_rejected() {
    let r = PathSecurityChecker::check_path_security("/proc/self/mem");
    assert!(matches!(r, Err(PathError::SecurityError(_))));
}

#[test]
fn test_reserved_name_under_windows_semantics() {
    let r = PathSecurityChecker::check_with_style("logs/CON.txt", PathStyle::Windows);
    match r {
        Err(PathError::SecurityError(msg)) => {
            assert_eq!(msg, "Path contains Windows reserved names");
        }
        other => panic!("expected a SecurityError, got {:?}", other),
    }
    // LPT followed by a digit one through nine is reserved too
    let r2 = PathSecurityChecker::check_with_style("lpt5", PathStyle::Windows);
    assert!(matches!(r2, Err(PathError::SecurityError(_))));
    // Under Unix semantics the same name passes
    let r3 = PathSecurityChecker::check_with_style("logs/CON.txt", PathStyle::Unix);
    assert_eq!(r3.unwrap(), true);
}

#[test]
fn test_windows_system_directory_prefix() {
    let r = PathSecurityChecker::check_with_style(r"C:\Windows\config.ini", PathStyle::Windows);
    match r {
        Err(PathError::SecurityError(msg)) => {
            assert_eq!(msg, "Attempt to access system directories");
        }
        other => panic!("expected a SecurityError, got {:?}", other),
    }
}

#[test]
fn test_unix_system_directory_prefix() {
    let r = PathSecurityChecker::check_with_style("/etc/passwd", PathStyle::Unix);
    match r {
        Err(PathError::SecurityError(msg)) => {
            assert_eq!(msg, "Attempt to access system directories");
        }
        other => panic!("expected a SecurityError, got {:?}", other),
    }
}

#[test]
fn test_safe_path_passes() {
    let cp = CrossPath::new("documents/notes.txt").unwrap();
    assert_eq!(cp.is_safe().unwrap(), true);
}

#[test]
fn test_sanitize_strips_traversal_and_separators() {
    assert_eq!(
        PathSecurityChecker::sanitize_path("../etc/passwd"),
        "etc_passwd"
    );
    assert_eq!(
        PathSecurityChecker::sanitize_path("..\\win\\system"),
        "win_system"
    );
}

#[test]
fn test_sanitize_replaces_dangerous_characters() {
    assert_eq!(PathSecurityChecker::sanitize_path("a<b>c:d\"e|f?g*h"), "a_b_c_d_e_f_g_h");
}

#[test]
fn test_sanitize_truncates_long_input() {
    let long = "a".repeat(300);
    let out = PathSecurityChecker::sanitize_path(&long);
    assert_eq!(out.len(), 255);
}
