use cross_path::{
    CrossPath, ParsedPath, PathConfig, PathConvert, PathError, PathFormatter, PathParser,
    PathStyle,
};

#[test]
fn test_detect_style_never_auto() {
    // Style detection is total: it answers Windows or Unix for every
    // input, never Auto.
    let samples = [
        r"C:\Users",
        "/home/user",
        r"\\server\share\x",
        r"relative\windows",
        "relative/unix",
        "plainname",
        "",
    ];
    for s in samples {
        let style = PathParser::detect_style(s);
        assert!(style == PathStyle::Windows || style == PathStyle::Unix);
    }
    assert_eq!(PathParser::detect_style(r"C:\Users"), PathStyle::Windows);
    assert_eq!(PathParser::detect_style("/home/user"), PathStyle::Unix);
    assert_eq!(PathParser::detect_style(r"relative\windows"), PathStyle::Windows);
    assert_eq!(PathParser::detect_style("relative/unix"), PathStyle::Unix);
}

#[test]
fn test_normalize_is_idempotent() {
    // Normalizing an already-normalized path string changes nothing.
    let samples = [
        "foo/./bar/../baz",
        "/a/./b/../c",
        "a/../..",
        "/..",
        "//x//y/.",
        "",
        "...",
    ];
    for s in samples {
        let once = PathParser::normalize_path(s).unwrap();
        let twice = PathParser::normalize_path(&once).unwrap();
        assert_eq!(twice, once);
    }
}

#[test]
fn test_normalize_path_values() {
    assert_eq!(PathParser::normalize_path("/a/./b/../c").unwrap(), "/a/c");
    assert_eq!(PathParser::normalize_path("a/../..").unwrap(), "..");
    assert_eq!(PathParser::normalize_path("/..").unwrap(), "/..");
    assert_eq!(PathParser::normalize_path("").unwrap(), "");
    assert_eq!(PathParser::normalize_path("/").unwrap(), "/");
}

#[test]
fn test_parse_windows_absolute() {
    let p = PathParser::parse(r"c:\Users\test").unwrap();
    assert!(p.is_absolute);
    assert!(p.has_drive);
    assert_eq!(p.drive_letter, Some('C'));
    assert!(!p.is_unc);
    assert_eq!(p.components, vec!["c:".to_string(), "Users".to_string(), "test".to_string()]);
}

#[test]
fn test_parse_unix_absolute() {
    let p = PathParser::parse("/home/user").unwrap();
    assert!(p.is_absolute);
    assert!(!p.has_drive);
    assert_eq!(p.drive_letter, None);
    assert_eq!(p.components, vec!["home".to_string(), "user".to_string()]);
}

#[test]
fn test_parse_unc() {
    let p = PathParser::parse(r"\\srv\shr\data").unwrap();
    assert!(p.is_unc);
    assert!(p.is_absolute);
    assert_eq!(p.server, Some("srv".to_string()));
    assert_eq!(p.share, Some("shr".to_string()));
}

#[test]
fn test_parse_relative_mixed() {
    let p = PathParser::parse("a\\b/c").unwrap();
    assert!(!p.is_absolute);
    assert_eq!(p.components, vec!["a".to_string(), "b".to_string(), "c".to_string()]);
}

#[test]
fn test_format_relative() {
    let parsed = ParsedPath {
        original: "foo/bar".to_string(),
        components: vec!["foo".to_string(), "bar".to_string()],
        is_absolute: false,
        has_drive: false,
        drive_letter: None,
        is_unc: false,
        server: None,
        share: None,
    };
    let f = PathFormatter::new(&PathConfig::default());
    assert_eq!(f.format(&parsed, PathStyle::Windows).unwrap(), r"foo\bar");
    assert_eq!(f.format(&parsed, PathStyle::Unix).unwrap(), "foo/bar");
}

#[test]
fn test_format_drive_path() {
    let parsed = ParsedPath {
        original: String::new(),
        components: vec!["Users".to_string(), "test".to_string()],
        is_absolute: true,
        has_drive: true,
        drive_letter: Some('C'),
        is_unc: false,
        server: None,
        share: None,
    };
    let f = PathFormatter::new(&PathConfig::default());
    assert_eq!(f.format(&parsed, PathStyle::Windows).unwrap(), r"C:\Users\test");
    assert_eq!(f.format(&parsed, PathStyle::Unix).unwrap(), "/mnt/c/Users/test");
}

#[test]
fn test_format_unc() {
    let parsed = PathParser::parse(r"\\server\share\x").unwrap();
    let f = PathFormatter::new(&PathConfig::default());
    // the parser keeps UNC components in server and share only
    assert_eq!(f.format(&parsed, PathStyle::Windows).unwrap(), r"\\server\share");
    assert_eq!(f.format(&parsed, PathStyle::Unix).unwrap(), "//server/share");
}

#[test]
fn test_unsupported_conversion_to_auto() {
    let cp = CrossPath::new("/home/user").unwrap();
    match cp.to_style(PathStyle::Auto) {
        Err(PathError::UnsupportedFormat(msg)) => {
            assert_eq!(msg, "Unsupported conversion: Unix -> Auto");
        }
        other => panic!("expected UnsupportedFormat, got {:?}", other),
    }
}

#[test]
fn test_invalid_unc_is_parse_error() {
    // a UNC prefix with fewer than two segments after it cannot be rebuilt
    let cp = CrossPath::new(r"\\server").unwrap();
    match cp.to_unix() {
        Err(PathError::ParseError(msg)) => {
            assert_eq!(msg, r"Invalid UNC path: \\server");
        }
        other => panic!("expected ParseError, got {:?}", other),
    }
}

#[test]
fn test_same_style_input_is_unchanged() {
    // A path already in the target style comes back verbatim, trailing
    // and doubled separators included; only a mixed-separator input is
    // rewritten.
    let cp = CrossPath::new("/mnt/c/").unwrap();
    assert_eq!(cp.to_unix().unwrap(), "/mnt/c/");
    let cp2 = CrossPath::new("foo//bar").unwrap();
    assert_eq!(cp2.to_unix().unwrap(), "foo//bar");
    let cp3 = CrossPath::new(r"a\\b\").unwrap();
    assert_eq!(cp3.to_windows().unwrap(), r"a\\b\");
}

#[test]
fn test_reconversion_is_identity() {
    // Converting a conversion result to the same style again returns it
    // unchanged.
    let first = CrossPath::new(r"C:\").unwrap().to_unix().unwrap();
    assert_eq!(first, "/mnt/c/");
    let again = CrossPath::new(&first).unwrap().to_unix().unwrap();
    assert_eq!(again, first);

    let w_first = CrossPath::new("/var/log").unwrap().to_windows().unwrap();
    assert_eq!(w_first, r"C:\var\log");
    let w_again = CrossPath::new(&w_first).unwrap().to_windows().unwrap();
    assert_eq!(w_again, w_first);
}

#[test]
fn test_error_constructors() {
    assert_eq!(
        PathError::invalid_path("x"),
        PathError::InvalidPath("x".to_string())
    );
    assert_eq!(
        PathError::encoding_error("y"),
        PathError::EncodingError("y".to_string())
    );
    assert_eq!(
        PathError::security_error("z"),
        PathError::SecurityError("z".to_string())
    );
    assert_eq!(
        PathError::platform_error("w"),
        PathError::PlatformError("w".to_string())
    );
}

#[test]
fn test_cross_path_accessors() {
    let mut cp = CrossPath::new("/tmp/file").unwrap();
    assert_eq!(cp.as_original(), "/tmp/file");
    assert_eq!(cp.config().style, PathStyle::Auto);
    assert!(cp.config().normalize);
    let custom = PathConfig {
        style: PathStyle::Unix,
        ..PathConfig::default()
    };
    cp.set_config(custom);
    assert_eq!(cp.config().style, PathStyle::Unix);
}

#[test]
fn test_to_platform_with_concrete_style() {
    let config = PathConfig {
        style: PathStyle::Unix,
        ..PathConfig::default()
    };
    let cp = CrossPath::with_config(r"C:\data\x", config).unwrap();
    assert_eq!(cp.to_platform().unwrap(), "/mnt/c/data/x");
}

#[test]
fn test_path_convert_trait() {
    assert_eq!(
        r"C:\Users\test\file.txt".to_unix_path().unwrap(),
        "/mnt/c/Users/test/file.txt"
    );
    assert_eq!(
        "/mnt/d/work".to_windows_path().unwrap(),
        r"D:\work"
    );
    let cp = "relative/path".to_cross_path().unwrap();
    assert_eq!(cp.as_original(), "relative/path");
}

#[test]
fn test_default_config_mappings() {
    let config = PathConfig::default();
    assert_eq!(config.drive_mappings.len(), 3);
    assert_eq!(config.drive_mappings[0], ("C:".to_string(), "/mnt/c".to_string()));
    assert_eq!(config.drive_mappings[1], ("D:".to_string(), "/mnt/d".to_string()));
    assert_eq!(config.drive_mappings[2], ("E:".to_string(), "/mnt/e".to_string()));
    assert!(config.preserve_encoding);
    assert!(config.security_check);
}

#[test]
fn test_first_matching_mapping_wins() {
    // Two entries share the Unix prefix; the earlier one decides.
    let config = PathConfig {
        drive_mappings: vec![
            ("X:".to_string(), "/data".to_string()),
            ("Y:".to_string(), "/data".to_string()),
        ],
        ..PathConfig::default()
    };
    let cp = CrossPath::with_config("/data/file", config).unwrap();
    assert_eq!(cp.to_windows().unwrap(), r"X:\file");
}
