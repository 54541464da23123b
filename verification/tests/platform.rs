use cross_path::platform::{
    get_drive_letter, is_absolute_unix_path, is_standard_unix_directory, is_valid_windows_path,
    parse_unix_mount_point, to_windows_path,
};

#[test]
fn test_is_absolute_unix_path() {
    assert!(is_absolute_unix_path("/home/user"));
    assert!(is_absolute_unix_path("/"));
    assert!(!is_absolute_unix_path("relative/path"));
    assert!(!is_absolute_unix_path("./relative"));
}

#[test]
fn test_parse_unix_mount_point() {
    assert_eq!(
        parse_unix_mount_point("/mnt/c/Users"),
        Some(("c".to_string(), "/Users".to_string()))
    );
    assert_eq!(
        parse_unix_mount_point("/c/Users"),
        Some(("c".to_string(), "/Users".to_string()))
    );
    assert_eq!(parse_unix_mount_point("/home/user"), None);
}

#[test]
fn test_is_standard_unix_directory() {
    assert!(is_standard_unix_directory("/bin/bash"));
    assert!(is_standard_unix_directory("/usr/local/bin"));
    assert!(!is_standard_unix_directory("/my/custom/path"));
}

#[test]
fn test_is_valid_windows_path() {
    assert!(is_valid_windows_path(r"C:\Windows"));
    assert!(is_valid_windows_path(r"D:\Data\file.txt"));
    assert!(is_valid_windows_path(r"\\Server\Share"));
    assert!(!is_valid_windows_path(r"/usr/bin"));
    assert!(!is_valid_windows_path(r"relative\path"));
}

#[test]
fn test_get_drive_letter() {
    assert_eq!(get_drive_letter(r"C:\Windows"), Some('C'));
    assert_eq!(get_drive_letter(r"d:\data"), Some('D'));
    assert_eq!(get_drive_letter(r"\\Server\Share"), None);
    assert_eq!(get_drive_letter(r"/usr/bin"), None);
}

#[test]
fn test_to_windows_path() {
    let path = "C:/Windows/System32";
    let wide = to_windows_path(path).unwrap();

    // Check null terminator
    assert_eq!(*wide.last().unwrap(), 0);

    // Check separator conversion
    let backslash = b'\\' as u16;
    assert!(wide.contains(&backslash));
}

#[test]
fn test_to_windows_path_units() {
    let wide = to_windows_path("a/b").unwrap();
    assert_eq!(wide, vec!['a' as u16, '\\' as u16, 'b' as u16, 0u16]);
}

#[test]
fn test_to_windows_path_supplementary_plane() {
    // U+1F600 encodes as the surrogate pair D83D DE00
    let wide = to_windows_path("\u{1F600}").unwrap();
    assert_eq!(wide, vec![0xD83Du16, 0xDE00u16, 0u16]);
}

#[test]
fn test_parse_unix_mount_point_without_inner_slash() {
    assert_eq!(parse_unix_mount_point("/mnt/c"), None);
    assert_eq!(parse_unix_mount_point("relative"), None);
}
