//! Platform-facing pieces: the host-style lookup, the capability traits that
//! platform back ends implement, the metadata result shapes, and pure helpers
//! for Windows and Unix path text.
use vstd::prelude::*;

use crate::text::{
    chars_to_string, find_char, lemma_spec_find, spec_find, spec_starts_with, starts_with_chars,
    str_to_chars, to_upper_char, upper_char,
};
use crate::{is_alpha, spec_is_alpha, PathResult, PathStyle};

verus! {

broadcast use vstd::string::group_string_axioms;

/// Relies on `std::path::MAIN_SEPARATOR`: it is `'\\'` on Windows hosts and
/// `'/'` on all others, so the current platform style is never `Auto`.
#[verifier::external_body]
pub fn current_style() -> (r: PathStyle)
    ensures
        r == PathStyle::Windows || r == PathStyle::Unix,
{
    if std::path::MAIN_SEPARATOR == '\\' {
        PathStyle::Windows
    } else {
        PathStyle::Unix
    }
}

/// Platform-specific path operations, implemented by platform back ends
/// outside this crate.
pub trait PlatformPath {
    /// Get platform-specific path separator.
    fn separator(&self) -> char;

    /// Check if path is absolute.
    fn is_absolute(&self) -> bool;

    /// Convert to platform-specific canonical path.
    fn to_platform_specific(&self) -> String;
}

/// Filesystem-metadata capability, implemented by platform back ends
/// outside this crate.
pub trait PathExt: PlatformPath {
    /// Get file attributes (platform-specific).
    fn get_attributes(&self) -> Option<FileAttributes>;

    /// Check if path exists and is accessible.
    fn is_accessible(&self) -> bool;

    /// Get disk information for path.
    fn get_disk_info(&self) -> Option<DiskInfo>;
}

/// File attributes structure.
#[derive(Debug, Clone)]
pub struct FileAttributes {
    /// File size in bytes
    pub size: u64,
    /// Whether the file is a directory
    pub is_directory: bool,
    /// Whether the file is hidden
    pub is_hidden: bool,
    /// Whether the file is read-only
    pub is_readonly: bool,
    /// Creation timestamp (if available)
    pub creation_time: Option<u64>,
    /// Last modification timestamp (if available)
    pub modification_time: Option<u64>,
}

/// Disk information structure.
#[derive(Debug, Clone)]
pub struct DiskInfo {
    /// Total disk space in bytes
    pub total_space: u64,
    /// Free disk space in bytes
    pub free_space: u64,
    /// Filesystem type name (e.g., "NTFS", "ext4")
    pub filesystem_type: String,
}

/// Filesystem statistics structure.
#[derive(Debug, Clone)]
pub struct FilesystemStats {
    /// Filesystem block size
    pub block_size: u64,
    /// Total number of blocks
    pub total_blocks: u64,
    /// Number of free blocks
    pub free_blocks: u64,
    /// Number of available blocks for unprivileged users
    pub available_blocks: u64,
    /// Total number of inodes
    pub total_inodes: u64,
    /// Number of free inodes
    pub free_inodes: u64,
    /// Filesystem ID
    pub filesystem_id: u64,
    /// Mount flags
    pub mount_flags: u64,
    /// Maximum filename length
    pub max_filename_length: u64,
}

/// Whether a string is an absolute Unix path.
pub fn is_absolute_unix_path(path: &str) -> (r: bool)
    ensures
        r == (path@.len() > 0 && path@[0] == '/'),
{
    let chars = str_to_chars(path);
    chars.len() > 0 && chars[0] == '/'
}

/// The mount-point split of a Unix path, if it has one: for `/mnt/<drive>/rest`
/// the pair `(<drive>, /rest)`; otherwise, for `/<c>/rest` with `<c>` one
/// lowercase ASCII letter, the pair `(<c>, /rest)`.
pub open spec fn spec_mount_point(s: Seq<char>) -> Option<(Seq<char>, Seq<char>)> {
    if spec_starts_with(s, "/mnt/"@) && spec_find(s.skip(5), '/') != -1 {
        let t = s.skip(5);
        let pos = spec_find(t, '/');
        Some((t.take(pos), t.skip(pos)))
    } else if s.len() > 0 && s[0] == '/' && spec_find(s.skip(1), '/') == 1 && 'a' <= s[1] && s[1]
        <= 'z' {
        Some((s.subrange(1, 2), s.skip(2)))
    } else {
        None
    }
}

/// Parse the Unix mount point from a path, if it has one.
pub fn parse_unix_mount_point(path: &str) -> (r: Option<(String, String)>)
    ensures
        match r {
            Some((drive, rest)) => spec_mount_point(path@) matches Some(p) && p.0 == drive@
                && p.1 == rest@,
            None => spec_mount_point(path@) is None,
        },
{
    let chars = str_to_chars(path);
    let mnt = str_to_chars("/mnt/");
    proof {
        reveal_strlit("/mnt/");
        assert(mnt@ =~= "/mnt/"@);
    }
    if starts_with_chars(&chars, &mnt) {
        let mut t: Vec<char> = Vec::new();
        let mut i: usize = 5;
        while i < chars.len()
            invariant
                5 <= i <= chars@.len(),
                t@ == chars@.subrange(5, i as int),
            decreases chars@.len() - i,
        {
            t.push(chars[i]);
            i = i + 1;
            proof {
                assert(t@ =~= chars@.subrange(5, i as int));
            }
        }
        proof {
            assert(t@ =~= chars@.skip(5));
        }
        if let Some(pos) = find_char(&t, '/') {
            proof {
                assert(spec_find(chars@.skip(5), '/') == pos as int);
            }
            let mut drive: Vec<char> = Vec::new();
            let mut rest: Vec<char> = Vec::new();
            let mut j: usize = 0;
            while j < pos
                invariant
                    pos <= t@.len(),
                    j <= pos,
                    drive@ == t@.subrange(0, j as int),
                decreases pos - j,
            {
                drive.push(t[j]);
                j = j + 1;
                proof {
                    assert(drive@ =~= t@.subrange(0, j as int));
                }
            }
            let mut k: usize = pos;
            while k < t.len()
                invariant
                    pos <= k <= t@.len(),
                    rest@ == t@.subrange(pos as int, k as int),
                decreases t@.len() - k,
            {
                rest.push(t[k]);
                k = k + 1;
                proof {
                    assert(rest@ =~= t@.subrange(pos as int, k as int));
                }
            }
            proof {
                assert(drive@ =~= t@.take(pos as int));
                assert(rest@ =~= t@.skip(pos as int));
            }
            return Some((chars_to_string(&drive), chars_to_string(&rest)));
        }
        proof {
            reveal_strlit("/mnt/");
            assert(chars@.subrange(0, 5)[2] == chars@[2]);
            assert(chars@[2] == 'n');
            lemma_spec_find(chars@.skip(1), '/');
            if spec_find(chars@.skip(1), '/') == 1 {
                assert(chars@.skip(1)[1] == '/');
            }
        }
        return None;
    }
    if chars.len() > 0 && chars[0] == '/' {
        let mut t: Vec<char> = Vec::new();
        let mut i: usize = 1;
        while i < chars.len()
            invariant
                1 <= i <= chars@.len(),
                t@ == chars@.subrange(1, i as int),
            decreases chars@.len() - i,
        {
            t.push(chars[i]);
            i = i + 1;
            proof {
                assert(t@ =~= chars@.subrange(1, i as int));
            }
        }
        proof {
            assert(t@ =~= chars@.skip(1));
        }
        if let Some(pos) = find_char(&t, '/') {
            if pos == 1 && 'a' <= t[0] && t[0] <= 'z' {
                let mut drive: Vec<char> = Vec::new();
                drive.push(t[0]);
                let mut rest: Vec<char> = Vec::new();
                let mut k: usize = 1;
                while k < t.len()
                    invariant
                        1 <= k <= t@.len(),
                        rest@ == t@.subrange(1, k as int),
                    decreases t@.len() - k,
                {
                    rest.push(t[k]);
                    k = k + 1;
                    proof {
                        assert(rest@ =~= t@.subrange(1, k as int));
                    }
                }
                proof {
                    assert(drive@ =~= chars@.subrange(1, 2));
                    assert(rest@ =~= chars@.skip(2));
                }
                return Some((chars_to_string(&drive), chars_to_string(&rest)));
            }
        }
        proof {
            lemma_spec_find(chars@.skip(1), '/');
        }
        return None;
    }
    proof {
        assert(!spec_starts_with(chars@, "/mnt/"@));
    }
    None
}

/// Whether the string has the shape of a Windows path: a drive-letter prefix
/// or a UNC prefix.
pub open spec fn spec_valid_windows(s: Seq<char>) -> bool {
    (s.len() >= 2 && spec_is_alpha(s[0]) && s[1] == ':') || (s.len() >= 2 && s[0] == '\\' && s[1]
        == '\\')
}

/// Whether a string is a valid Windows path shape.
pub fn is_valid_windows_path(path: &str) -> (r: bool)
    ensures
        r == spec_valid_windows(path@),
{
    let chars = str_to_chars(path);
    if chars.len() >= 2 {
        if is_alpha(chars[0]) && chars[1] == ':' {
            return true;
        }
        if chars[0] == '\\' && chars[1] == '\\' {
            return true;
        }
    }
    false
}

/// The drive letter of a Windows path, upper-cased, if it has one.
pub open spec fn spec_drive_letter(s: Seq<char>) -> Option<char> {
    if s.len() >= 2 && spec_is_alpha(s[0]) && s[1] == ':' {
        Some(upper_char(s[0]))
    } else {
        None
    }
}

/// Extract the drive letter from a Windows path.
pub fn get_drive_letter(path: &str) -> (r: Option<char>)
    ensures
        r == spec_drive_letter(path@),
{
    let chars = str_to_chars(path);
    if chars.len() >= 2 && is_alpha(chars[0]) && chars[1] == ':' {
        Some(to_upper_char(chars[0]))
    } else {
        None
    }
}

/// The UTF-16 code units of one character.
pub open spec fn spec_utf16_units(c: char) -> Seq<u16> {
    if (c as u32) < 0x10000 {
        seq![(c as u32) as u16]
    } else {
        seq![
            (0xD800 + ((c as u32) - 0x10000) / 0x400) as u16,
            (0xDC00 + ((c as u32) - 0x10000) % 0x400) as u16,
        ]
    }
}

/// The UTF-16 encoding of a character sequence.
pub open spec fn spec_utf16(s: Seq<char>) -> Seq<u16>
    decreases s.len(),
{
    if s.len() == 0 {
        Seq::<u16>::empty()
    } else {
        spec_utf16(s.drop_last()) + spec_utf16_units(s.last())
    }
}

/// The UTF-16 wide form of a path: its UTF-16 code units followed by one NUL
/// terminator, with every `/` unit turned into a `\` unit.
pub open spec fn spec_windows_wide(s: Seq<char>) -> Seq<u16> {
    (spec_utf16(s) + seq![0u16]).map_values(|u: u16| if u == 47 { 92u16 } else { u })
}

/// Convert a string to a NUL-terminated Windows UTF-16 path with `\`
/// separators.
pub fn to_windows_path(path: &str) -> (r: PathResult<Vec<u16>>)
    ensures
        r matches Ok(w) && w@ == spec_windows_wide(path@),
{
    let chars = str_to_chars(path);
    let mut wide: Vec<u16> = Vec::new();
    let mut i: usize = 0;
    while i < chars.len()
        invariant
            i <= chars@.len(),
            wide@ == spec_utf16(chars@.subrange(0, i as int)),
        decreases chars@.len() - i,
    {
        let c = chars[i];
        let code: u32 = c as u32;
        if code < 0x10000 {
            wide.push(code as u16);
        } else {
            let v: u32 = code - 0x10000;
            wide.push((0xD800 + v / 0x400) as u16);
            wide.push((0xDC00 + v % 0x400) as u16);
        }
        i = i + 1;
        proof {
            assert(chars@.subrange(0, i as int).drop_last() =~= chars@.subrange(0, i - 1));
            assert(wide@ =~= spec_utf16(chars@.subrange(0, i as int)));
        }
    }
    proof {
        assert(chars@.subrange(0, chars@.len() as int) =~= chars@);
    }
    wide.push(0);
    let mut out: Vec<u16> = Vec::new();
    let mut j: usize = 0;
    let ghost base = wide@;
    while j < wide.len()
        invariant
            j <= wide@.len(),
            wide@ == base,
            out@ == base.subrange(0, j as int).map_values(
                |u: u16| if u == 47 { 92u16 } else { u },
            ),
        decreases wide@.len() - j,
    {
        let u = wide[j];
        if u == 47 {
            out.push(92);
        } else {
            out.push(u);
        }
        j = j + 1;
        proof {
            assert(out@ =~= base.subrange(0, j as int).map_values(
                |u: u16| if u == 47 { 92u16 } else { u },
            ));
        }
    }
    proof {
        assert(base.subrange(0, base.len() as int) =~= base);
        assert(base =~= spec_utf16(path@) + seq![0u16]);
    }
    Ok(out)
}

/// Whether `lit` is a prefix of the characters in `chars`.
pub fn starts_with_lit(chars: &Vec<char>, lit: &str) -> (r: bool)
    ensures
        r == spec_starts_with(chars@, lit@),
{
    let p = str_to_chars(lit);
    starts_with_chars(chars, &p)
}

/// Whether the path begins with one of the standard Unix directories.
pub open spec fn spec_standard_unix_dir(s: Seq<char>) -> bool {
    spec_starts_with(s, "/bin"@) || spec_starts_with(s, "/boot"@) || spec_starts_with(s, "/dev"@)
        || spec_starts_with(s, "/etc"@) || spec_starts_with(s, "/home"@) || spec_starts_with(
        s,
        "/lib"@,
    ) || spec_starts_with(s, "/lib64"@) || spec_starts_with(s, "/media"@) || spec_starts_with(
        s,
        "/mnt"@,
    ) || spec_starts_with(s, "/opt"@) || spec_starts_with(s, "/proc"@) || spec_starts_with(
        s,
        "/root"@,
    ) || spec_starts_with(s, "/run"@) || spec_starts_with(s, "/sbin"@) || spec_starts_with(
        s,
        "/srv"@,
    ) || spec_starts_with(s, "/sys"@) || spec_starts_with(s, "/tmp"@) || spec_starts_with(
        s,
        "/usr"@,
    ) || spec_starts_with(s, "/var"@)
}

/// Whether a path starts with one of the standard Unix directories.
pub fn is_standard_unix_directory(path: &str) -> (r: bool)
    ensures
        r == spec_standard_unix_dir(path@),
{
    let chars = str_to_chars(path);
    starts_with_lit(&chars, "/bin") || starts_with_lit(&chars, "/boot") || starts_with_lit(
        &chars,
        "/dev",
    ) || starts_with_lit(&chars, "/etc") || starts_with_lit(&chars, "/home") || starts_with_lit(
        &chars,
        "/lib",
    ) || starts_with_lit(&chars, "/lib64") || starts_with_lit(&chars, "/media")
        || starts_with_lit(&chars, "/mnt") || starts_with_lit(&chars, "/opt") || starts_with_lit(
        &chars,
        "/proc",
    ) || starts_with_lit(&chars, "/root") || starts_with_lit(&chars, "/run") || starts_with_lit(
        &chars,
        "/sbin",
    ) || starts_with_lit(&chars, "/srv") || starts_with_lit(&chars, "/sys") || starts_with_lit(
        &chars,
        "/tmp",
    ) || starts_with_lit(&chars, "/usr") || starts_with_lit(&chars, "/var")
}

} // verus!
