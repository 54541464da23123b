//! Security validation of path strings: traversal patterns, dangerous
//! extensions and pseudo-filesystem roots, Windows reserved device names,
//! and system-directory prefixes, plus a best-effort sanitizer.
use vstd::prelude::*;

use crate::error::PathError;
use crate::platform::current_style;
use crate::text::{
    chars_to_string, contains_sub_chars, eq_chars, find_char, lower_char, replace_chars,
    spec_contains_sub, spec_find, spec_lower, spec_replace, spec_starts_with, split_parts,
    split_parts_chars, starts_with_chars, str_to_chars, to_lower_char, to_upper_char, upper_char,
};
use crate::{PathResult, PathStyle};

verus! {

broadcast use vstd::string::group_string_axioms;

/// The `../` pattern.
pub open spec fn up_slash() -> Seq<char> {
    seq!['.', '.', '/']
}

/// The `..\` pattern.
pub open spec fn up_backslash() -> Seq<char> {
    seq!['.', '.', '\\']
}

/// Whether the path text contains a traversal pattern.
pub open spec fn spec_has_traversal(s: Seq<char>) -> bool {
    spec_contains_sub(s, up_slash()) || spec_contains_sub(s, up_backslash())
}

/// Whether `s` ends, case-insensitively, with the (lower-case) suffix `ext`.
pub open spec fn spec_ends_ci(s: Seq<char>, ext: Seq<char>) -> bool {
    s.len() >= ext.len() && spec_lower(s.skip(s.len() - ext.len())) == ext
}

/// Whether the path has a denylisted executable or script extension, or
/// begins with a pseudo-filesystem root.
pub open spec fn spec_has_dangerous(s: Seq<char>) -> bool {
    spec_ends_ci(s, ".exe"@) || spec_ends_ci(s, ".bat"@) || spec_ends_ci(s, ".cmd"@)
        || spec_ends_ci(s, ".sh"@) || spec_ends_ci(s, ".php"@) || spec_ends_ci(s, ".py"@)
        || spec_ends_ci(s, ".js"@) || spec_starts_with(s, "/proc/"@) || spec_starts_with(
        s,
        "/dev/"@,
    ) || spec_starts_with(s, "/sys/"@)
}

/// ASCII upper-casing of a character sequence.
pub open spec fn spec_upper(s: Seq<char>) -> Seq<char> {
    s.map_values(|c: char| upper_char(c))
}

/// The base name of a path: its last segment, with both separator
/// characters recognized.
pub open spec fn spec_base_name(s: Seq<char>) -> Option<Seq<char>> {
    let segs = split_parts(spec_replace(s, '\\', '/'), '/');
    if segs.len() == 0 {
        None
    } else {
        Some(segs.last())
    }
}

/// The stem of a name: everything before its first `.`, or the whole name.
pub open spec fn spec_stem(name: Seq<char>) -> Seq<char> {
    if spec_find(name, '.') == -1 {
        name
    } else {
        name.take(spec_find(name, '.'))
    }
}

/// Whether an upper-cased stem is a Windows reserved device name:
/// `CON`, `PRN`, `AUX`, `NUL`, `COM1`-`COM9` or `LPT1`-`LPT9`.
pub open spec fn spec_reserved_stem(up: Seq<char>) -> bool {
    up == "CON"@ || up == "PRN"@ || up == "AUX"@ || up == "NUL"@ || (up.len() == 4 && (up.take(3)
        == "COM"@ || up.take(3) == "LPT"@) && '1' <= up[3] && up[3] <= '9')
}

/// Whether the path's base name is, case-insensitively and stripped of any
/// extension, a Windows reserved device name.
pub open spec fn spec_has_reserved(s: Seq<char>) -> bool {
    spec_base_name(s) matches Some(name) && spec_reserved_stem(spec_upper(spec_stem(name)))
}

/// Whether the path begins with a system-directory prefix of the given
/// evaluation style: the Windows list for `Windows`, the Unix list
/// otherwise.
pub open spec fn spec_system_dir(s: Seq<char>, style: PathStyle) -> bool {
    if style == PathStyle::Windows {
        spec_starts_with(s, "C:\\Windows"@) || spec_starts_with(s, "C:\\System32"@)
            || spec_starts_with(s, "C:\\Program Files"@) || spec_starts_with(s, "C:\\ProgramData"@)
    } else {
        spec_starts_with(s, "/bin"@) || spec_starts_with(s, "/sbin"@) || spec_starts_with(
            s,
            "/usr/bin"@,
        ) || spec_starts_with(s, "/usr/sbin"@) || spec_starts_with(s, "/etc"@) || spec_starts_with(
            s,
            "/root"@,
        ) || spec_starts_with(s, "/var"@) || spec_starts_with(s, "/lib"@) || spec_starts_with(
            s,
            "/boot"@,
        ) || spec_starts_with(s, "/dev"@) || spec_starts_with(s, "/proc"@) || spec_starts_with(
            s,
            "/sys"@,
        )
    }
}

/// A security rule a path can break.
#[verifier::ext_equal]
pub ghost enum Violation {
    /// A `../` or `..\` traversal pattern occurs in the text.
    Traversal,
    /// A denylisted extension or pseudo-filesystem root.
    DangerousPattern,
    /// A Windows reserved device name as base name, under Windows semantics.
    ReservedName,
    /// A system-directory prefix.
    SystemDirectory,
}

/// The first security rule the path breaks under the given evaluation
/// style, if any; the reserved-name rule applies only under Windows
/// semantics.
pub open spec fn spec_violation(s: Seq<char>, style: PathStyle) -> Option<Violation> {
    if spec_has_traversal(s) {
        Some(Violation::Traversal)
    } else if spec_has_dangerous(s) {
        Some(Violation::DangerousPattern)
    } else if style == PathStyle::Windows && spec_has_reserved(s) {
        Some(Violation::ReservedName)
    } else if spec_system_dir(s, style) {
        Some(Violation::SystemDirectory)
    } else {
        None
    }
}

/// The error text for each broken rule.
pub open spec fn spec_violation_msg(v: Violation) -> Seq<char> {
    match v {
        Violation::Traversal => "Path traversal attack detected"@,
        Violation::DangerousPattern => "Path contains dangerous patterns"@,
        Violation::ReservedName => "Path contains Windows reserved names"@,
        Violation::SystemDirectory => "Attempt to access system directories"@,
    }
}

/// Whether the executable outcome `r` is the one the rules assign under
/// the given evaluation style.
pub open spec fn check_matches(r: PathResult<bool>, s: Seq<char>, style: PathStyle) -> bool {
    match spec_violation(s, style) {
        None => r matches Ok(b) && b == true,
        Some(v) => r matches Err(PathError::SecurityError(m)) && m@ == spec_violation_msg(v),
    }
}

/// Law: any path whose text contains the literal `../` (or `..\`) breaks
/// the traversal rule first, under every evaluation style, whatever its
/// resolved target would be.
pub proof fn lemma_traversal_rejected(s: Seq<char>, style: PathStyle)
    requires
        spec_contains_sub(s, up_slash()) || spec_contains_sub(s, up_backslash()),
    ensures
        spec_violation(s, style) == Some(Violation::Traversal),
{
}

/// `s` with every left-to-right, non-overlapping occurrence of `p`
/// removed.
pub open spec fn spec_remove_sub(s: Seq<char>, p: Seq<char>) -> Seq<char>
    decreases s.len(),
{
    if p.len() == 0 || s.len() == 0 {
        s
    } else if spec_starts_with(s, p) {
        spec_remove_sub(s.skip(p.len() as int), p)
    } else {
        seq![s[0]] + spec_remove_sub(s.drop_first(), p)
    }
}

/// A character the sanitizer replaces with `_`.
pub open spec fn spec_dangerous_char(c: char) -> bool {
    c == '<' || c == '>' || c == ':' || c == '"' || c == '|' || c == '?' || c == '*' || c == '\\'
        || c == '/' || c == '\0'
}

/// The sanitizer's character mapping.
pub open spec fn spec_sanitize_char(c: char) -> char {
    if spec_dangerous_char(c) {
        '_'
    } else {
        c
    }
}

/// The sanitized form of a path string: traversal sequences removed,
/// dangerous characters replaced by `_`, and at most 255 characters kept.
pub open spec fn spec_sanitize(s: Seq<char>) -> Seq<char> {
    let a = spec_remove_sub(s, up_slash());
    let b = spec_remove_sub(a, up_backslash());
    let c = b.map_values(|ch: char| spec_sanitize_char(ch));
    if c.len() > 255 {
        c.take(255)
    } else {
        c
    }
}

/// The sanitizer's character mapping.
fn sanitize_char(c: char) -> (r: char)
    ensures
        r == spec_sanitize_char(c),
{
    if c == '<' || c == '>' || c == ':' || c == '"' || c == '|' || c == '?' || c == '*' || c
        == '\\' || c == '/' || c == '\0' {
        '_'
    } else {
        c
    }
}

/// Whether `p` occurs in `s` at position `i`.
fn match_at(s: &Vec<char>, p: &Vec<char>, i: usize) -> (r: bool)
    requires
        i <= s@.len(),
    ensures
        r == spec_starts_with(s@.skip(i as int), p@),
{
    if p.len() > s.len() - i {
        return false;
    }
    let mut k: usize = 0;
    while k < p.len()
        invariant
            i + p@.len() <= s@.len(),
            s@.len() <= usize::MAX,
            k <= p@.len(),
            forall|j: int| 0 <= j < k ==> s@[i + j] == p@[j],
        decreases p@.len() - k,
    {
        if s[i + k] != p[k] {
            proof {
                assert(s@.skip(i as int).subrange(0, p@.len() as int)[k as int] != p@[k as int]);
            }
            return false;
        }
        k = k + 1;
    }
    proof {
        assert(s@.skip(i as int).subrange(0, p@.len() as int) =~= p@);
    }
    true
}

/// Remove every left-to-right occurrence of `p` from `s`.
fn remove_sub_chars(s: &Vec<char>, p: &Vec<char>) -> (r: Vec<char>)
    requires
        p@.len() > 0,
    ensures
        r@ == spec_remove_sub(s@, p@),
{
    let mut out: Vec<char> = Vec::new();
    let mut i: usize = 0;
    proof {
        assert(s@.skip(0) =~= s@);
        assert(out@ + spec_remove_sub(s@, p@) =~= spec_remove_sub(s@, p@));
    }
    while i < s.len()
        invariant
            p@.len() > 0,
            i <= s@.len(),
            spec_remove_sub(s@, p@) == out@ + spec_remove_sub(s@.skip(i as int), p@),
        decreases s@.len() - i,
    {
        let ghost pre = i;
        if match_at(s, p, i) {
            i = i + p.len();
            proof {
                assert(s@.skip(pre as int).skip(p@.len() as int) =~= s@.skip(i as int));
            }
        } else {
            out.push(s[i]);
            i = i + 1;
            proof {
                assert(s@.skip(pre as int)[0] == s@[pre as int]);
                assert(s@.skip(pre as int).drop_first() =~= s@.skip(i as int));
                assert(spec_remove_sub(s@.skip(pre as int), p@) == seq![s@[pre as int]]
                    + spec_remove_sub(s@.skip(i as int), p@));
                assert(out@ + spec_remove_sub(s@.skip(i as int), p@) =~= spec_remove_sub(s@, p@));
            }
        }
    }
    proof {
        assert(s@.skip(s@.len() as int) =~= Seq::<char>::empty());
        assert(out@ + spec_remove_sub(Seq::<char>::empty(), p@) =~= out@);
    }
    out
}

/// Whether `s` ends, case-insensitively, with the pattern `ext` (given in
/// lower case).
fn ends_ci_chars(s: &Vec<char>, ext: &Vec<char>) -> (r: bool)
    ensures
        r == spec_ends_ci(s@, ext@),
{
    if ext.len() > s.len() {
        return false;
    }
    let mut i: usize = 0;
    let off = s.len() - ext.len();
    while i < ext.len()
        invariant
            ext@.len() <= s@.len(),
            s@.len() <= usize::MAX,
            off == s@.len() - ext@.len(),
            i <= ext@.len(),
            forall|j: int| 0 <= j < i ==> lower_char(s@[off + j]) == ext@[j],
        decreases ext@.len() - i,
    {
        if to_lower_char(s[off + i]) != ext[i] {
            proof {
                assert(spec_lower(s@.skip(off as int))[i as int] != ext@[i as int]);
            }
            return false;
        }
        i = i + 1;
    }
    proof {
        assert(spec_lower(s@.skip(off as int)) =~= ext@);
    }
    true
}

/// Whether the characters contain a traversal pattern.
fn has_traversal_chars(chars: &Vec<char>) -> (r: bool)
    ensures
        r == spec_has_traversal(chars@),
{
    let mut p1: Vec<char> = Vec::new();
    p1.push('.');
    p1.push('.');
    p1.push('/');
    let mut p2: Vec<char> = Vec::new();
    p2.push('.');
    p2.push('.');
    p2.push('\\');
    proof {
        assert(p1@ =~= up_slash());
        assert(p2@ =~= up_backslash());
    }
    contains_sub_chars(chars, &p1) || contains_sub_chars(chars, &p2)
}

/// Whether the characters match a dangerous extension or pseudo-filesystem
/// root.
fn has_dangerous_chars(chars: &Vec<char>) -> (r: bool)
    ensures
        r == spec_has_dangerous(chars@),
{
    let exe = str_to_chars(".exe");
    let bat = str_to_chars(".bat");
    let cmd = str_to_chars(".cmd");
    let sh = str_to_chars(".sh");
    let php = str_to_chars(".php");
    let py = str_to_chars(".py");
    let js = str_to_chars(".js");
    let proc_root = str_to_chars("/proc/");
    let dev_root = str_to_chars("/dev/");
    let sys_root = str_to_chars("/sys/");
    ends_ci_chars(chars, &exe) || ends_ci_chars(chars, &bat) || ends_ci_chars(chars, &cmd)
        || ends_ci_chars(chars, &sh) || ends_ci_chars(chars, &php) || ends_ci_chars(chars, &py)
        || ends_ci_chars(chars, &js) || starts_with_chars(chars, &proc_root) || starts_with_chars(
        chars,
        &dev_root,
    ) || starts_with_chars(chars, &sys_root)
}

/// Whether the characters name a reserved Windows device.
fn has_reserved_chars(chars: &Vec<char>) -> (r: bool)
    ensures
        r == spec_has_reserved(chars@),
{
    let unified = replace_chars(chars, '\\', '/');
    let segs = split_parts_chars(&unified, '/');
    if segs.len() == 0 {
        return false;
    }
    let name = &segs[segs.len() - 1];
    proof {
        assert(segs@[segs@.len() - 1].deep_view() =~= name@);
        assert(segs.deep_view().last() == segs@[segs@.len() - 1].deep_view());
    }
    let stem: Vec<char> = match find_char(name, '.') {
        Some(d) => {
            let mut st: Vec<char> = Vec::new();
            let mut i: usize = 0;
            while i < d
                invariant
                    d <= name@.len(),
                    i <= d,
                    st@ == name@.subrange(0, i as int),
                decreases d - i,
            {
                st.push(name[i]);
                i = i + 1;
                proof {
                    assert(st@ =~= name@.subrange(0, i as int));
                }
            }
            proof {
                assert(st@ =~= name@.take(spec_find(name@, '.')));
            }
            st
        },
        None => {
            let mut st: Vec<char> = Vec::new();
            let mut i: usize = 0;
            while i < name.len()
                invariant
                    i <= name@.len(),
                    st@ == name@.subrange(0, i as int),
                decreases name@.len() - i,
            {
                st.push(name[i]);
                i = i + 1;
                proof {
                    assert(st@ =~= name@.subrange(0, i as int));
                }
            }
            proof {
                assert(st@ =~= name@);
            }
            st
        },
    };
    let mut up: Vec<char> = Vec::new();
    let mut i: usize = 0;
    while i < stem.len()
        invariant
            i <= stem@.len(),
            up@ == spec_upper(stem@.subrange(0, i as int)),
        decreases stem@.len() - i,
    {
        up.push(to_upper_char(stem[i]));
        i = i + 1;
        proof {
            assert(up@ =~= spec_upper(stem@.subrange(0, i as int)));
        }
    }
    proof {
        assert(stem@.subrange(0, stem@.len() as int) =~= stem@);
        assert(up@ == spec_upper(spec_stem(segs.deep_view().last())));
    }
    let con = str_to_chars("CON");
    let prn = str_to_chars("PRN");
    let aux = str_to_chars("AUX");
    let nul = str_to_chars("NUL");
    if eq_chars(&up, &con) || eq_chars(&up, &prn) || eq_chars(&up, &aux) || eq_chars(&up, &nul) {
        return true;
    }
    if up.len() == 4 && '1' <= up[3] && up[3] <= '9' {
        let mut head: Vec<char> = Vec::new();
        head.push(up[0]);
        head.push(up[1]);
        head.push(up[2]);
        proof {
            assert(head@ =~= up@.take(3));
        }
        let com = str_to_chars("COM");
        let lpt = str_to_chars("LPT");
        if eq_chars(&head, &com) || eq_chars(&head, &lpt) {
            return true;
        }
        proof {
            assert(!spec_reserved_stem(up@));
        }
        return false;
    }
    proof {
        assert(!spec_reserved_stem(up@));
    }
    false
}

/// Whether the characters begin with a system-directory prefix of the
/// style.
fn system_dir_chars(chars: &Vec<char>, style: PathStyle) -> (r: bool)
    ensures
        r == spec_system_dir(chars@, style),
{
    if style == PathStyle::Windows {
        let d1 = str_to_chars("C:\\Windows");
        let d2 = str_to_chars("C:\\System32");
        let d3 = str_to_chars("C:\\Program Files");
        let d4 = str_to_chars("C:\\ProgramData");
        starts_with_chars(chars, &d1) || starts_with_chars(chars, &d2) || starts_with_chars(
            chars,
            &d3,
        ) || starts_with_chars(chars, &d4)
    } else {
        let d1 = str_to_chars("/bin");
        let d2 = str_to_chars("/sbin");
        let d3 = str_to_chars("/usr/bin");
        let d4 = str_to_chars("/usr/sbin");
        let d5 = str_to_chars("/etc");
        let d6 = str_to_chars("/root");
        let d7 = str_to_chars("/var");
        let d8 = str_to_chars("/lib");
        let d9 = str_to_chars("/boot");
        let d10 = str_to_chars("/dev");
        let d11 = str_to_chars("/proc");
        let d12 = str_to_chars("/sys");
        starts_with_chars(chars, &d1) || starts_with_chars(chars, &d2) || starts_with_chars(
            chars,
            &d3,
        ) || starts_with_chars(chars, &d4) || starts_with_chars(chars, &d5) || starts_with_chars(
            chars,
            &d6,
        ) || starts_with_chars(chars, &d7) || starts_with_chars(chars, &d8) || starts_with_chars(
            chars,
            &d9,
        ) || starts_with_chars(chars, &d10) || starts_with_chars(chars, &d11)
            || starts_with_chars(chars, &d12)
    }
}

/// Path security checker for preventing path-based textual attacks.
#[derive(Debug, Clone)]
pub struct PathSecurityChecker;

impl Default for PathSecurityChecker {
    /// The default checker.
    fn default() -> (r: Self)
        ensures
            r == PathSecurityChecker,
    {
        PathSecurityChecker
    }
}

impl PathSecurityChecker {
    /// Create a new security checker.
    pub fn new() -> (r: Self)
        ensures
            r == PathSecurityChecker,
    {
        PathSecurityChecker
    }

    /// Check path security under an explicit evaluation style: `Windows`
    /// enables the reserved-name rule and the Windows system-directory
    /// list, any other style uses the Unix rules.
    pub fn check_with_style(path: &str, style: PathStyle) -> (r: PathResult<bool>)
        ensures
            check_matches(r, path@, style),
    {
        let chars = str_to_chars(path);
        if has_traversal_chars(&chars) {
            return Err(PathError::security_error("Path traversal attack detected"));
        }
        if has_dangerous_chars(&chars) {
            return Err(PathError::security_error("Path contains dangerous patterns"));
        }
        if style == PathStyle::Windows && has_reserved_chars(&chars) {
            return Err(PathError::security_error("Path contains Windows reserved names"));
        }
        if system_dir_chars(&chars, style) {
            return Err(PathError::security_error("Attempt to access system directories"));
        }
        Ok(true)
    }

    /// Perform the security checks on a path, under the host platform's
    /// semantics; a traversal pattern is rejected under every host.
    pub fn check(&self, path: &str) -> (r: PathResult<bool>)
        ensures
            check_matches(r, path@, PathStyle::Windows) || check_matches(
                r,
                path@,
                PathStyle::Unix,
            ),
            spec_has_traversal(path@) ==> (r matches Err(PathError::SecurityError(m)) && m@
                == "Path traversal attack detected"@),
    {
        let style = current_style();
        let r = Self::check_with_style(path, style);
        proof {
            if spec_has_traversal(path@) {
                lemma_traversal_rejected(path@, style);
            }
        }
        r
    }

    /// Sanitize a path string: drop `../` and `..\` sequences, replace each
    /// dangerous character with `_`, and keep at most 255 characters. A
    /// best-effort cleanup, not a validator: the result may still fail the
    /// security check.
    pub fn sanitize_path(path: &str) -> (r: String)
        ensures
            r@ == spec_sanitize(path@),
    {
        let chars = str_to_chars(path);
        let mut p1: Vec<char> = Vec::new();
        p1.push('.');
        p1.push('.');
        p1.push('/');
        let mut p2: Vec<char> = Vec::new();
        p2.push('.');
        p2.push('.');
        p2.push('\\');
        proof {
            assert(p1@ =~= up_slash());
            assert(p2@ =~= up_backslash());
        }
        let a = remove_sub_chars(&chars, &p1);
        let b = remove_sub_chars(&a, &p2);
        let mut mapped: Vec<char> = Vec::new();
        let mut i: usize = 0;
        while i < b.len()
            invariant
                i <= b@.len(),
                mapped@ == b@.subrange(0, i as int).map_values(|c: char| spec_sanitize_char(c)),
            decreases b@.len() - i,
        {
            mapped.push(sanitize_char(b[i]));
            i = i + 1;
            proof {
                assert(mapped@ =~= b@.subrange(0, i as int).map_values(
                    |c: char| spec_sanitize_char(c),
                ));
            }
        }
        proof {
            assert(b@.subrange(0, b@.len() as int) =~= b@);
        }
        if mapped.len() > 255 {
            let mut out: Vec<char> = Vec::new();
            let mut j: usize = 0;
            while j < 255
                invariant
                    mapped@.len() > 255,
                    j <= 255,
                    out@ == mapped@.subrange(0, j as int),
                decreases 255 - j,
            {
                out.push(mapped[j]);
                j = j + 1;
                proof {
                    assert(out@ =~= mapped@.subrange(0, j as int));
                }
            }
            chars_to_string(&out)
        } else {
            chars_to_string(&mapped)
        }
    }

    /// Check path security with the default checker.
    pub fn check_path_security(path: &str) -> (r: PathResult<bool>)
        ensures
            check_matches(r, path@, PathStyle::Windows) || check_matches(
                r,
                path@,
                PathStyle::Unix,
            ),
            spec_has_traversal(path@) ==> (r matches Err(PathError::SecurityError(m)) && m@
                == "Path traversal attack detected"@),
    {
        let checker = Self::new();
        checker.check(path)
    }
}

} // verus!
