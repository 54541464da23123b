//! String-to-string conversion between Windows and Unix path styles,
//! including UNC paths and drive-letter mapping.
use vstd::prelude::*;

use crate::error::PathError;
use crate::platform::current_style;
use crate::text::{
    append_chars, append_lit, chars_to_string, collapse_chars, contains_char, contains_sub_chars,
    eq_chars, join_chars, join_parts, lower_char, replace_chars, spec_collapse, spec_contains_sub,
    spec_replace, spec_starts_with, split_full, split_full_chars, starts_with_chars, str_to_chars,
    to_lower_char,
};
use crate::{clone_config, is_alpha, spec_is_alpha, ConfigModel, PathConfig, PathResult, PathStyle};
use vstd::string::StringExecFns;

verus! {

broadcast use vstd::string::group_string_axioms;

/// The error outcome of a conversion.
#[verifier::ext_equal]
pub ghost enum ConvError {
    /// A UNC prefix with fewer than two segments after it; carries the
    /// normalized path text.
    InvalidUnc { path: Seq<char> },
    /// A source/target pair this engine does not convert between.
    Unsupported { source: PathStyle, target: PathStyle },
}

/// Drive-letter shape the converter detects: a letter and a colon, either
/// alone or followed by a separator.
pub open spec fn spec_conv_win(s: Seq<char>) -> bool {
    s.len() >= 2 && spec_is_alpha(s[0]) && s[1] == ':' && (s.len() == 2 || s[2] == '/' || s[2]
        == '\\')
}

/// Unix shape the converter detects: a leading slash not followed by a
/// second slash.
pub open spec fn spec_conv_unix(s: Seq<char>) -> bool {
    s.len() >= 1 && s[0] == '/' && (s.len() == 1 || s[1] != '/')
}

/// The style of a path string, as the converter sees it: the shape rules
/// first, then the separators present, then two Windows hints, a leading
/// slash, and finally the host style.
pub open spec fn spec_conv_detect(s: Seq<char>, host: PathStyle) -> PathStyle {
    if spec_conv_win(s) {
        PathStyle::Windows
    } else if spec_conv_unix(s) {
        PathStyle::Unix
    } else if s.contains('\\') && !s.contains('/') {
        PathStyle::Windows
    } else if s.contains('/') && !s.contains('\\') {
        PathStyle::Unix
    } else if (s.len() >= 2 && s[0] == '\\' && s[1] == '\\') || spec_contains_sub(
        s,
        seq![':', '\\'],
    ) {
        PathStyle::Windows
    } else if s.len() >= 1 && s[0] == '/' {
        PathStyle::Unix
    } else {
        host
    }
}

/// Windows-style separator normalization: unify to `\`, collapse runs of
/// `\` unless the path starts with a UNC `\\`, and drop one trailing `\`
/// unless the remainder is exactly a two-character drive root such as `C:`.
pub open spec fn spec_norm_windows(s: Seq<char>) -> Seq<char> {
    let u = spec_replace(s, '/', '\\');
    let d = if u.len() >= 2 && u[0] == '\\' && u[1] == '\\' {
        u
    } else {
        spec_collapse(u, '\\')
    };
    if d.len() > 0 && d.last() == '\\' && !(d.len() == 3 && spec_is_alpha(d[0]) && d[1] == ':') {
        d.drop_last()
    } else {
        d
    }
}

/// Unix-style separator normalization: unify to `/`, collapse runs of `/`,
/// and drop one trailing `/` unless the path is exactly the root.
pub open spec fn spec_norm_unix(s: Seq<char>) -> Seq<char> {
    let d = spec_collapse(spec_replace(s, '\\', '/'), '/');
    if d.len() > 0 && d.last() == '/' && d != seq!['/'] {
        d.drop_last()
    } else {
        d
    }
}

/// `s` with every trailing `sep` removed.
pub open spec fn strip_trailing(s: Seq<char>, sep: char) -> Seq<char>
    decreases s.len(),
{
    if s.len() > 0 && s.last() == sep {
        strip_trailing(s.drop_last(), sep)
    } else {
        s
    }
}

/// The Windows drive mount for the first mapping entry whose Windows key
/// equals `key`, if any.
pub open spec fn find_by_key(maps: Seq<(Seq<char>, Seq<char>)>, key: Seq<char>) -> Option<
    Seq<char>,
>
    decreases maps.len(),
{
    if maps.len() == 0 {
        None
    } else if maps[0].0 == key {
        Some(maps[0].1)
    } else {
        find_by_key(maps.drop_first(), key)
    }
}

/// The first mapping entry whose Unix prefix starts `s`, if any.
pub open spec fn find_by_prefix(maps: Seq<(Seq<char>, Seq<char>)>, s: Seq<char>) -> Option<
    (Seq<char>, Seq<char>),
>
    decreases maps.len(),
{
    if maps.len() == 0 {
        None
    } else if spec_starts_with(s, maps[0].1) {
        Some(maps[0])
    } else {
        find_by_prefix(maps.drop_first(), s)
    }
}

/// The UNC rebuild of a normalized path: segments two and three become
/// server and share, the rest is joined with the target separator, and
/// trailing target separators are trimmed.
pub open spec fn spec_unc_rebuild(n: Seq<char>, from: char, to: char) -> Result<
    Seq<char>,
    ConvError,
> {
    let parts = split_full(n, from);
    if parts.len() >= 4 {
        Ok(
            strip_trailing(
                seq![to, to] + parts[2] + seq![to] + parts[3] + seq![to] + join_parts(
                    parts.skip(4),
                    to,
                ),
                to,
            ),
        )
    } else {
        Err(ConvError::InvalidUnc { path: n })
    }
}

/// Windows-to-Unix conversion of a path string.
pub open spec fn spec_windows_to_unix(s: Seq<char>, maps: Seq<(Seq<char>, Seq<char>)>) -> Result<
    Seq<char>,
    ConvError,
> {
    let n = spec_norm_windows(s);
    if n.len() >= 2 && n[0] == '\\' && n[1] == '\\' {
        spec_unc_rebuild(n, '\\', '/')
    } else if n.len() >= 2 && spec_is_alpha(n[0]) && n[1] == ':' {
        let rest = spec_replace(n.skip(2), '\\', '/');
        match find_by_key(maps, n.take(2)) {
            Some(mount) => Ok(mount + rest),
            None => Ok("/mnt/"@ + seq![lower_char(n[0])] + rest),
        }
    } else {
        Ok(spec_replace(n, '\\', '/'))
    }
}

/// Unix-to-Windows conversion of a path string: the first mapping whose
/// Unix prefix starts the normalized path wins; an unmapped absolute path
/// defaults to `C:`; a relative path only has its separators flipped.
pub open spec fn spec_unix_to_windows(s: Seq<char>, maps: Seq<(Seq<char>, Seq<char>)>) -> Seq<
    char,
> {
    let n = spec_norm_unix(s);
    match find_by_prefix(maps, n) {
        Some(entry) => entry.0 + spec_replace(n.skip(entry.1.len() as int), '/', '\\'),
        None => {
            if n.len() >= 1 && n[0] == '/' {
                "C:"@ + spec_replace(n, '/', '\\')
            } else {
                spec_replace(n, '/', '\\')
            }
        },
    }
}

/// The conversion of a path string to a target style, given the host style:
/// a path already in the target style is returned unchanged, unless it
/// mixes both separator characters, in which case it is normalized to the
/// target style's conventions; otherwise the direction-specific rules
/// apply, and any pair involving `Auto` is unsupported.
pub open spec fn spec_convert(
    s: Seq<char>,
    maps: Seq<(Seq<char>, Seq<char>)>,
    target: PathStyle,
    host: PathStyle,
) -> Result<Seq<char>, ConvError> {
    let source = spec_conv_detect(s, host);
    if source == target {
        if s.contains('/') && s.contains('\\') {
            if target == PathStyle::Windows {
                Ok(spec_norm_windows(s))
            } else {
                Ok(spec_norm_unix(s))
            }
        } else {
            Ok(s)
        }
    } else if source == PathStyle::Windows && target == PathStyle::Unix {
        spec_windows_to_unix(s, maps)
    } else if source == PathStyle::Unix && target == PathStyle::Windows {
        Ok(spec_unix_to_windows(s, maps))
    } else {
        Err(ConvError::Unsupported { source, target })
    }
}

/// The display name of a style, as error messages spell it.
pub open spec fn spec_style_name(style: PathStyle) -> Seq<char> {
    match style {
        PathStyle::Windows => "Windows"@,
        PathStyle::Unix => "Unix"@,
        PathStyle::Auto => "Auto"@,
    }
}

/// A successful prefix lookup returns an entry whose Unix prefix starts `s`.
proof fn lemma_find_prefix_some(maps: Seq<(Seq<char>, Seq<char>)>, s: Seq<char>)
    ensures
        find_by_prefix(maps, s) matches Some(e) ==> spec_starts_with(s, e.1),
    decreases maps.len(),
{
    if maps.len() > 0 && !spec_starts_with(s, maps[0].1) {
        lemma_find_prefix_some(maps.drop_first(), s);
    }
}

/// Skipping entries that do not match leaves the key lookup unchanged.
proof fn lemma_find_key_skip(maps: Seq<(Seq<char>, Seq<char>)>, key: Seq<char>, i: int)
    requires
        0 <= i <= maps.len(),
        forall|j: int| 0 <= j < i ==> (#[trigger] maps[j]).0 != key,
    ensures
        find_by_key(maps, key) == find_by_key(maps.skip(i), key),
    decreases i,
{
    if i > 0 {
        assert(maps[0].0 != key);
        assert(maps.drop_first() =~~= maps.skip(1));
        assert(forall|j: int| 0 <= j < i - 1 ==> (#[trigger] maps.skip(1)[j]).0 != key) by {
            assert(forall|j: int| 0 <= j < i - 1 ==> #[trigger] maps.skip(1)[j] == maps[j + 1]);
        }
        lemma_find_key_skip(maps.skip(1), key, i - 1);
        assert(maps.skip(1).skip(i - 1) =~~= maps.skip(i));
    } else {
        assert(maps.skip(0) =~~= maps);
    }
}

/// Skipping entries whose prefix does not match leaves the prefix lookup
/// unchanged.
proof fn lemma_find_prefix_skip(maps: Seq<(Seq<char>, Seq<char>)>, s: Seq<char>, i: int)
    requires
        0 <= i <= maps.len(),
        forall|j: int| 0 <= j < i ==> !spec_starts_with(s, (#[trigger] maps[j]).1),
    ensures
        find_by_prefix(maps, s) == find_by_prefix(maps.skip(i), s),
    decreases i,
{
    if i > 0 {
        assert(!spec_starts_with(s, maps[0].1));
        assert(maps.drop_first() =~~= maps.skip(1));
        assert(forall|j: int| 0 <= j < i - 1 ==> !spec_starts_with(
            s,
            (#[trigger] maps.skip(1)[j]).1,
        )) by {
            assert(forall|j: int| 0 <= j < i - 1 ==> #[trigger] maps.skip(1)[j] == maps[j + 1]);
        }
        lemma_find_prefix_skip(maps.skip(1), s, i - 1);
        assert(maps.skip(1).skip(i - 1) =~~= maps.skip(i));
    } else {
        assert(maps.skip(0) =~~= maps);
    }
}

/// Whether the executable outcome `r` is the one `spec_convert` assigns for
/// host style `host`, error messages included.
pub open spec fn conv_matches(
    r: Result<String, PathError>,
    s: Seq<char>,
    maps: Seq<(Seq<char>, Seq<char>)>,
    target: PathStyle,
    host: PathStyle,
) -> bool {
    match spec_convert(s, maps, target, host) {
        Ok(v) => r matches Ok(out) && out@ == v,
        Err(ConvError::InvalidUnc { path }) => r matches Err(PathError::ParseError(m)) && m@
            == "Invalid UNC path: "@ + path,
        Err(ConvError::Unsupported { source, target: t }) => r matches Err(
            PathError::UnsupportedFormat(m),
        ) && m@ == "Unsupported conversion: "@ + spec_style_name(source) + " -> "@
            + spec_style_name(t),
    }
}

/// Apply the Windows separator normalization.
fn norm_windows_chars(s: &Vec<char>) -> (r: Vec<char>)
    ensures
        r@ == spec_norm_windows(s@),
{
    let u = replace_chars(s, '/', '\\');
    let d = if u.len() >= 2 && u[0] == '\\' && u[1] == '\\' {
        u
    } else {
        collapse_chars(&u, '\\')
    };
    let drive_root = d.len() == 3 && is_alpha(d[0]) && d[1] == ':';
    if d.len() > 0 && d[d.len() - 1] == '\\' && !drive_root {
        let mut d2 = d;
        d2.pop();
        proof {
            assert(d2@ =~= spec_norm_windows(s@));
        }
        d2
    } else {
        d
    }
}

/// Apply the Unix separator normalization.
fn norm_unix_chars(s: &Vec<char>) -> (r: Vec<char>)
    ensures
        r@ == spec_norm_unix(s@),
{
    let u = replace_chars(s, '\\', '/');
    let d = collapse_chars(&u, '/');
    let is_root = d.len() == 1 && d[0] == '/';
    proof {
        if is_root {
            assert(d@ =~= seq!['/']);
        } else if d@.len() == 1 {
            assert(d@ != seq!['/']);
        } else {
            assert(d@ != seq!['/']);
        }
    }
    if d.len() > 0 && d[d.len() - 1] == '/' && !is_root {
        let mut d2 = d;
        d2.pop();
        proof {
            assert(d2@ =~= spec_norm_unix(s@));
        }
        d2
    } else {
        d
    }
}

/// Look up the first mapping whose Windows key equals `key`.
pub(crate) fn lookup_by_key(maps: &Vec<(String, String)>, key: &Vec<char>) -> (r: Option<String>)
    ensures
        match r {
            Some(m) => find_by_key(maps.deep_view(), key@) == Some(m@),
            None => find_by_key(maps.deep_view(), key@) is None,
        },
{
    let ghost mdv = maps.deep_view();
    let mut i: usize = 0;
    while i < maps.len()
        invariant
            i <= maps@.len(),
            mdv == maps.deep_view(),
            forall|j: int| 0 <= j < i ==> (#[trigger] mdv[j]).0 != key@,
        decreases maps@.len() - i,
    {
        let w = str_to_chars(maps[i].0.as_str());
        proof {
            assert(mdv[i as int].0 == maps@[i as int].0@);
        }
        if eq_chars(&w, key) {
            let m = maps[i].1.clone();
            proof {
                assert(mdv[i as int].1 == maps@[i as int].1@);
                lemma_find_key_skip(mdv, key@, i as int);
                assert(mdv.skip(i as int)[0] == mdv[i as int]);
                assert(find_by_key(mdv.skip(i as int), key@) == Some(mdv[i as int].1));
            }
            return Some(m);
        }
        i = i + 1;
    }
    proof {
        lemma_find_key_skip(mdv, key@, maps@.len() as int);
        assert(mdv.skip(maps@.len() as int) =~~= Seq::<(Seq<char>, Seq<char>)>::empty());
    }
    None
}

/// Look up the first mapping whose Unix prefix starts `s`.
fn lookup_by_prefix(maps: &Vec<(String, String)>, s: &Vec<char>) -> (r: Option<(String, String)>)
    ensures
        match r {
            Some(m) => find_by_prefix(maps.deep_view(), s@) == Some((m.0@, m.1@)),
            None => find_by_prefix(maps.deep_view(), s@) is None,
        },
{
    let ghost mdv = maps.deep_view();
    let mut i: usize = 0;
    while i < maps.len()
        invariant
            i <= maps@.len(),
            mdv == maps.deep_view(),
            forall|j: int| 0 <= j < i ==> !spec_starts_with(s@, (#[trigger] mdv[j]).1),
        decreases maps@.len() - i,
    {
        let u = str_to_chars(maps[i].1.as_str());
        proof {
            assert(mdv[i as int].1 == maps@[i as int].1@);
        }
        if starts_with_chars(s, &u) {
            let w = maps[i].0.clone();
            let m = maps[i].1.clone();
            proof {
                assert(mdv[i as int].0 == maps@[i as int].0@);
                lemma_find_prefix_skip(mdv, s@, i as int);
                assert(mdv.skip(i as int)[0] == mdv[i as int]);
                assert(find_by_prefix(mdv.skip(i as int), s@) == Some(mdv[i as int]));
            }
            return Some((w, m));
        }
        i = i + 1;
    }
    proof {
        lemma_find_prefix_skip(mdv, s@, maps@.len() as int);
        assert(mdv.skip(maps@.len() as int) =~~= Seq::<(Seq<char>, Seq<char>)>::empty());
    }
    None
}

/// Rebuild a normalized UNC path with the target separator.
fn unc_rebuild_chars(n: &Vec<char>, from: char, to: char) -> (r: Result<Vec<char>, PathError>)
    ensures
        spec_unc_rebuild(n@, from, to) matches Ok(v) ==> (r matches Ok(out) && out@ == v),
        spec_unc_rebuild(n@, from, to) is Err ==> (r matches Err(PathError::ParseError(m)) && m@
            == "Invalid UNC path: "@ + n@),
{
    let parts = split_full_chars(n, from);
    let ghost pdv = parts.deep_view();
    if parts.len() >= 4 {
        let mut out: Vec<char> = Vec::new();
        out.push(to);
        out.push(to);
        append_chars(&mut out, &parts[2]);
        out.push(to);
        append_chars(&mut out, &parts[3]);
        out.push(to);
        let mut rest: Vec<Vec<char>> = Vec::new();
        let mut k: usize = 4;
        proof {
            assert(rest.deep_view() =~~= pdv.subrange(4, 4));
        }
        while k < parts.len()
            invariant
                4 <= k <= parts@.len(),
                pdv == parts.deep_view(),
                rest.deep_view() == pdv.subrange(4, k as int),
            decreases parts@.len() - k,
        {
            let ghost rdv = rest.deep_view();
            let seg = parts[k].clone();
            proof {
                broadcast use vstd::std_specs::vec::group_vec_axioms;

                assert(seg@ == parts@[k as int]@);
                assert(parts@[k as int].deep_view() =~= parts@[k as int]@);
            }
            rest.push(seg);
            k = k + 1;
            proof {
                assert(rest.deep_view() =~~= rdv.push(pdv[k - 1]));
                assert(rest.deep_view() =~~= pdv.subrange(4, k as int));
            }
        }
        proof {
            assert(pdv.subrange(4, pdv.len() as int) =~~= pdv.skip(4));
        }
        let joined = join_chars(&rest, to);
        append_chars(&mut out, &joined);
        proof {
            assert(pdv[2] =~= parts@[2]@);
            assert(pdv[3] =~= parts@[3]@);
            assert(out@ =~= seq![to, to] + pdv[2] + seq![to] + pdv[3] + seq![to] + join_parts(
                pdv.skip(4),
                to,
            ));
        }
        let ghost built = out@;
        while out.len() > 0 && out[out.len() - 1] == to
            invariant
                strip_trailing(out@, to) == strip_trailing(built, to),
            decreases out@.len(),
        {
            out.pop();
        }
        proof {
            assert(strip_trailing(out@, to) == out@);
        }
        Ok(out)
    } else {
        let mut msg = "Invalid UNC path: ".to_owned();
        let ns = chars_to_string(n);
        msg.append(ns.as_str());
        Err(PathError::ParseError(msg))
    }
}

/// Copy the characters of `s` from position `from` on.
fn tail_chars(s: &Vec<char>, from: usize) -> (r: Vec<char>)
    requires
        from <= s@.len(),
    ensures
        r@ == s@.skip(from as int),
{
    let mut r: Vec<char> = Vec::new();
    let mut i: usize = from;
    while i < s.len()
        invariant
            from <= i <= s@.len(),
            r@ == s@.subrange(from as int, i as int),
        decreases s@.len() - i,
    {
        r.push(s[i]);
        i = i + 1;
        proof {
            assert(r@ =~= s@.subrange(from as int, i as int));
        }
    }
    proof {
        assert(r@ =~= s@.skip(from as int));
    }
    r
}

/// Convert Windows path characters to Unix form.
fn windows_to_unix_chars(s: &Vec<char>, maps: &Vec<(String, String)>) -> (r: Result<
    Vec<char>,
    PathError,
>)
    ensures
        spec_windows_to_unix(s@, maps.deep_view()) matches Ok(v) ==> (r matches Ok(out) && out@
            == v),
        spec_windows_to_unix(s@, maps.deep_view()) matches Err(e) ==> (e matches
            ConvError::InvalidUnc { path } && r matches Err(PathError::ParseError(m)) && m@
            == "Invalid UNC path: "@ + path),
{
    let n = norm_windows_chars(s);
    if n.len() >= 2 && n[0] == '\\' && n[1] == '\\' {
        return unc_rebuild_chars(&n, '\\', '/');
    }
    if n.len() >= 2 && is_alpha(n[0]) && n[1] == ':' {
        let mut key: Vec<char> = Vec::new();
        key.push(n[0]);
        key.push(n[1]);
        proof {
            assert(key@ =~= n@.take(2));
        }
        let rest0 = tail_chars(&n, 2);
        let rest = replace_chars(&rest0, '\\', '/');
        match lookup_by_key(maps, &key) {
            Some(mount) => {
                let mut out = str_to_chars(mount.as_str());
                append_chars(&mut out, &rest);
                return Ok(out);
            },
            None => {
                let mut out: Vec<char> = Vec::new();
                append_lit(&mut out, "/mnt/");
                out.push(to_lower_char(n[0]));
                append_chars(&mut out, &rest);
                proof {
                    assert(out@ =~= "/mnt/"@ + seq![lower_char(n@[0])] + spec_replace(
                        n@.skip(2),
                        '\\',
                        '/',
                    ));
                }
                return Ok(out);
            },
        }
    }
    Ok(replace_chars(&n, '\\', '/'))
}

/// Convert Unix path characters to Windows form.
fn unix_to_windows_chars(s: &Vec<char>, maps: &Vec<(String, String)>) -> (r: Vec<char>)
    ensures
        r@ == spec_unix_to_windows(s@, maps.deep_view()),
{
    let n = norm_unix_chars(s);
    match lookup_by_prefix(maps, &n) {
        Some((win, unix)) => {
            let up = str_to_chars(unix.as_str());
            proof {
                lemma_find_prefix_some(maps.deep_view(), n@);
            }
            let rest0 = tail_chars(&n, up.len());
            let rest = replace_chars(&rest0, '/', '\\');
            let mut out = str_to_chars(win.as_str());
            append_chars(&mut out, &rest);
            out
        },
        None => {
            if n.len() >= 1 && n[0] == '/' {
                let mut out: Vec<char> = Vec::new();
                append_lit(&mut out, "C:");
                let rest = replace_chars(&n, '/', '\\');
                append_chars(&mut out, &rest);
                proof {
                    assert(out@ =~= "C:"@ + spec_replace(n@, '/', '\\'));
                }
                out
            } else {
                replace_chars(&n, '/', '\\')
            }
        },
    }
}

/// The display name of a path style.
fn style_name(style: PathStyle) -> (r: &'static str)
    ensures
        r@ == spec_style_name(style),
{
    match style {
        PathStyle::Windows => "Windows",
        PathStyle::Unix => "Unix",
        PathStyle::Auto => "Auto",
    }
}

/// Detect the converter-level style of path characters.
fn conv_detect_chars(chars: &Vec<char>) -> (r: PathStyle)
    ensures
        r == spec_conv_detect(chars@, PathStyle::Windows) || r == spec_conv_detect(
            chars@,
            PathStyle::Unix,
        ),
        r == PathStyle::Windows || r == PathStyle::Unix,
{
    if chars.len() >= 2 && is_alpha(chars[0]) && chars[1] == ':' && (chars.len() == 2 || chars[2]
        == '/' || chars[2] == '\\') {
        return PathStyle::Windows;
    }
    if chars.len() >= 1 && chars[0] == '/' && (chars.len() == 1 || chars[1] != '/') {
        return PathStyle::Unix;
    }
    let has_bs = contains_char(chars, '\\');
    let has_fs = contains_char(chars, '/');
    if has_bs && !has_fs {
        return PathStyle::Windows;
    }
    if has_fs && !has_bs {
        return PathStyle::Unix;
    }
    let mut colon_bs: Vec<char> = Vec::new();
    colon_bs.push(':');
    colon_bs.push('\\');
    proof {
        assert(colon_bs@ =~= seq![':', '\\']);
    }
    if (chars.len() >= 2 && chars[0] == '\\' && chars[1] == '\\') || contains_sub_chars(
        chars,
        &colon_bs,
    ) {
        return PathStyle::Windows;
    }
    if chars.len() >= 1 && chars[0] == '/' {
        return PathStyle::Unix;
    }
    current_style()
}

/// Path converter for Windows-Unix conversion in both directions.
#[derive(Debug, Clone)]
pub struct PathConverter {
    config: PathConfig,
}

impl View for PathConverter {
    type V = ConfigModel;

    closed spec fn view(&self) -> ConfigModel {
        self.config@
    }
}

impl PathConverter {
    /// Create a new path converter with a copy of the configuration.
    pub fn new(config: &PathConfig) -> (r: Self)
        ensures
            r@ == config@,
    {
        PathConverter { config: clone_config(config) }
    }

    /// Detect the style of a path string; relative strings with no clue
    /// fall back to the host platform style. Detection never fails.
    pub fn detect_style(&self, path: &str) -> (r: PathResult<PathStyle>)
        ensures
            r matches Ok(st) && (st == spec_conv_detect(path@, PathStyle::Windows) || st
                == spec_conv_detect(path@, PathStyle::Unix)) && (st == PathStyle::Windows || st
                == PathStyle::Unix),
    {
        let chars = str_to_chars(path);
        Ok(conv_detect_chars(&chars))
    }

    /// Convert a path string to the target style.
    pub fn convert(&self, path: &str, target_style: PathStyle) -> (r: PathResult<String>)
        ensures
            conv_matches(r, path@, self@.drive_mappings, target_style, PathStyle::Windows)
                || conv_matches(r, path@, self@.drive_mappings, target_style, PathStyle::Unix),
    {
        let chars = str_to_chars(path);
        let source = conv_detect_chars(&chars);
        let ghost maps = self@.drive_mappings;
        if source == target_style {
            if contains_char(&chars, '/') && contains_char(&chars, '\\') {
                let out = if target_style == PathStyle::Windows {
                    norm_windows_chars(&chars)
                } else {
                    norm_unix_chars(&chars)
                };
                return Ok(chars_to_string(&out));
            }
            return Ok(path.to_owned());
        }
        if source == PathStyle::Windows && target_style == PathStyle::Unix {
            return match windows_to_unix_chars(&chars, &self.config.drive_mappings) {
                Ok(out) => Ok(chars_to_string(&out)),
                Err(e) => Err(e),
            };
        }
        if source == PathStyle::Unix && target_style == PathStyle::Windows {
            let out = unix_to_windows_chars(&chars, &self.config.drive_mappings);
            return Ok(chars_to_string(&out));
        }
        let mut msg = "Unsupported conversion: ".to_owned();
        msg.append(style_name(source));
        msg.append(" -> ");
        msg.append(style_name(target_style));
        proof {
            assert(msg@ =~= "Unsupported conversion: "@ + spec_style_name(source) + " -> "@
                + spec_style_name(target_style));
        }
        Err(PathError::UnsupportedFormat(msg))
    }
}

} // verus!
