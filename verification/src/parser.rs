//! Path parsing: classification of a raw path string into a structured
//! `ParsedPath`, style detection, and `.`/`..` normalization.
use vstd::prelude::*;

use crate::platform::current_style;
use crate::text::{
    chars_to_string, contains_char, join_chars, join_parts, lemma_join_first,
    lemma_join_split_inverse, lemma_keep_prepend_empty, lemma_split_parts_avoid,
    lemma_split_parts_elems, lemma_split_prepend_sep, replace_chars, spec_replace, split_full,
    split_parts, split_parts_chars, str_to_chars, to_upper_char, upper_char,
};
use crate::{is_alpha, spec_is_alpha, PathResult, PathStyle};

verus! {

broadcast use vstd::string::group_string_axioms;

/// Mathematical model of a parsed path.
#[verifier::ext_equal]
pub ghost struct PathModel {
    /// The verbatim input.
    pub original: Seq<char>,
    /// The separator-delimited segments.
    pub components: Seq<Seq<char>>,
    /// Whether the path is absolute.
    pub is_absolute: bool,
    /// Whether the path carries a drive letter.
    pub has_drive: bool,
    /// The upper-cased drive letter, if any.
    pub drive_letter: Option<char>,
    /// Whether the path is a UNC path.
    pub is_unc: bool,
    /// The UNC server name, if any.
    pub server: Option<Seq<char>>,
    /// The UNC share name, if any.
    pub share: Option<Seq<char>>,
}

/// UNC shape: two leading backslashes, a non-empty backslash-free run, one
/// backslash, and at least one more non-backslash character.
pub open spec fn spec_is_unc(s: Seq<char>) -> bool {
    s.len() >= 5 && s[0] == '\\' && s[1] == '\\' && s[2] != '\\' && exists|k: int|
        3 <= k && k + 1 < s.len() && (#[trigger] s[k]) == '\\' && s[k + 1] != '\\' && (forall|
            j: int,
        | 2 <= j < k ==> s[j] != '\\')
}

/// Windows absolute shape: a drive letter, a colon, and a separator.
pub open spec fn spec_is_win_abs(s: Seq<char>) -> bool {
    s.len() >= 3 && spec_is_alpha(s[0]) && s[1] == ':' && (s[2] == '/' || s[2] == '\\')
}

/// Unix absolute shape: a leading forward slash.
pub open spec fn spec_is_unix_abs(s: Seq<char>) -> bool {
    s.len() >= 1 && s[0] == '/'
}

/// The parse of a path string, by the first matching rule: UNC, Windows
/// absolute, Unix absolute, and otherwise relative.
pub open spec fn spec_parse(s: Seq<char>) -> PathModel {
    if spec_is_unc(s) {
        let parts = split_parts(s, '\\');
        PathModel {
            original: s,
            components: Seq::<Seq<char>>::empty(),
            is_absolute: true,
            has_drive: false,
            drive_letter: None,
            is_unc: true,
            server: if parts.len() >= 2 {
                Some(parts[0])
            } else {
                None
            },
            share: if parts.len() >= 2 {
                Some(parts[1])
            } else {
                None
            },
        }
    } else if spec_is_win_abs(s) {
        PathModel {
            original: s,
            components: split_parts(spec_replace(s, '\\', '/'), '/'),
            is_absolute: true,
            has_drive: true,
            drive_letter: Some(upper_char(s[0])),
            is_unc: false,
            server: None,
            share: None,
        }
    } else if spec_is_unix_abs(s) {
        PathModel {
            original: s,
            components: split_parts(s, '/'),
            is_absolute: true,
            has_drive: false,
            drive_letter: None,
            is_unc: false,
            server: None,
            share: None,
        }
    } else {
        PathModel {
            original: s,
            components: split_parts(spec_replace(s, '\\', '/'), '/'),
            is_absolute: false,
            has_drive: false,
            drive_letter: None,
            is_unc: false,
            server: None,
            share: None,
        }
    }
}

/// Law: every parse satisfies the structural invariant. A UNC parse is
/// absolute and a drive parse carries its letter. The separator set is
/// style-relative: no component is empty or contains a forward slash, and
/// for every shape but the Unix-absolute one no component contains a
/// backslash either. A Unix-absolute path splits on `/` alone, so a `\`
/// may remain inside one of its components.
pub proof fn lemma_parse_invariant(s: Seq<char>)
    ensures
        spec_parse(s).is_unc ==> spec_parse(s).is_absolute,
        spec_parse(s).has_drive ==> spec_parse(s).drive_letter is Some,
        forall|i: int|
            0 <= i < spec_parse(s).components.len() ==> (#[trigger] spec_parse(
                s,
            ).components[i]).len() > 0 && !spec_parse(s).components[i].contains('/'),
        spec_parse(s).is_unc || spec_parse(s).has_drive || !spec_parse(s).is_absolute
            ==> forall|i: int|
            0 <= i < spec_parse(s).components.len() ==> !(#[trigger] spec_parse(
                s,
            ).components[i]).contains('\\'),
{
    if spec_is_unc(s) {
    } else if spec_is_win_abs(s) {
        lemma_split_parts_elems(spec_replace(s, '\\', '/'), '/');
        lemma_replace_avoid(s);
        lemma_split_parts_avoid(spec_replace(s, '\\', '/'), '/', '\\');
    } else if spec_is_unix_abs(s) {
        lemma_split_parts_elems(s, '/');
    } else {
        lemma_split_parts_elems(spec_replace(s, '\\', '/'), '/');
        lemma_replace_avoid(s);
        lemma_split_parts_avoid(spec_replace(s, '\\', '/'), '/', '\\');
    }
}

/// Unifying separators leaves no backslash behind.
proof fn lemma_replace_avoid(s: Seq<char>)
    ensures
        !spec_replace(s, '\\', '/').contains('\\'),
{
    let r = spec_replace(s, '\\', '/');
    if r.contains('\\') {
        let w = choose|w: int| 0 <= w < r.len() && r[w] == '\\';
        assert(r[w] != '\\');
    }
}

/// Parsed path information.
#[derive(Debug, Clone, PartialEq, Eq)]
pub struct ParsedPath {
    /// Original path string
    pub original: String,
    /// Path components
    pub components: Vec<String>,
    /// Whether path is absolute
    pub is_absolute: bool,
    /// Whether path has drive letter
    pub has_drive: bool,
    /// Drive letter (if present)
    pub drive_letter: Option<char>,
    /// Whether path is UNC
    pub is_unc: bool,
    /// UNC server name
    pub server: Option<String>,
    /// UNC share name
    pub share: Option<String>,
}

impl View for ParsedPath {
    type V = PathModel;

    open spec fn view(&self) -> PathModel {
        PathModel {
            original: self.original@,
            components: self.components.deep_view(),
            is_absolute: self.is_absolute,
            has_drive: self.has_drive,
            drive_letter: self.drive_letter,
            is_unc: self.is_unc,
            server: self.server.deep_view(),
            share: self.share.deep_view(),
        }
    }
}

/// Whether the characters form a UNC path.
pub(crate) fn is_unc_chars(chars: &Vec<char>) -> (r: bool)
    ensures
        r == spec_is_unc(chars@),
{
    if chars.len() < 5 || chars[0] != '\\' || chars[1] != '\\' || chars[2] == '\\' {
        return false;
    }
    let mut k: usize = 3;
    while k < chars.len() && chars[k] != '\\'
        invariant
            3 <= k <= chars@.len(),
            forall|j: int| 2 <= j < k ==> chars@[j] != '\\',
        decreases chars@.len() - k,
    {
        k = k + 1;
    }
    if k == chars.len() {
        proof {
            assert forall|k2: int|
                !(3 <= k2 && k2 + 1 < chars@.len() && (#[trigger] chars@[k2]) == '\\' && chars@[k2
                    + 1] != '\\' && (forall|j: int| 2 <= j < k2 ==> chars@[j] != '\\')) by {
                if 3 <= k2 < chars@.len() {
                    assert(chars@[k2] != '\\');
                }
            }
        }
        return false;
    }
    if k + 1 < chars.len() && chars[k + 1] != '\\' {
        proof {
            let kk = k as int;
            assert(3 <= kk && kk + 1 < chars@.len() && chars@[kk] == '\\' && chars@[kk + 1] != '\\'
                && (forall|j: int| 2 <= j < kk ==> chars@[j] != '\\'));
        }
        return true;
    }
    proof {
        assert forall|k2: int|
            !(3 <= k2 && k2 + 1 < chars@.len() && (#[trigger] chars@[k2]) == '\\' && chars@[k2 + 1]
                != '\\' && (forall|j: int| 2 <= j < k2 ==> chars@[j] != '\\')) by {
            if 3 <= k2 && k2 + 1 < chars@.len() && chars@[k2] == '\\' && chars@[k2 + 1] != '\\' && (
            forall|j: int| 2 <= j < k2 ==> chars@[j] != '\\') {
                if k2 < k {
                    assert(chars@[k2] != '\\');
                } else if k2 > k {
                    assert(chars@[k as int] != '\\');
                } else {
                    assert(chars@[k2 + 1] == chars@[k + 1]);
                }
            }
        }
    }
    false
}

/// Turn a list of character vectors into a list of strings with the same
/// contents.
pub(crate) fn vecs_to_strings(v: &Vec<Vec<char>>) -> (r: Vec<String>)
    ensures
        r.deep_view() == v.deep_view(),
{
    let mut r: Vec<String> = Vec::new();
    let mut i: usize = 0;
    while i < v.len()
        invariant
            i <= v@.len(),
            r.deep_view() == v.deep_view().subrange(0, i as int),
        decreases v@.len() - i,
    {
        let ghost rdv = r.deep_view();
        r.push(chars_to_string(&v[i]));
        i = i + 1;
        proof {
            assert(v@[i - 1].deep_view() =~= v@[i - 1]@);
            assert(r.deep_view() =~~= rdv.push(v@[i - 1]@));
            assert(r.deep_view() =~~= v.deep_view().subrange(0, i as int));
        }
    }
    proof {
        assert(v.deep_view().subrange(0, v@.len() as int) =~~= v.deep_view());
    }
    r
}

/// Path parser for analyzing path structure.
#[derive(Debug, Clone)]
pub struct PathParser;

impl PathParser {
    /// Create a new path parser.
    pub fn new() -> (r: Self)
        ensures
            r == PathParser,
    {
        PathParser
    }

    /// Parse a path string into structured components; every string parses.
    pub fn parse(path: &str) -> (r: PathResult<ParsedPath>)
        ensures
            r matches Ok(p) && p@ == spec_parse(path@),
    {
        let chars = str_to_chars(path);
        let original = chars_to_string(&chars);
        if is_unc_chars(&chars) {
            let parts = split_parts_chars(&chars, '\\');
            let (server, share) = if parts.len() >= 2 {
                let srv = chars_to_string(&parts[0]);
                let shr = chars_to_string(&parts[1]);
                proof {
                    assert(parts@[0]@ == parts.deep_view()[0]);
                    assert(parts@[1]@ == parts.deep_view()[1]);
                }
                (Some(srv), Some(shr))
            } else {
                (None, None)
            };
            let p = ParsedPath {
                original,
                components: Vec::new(),
                is_absolute: true,
                has_drive: false,
                drive_letter: None,
                is_unc: true,
                server,
                share,
            };
            proof {
                assert(p.components.deep_view() =~~= Seq::<Seq<char>>::empty());
                assert(p@ =~~= spec_parse(path@));
            }
            return Ok(p);
        }
        let win_abs = chars.len() >= 3 && is_alpha(chars[0]) && chars[1] == ':' && (chars[2] == '/'
            || chars[2] == '\\');
        if win_abs {
            let unified = replace_chars(&chars, '\\', '/');
            let parts = split_parts_chars(&unified, '/');
            let p = ParsedPath {
                original,
                components: vecs_to_strings(&parts),
                is_absolute: true,
                has_drive: true,
                drive_letter: Some(to_upper_char(chars[0])),
                is_unc: false,
                server: None,
                share: None,
            };
            proof {
                assert(p@ =~~= spec_parse(path@));
            }
            return Ok(p);
        }
        if chars.len() >= 1 && chars[0] == '/' {
            let parts = split_parts_chars(&chars, '/');
            let p = ParsedPath {
                original,
                components: vecs_to_strings(&parts),
                is_absolute: true,
                has_drive: false,
                drive_letter: None,
                is_unc: false,
                server: None,
                share: None,
            };
            proof {
                assert(p@ =~~= spec_parse(path@));
            }
            return Ok(p);
        }
        let unified = replace_chars(&chars, '\\', '/');
        let parts = split_parts_chars(&unified, '/');
        let p = ParsedPath {
            original,
            components: vecs_to_strings(&parts),
            is_absolute: false,
            has_drive: false,
            drive_letter: None,
            is_unc: false,
            server: None,
            share: None,
        };
        proof {
            assert(p@ =~~= spec_parse(path@));
        }
        Ok(p)
    }

    /// Detect the style of a path string; when the string gives no clue, the
    /// host platform style decides.
    pub fn detect_style(path: &str) -> (r: PathStyle)
        ensures
            r == spec_detect_style(path@, PathStyle::Windows) || r == spec_detect_style(
                path@,
                PathStyle::Unix,
            ),
            r == PathStyle::Windows || r == PathStyle::Unix,
    {
        let chars = str_to_chars(path);
        if is_unc_chars(&chars) {
            return PathStyle::Windows;
        }
        if chars.len() >= 3 && is_alpha(chars[0]) && chars[1] == ':' && (chars[2] == '/'
            || chars[2] == '\\') {
            return PathStyle::Windows;
        }
        if chars.len() >= 1 && chars[0] == '/' {
            return PathStyle::Unix;
        }
        let has_bs = contains_char(&chars, '\\');
        let has_fs = contains_char(&chars, '/');
        if has_bs && !has_fs {
            return PathStyle::Windows;
        }
        if has_fs && !has_bs {
            return PathStyle::Unix;
        }
        current_style()
    }

    /// Normalize a path string by dropping `.` segments, resolving `..`
    /// segments, and collapsing separators; never fails.
    pub fn normalize_path(path: &str) -> (r: PathResult<String>)
        ensures
            r matches Ok(out) && out@ == spec_normalize(path@),
    {
        let chars = str_to_chars(path);
        let out = normalize_chars(&chars);
        Ok(chars_to_string(&out))
    }
}

/// The style of a path string: UNC and drive-letter shapes are Windows, a
/// leading slash is Unix, then the separators decide, and the host style
/// is the final fallback.
pub open spec fn spec_detect_style(s: Seq<char>, host: PathStyle) -> PathStyle {
    if spec_is_unc(s) || spec_is_win_abs(s) {
        PathStyle::Windows
    } else if spec_is_unix_abs(s) {
        PathStyle::Unix
    } else if s.contains('\\') && !s.contains('/') {
        PathStyle::Windows
    } else if s.contains('/') && !s.contains('\\') {
        PathStyle::Unix
    } else {
        host
    }
}

/// Law: style detection is total. For every input, and either concrete host
/// style, the detected style is `Windows` or `Unix`, never `Auto`.
pub proof fn lemma_detect_style_total(s: Seq<char>, host: PathStyle)
    requires
        host == PathStyle::Windows || host == PathStyle::Unix,
    ensures
        spec_detect_style(s, host) == PathStyle::Windows || spec_detect_style(s, host)
            == PathStyle::Unix,
{
}

/// The one-character `.` segment.
pub open spec fn dot_seg() -> Seq<char> {
    seq!['.']
}

/// The two-character `..` segment.
pub open spec fn dotdot_seg() -> Seq<char> {
    seq!['.', '.']
}

/// The normalized component stack: `.` segments are dropped, `..` pops the
/// previous ordinary segment and is kept verbatim when there is nothing to
/// pop, and ordinary segments are kept.
pub open spec fn norm_stack(segs: Seq<Seq<char>>) -> Seq<Seq<char>>
    decreases segs.len(),
{
    if segs.len() == 0 {
        Seq::<Seq<char>>::empty()
    } else {
        let st = norm_stack(segs.drop_last());
        let sg = segs.last();
        if sg == dot_seg() {
            st
        } else if sg == dotdot_seg() {
            if st.len() == 0 || st.last() == dotdot_seg() {
                st.push(sg)
            } else {
                st.drop_last()
            }
        } else {
            st.push(sg)
        }
    }
}

/// The `.`/`..`-resolved form of a path string: its non-empty `/`-separated
/// segments are normalized and rejoined, with a leading `/` kept.
pub open spec fn spec_normalize(p: Seq<char>) -> Seq<char> {
    let abs = p.len() > 0 && p[0] == '/';
    let st = norm_stack(split_parts(p, '/'));
    if abs {
        seq!['/'] + join_parts(st, '/')
    } else {
        join_parts(st, '/')
    }
}

/// A component stack is normal when it has no `.` segment and its `..`
/// segments form a leading run.
pub open spec fn is_normal_stack(st: Seq<Seq<char>>) -> bool {
    forall|i: int|
        0 <= i < st.len() ==> (#[trigger] st[i]) != dot_seg() && (st[i] == dotdot_seg() ==> (i == 0
            || st[i - 1] == dotdot_seg()))
}

/// Normalization yields a normal stack of non-empty, slash-free segments.
pub proof fn lemma_norm_stack_wf(segs: Seq<Seq<char>>)
    requires
        forall|i: int|
            0 <= i < segs.len() ==> (#[trigger] segs[i]).len() > 0 && !segs[i].contains('/'),
    ensures
        is_normal_stack(norm_stack(segs)),
        forall|i: int|
            0 <= i < norm_stack(segs).len() ==> (#[trigger] norm_stack(segs)[i]).len() > 0
                && !norm_stack(segs)[i].contains('/'),
    decreases segs.len(),
{
    if segs.len() > 0 {
        assert(forall|i: int|
            0 <= i < segs.drop_last().len() ==> (#[trigger] segs.drop_last()[i]).len() > 0
                && !segs.drop_last()[i].contains('/'));
        lemma_norm_stack_wf(segs.drop_last());
        let st = norm_stack(segs.drop_last());
        let sg = segs.last();
        assert(segs[segs.len() - 1] == sg);
        assert(sg.len() > 0 && !sg.contains('/'));
        assert(!dotdot_seg().contains('/')) by {
            if dotdot_seg().contains('/') {
                let w = choose|w: int| 0 <= w < 2 && dotdot_seg()[w] == '/';
                assert(dotdot_seg()[w] == '.');
            }
        }
        if sg == dot_seg() {
        } else if sg == dotdot_seg() {
            if st.len() == 0 || st.last() == dotdot_seg() {
                let post = st.push(sg);
                assert forall|i: int| 0 <= i < post.len() implies (#[trigger] post[i]) != dot_seg()
                    && (post[i] == dotdot_seg() ==> (i == 0 || post[i - 1] == dotdot_seg())) by {
                    if i < st.len() {
                        assert(post[i] == st[i]);
                        if 0 < i {
                            assert(post[i - 1] == st[i - 1]);
                        }
                    } else {
                        assert(post[i] == sg);
                        if i > 0 {
                            assert(post[i - 1] == st.last());
                        }
                    }
                }
            } else {
                assert(forall|i: int|
                    0 <= i < st.drop_last().len() ==> #[trigger] st.drop_last()[i] == st[i]);
            }
        } else {
            let post = st.push(sg);
            assert forall|i: int| 0 <= i < post.len() implies (#[trigger] post[i]) != dot_seg() && (
            post[i] == dotdot_seg() ==> (i == 0 || post[i - 1] == dotdot_seg())) by {
                if i < st.len() {
                    assert(post[i] == st[i]);
                    if 0 < i {
                        assert(post[i - 1] == st[i - 1]);
                    }
                } else {
                    assert(post[i] == sg);
                    assert(sg != dot_seg() && sg != dotdot_seg());
                }
            }
        }
    }
}

/// A normal stack is a fixed point of normalization.
pub proof fn lemma_norm_stack_fixpoint(st: Seq<Seq<char>>)
    requires
        is_normal_stack(st),
    ensures
        norm_stack(st) == st,
    decreases st.len(),
{
    if st.len() == 0 {
        assert(norm_stack(st) =~~= st);
    } else {
        assert(forall|i: int| 0 <= i < st.drop_last().len() ==> #[trigger] st.drop_last()[i]
            == st[i]);
        lemma_norm_stack_fixpoint(st.drop_last());
        let sg = st.last();
        assert(st[st.len() - 1] == sg);
        assert(sg != dot_seg());
        if sg == dotdot_seg() {
            if st.len() == 1 {
                assert(norm_stack(st) =~~= st);
            } else {
                assert(st[st.len() - 2] == dotdot_seg());
                assert(st.drop_last().last() == dotdot_seg());
                assert(norm_stack(st) =~~= st);
            }
        } else {
            assert(norm_stack(st) =~~= st);
        }
    }
}

/// Law: normalization is idempotent. Normalizing an already-normalized path
/// string changes nothing, for every path string.
pub proof fn lemma_normalize_idempotent(p: Seq<char>)
    ensures
        spec_normalize(spec_normalize(p)) == spec_normalize(p),
{
    let abs = p.len() > 0 && p[0] == '/';
    let segs = split_parts(p, '/');
    lemma_split_parts_elems(p, '/');
    lemma_norm_stack_wf(segs);
    let st = norm_stack(segs);
    let q = spec_normalize(p);
    let joined = join_parts(st, '/');
    lemma_join_split_inverse(st, '/');
    lemma_norm_stack_fixpoint(st);
    if abs {
        assert(q == seq!['/'] + joined);
        assert(q.len() > 0 && q[0] == '/');
        lemma_split_prepend_sep(joined, '/');
        assert(split_full(q, '/') == seq![Seq::<char>::empty()] + split_full(joined, '/'));
        lemma_keep_prepend_empty(split_full(joined, '/'));
        assert(split_parts(q, '/') == split_parts(joined, '/'));
        assert(split_parts(q, '/') == st);
        assert(spec_normalize(q) == seq!['/'] + join_parts(norm_stack(st), '/'));
        assert(spec_normalize(q) == q);
    } else {
        assert(q == joined);
        if st.len() == 0 {
            assert(q.len() == 0);
            assert(split_parts(q, '/') == st);
            assert(spec_normalize(q) == q);
        } else {
            lemma_join_first(st, '/');
            assert(q.len() > 0);
            assert(q[0] == st[0][0]);
            assert(!st[0].contains('/'));
            assert(q[0] != '/') by {
                if st[0][0] == '/' {
                    assert(st[0].contains('/'));
                }
            }
            assert(split_parts(q, '/') == st);
            assert(spec_normalize(q) == q);
        }
    }
}

/// Normalize the characters of a path.
pub(crate) fn normalize_chars(chars: &Vec<char>) -> (r: Vec<char>)
    ensures
        r@ == spec_normalize(chars@),
{
    let abs = chars.len() > 0 && chars[0] == '/';
    let segs = split_parts_chars(chars, '/');
    let mut stack: Vec<Vec<char>> = Vec::new();
    let mut i: usize = 0;
    proof {
        assert(stack.deep_view() =~~= norm_stack(segs.deep_view().subrange(0, 0)));
    }
    while i < segs.len()
        invariant
            i <= segs@.len(),
            stack.deep_view() == norm_stack(segs.deep_view().subrange(0, i as int)),
        decreases segs@.len() - i,
    {
        let ghost pre = norm_stack(segs.deep_view().subrange(0, i as int));
        let ghost sdv = stack.deep_view();
        let sg = &segs[i];
        let is_dot = sg.len() == 1 && sg[0] == '.';
        let is_dd = sg.len() == 2 && sg[0] == '.' && sg[1] == '.';
        proof {
            assert(segs@[i as int].deep_view() =~= segs@[i as int]@);
            if is_dot {
                assert(segs.deep_view()[i as int] =~= dot_seg());
            } else {
                assert(segs.deep_view()[i as int] != dot_seg());
            }
            if is_dd {
                assert(segs.deep_view()[i as int] =~= dotdot_seg());
            } else {
                assert(segs.deep_view()[i as int] != dotdot_seg());
            }
        }
        if is_dot {
            // current-directory segments are dropped
        } else if is_dd {
            let top_is_dd = if stack.len() == 0 {
                false
            } else {
                let top = &stack[stack.len() - 1];
                top.len() == 2 && top[0] == '.' && top[1] == '.'
            };
            proof {
                if stack.len() > 0 {
                    assert(stack@[stack@.len() - 1].deep_view() =~= stack@[stack@.len() - 1]@);
                    if top_is_dd {
                        assert(sdv.last() =~= dotdot_seg());
                    } else {
                        assert(sdv.last() != dotdot_seg());
                    }
                }
            }
            if stack.len() == 0 || top_is_dd {
                let seg = segs[i].clone();
                proof {
                    broadcast use vstd::std_specs::vec::group_vec_axioms;

                    assert(seg@ == segs@[i as int]@);
                }
                stack.push(seg);
                proof {
                    assert(stack.deep_view() =~~= sdv.push(dotdot_seg()));
                }
            } else {
                stack.pop();
                proof {
                    assert(stack.deep_view() =~~= sdv.drop_last());
                }
            }
        } else {
            let seg = segs[i].clone();
            proof {
                broadcast use vstd::std_specs::vec::group_vec_axioms;

                assert(seg@ == segs@[i as int]@);
            }
            stack.push(seg);
            proof {
                assert(stack.deep_view() =~~= sdv.push(segs.deep_view()[i as int]));
            }
        }
        i = i + 1;
        proof {
            assert(segs.deep_view().subrange(0, i as int).drop_last() =~~= segs.deep_view()
                .subrange(0, i - 1));
            assert(segs.deep_view().subrange(0, i as int).last() == segs.deep_view()[i - 1]);
            assert(stack.deep_view() =~~= norm_stack(segs.deep_view().subrange(0, i as int)));
        }
    }
    proof {
        assert(segs.deep_view().subrange(0, segs@.len() as int) =~~= segs.deep_view());
    }
    let joined = join_chars(&stack, '/');
    let mut out: Vec<char> = Vec::new();
    if abs {
        out.push('/');
    }
    let ghost base = out@;
    let mut j: usize = 0;
    while j < joined.len()
        invariant
            j <= joined@.len(),
            out@ == base + joined@.subrange(0, j as int),
        decreases joined@.len() - j,
    {
        out.push(joined[j]);
        j = j + 1;
        proof {
            assert(out@ =~= base + joined@.subrange(0, j as int));
        }
    }
    proof {
        assert(joined@.subrange(0, joined@.len() as int) =~= joined@);
        if abs {
            assert(out@ =~= seq!['/'] + joined@);
        } else {
            assert(out@ =~= joined@);
        }
    }
    out
}

} // verus!
