//! Re-serialization of a structured `ParsedPath` into a target-style path
//! string, used when a caller has already parsed once and wants several
//! target styles without reparsing.
use vstd::prelude::*;

use crate::converter::{find_by_key, lookup_by_key};
use crate::parser::{ParsedPath, PathModel};
use crate::platform::current_style;
use crate::text::{
    append_chars, append_lit, chars_to_string, collapse_chars, join_chars, join_parts, lower_char,
    replace_chars, spec_collapse, spec_replace, str_to_chars, to_lower_char,
};
use crate::{clone_config, ConfigModel, PathConfig, PathResult, PathStyle};

verus! {

broadcast use vstd::string::group_string_axioms;

/// Each segment preceded by one separator, concatenated.
pub open spec fn sep_concat(comps: Seq<Seq<char>>, sep: char) -> Seq<char>
    decreases comps.len(),
{
    if comps.len() == 0 {
        Seq::<char>::empty()
    } else {
        sep_concat(comps.drop_last(), sep) + seq![sep] + comps.last()
    }
}

/// The text of an optional name, empty when absent.
pub open spec fn opt_text(o: Option<Seq<char>>) -> Seq<char> {
    match o {
        Some(s) => s,
        None => Seq::<char>::empty(),
    }
}

/// The formatter's Windows normalization: unify separators to `\`,
/// collapse runs unless the string starts with `\\`, and drop one trailing
/// `\` from non-UNC strings longer than three characters.
pub open spec fn fmt_norm_windows(s: Seq<char>) -> Seq<char> {
    let u = spec_replace(s, '/', '\\');
    let unc = u.len() >= 2 && u[0] == '\\' && u[1] == '\\';
    let d = if unc {
        u
    } else {
        spec_collapse(u, '\\')
    };
    if !unc && d.len() > 3 && d.last() == '\\' {
        d.drop_last()
    } else {
        d
    }
}

/// The formatter's Unix normalization: unify separators to `/`, collapse
/// runs unless the string starts with `//`, and drop one trailing `/` from
/// non-UNC strings other than the root.
pub open spec fn fmt_norm_unix(s: Seq<char>) -> Seq<char> {
    let u = spec_replace(s, '\\', '/');
    let unc = u.len() >= 2 && u[0] == '/' && u[1] == '/';
    let d = if unc {
        u
    } else {
        spec_collapse(u, '/')
    };
    if !unc && d.len() > 0 && d.last() == '/' && d != seq!['/'] {
        d.drop_last()
    } else {
        d
    }
}

/// The Unix mount text for a drive letter: the first mapping whose Windows
/// key is the lower-cased `<letter>:`, or `/mnt/<letter>` on a miss.
pub open spec fn drive_mount(maps: Seq<(Seq<char>, Seq<char>)>, d: char) -> Seq<char> {
    match find_by_key(maps, seq![lower_char(d), ':']) {
        Some(mount) => mount,
        None => "/mnt/"@ + seq![lower_char(d)],
    }
}

/// The Unix body: each segment appended after a `/` unless the text so far
/// is empty or already ends with `/`.
pub open spec fn unix_body(base: Seq<char>, comps: Seq<Seq<char>>) -> Seq<char>
    decreases comps.len(),
{
    if comps.len() == 0 {
        base
    } else {
        let r = unix_body(base, comps.drop_last());
        if r.len() > 0 && r.last() != '/' {
            r + seq!['/'] + comps.last()
        } else {
            r + comps.last()
        }
    }
}

/// The Windows-style serialization of a parsed path: UNC paths as
/// `\\server\share\...` (never normalized further), other paths as drive
/// prefix, separator and `\`-joined segments, normalized when configured.
pub open spec fn spec_format_windows(p: PathModel, cfg: ConfigModel) -> Seq<char> {
    if p.is_unc {
        seq!['\\', '\\'] + opt_text(p.server) + seq!['\\'] + opt_text(p.share) + sep_concat(
            p.components,
            '\\',
        )
    } else {
        let drive = match p.drive_letter {
            Some(d) => seq![d, ':'],
            None => if p.is_absolute {
                "C:"@
            } else {
                Seq::<char>::empty()
            },
        };
        let base = drive + if p.is_absolute {
            seq!['\\']
        } else {
            Seq::<char>::empty()
        };
        let body = base + join_parts(p.components, '\\');
        if cfg.normalize {
            fmt_norm_windows(body)
        } else {
            body
        }
    }
}

/// The Unix-style serialization of a parsed path: UNC paths as
/// `//server/share/...` (never normalized further), drive paths through
/// the drive mapping, absolute driveless paths from `/`, and relative
/// paths as joined segments, normalized when configured.
pub open spec fn spec_format_unix(p: PathModel, cfg: ConfigModel) -> Seq<char> {
    if p.is_unc {
        seq!['/', '/'] + opt_text(p.server) + seq!['/'] + opt_text(p.share) + sep_concat(
            p.components,
            '/',
        )
    } else {
        let base = if p.is_absolute {
            if p.has_drive {
                match p.drive_letter {
                    Some(d) => drive_mount(cfg.drive_mappings, d),
                    None => Seq::<char>::empty(),
                }
            } else {
                seq!['/']
            }
        } else {
            Seq::<char>::empty()
        };
        let body = unix_body(base, p.components);
        if cfg.normalize {
            fmt_norm_unix(body)
        } else {
            body
        }
    }
}

/// Append each component preceded by one separator.
fn push_sep_concat(out: &mut Vec<char>, comps: &Vec<String>, sep: char)
    ensures
        final(out)@ == old(out)@ + sep_concat(comps.deep_view(), sep),
{
    let ghost base = out@;
    let mut i: usize = 0;
    while i < comps.len()
        invariant
            i <= comps@.len(),
            out@ == base + sep_concat(comps.deep_view().subrange(0, i as int), sep),
        decreases comps@.len() - i,
    {
        out.push(sep);
        let seg = str_to_chars(comps[i].as_str());
        append_chars(out, &seg);
        i = i + 1;
        proof {
            let dv = comps.deep_view();
            assert(dv.subrange(0, i as int).drop_last() =~~= dv.subrange(0, i - 1));
            assert(dv.subrange(0, i as int).last() == dv[i - 1]);
            assert(dv[i - 1] == comps@[i - 1]@);
            assert(out@ =~= base + sep_concat(dv.subrange(0, i as int), sep));
        }
    }
    proof {
        assert(comps.deep_view().subrange(0, comps@.len() as int) =~~= comps.deep_view());
    }
}

/// Apply the formatter's Windows normalization.
fn fmt_norm_windows_chars(s: &Vec<char>) -> (r: Vec<char>)
    ensures
        r@ == fmt_norm_windows(s@),
{
    let u = replace_chars(s, '/', '\\');
    let unc = u.len() >= 2 && u[0] == '\\' && u[1] == '\\';
    let d = if unc {
        u
    } else {
        collapse_chars(&u, '\\')
    };
    if !unc && d.len() > 3 && d[d.len() - 1] == '\\' {
        let mut d2 = d;
        d2.pop();
        proof {
            assert(d2@ =~= fmt_norm_windows(s@));
        }
        d2
    } else {
        d
    }
}

/// Apply the formatter's Unix normalization.
fn fmt_norm_unix_chars(s: &Vec<char>) -> (r: Vec<char>)
    ensures
        r@ == fmt_norm_unix(s@),
{
    let u = replace_chars(s, '\\', '/');
    let unc = u.len() >= 2 && u[0] == '/' && u[1] == '/';
    let d = if unc {
        u
    } else {
        collapse_chars(&u, '/')
    };
    let is_root = d.len() == 1 && d[0] == '/';
    proof {
        if is_root {
            assert(d@ =~= seq!['/']);
        } else {
            assert(d@ != seq!['/']);
        }
    }
    if !unc && d.len() > 0 && d[d.len() - 1] == '/' && !is_root {
        let mut d2 = d;
        d2.pop();
        proof {
            assert(d2@ =~= fmt_norm_unix(s@));
        }
        d2
    } else {
        d
    }
}

/// Path formatter for generating styled path strings from a parsed path.
#[derive(Debug, Clone)]
pub struct PathFormatter {
    config: PathConfig,
}

impl View for PathFormatter {
    type V = ConfigModel;

    closed spec fn view(&self) -> ConfigModel {
        self.config@
    }
}

impl PathFormatter {
    /// Create a new path formatter with a copy of the configuration.
    pub fn new(config: &PathConfig) -> (r: Self)
        ensures
            r@ == config@,
    {
        PathFormatter { config: clone_config(config) }
    }

    /// Format a parsed path in the given style; `Auto` resolves to the
    /// host platform style. Formatting never fails.
    pub fn format(&self, parsed: &ParsedPath, target_style: PathStyle) -> (r: PathResult<String>)
        ensures
            target_style == PathStyle::Windows ==> (r matches Ok(s) && s@ == spec_format_windows(
                parsed@,
                self@,
            )),
            target_style == PathStyle::Unix ==> (r matches Ok(s) && s@ == spec_format_unix(
                parsed@,
                self@,
            )),
            target_style == PathStyle::Auto ==> (r matches Ok(s) && (s@ == spec_format_windows(
                parsed@,
                self@,
            ) || s@ == spec_format_unix(parsed@, self@))),
    {
        match target_style {
            PathStyle::Windows => Ok(self.format_windows(parsed)),
            PathStyle::Unix => Ok(self.format_unix(parsed)),
            PathStyle::Auto => {
                let style = current_style();
                if style == PathStyle::Windows {
                    Ok(self.format_windows(parsed))
                } else {
                    Ok(self.format_unix(parsed))
                }
            },
        }
    }

    /// Format as a Windows path.
    fn format_windows(&self, parsed: &ParsedPath) -> (r: String)
        ensures
            r@ == spec_format_windows(parsed@, self@),
    {
        if parsed.is_unc {
            let mut out: Vec<char> = Vec::new();
            out.push('\\');
            out.push('\\');
            match &parsed.server {
                Some(server) => {
                    let sv = str_to_chars(server.as_str());
                    append_chars(&mut out, &sv);
                },
                None => {},
            }
            out.push('\\');
            match &parsed.share {
                Some(share) => {
                    let sh = str_to_chars(share.as_str());
                    append_chars(&mut out, &sh);
                },
                None => {},
            }
            push_sep_concat(&mut out, &parsed.components, '\\');
            proof {
                assert(out@ =~= spec_format_windows(parsed@, self@));
            }
            return chars_to_string(&out);
        }
        let mut out: Vec<char> = Vec::new();
        match parsed.drive_letter {
            Some(d) => {
                out.push(d);
                out.push(':');
            },
            None => {
                if parsed.is_absolute {
                    append_lit(&mut out, "C:");
                }
            },
        }
        if parsed.is_absolute {
            out.push('\\');
        }
        let comps = strings_to_vecs(&parsed.components);
        let joined = join_chars(&comps, '\\');
        append_chars(&mut out, &joined);
        proof {
            let p = parsed@;
            let drive = match p.drive_letter {
                Some(d) => seq![d, ':'],
                None => if p.is_absolute {
                    "C:"@
                } else {
                    Seq::<char>::empty()
                },
            };
            let base = drive + if p.is_absolute {
                seq!['\\']
            } else {
                Seq::<char>::empty()
            };
            assert(out@ =~= base + join_parts(p.components, '\\'));
        }
        let body = if self.config.normalize {
            fmt_norm_windows_chars(&out)
        } else {
            out
        };
        chars_to_string(&body)
    }

    /// Format as a Unix path.
    fn format_unix(&self, parsed: &ParsedPath) -> (r: String)
        ensures
            r@ == spec_format_unix(parsed@, self@),
    {
        if parsed.is_unc {
            let mut out: Vec<char> = Vec::new();
            out.push('/');
            out.push('/');
            match &parsed.server {
                Some(server) => {
                    let sv = str_to_chars(server.as_str());
                    append_chars(&mut out, &sv);
                },
                None => {},
            }
            out.push('/');
            match &parsed.share {
                Some(share) => {
                    let sh = str_to_chars(share.as_str());
                    append_chars(&mut out, &sh);
                },
                None => {},
            }
            push_sep_concat(&mut out, &parsed.components, '/');
            proof {
                assert(out@ =~= spec_format_unix(parsed@, self@));
            }
            return chars_to_string(&out);
        }
        let mut out: Vec<char> = Vec::new();
        if parsed.is_absolute {
            if parsed.has_drive {
                match parsed.drive_letter {
                    Some(d) => {
                        let lower = to_lower_char(d);
                        let mut key: Vec<char> = Vec::new();
                        key.push(lower);
                        key.push(':');
                        proof {
                            assert(key@ =~= seq![lower_char(d), ':']);
                        }
                        match lookup_by_key(&self.config.drive_mappings, &key) {
                            Some(mount) => {
                                let mv = str_to_chars(mount.as_str());
                                append_chars(&mut out, &mv);
                            },
                            None => {
                                append_lit(&mut out, "/mnt/");
                                out.push(lower);
                                proof {
                                    assert(out@ =~= "/mnt/"@ + seq![lower_char(d)]);
                                }
                            },
                        }
                    },
                    None => {},
                }
            } else {
                out.push('/');
            }
        }
        proof {
            let p = parsed@;
            let base = if p.is_absolute {
                if p.has_drive {
                    match p.drive_letter {
                        Some(d) => drive_mount(self@.drive_mappings, d),
                        None => Seq::<char>::empty(),
                    }
                } else {
                    seq!['/']
                }
            } else {
                Seq::<char>::empty()
            };
            assert(out@ =~= base);
        }
        let ghost base = out@;
        let mut i: usize = 0;
        while i < parsed.components.len()
            invariant
                i <= parsed.components@.len(),
                out@ == unix_body(base, parsed.components.deep_view().subrange(0, i as int)),
            decreases parsed.components@.len() - i,
        {
            if out.len() > 0 && out[out.len() - 1] != '/' {
                out.push('/');
            }
            let seg = str_to_chars(parsed.components[i].as_str());
            append_chars(&mut out, &seg);
            i = i + 1;
            proof {
                let dv = parsed.components.deep_view();
                assert(dv.subrange(0, i as int).drop_last() =~~= dv.subrange(0, i - 1));
                assert(dv.subrange(0, i as int).last() == dv[i - 1]);
                assert(dv[i - 1] == parsed.components@[i - 1]@);
                assert(out@ =~= unix_body(base, dv.subrange(0, i as int)));
            }
        }
        proof {
            assert(parsed.components.deep_view().subrange(0, parsed.components@.len() as int)
                =~~= parsed.components.deep_view());
        }
        let body = if self.config.normalize {
            fmt_norm_unix_chars(&out)
        } else {
            out
        };
        chars_to_string(&body)
    }
}

/// Turn a list of strings into a list of character vectors with the same
/// contents.
fn strings_to_vecs(v: &Vec<String>) -> (r: Vec<Vec<char>>)
    ensures
        r.deep_view() == v.deep_view(),
{
    let mut r: Vec<Vec<char>> = Vec::new();
    let mut i: usize = 0;
    while i < v.len()
        invariant
            i <= v@.len(),
            r.deep_view() == v.deep_view().subrange(0, i as int),
        decreases v@.len() - i,
    {
        let ghost rdv = r.deep_view();
        r.push(str_to_chars(v[i].as_str()));
        i = i + 1;
        proof {
            assert(r.deep_view() =~~= rdv.push(v@[i - 1]@));
            assert(r.deep_view() =~~= v.deep_view().subrange(0, i as int));
        }
    }
    proof {
        assert(v.deep_view().subrange(0, v@.len() as int) =~~= v.deep_view());
    }
    r
}

} // verus!
