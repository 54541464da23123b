//! Cross-platform path handling: conversion between Windows and Unix path
//! text, style detection, normalization, security validation, and text
//! encoding normalization for path strings.
use vstd::prelude::*;

pub mod converter;
pub mod error;
pub mod formatter;
pub mod parser;
pub mod platform;
pub mod security;
pub mod text;
pub mod unicode;

pub use converter::PathConverter;
pub use error::PathError;
pub use formatter::PathFormatter;
pub use parser::{ParsedPath, PathParser};
pub use security::PathSecurityChecker;

verus! {

/// Cross-platform path result type.
pub type PathResult<T> = Result<T, error::PathError>;

/// Path style of a path string.
#[derive(Debug, Clone, Copy, PartialEq, Eq, Structural)]
pub enum PathStyle {
    /// Windows path style (`C:\Users\name`)
    Windows,
    /// Unix/Linux path style (`/home/name`)
    Unix,
    /// Auto-detect based on current platform
    Auto,
}

/// True for ASCII letters.
pub open spec fn spec_is_alpha(c: char) -> bool {
    ('a' <= c && c <= 'z') || ('A' <= c && c <= 'Z')
}

/// Whether a character is an ASCII letter.
pub fn is_alpha(c: char) -> (r: bool)
    ensures
        r == spec_is_alpha(c),
{
    ('a' <= c && c <= 'z') || ('A' <= c && c <= 'Z')
}

/// Mathematical model of a conversion configuration.
#[verifier::ext_equal]
pub ghost struct ConfigModel {
    /// Target path style.
    pub style: PathStyle,
    /// Whether to preserve original encoding.
    pub preserve_encoding: bool,
    /// Whether to perform security checks.
    pub security_check: bool,
    /// The ordered drive mappings, Windows key first.
    pub drive_mappings: Seq<(Seq<char>, Seq<char>)>,
    /// Whether to normalize formatted paths.
    pub normalize: bool,
}

/// Path conversion configuration.
#[derive(Debug, Clone, PartialEq, Eq)]
pub struct PathConfig {
    /// Target path style
    pub style: PathStyle,
    /// Whether to preserve original encoding
    pub preserve_encoding: bool,
    /// Whether to perform security checks
    pub security_check: bool,
    /// Windows drive letter mappings (e.g., `C:` -> `/mnt/c`), in lookup order
    pub drive_mappings: Vec<(String, String)>,
    /// Whether to normalize paths (remove redundant components)
    pub normalize: bool,
}

impl View for PathConfig {
    type V = ConfigModel;

    open spec fn view(&self) -> ConfigModel {
        ConfigModel {
            style: self.style,
            preserve_encoding: self.preserve_encoding,
            security_check: self.security_check,
            drive_mappings: self.drive_mappings.deep_view(),
            normalize: self.normalize,
        }
    }
}

/// The built-in drive mappings: `C:`, `D:` and `E:` to their `/mnt` mounts.
pub open spec fn spec_default_mappings() -> Seq<(Seq<char>, Seq<char>)> {
    seq![("C:"@, "/mnt/c"@), ("D:"@, "/mnt/d"@), ("E:"@, "/mnt/e"@)]
}

/// The default configuration model: platform-style target, encoding kept,
/// security checks on, the built-in drive mappings, normalization on.
pub open spec fn spec_default_config() -> ConfigModel {
    ConfigModel {
        style: PathStyle::Auto,
        preserve_encoding: true,
        security_check: true,
        drive_mappings: spec_default_mappings(),
        normalize: true,
    }
}

/// Default drive letter mappings.
pub(crate) fn default_drive_mappings() -> (r: Vec<(String, String)>)
    ensures
        r.deep_view() == spec_default_mappings(),
{
    let mut r: Vec<(String, String)> = Vec::new();
    r.push(("C:".to_owned(), "/mnt/c".to_owned()));
    r.push(("D:".to_owned(), "/mnt/d".to_owned()));
    r.push(("E:".to_owned(), "/mnt/e".to_owned()));
    proof {
        assert(r.deep_view() =~~= spec_default_mappings());
    }
    r
}

/// Copy a configuration value for value, so that the copy provably carries
/// the same model.
pub(crate) fn clone_config(c: &PathConfig) -> (r: PathConfig)
    ensures
        r@ == c@,
{
    let mut maps: Vec<(String, String)> = Vec::new();
    let mut i: usize = 0;
    while i < c.drive_mappings.len()
        invariant
            i <= c.drive_mappings@.len(),
            maps.deep_view() == c.drive_mappings.deep_view().subrange(0, i as int),
        decreases c.drive_mappings@.len() - i,
    {
        let ghost mdv = maps.deep_view();
        let w = c.drive_mappings[i].0.clone();
        let u = c.drive_mappings[i].1.clone();
        maps.push((w, u));
        i = i + 1;
        proof {
            assert(maps.deep_view() =~~= mdv.push(c.drive_mappings.deep_view()[i - 1]));
            assert(maps.deep_view() =~~= c.drive_mappings.deep_view().subrange(0, i as int));
        }
    }
    proof {
        assert(c.drive_mappings.deep_view().subrange(0, c.drive_mappings@.len() as int)
            =~~= c.drive_mappings.deep_view());
    }
    let r = PathConfig {
        style: c.style,
        preserve_encoding: c.preserve_encoding,
        security_check: c.security_check,
        drive_mappings: maps,
        normalize: c.normalize,
    };
    proof {
        assert(r@ =~~= c@);
    }
    r
}

impl Default for PathConfig {
    /// The default configuration.
    fn default() -> (r: Self)
        ensures
            r@ == spec_default_config(),
    {
        let r = PathConfig {
            style: PathStyle::Auto,
            preserve_encoding: true,
            security_check: true,
            drive_mappings: default_drive_mappings(),
            normalize: true,
        };
        proof {
            assert(r@ =~~= spec_default_config());
        }
        r
    }
}

/// Mathematical model of a cross-platform path value.
#[verifier::ext_equal]
pub ghost struct CrossPathModel {
    /// The owned path text.
    pub inner: Seq<char>,
    /// The style detected when the value was created.
    pub original_style: PathStyle,
    /// The conversion configuration.
    pub config: ConfigModel,
}

/// Main cross-platform path structure: an owned path string, the style
/// detected at construction, and a conversion configuration.
#[derive(Debug, Clone, PartialEq, Eq)]
pub struct CrossPath {
    inner: String,
    original_style: PathStyle,
    config: PathConfig,
}

impl View for CrossPath {
    type V = CrossPathModel;

    closed spec fn view(&self) -> CrossPathModel {
        CrossPathModel {
            inner: self.inner@,
            original_style: self.original_style,
            config: self.config@,
        }
    }
}

impl CrossPath {
    /// Create a cross-platform path from a string, with the default
    /// configuration; every string is accepted.
    pub fn new(path: &str) -> (r: PathResult<Self>)
        ensures
            r matches Ok(cp) && cp@.inner == path@ && cp@.config == spec_default_config() && (
            cp@.original_style == parser::spec_detect_style(path@, PathStyle::Windows)
                || cp@.original_style == parser::spec_detect_style(path@, PathStyle::Unix)),
    {
        match parser::PathParser::parse(path) {
            Ok(_) => {},
            Err(e) => {
                return Err(e);
            },
        }
        let style = parser::PathParser::detect_style(path);
        Ok(
            CrossPath {
                inner: path.to_owned(),
                original_style: style,
                config: PathConfig::default(),
            },
        )
    }

    /// Create a cross-platform path with a custom configuration.
    pub fn with_config(path: &str, config: PathConfig) -> (r: PathResult<Self>)
        ensures
            r matches Ok(cp) && cp@.inner == path@ && cp@.config == config@ && (
            cp@.original_style == parser::spec_detect_style(path@, PathStyle::Windows)
                || cp@.original_style == parser::spec_detect_style(path@, PathStyle::Unix)),
    {
        match Self::new(path) {
            Ok(mut cp) => {
                cp.config = config;
                Ok(cp)
            },
            Err(e) => Err(e),
        }
    }

    /// Convert the owned path to the given style.
    pub fn to_style(&self, style: PathStyle) -> (r: PathResult<String>)
        ensures
            converter::conv_matches(
                r,
                self@.inner,
                self@.config.drive_mappings,
                style,
                PathStyle::Windows,
            ) || converter::conv_matches(
                r,
                self@.inner,
                self@.config.drive_mappings,
                style,
                PathStyle::Unix,
            ),
    {
        let conv = converter::PathConverter::new(&self.config);
        conv.convert(self.inner.as_str(), style)
    }

    /// Convert to the platform-appropriate style: the configured style, or
    /// the host style when the configuration says `Auto`.
    pub fn to_platform(&self) -> (r: PathResult<String>)
        ensures
            self@.config.style != PathStyle::Auto ==> (converter::conv_matches(
                r,
                self@.inner,
                self@.config.drive_mappings,
                self@.config.style,
                PathStyle::Windows,
            ) || converter::conv_matches(
                r,
                self@.inner,
                self@.config.drive_mappings,
                self@.config.style,
                PathStyle::Unix,
            )),
            self@.config.style == PathStyle::Auto ==> exists|t: PathStyle, h: PathStyle|
                (t == PathStyle::Windows || t == PathStyle::Unix) && (h == PathStyle::Windows || h
                    == PathStyle::Unix) && #[trigger] converter::conv_matches(
                    r,
                    self@.inner,
                    self@.config.drive_mappings,
                    t,
                    h,
                ),
    {
        let target_style = match self.config.style {
            PathStyle::Auto => platform::current_style(),
            style => style,
        };
        let r = self.to_style(target_style);
        proof {
            if self@.config.style == PathStyle::Auto {
                if converter::conv_matches(
                    r,
                    self@.inner,
                    self@.config.drive_mappings,
                    target_style,
                    PathStyle::Windows,
                ) {
                    assert((target_style == PathStyle::Windows || target_style == PathStyle::Unix)
                        && (PathStyle::Windows == PathStyle::Windows) && converter::conv_matches(
                        r,
                        self@.inner,
                        self@.config.drive_mappings,
                        target_style,
                        PathStyle::Windows,
                    ));
                } else {
                    assert(converter::conv_matches(
                        r,
                        self@.inner,
                        self@.config.drive_mappings,
                        target_style,
                        PathStyle::Unix,
                    ));
                }
            }
        }
        r
    }

    /// Convert to a Windows-style path string.
    pub fn to_windows(&self) -> (r: PathResult<String>)
        ensures
            converter::conv_matches(
                r,
                self@.inner,
                self@.config.drive_mappings,
                PathStyle::Windows,
                PathStyle::Windows,
            ) || converter::conv_matches(
                r,
                self@.inner,
                self@.config.drive_mappings,
                PathStyle::Windows,
                PathStyle::Unix,
            ),
    {
        self.to_style(PathStyle::Windows)
    }

    /// Convert to a Unix-style path string.
    pub fn to_unix(&self) -> (r: PathResult<String>)
        ensures
            converter::conv_matches(
                r,
                self@.inner,
                self@.config.drive_mappings,
                PathStyle::Unix,
                PathStyle::Windows,
            ) || converter::conv_matches(
                r,
                self@.inner,
                self@.config.drive_mappings,
                PathStyle::Unix,
                PathStyle::Unix,
            ),
    {
        self.to_style(PathStyle::Unix)
    }

    /// Get the original path text.
    pub fn as_original(&self) -> (r: &String)
        ensures
            r@ == self@.inner,
    {
        &self.inner
    }

    /// Replace the configuration.
    pub fn set_config(&mut self, config: PathConfig)
        ensures
            final(self)@.inner == old(self)@.inner,
            final(self)@.original_style == old(self)@.original_style,
            final(self)@.config == config@,
    {
        self.config = config;
    }

    /// Get a reference to the configuration.
    pub fn config(&self) -> (r: &PathConfig)
        ensures
            r@ == self@.config,
    {
        &self.config
    }

    /// Check whether the owned path is safe: no traversal pattern, no
    /// dangerous extension or pseudo-filesystem root, no reserved device
    /// name (under Windows host semantics), and no system-directory
    /// prefix. A traversal pattern is rejected under every host.
    pub fn is_safe(&self) -> (r: PathResult<bool>)
        ensures
            security::check_matches(r, self@.inner, PathStyle::Windows)
                || security::check_matches(r, self@.inner, PathStyle::Unix),
            security::spec_has_traversal(self@.inner) ==> (r matches Err(
                error::PathError::SecurityError(m),
            ) && m@ == "Path traversal attack detected"@),
    {
        security::PathSecurityChecker::check_path_security(self.inner.as_str())
    }

    /// Normalize the owned path in place, resolving `.` and `..` segments;
    /// never fails.
    pub fn normalize(&mut self) -> (r: PathResult<()>)
        ensures
            r is Ok,
            final(self)@.inner == parser::spec_normalize(old(self)@.inner),
            final(self)@.original_style == old(self)@.original_style,
            final(self)@.config == old(self)@.config,
    {
        match parser::PathParser::normalize_path(self.inner.as_str()) {
            Ok(normalized) => {
                self.inner = normalized;
                Ok(())
            },
            Err(e) => Err(e),
        }
    }
}

/// Path conversion trait: adds conversion shorthands to string types.
pub trait PathConvert {
    /// The path text of the value.
    spec fn text(&self) -> Seq<char>;

    /// Convert to a `CrossPath` with the default configuration.
    fn to_cross_path(&self) -> (r: PathResult<CrossPath>)
        ensures
            r matches Ok(cp) && cp@.inner == self.text() && cp@.config == spec_default_config(),
    ;

    /// Convert to a Windows path with the default configuration.
    fn to_windows_path(&self) -> (r: PathResult<String>)
        ensures
            converter::conv_matches(
                r,
                self.text(),
                spec_default_mappings(),
                PathStyle::Windows,
                PathStyle::Windows,
            ) || converter::conv_matches(
                r,
                self.text(),
                spec_default_mappings(),
                PathStyle::Windows,
                PathStyle::Unix,
            ),
    ;

    /// Convert to a Unix path with the default configuration.
    fn to_unix_path(&self) -> (r: PathResult<String>)
        ensures
            converter::conv_matches(
                r,
                self.text(),
                spec_default_mappings(),
                PathStyle::Unix,
                PathStyle::Windows,
            ) || converter::conv_matches(
                r,
                self.text(),
                spec_default_mappings(),
                PathStyle::Unix,
                PathStyle::Unix,
            ),
    ;
}

impl PathConvert for str {
    open spec fn text(&self) -> Seq<char> {
        self@
    }

    fn to_cross_path(&self) -> (r: PathResult<CrossPath>) {
        CrossPath::new(self)
    }

    fn to_windows_path(&self) -> (r: PathResult<String>) {
        match CrossPath::new(self) {
            Ok(cp) => cp.to_windows(),
            Err(e) => Err(e),
        }
    }

    fn to_unix_path(&self) -> (r: PathResult<String>) {
        match CrossPath::new(self) {
            Ok(cp) => cp.to_unix(),
            Err(e) => Err(e),
        }
    }
}

} // verus!
