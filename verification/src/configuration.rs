//! Settings of a dossier and of a compilation, and what a compilation
//! produces.
use vstd::prelude::*;

use crate::codex::{html_paragraph_rules, html_text_rules, rules_view, Codex};
use crate::codex_configuration::CodexConfiguration;
use crate::modifier::{BucketView, ModifiersBucket};
use crate::output_format::OutputFormat;
use crate::parsing::{
    bullets_view,
    default_bullets_configuration,
    spec_default_bullets,
    ListBulletConfigurationRecord,
    ParsingConfiguration,
    ParsingConfigurationMetadata,
};

use crate::resource::{is_remote, is_valid_remote_resource};
use crate::text::{
    append_str,
    char_is_alphanumeric,
    ends_with,
    ends_with_exec,
    is_alphanumeric,
    lowercased,
    owned,
    starts_with,
    starts_with_exec,
    replace_all_occurrences,
    replaced,
    string_from_range,
    to_chars,
    to_lowercase,
};

verus! {

// ---------------------------------------------------------------------------
// Theme
// ---------------------------------------------------------------------------

#[derive(Debug)]
pub enum ThemeError {
    /// The named theme does not exist.
    Unknown(String),
}

/// The look of the output.
#[derive(Debug, Clone, Copy, PartialEq, Eq, Structural)]
pub enum Theme {
    Light,
    Dark,
    Scientific,
    Vintage,
    Nothing,
}

impl Default for Theme {
    fn default() -> (r: Self)
        ensures
            r == Theme::Light,
    {
        Theme::Light
    }
}

/// The theme named by a text, compared in lower case.
pub open spec fn theme_named(s: Seq<char>) -> Option<Theme> {
    let l = lowercased(s);
    if l == "light"@ {
        Some(Theme::Light)
    } else if l == "dark"@ {
        Some(Theme::Dark)
    } else if l == "scientific"@ {
        Some(Theme::Scientific)
    } else if l == "vintage"@ {
        Some(Theme::Vintage)
    } else if l == "none"@ {
        Some(Theme::Nothing)
    } else {
        None
    }
}

impl Theme {
    /// The theme named by `s` (in any case).
    pub fn from_str(s: &str) -> (r: Result<Self, ThemeError>)
        ensures
            match theme_named(s@) {
                Some(t) => r matches Ok(x) && x == t,
                None => r matches Err(ThemeError::Unknown(e)) && e@ == s@,
            },
    {
        let l = to_lowercase(s);
        if l.eq(&owned("light")) {
            Ok(Theme::Light)
        } else if l.eq(&owned("dark")) {
            Ok(Theme::Dark)
        } else if l.eq(&owned("scientific")) {
            Ok(Theme::Scientific)
        } else if l.eq(&owned("vintage")) {
            Ok(Theme::Vintage)
        } else if l.eq(&owned("none")) {
            Ok(Theme::Nothing)
        } else {
            Err(ThemeError::Unknown(owned(s)))
        }
    }
}

// ---------------------------------------------------------------------------
// Paths
// ---------------------------------------------------------------------------

/// A relative path starts with this.
pub const PATH_START_FOR_RELATIVE: &'static str = "./";

/// Where the styles of a dossier are.
pub const STYLE_PREFIX: &'static str = "./assets/styles";

/// `Path::join` with `/` separators: an absolute path replaces the base;
/// otherwise the two are joined by one separator.
pub open spec fn path_join(base: Seq<char>, p: Seq<char>) -> Seq<char> {
    if starts_with(p, "/"@) || base.len() == 0 {
        p
    } else if ends_with(base, "/"@) {
        base + p
    } else {
        base + "/"@ + p
    }
}

/// `Path::join` with `/` separators.
pub fn join_path(base: &str, p: &str) -> (r: String)
    ensures
        r@ == path_join(base@, p@),
{
    let pv = to_chars(p);
    let bv = to_chars(base);
    let slash = to_chars("/");
    if starts_with_exec(&pv, &slash) || bv.len() == 0 {
        owned(p)
    } else if ends_with_exec(&bv, &slash) {
        let mut r = owned(base);
        append_str(&mut r, p);
        r
    } else {
        let mut r = owned(base);
        append_str(&mut r, "/");
        append_str(&mut r, p);
        r
    }
}

/// Whether a reference is plain: a file name that starts with a letter or a
/// digit and is no URL.
pub open spec fn is_plain(raw: Seq<char>) -> bool {
    raw.len() > 0 && is_alphanumeric(raw[0]) && !is_remote(raw)
}

/// A reference resolved without a directory for plain references: a
/// relative one is joined to the root path (if any); a plain one cannot be
/// resolved; any other stays as it is.
pub open spec fn resolved_without_plain_root(root: Option<Seq<char>>, raw: Seq<char>) -> Option<
    Seq<char>,
> {
    if starts_with(raw, PATH_START_FOR_RELATIVE@) {
        let rest = raw.skip(2);
        match root {
            Some(r) => Some(path_join(r, rest)),
            None => Some(rest),
        }
    } else if is_plain(raw) {
        None
    } else {
        Some(raw)
    }
}

/// A reference written with the platform's separator after a leading dot
/// (`.\\x` on Windows) is read as a relative one (`./x`): on a platform
/// whose separator is not `/`, every `.` followed by the separator becomes
/// `./`.
pub open spec fn unix_form(raw: Seq<char>, not_unix: bool, separator: Seq<char>) -> Seq<char> {
    if not_unix && separator.len() > 0 {
        replaced(raw, "."@ + separator, PATH_START_FOR_RELATIVE@)
    } else {
        raw
    }
}

/// A reference resolved: first read in its unix form; as above, a plain one
/// first joined to the directory for plain references (and read in its
/// unix form again).
pub open spec fn resolved_reference(
    root: Option<Seq<char>>,
    raw: Seq<char>,
    plain_root: Option<Seq<char>>,
    not_unix: bool,
    separator: Seq<char>,
) -> Option<Seq<char>> {
    let raw = unix_form(raw, not_unix, separator);
    if !starts_with(raw, PATH_START_FOR_RELATIVE@) && is_plain(raw) {
        match plain_root {
            Some(p) => resolved_without_plain_root(
                root,
                unix_form(path_join(p, raw), not_unix, separator),
            ),
            None => None,
        }
    } else {
        resolved_without_plain_root(root, raw)
    }
}

/// A reference resolved by a reference manager.
pub open spec fn resolved_by(
    manager: DossierConfigurationRawReferenceManager,
    raw: Seq<char>,
    plain_root: Option<Seq<char>>,
) -> Option<Seq<char>> {
    resolved_reference(
        opt_str_view(manager.root_path),
        raw,
        plain_root,
        manager.not_unix_like_os,
        manager.main_separator@,
    )
}

/// Law: where references are read as written (a `/` platform), a relative
/// reference `./x` stands for `x` under the manager's root path, whatever
/// the directory for plain references.
pub proof fn law_relative_reference_under_root(
    manager: DossierConfigurationRawReferenceManager,
    x: Seq<char>,
    plain_root: Option<Seq<char>>,
)
    requires
        manager.root_path is Some,
        !manager.not_unix_like_os,
    ensures
        resolved_by(manager, PATH_START_FOR_RELATIVE@ + x, plain_root) == Some(
            path_join(manager.root_path->0@, x),
        ),
{
    reveal_strlit("./");
    let raw = PATH_START_FOR_RELATIVE@ + x;
    assert(raw.take(2) =~= PATH_START_FOR_RELATIVE@);
    assert(starts_with(raw, PATH_START_FOR_RELATIVE@));
    assert(raw.skip(2) =~= x);
}

/// The platform's separator of path components
/// (`std::path::MAIN_SEPARATOR_STR`). It depends on the platform, so
/// nothing is stated of it.
#[verifier::external_body]
pub(crate) fn main_separator() -> (r: String) {
    std::path::MAIN_SEPARATOR_STR.to_string()
}

/// Resolves the paths written in a dossier configuration against its root.
/// On a platform whose separator is not `/`, a leading `.` and separator is
/// read as `./`.
#[derive(Debug)]
pub struct DossierConfigurationRawReferenceManager {
    pub root_path: Option<String>,
    pub not_unix_like_os: bool,
    pub main_separator: String,
}

pub open spec fn opt_str_view(o: Option<String>) -> Option<Seq<char>> {
    match o {
        Some(s) => Some(s@),
        None => None,
    }
}

impl DossierConfigurationRawReferenceManager {
    /// No root path; references read as written.
    pub fn new() -> (r: Self)
        ensures
            r.root_path is None,
            !r.not_unix_like_os,
            r.main_separator@ == "/"@,
    {
        Self { root_path: None, not_unix_like_os: false, main_separator: owned("/") }
    }

    /// A root path; references read as written.
    pub fn using_root_path(root_path: String) -> (r: Self)
        ensures
            opt_str_view(r.root_path) == Some(root_path@),
            !r.not_unix_like_os,
            r.main_separator@ == "/"@,
    {
        Self { root_path: Some(root_path), not_unix_like_os: false, main_separator: owned("/") }
    }

    /// Sets the root path, and whether the platform's separator (given) is
    /// not `/`: then a leading `.` and separator is read as `./`.
    pub fn set_root_path_with_separator(&mut self, root_path: String, separator: String)
        ensures
            opt_str_view(final(self).root_path) == Some(root_path@),
            final(self).not_unix_like_os == (separator@ != "/"@),
            final(self).main_separator == separator,
    {
        let slash = owned("/");
        self.not_unix_like_os = !separator.eq(&slash);
        self.main_separator = separator;
        self.root_path = Some(root_path);
    }

    /// Sets the root path; the platform's separator decides whether a
    /// leading `.` and separator is read as `./`.
    pub fn set_root_path(&mut self, root_path: String)
        ensures
            opt_str_view(final(self).root_path) == Some(root_path@),
            final(self).not_unix_like_os == (final(self).main_separator@ != "/"@),
    {
        let separator = main_separator();
        self.set_root_path_with_separator(root_path, separator);
    }

    fn duplicate(&self) -> (r: Self)
        ensures
            opt_str_view(r.root_path) == opt_str_view(self.root_path),
            r.not_unix_like_os == self.not_unix_like_os,
            r.main_separator@ == self.main_separator@,
    {
        let root_path = match &self.root_path {
            Some(p) => Some(p.clone()),
            None => None,
        };
        Self {
            root_path,
            not_unix_like_os: self.not_unix_like_os,
            main_separator: self.main_separator.clone(),
        }
    }

    /// A reference in its unix form.
    fn unix_form_of(&self, raw: &str) -> (r: String)
        ensures
            r@ == unix_form(raw@, self.not_unix_like_os, self.main_separator@),
    {
        if self.not_unix_like_os && !self.main_separator.as_str().is_empty() {
            let mut from = owned(".");
            append_str(&mut from, self.main_separator.as_str());
            proof {
                reveal_strlit(".");
            }
            replace_all_occurrences(raw, from.as_str(), PATH_START_FOR_RELATIVE)
        } else {
            owned(raw)
        }
    }

    fn resolve_without_plain_root(&self, raw: &str) -> (r: String)
        requires
            resolved_without_plain_root(opt_str_view(self.root_path), raw@) is Some,
        ensures
            r@ == resolved_without_plain_root(opt_str_view(self.root_path), raw@)->0,
    {
        let v = to_chars(raw);
        let rel = to_chars(PATH_START_FOR_RELATIVE);
        proof {
            reveal_strlit("./");
            assert(rel@.len() == 2);
        }
        if starts_with_exec(&v, &rel) {
            let rest = string_from_range(&v, 2, v.len());
            proof {
                assert(v@.subrange(2, v@.len() as int) =~= raw@.skip(2));
            }
            match &self.root_path {
                Some(root) => join_path(root.as_str(), rest.as_str()),
                None => rest,
            }
        } else {
            owned(raw)
        }
    }

    /// The path a written reference stands for, read in its unix form: `./x`
    /// is `x` under the root path; a plain `x` is first put under
    /// `plain_root_path`; any other is kept as written.
    pub fn parse_raw_reference(&self, raw_reference: &str, plain_root_path: Option<&str>) -> (r:
        String)
        requires
            resolved_by(
                *self,
                raw_reference@,
                match plain_root_path {
                    Some(p) => Some(p@),
                    None => None,
                },
            ) is Some,
        ensures
            r@ == resolved_by(
                *self,
                raw_reference@,
                match plain_root_path {
                    Some(p) => Some(p@),
                    None => None,
                },
            )->0,
    {
        let raw = self.unix_form_of(raw_reference);
        let v = to_chars(raw.as_str());
        let rel = to_chars(PATH_START_FOR_RELATIVE);
        let plain = !starts_with_exec(&v, &rel) && v.len() > 0 && char_is_alphanumeric(v[0])
            && !is_valid_remote_resource(raw.as_str());
        if plain {
            match plain_root_path {
                Some(p) => {
                    let joined = join_path(p, raw.as_str());
                    let fixed = self.unix_form_of(joined.as_str());
                    self.resolve_without_plain_root(fixed.as_str())
                },
                None => raw,
            }
        } else {
            self.resolve_without_plain_root(raw.as_str())
        }
    }
}

// ---------------------------------------------------------------------------
// Dossier configuration
// ---------------------------------------------------------------------------

/// Compilation settings written in a dossier configuration.
#[derive(Debug, Clone, Copy)]
pub struct DossierConfigurationCompilation {
    pub embed_local_image: bool,
    pub embed_remote_image: bool,
    pub compress_embed_image: bool,
    pub strict_image_src_check: bool,
    pub parallelization: bool,
    pub use_remote_addons: bool,
    pub strict_list_check: bool,
}

impl Default for DossierConfigurationCompilation {
    /// Images embedded and compressed, strict image checks, parallel
    /// compilation, no remote addons, lenient list checks.
    fn default() -> (r: Self)
        ensures
            r == (DossierConfigurationCompilation {
                embed_local_image: true,
                embed_remote_image: true,
                compress_embed_image: true,
                strict_image_src_check: true,
                parallelization: true,
                use_remote_addons: false,
                strict_list_check: false,
            }),
    {
        Self {
            embed_local_image: true,
            embed_remote_image: true,
            compress_embed_image: true,
            strict_image_src_check: true,
            parallelization: true,
            use_remote_addons: false,
            strict_list_check: false,
        }
    }
}

impl DossierConfigurationCompilation {
    pub fn embed_local_image(&self) -> (r: bool)
        ensures
            r == self.embed_local_image,
    {
        self.embed_local_image
    }

    pub fn embed_remote_image(&self) -> (r: bool)
        ensures
            r == self.embed_remote_image,
    {
        self.embed_remote_image
    }

    pub fn compress_embed_image(&self) -> (r: bool)
        ensures
            r == self.compress_embed_image,
    {
        self.compress_embed_image
    }

    pub fn parallelization(&self) -> (r: bool)
        ensures
            r == self.parallelization,
    {
        self.parallelization
    }

    pub fn use_remote_addons(&self) -> (r: bool)
        ensures
            r == self.use_remote_addons,
    {
        self.use_remote_addons
    }

    pub fn strict_image_src_check(&self) -> (r: bool)
        ensures
            r == self.strict_image_src_check,
    {
        self.strict_image_src_check
    }

    pub fn strict_list_check(&self) -> (r: bool)
        ensures
            r == self.strict_list_check,
    {
        self.strict_list_check
    }

    pub fn set_embed_local_image(&mut self, value: bool)
        ensures
            *final(self) == (DossierConfigurationCompilation { embed_local_image: value, ..*old(self) }),
    {
        self.embed_local_image = value;
    }

    pub fn set_embed_remote_image(&mut self, value: bool)
        ensures
            *final(self) == (DossierConfigurationCompilation { embed_remote_image: value, ..*old(self) }),
    {
        self.embed_remote_image = value;
    }

    pub fn set_compress_embed_image(&mut self, value: bool)
        ensures
            *final(self) == (DossierConfigurationCompilation { compress_embed_image: value, ..*old(self) }),
    {
        self.compress_embed_image = value;
    }

    pub fn set_strict_image_src_check(&mut self, value: bool)
        ensures
            *final(self) == (DossierConfigurationCompilation { strict_image_src_check: value, ..*old(self) }),
    {
        self.strict_image_src_check = value;
    }

    pub fn set_parallelization(&mut self, value: bool)
        ensures
            *final(self) == (DossierConfigurationCompilation { parallelization: value, ..*old(self) }),
    {
        self.parallelization = value;
    }

    pub fn set_use_remote_addons(&mut self, value: bool)
        ensures
            *final(self) == (DossierConfigurationCompilation { use_remote_addons: value, ..*old(self) }),
    {
        self.use_remote_addons = value;
    }

    pub fn set_strict_list_check(&mut self, strict_list_check: bool)
        ensures
            *final(self) == (DossierConfigurationCompilation {
                strict_list_check: strict_list_check,
                ..*old(self)
            }),
    {
        self.strict_list_check = strict_list_check;
    }
}


/// How the table of contents is built.
#[derive(Debug, Clone)]
pub struct DossierConfigurationTableOfContents {
    pub title: String,
    pub include_in_output: bool,
    pub page_numbers: bool,
    pub plain: bool,
    pub maximum_heading_level: usize,
}

impl Default for DossierConfigurationTableOfContents {
    /// Titled "Table of contents", included, without page numbers, not
    /// plain, down to level 4.
    fn default() -> (r: Self)
        ensures
            r.title@ == "Table of contents"@,
            r.include_in_output,
            !r.page_numbers,
            !r.plain,
            r.maximum_heading_level == 4,
    {
        Self {
            title: owned("Table of contents"),
            include_in_output: true,
            page_numbers: false,
            plain: false,
            maximum_heading_level: 4,
        }
    }
}

impl DossierConfigurationTableOfContents {
    pub fn title(&self) -> (r: &String)
        ensures
            r@ == self.title@,
    {
        &self.title
    }

    pub fn include_in_output(&self) -> (r: bool)
        ensures
            r == self.include_in_output,
    {
        self.include_in_output
    }

    pub fn page_numbers(&self) -> (r: bool)
        ensures
            r == self.page_numbers,
    {
        self.page_numbers
    }

    pub fn plain(&self) -> (r: bool)
        ensures
            r == self.plain,
    {
        self.plain
    }

    pub fn maximum_heading_level(&self) -> (r: usize)
        ensures
            r == self.maximum_heading_level,
    {
        self.maximum_heading_level
    }

    pub fn set_title(&mut self, title: String)
        ensures
            *final(self) == (DossierConfigurationTableOfContents { title: title, ..*old(self) }),
    {
        self.title = title;
    }

    pub fn set_include_in_output(&mut self, value: bool)
        ensures
            *final(self) == (DossierConfigurationTableOfContents { include_in_output: value, ..*old(self) }),
    {
        self.include_in_output = value;
    }

    pub fn set_page_numbers(&mut self, value: bool)
        ensures
            *final(self) == (DossierConfigurationTableOfContents { page_numbers: value, ..*old(self) }),
    {
        self.page_numbers = value;
    }

    pub fn set_plain(&mut self, value: bool)
        ensures
            *final(self) == (DossierConfigurationTableOfContents { plain: value, ..*old(self) }),
    {
        self.plain = value;
    }

    pub fn set_maximum_heading_level(&mut self, value: usize)
        ensures
            *final(self) == (DossierConfigurationTableOfContents {
                maximum_heading_level: value,
                ..*old(self)
            }),
    {
        self.maximum_heading_level = value;
    }
}

/// The style of a dossier: theme, style sheets, list bullets.
#[derive(Debug)]
pub struct DossierConfigurationStyle {
    pub theme: Theme,
    pub styles: Vec<String>,
    pub list_bullets_configuration: Vec<ListBulletConfigurationRecord>,
}

pub open spec fn strings_of(v: Seq<String>) -> Seq<Seq<char>> {
    v.map_values(|s: String| s@)
}

impl DossierConfigurationStyle {
    /// The light theme, no style sheets, the default bullets.
    pub fn default() -> (r: Self)
        ensures
            r.theme == Theme::Light,
            r.styles@.len() == 0,
            bullets_view(r.list_bullets_configuration@) == spec_default_bullets(),
    {
        Self { theme: Theme::Light, styles: Vec::new(), list_bullets_configuration: default_bullets_configuration() }
    }

    pub fn theme(&self) -> (r: &Theme)
        ensures
            *r == self.theme,
    {
        &self.theme
    }

    pub fn styles(&self) -> (r: &Vec<String>)
        ensures
            r@ == self.styles@,
    {
        &self.styles
    }

    pub fn list_bullets_configuration(&self) -> (r: &Vec<ListBulletConfigurationRecord>)
        ensures
            r@ == self.list_bullets_configuration@,
    {
        &self.list_bullets_configuration
    }

    pub fn set_theme(&mut self, theme: Theme)
        ensures
            final(self).theme == theme,
            final(self).styles == old(self).styles,
            final(self).list_bullets_configuration == old(self).list_bullets_configuration,
    {
        self.theme = theme;
    }

    pub fn set_styles(&mut self, styles: Vec<String>)
        ensures
            final(self).styles == styles,
            final(self).theme == old(self).theme,
            final(self).list_bullets_configuration == old(self).list_bullets_configuration,
    {
        self.styles = styles;
    }

    pub fn set_list_bullets_configuration(&mut self, value: Vec<ListBulletConfigurationRecord>)
        ensures
            final(self).list_bullets_configuration == value,
            final(self).theme == old(self).theme,
            final(self).styles == old(self).styles,
    {
        self.list_bullets_configuration = value;
    }

    /// The paths of the style sheets, resolved against the root path (a
    /// plain name is a file of the styles directory).
    pub fn styles_references(&self, manager: &DossierConfigurationRawReferenceManager) -> (r: Vec<
        String,
    >)
        ensures
            r@.len() == self.styles@.len(),
            forall|i: int|
                0 <= i < r@.len() ==> Some(#[trigger] r@[i]@) == resolved_by(
                    *manager,
                    self.styles@[i]@,
                    Some(STYLE_PREFIX@),
                ),
    {
        // `/` and `.` are no letters or digits: an absolute name, or one
        // under the styles directory, is not plain
        let slash_is_alphanumeric = char_is_alphanumeric('/');
        let dot_is_alphanumeric = char_is_alphanumeric('.');
        let mut r: Vec<String> = Vec::new();
        let mut i: usize = 0;
        while i < self.styles.len()
            invariant
                !is_alphanumeric('/'),
                !is_alphanumeric('.'),
                i <= self.styles@.len(),
                r@.len() == i,
                forall|j: int|
                    0 <= j < i ==> Some(#[trigger] r@[j]@) == resolved_by(
                    *manager,
                        self.styles@[j]@,
                        Some(STYLE_PREFIX@),
                    ),
            decreases self.styles@.len() - i,
        {
            proof {
                lemma_style_resolves(
                    opt_str_view(manager.root_path),
                    self.styles@[i as int]@,
                    manager.not_unix_like_os,
                    manager.main_separator@,
                );
            }
            let p = manager.parse_raw_reference(self.styles[i].as_str(), Some(STYLE_PREFIX));
            r.push(p);
            i = i + 1;
        }
        r
    }
}

/// A style reference always resolves: a plain one is put under the styles
/// directory, which is relative.
proof fn lemma_style_resolves(
    root: Option<Seq<char>>,
    raw0: Seq<char>,
    not_unix: bool,
    separator: Seq<char>,
)
    requires
        !is_alphanumeric('/'),
        !is_alphanumeric('.'),
    ensures
        resolved_reference(root, raw0, Some(STYLE_PREFIX@), not_unix, separator) is Some,
{
    reveal_strlit("./assets/styles");
    reveal_strlit("./");
    reveal_strlit("/");
    reveal_strlit(".");
    let raw = unix_form(raw0, not_unix, separator);
    if !starts_with(raw, PATH_START_FOR_RELATIVE@) && is_plain(raw) {
        let j = path_join(STYLE_PREFIX@, raw);
        assert(!starts_with(raw, "/"@)) by {
            if starts_with(raw, "/"@) {
                assert(raw.take(1) == "/"@);
                assert(raw.take(1)[0] == raw[0]);
                assert(raw[0] == '/');
            }
        }
        assert(j == STYLE_PREFIX@ + "/"@ + raw) by {
            assert(!ends_with(STYLE_PREFIX@, "/"@)) by {
                let q = STYLE_PREFIX@;
                assert(q == "./assets/styles"@);
                assert(q.len() == 15);
                if ends_with(q, "/"@) {
                    assert(q.skip(14) == "/"@);
                    assert(q.skip(14)[0] == q[14]);
                }
            }
        }
        assert(starts_with(j, PATH_START_FOR_RELATIVE@)) by {
            assert(j.take(2) =~= PATH_START_FOR_RELATIVE@) by {
                assert(j[0] == '.');
                assert(j[1] == '/');
            }
        }
        let fixed = unix_form(j, not_unix, separator);
        if not_unix && separator.len() > 0 {
            lemma_replaced_keeps_dot(j, "."@ + separator, PATH_START_FOR_RELATIVE@);
        }
        assert(fixed.len() > 0 && fixed[0] == '.');
        assert(!is_plain(fixed));
    }
}

/// Replacing in a text that starts with `.`, by a text that starts with
/// `.`, gives a text that starts with `.`.
proof fn lemma_replaced_keeps_dot(s: Seq<char>, from: Seq<char>, to: Seq<char>)
    requires
        s.len() > 0,
        s[0] == '.',
        to.len() > 0,
        to[0] == '.',
        from.len() > 0,
    ensures
        replaced(s, from, to).len() > 0,
        replaced(s, from, to)[0] == '.',
{
    if starts_with(s, from) {
        assert(replaced(s, from, to) == to + replaced(s.skip(from.len() as int), from, to));
    } else {
        assert(replaced(s, from, to) == seq![s[0]] + replaced(s.drop_first(), from, to));
    }
}


// ---------------------------------------------------------------------------
// Bibliography
// ---------------------------------------------------------------------------

/// An entry of a bibliography.
#[derive(Debug, Clone)]
pub struct BibliographyEntry {
    pub title: String,
    pub year: Option<u32>,
    pub authors: Option<Vec<String>>,
    pub description: Option<String>,
    pub url: Option<String>,
}

/// A record of a bibliography, as written.
#[derive(Debug, Clone)]
pub struct BibliographyRecord {
    pub title: String,
    pub year: Option<u32>,
    pub authors: Option<Vec<String>>,
    pub description: Option<String>,
    pub url: Option<String>,
}

/// The bibliography written in a dossier configuration.
#[derive(Debug, Clone)]
pub struct DossierConfigurationBibliography {
    pub title: String,
    pub entries: Vec<(String, BibliographyEntry)>,
}

impl DossierConfigurationBibliography {
    /// Titled "Bibliography", no entries.
    pub fn default() -> (r: Self)
        ensures
            r.title@ == "Bibliography"@,
            r.entries@.len() == 0,
    {
        Self { title: owned("Bibliography"), entries: Vec::new() }
    }
}

/// The bibliography of a dossier: a title and its entries by key.
#[derive(Debug, Clone)]
pub struct Bibliography {
    pub title: String,
    pub entries: Vec<(String, BibliographyEntry)>,
    pub parsed_content: Option<String>,
}

impl Bibliography {
    pub fn new(title: String, entries: Vec<(String, BibliographyEntry)>) -> (r: Self)
        ensures
            r.title == title,
            r.entries == entries,
            r.parsed_content is None,
    {
        Self { title, entries, parsed_content: None }
    }

    /// The bibliography written in a dossier configuration.
    pub fn from(configuration: &DossierConfigurationBibliography) -> (r: Self)
        ensures
            r.title@ == configuration.title@,
            r.entries@.len() == configuration.entries@.len(),
            forall|i: int| 0 <= i < r.entries@.len() ==> (#[trigger] r.entries@[i]).0@ == configuration.entries@[i].0@,
            r.parsed_content is None,
    {
        let mut entries: Vec<(String, BibliographyEntry)> = Vec::new();
        let mut i: usize = 0;
        while i < configuration.entries.len()
            invariant
                i <= configuration.entries@.len(),
                entries@.len() == i,
                forall|j: int| 0 <= j < i ==> (#[trigger] entries@[j]).0@ == configuration.entries@[j].0@,
            decreases configuration.entries@.len() - i,
        {
            let e = &configuration.entries[i];
            entries.push((e.0.clone(), e.1.clone()));
            i = i + 1;
        }
        Self { title: configuration.title.clone(), entries, parsed_content: None }
    }

    pub fn title(&self) -> (r: &String)
        ensures
            r@ == self.title@,
    {
        &self.title
    }

    pub fn entries(&self) -> (r: &Vec<(String, BibliographyEntry)>)
        ensures
            r@ == self.entries@,
    {
        &self.entries
    }

    pub fn parsed_content(&self) -> (r: &Option<String>)
        ensures
            *r == self.parsed_content,
    {
        &self.parsed_content
    }

    pub fn set_title(&mut self, title: String)
        ensures
            final(self).title == title,
            final(self).entries == old(self).entries,
            final(self).parsed_content == old(self).parsed_content,
    {
        self.title = title;
    }

    pub fn set_entries(&mut self, entries: Vec<(String, BibliographyEntry)>)
        ensures
            final(self).entries == entries,
            final(self).title == old(self).title,
            final(self).parsed_content == old(self).parsed_content,
    {
        self.entries = entries;
    }

    pub fn set_parsed_content(&mut self, parsed_content: Option<String>)
        ensures
            final(self).parsed_content == parsed_content,
            final(self).title == old(self).title,
            final(self).entries == old(self).entries,
    {
        self.parsed_content = parsed_content;
    }
}


// ---------------------------------------------------------------------------
// Dossier and compilation configuration
// ---------------------------------------------------------------------------

/// What a dossier is made of and how it is compiled.
#[derive(Debug)]
pub struct DossierConfiguration {
    pub name: String,
    pub table_of_contents_configuration: DossierConfigurationTableOfContents,
    pub raw_documents_paths: Vec<String>,
    pub style: DossierConfigurationStyle,
    pub references: Vec<(String, String)>,
    pub compilation: DossierConfigurationCompilation,
    pub bibliography: DossierConfigurationBibliography,
    pub reference_manager: DossierConfigurationRawReferenceManager,
}

impl DossierConfiguration {
    /// A dossier configuration whose paths are resolved against
    /// `root_path`.
    pub fn new(
        root_path: String,
        name: String,
        toc: DossierConfigurationTableOfContents,
        raw_documents_paths: Vec<String>,
        style: DossierConfigurationStyle,
        reference: Vec<(String, String)>,
        compilation: DossierConfigurationCompilation,
    ) -> (r: Self)
        ensures
            r.name == name,
            r.table_of_contents_configuration == toc,
            r.raw_documents_paths == raw_documents_paths,
            r.style == style,
            r.references == reference,
            r.compilation == compilation,
            r.bibliography.title@ == "Bibliography"@,
            r.bibliography.entries@.len() == 0,
            opt_str_view(r.reference_manager.root_path) == Some(root_path@),
    {
        Self {
            name,
            table_of_contents_configuration: toc,
            raw_documents_paths,
            style,
            references: reference,
            compilation,
            bibliography: DossierConfigurationBibliography::default(),
            reference_manager: DossierConfigurationRawReferenceManager::using_root_path(root_path),
        }
    }

    /// "New Dossier": no documents, default style, compilation and table of
    /// contents, no root path.
    pub fn default() -> (r: Self)
        ensures
            r.name@ == "New Dossier"@,
            r.table_of_contents_configuration.title@ == "Table of contents"@,
            r.table_of_contents_configuration.include_in_output,
            !r.table_of_contents_configuration.page_numbers,
            !r.table_of_contents_configuration.plain,
            r.table_of_contents_configuration.maximum_heading_level == 4,
            r.raw_documents_paths@.len() == 0,
            r.style.theme == Theme::Light,
            r.style.styles@.len() == 0,
            bullets_view(r.style.list_bullets_configuration@) == spec_default_bullets(),
            r.references@.len() == 0,
            r.compilation == (DossierConfigurationCompilation {
                embed_local_image: true,
                embed_remote_image: true,
                compress_embed_image: true,
                strict_image_src_check: true,
                parallelization: true,
                use_remote_addons: false,
                strict_list_check: false,
            }),
            r.bibliography.title@ == "Bibliography"@,
            r.bibliography.entries@.len() == 0,
            r.reference_manager.root_path is None,
    {
        Self {
            name: owned("New Dossier"),
            table_of_contents_configuration: DossierConfigurationTableOfContents::default(),
            raw_documents_paths: Vec::new(),
            style: DossierConfigurationStyle::default(),
            references: Vec::new(),
            compilation: DossierConfigurationCompilation::default(),
            bibliography: DossierConfigurationBibliography::default(),
            reference_manager: DossierConfigurationRawReferenceManager::new(),
        }
    }

    pub fn raw_documents_paths(&self) -> (r: &Vec<String>)
        ensures
            r@ == self.raw_documents_paths@,
    {
        &self.raw_documents_paths
    }

    /// Whether every document path can be resolved: none is a plain file
    /// name.
    pub fn documents_paths_resolvable(&self) -> (r: bool)
        ensures
            r == (forall|i: int|
                0 <= i < self.raw_documents_paths@.len() ==> resolved_by(
                    self.reference_manager,
                    #[trigger] self.raw_documents_paths@[i]@,
                    None,
                ) is Some),
    {
        let rel = to_chars(PATH_START_FOR_RELATIVE);
        let mut i: usize = 0;
        while i < self.raw_documents_paths.len()
            invariant
                rel@ == PATH_START_FOR_RELATIVE@,
                i <= self.raw_documents_paths@.len(),
                forall|j: int|
                    0 <= j < i ==> resolved_by(
                    self.reference_manager,
                        #[trigger] self.raw_documents_paths@[j]@,
                        None,
                    ) is Some,
            decreases self.raw_documents_paths@.len() - i,
        {
            let fixed = self.reference_manager.unix_form_of(self.raw_documents_paths[i].as_str());
            let raw = fixed.as_str();
            let v = to_chars(raw);
            let plain = !starts_with_exec(&v, &rel) && v.len() > 0 && char_is_alphanumeric(v[0])
                && !is_valid_remote_resource(raw);
            if plain {
                return false;
            }
            i = i + 1;
        }
        true
    }

    /// The paths of the documents, resolved against the root path. (A plain
    /// file name cannot be resolved here, so the configuration must hold
    /// none.)
    pub fn documents_paths(&self) -> (r: Vec<String>)
        requires
            forall|i: int|
                0 <= i < self.raw_documents_paths@.len() ==> resolved_by(
                    self.reference_manager,
                    #[trigger] self.raw_documents_paths@[i]@,
                    None,
                ) is Some,
        ensures
            r@.len() == self.raw_documents_paths@.len(),
            forall|i: int|
                0 <= i < r@.len() ==> Some(#[trigger] r@[i]@) == resolved_by(
                    self.reference_manager,
                    self.raw_documents_paths@[i]@,
                    None,
                ),
    {
        let mut r: Vec<String> = Vec::new();
        let mut i: usize = 0;
        while i < self.raw_documents_paths.len()
            invariant
                i <= self.raw_documents_paths@.len(),
                r@.len() == i,
                forall|k: int|
                    0 <= k < self.raw_documents_paths@.len() ==> resolved_by(
                    self.reference_manager,
                        #[trigger] self.raw_documents_paths@[k]@,
                        None,
                    ) is Some,
                forall|j: int|
                    0 <= j < i ==> Some(#[trigger] r@[j]@) == resolved_by(
                    self.reference_manager,
                        self.raw_documents_paths@[j]@,
                        None,
                    ),
            decreases self.raw_documents_paths@.len() - i,
        {
            let p = self.reference_manager.parse_raw_reference(self.raw_documents_paths[i].as_str(), None);
            r.push(p);
            i = i + 1;
        }
        r
    }

    pub fn set_raw_documents_paths(&mut self, documents: Vec<String>)
        ensures
            *final(self) == (DossierConfiguration { raw_documents_paths: documents, ..*old(self) }),
            final(self).raw_documents_paths == documents,
            final(self).name == old(self).name,
            final(self).compilation == old(self).compilation,
            final(self).references == old(self).references,
            final(self).reference_manager == old(self).reference_manager,
    {
        self.raw_documents_paths = documents;
    }

    pub fn append_raw_document_path(&mut self, raw_document_path: String)
        ensures
            final(self).raw_documents_paths@ == old(self).raw_documents_paths@.push(raw_document_path),
            final(self).table_of_contents_configuration == old(self).table_of_contents_configuration,
            final(self).style == old(self).style,
            final(self).bibliography == old(self).bibliography,
            final(self).name == old(self).name,
            final(self).compilation == old(self).compilation,
            final(self).references == old(self).references,
            final(self).reference_manager == old(self).reference_manager,
    {
        self.raw_documents_paths.push(raw_document_path);
    }

    pub fn name(&self) -> (r: &String)
        ensures
            r@ == self.name@,
    {
        &self.name
    }

    pub fn style(&self) -> (r: &DossierConfigurationStyle)
        ensures
            r == &self.style,
    {
        &self.style
    }

    pub fn compilation(&self) -> (r: &DossierConfigurationCompilation)
        ensures
            *r == self.compilation,
    {
        &self.compilation
    }

    pub fn references(&self) -> (r: &Vec<(String, String)>)
        ensures
            r@ == self.references@,
    {
        &self.references
    }

    pub fn bibliography(&self) -> (r: &DossierConfigurationBibliography)
        ensures
            r == &self.bibliography,
    {
        &self.bibliography
    }

    pub fn table_of_contents_configuration(&self) -> (r: &DossierConfigurationTableOfContents)
        ensures
            r == &self.table_of_contents_configuration,
    {
        &self.table_of_contents_configuration
    }

    /// Paths of this configuration are from now on resolved against
    /// `root_path`.
    pub fn set_root_path(&mut self, root_path: String)
        ensures
            opt_str_view(final(self).reference_manager.root_path) == Some(root_path@),
            final(self).reference_manager.not_unix_like_os == (
            final(self).reference_manager.main_separator@ != "/"@),
            final(self).raw_documents_paths == old(self).raw_documents_paths,
            final(self).name == old(self).name,
            final(self).compilation == old(self).compilation,
            final(self).table_of_contents_configuration == old(self).table_of_contents_configuration,
            final(self).style == old(self).style,
            final(self).references == old(self).references,
            final(self).bibliography == old(self).bibliography,
    {
        self.reference_manager.set_root_path(root_path);
    }
}

/// A copy of pairs of texts.
pub fn copy_references(v: &Vec<(String, String)>) -> (r: Vec<(String, String)>)
    ensures
        r@.len() == v@.len(),
        forall|i: int| 0 <= i < r@.len() ==> (#[trigger] r@[i]).0@ == v@[i].0@ && r@[i].1@ == v@[i].1@,
{
    let mut r: Vec<(String, String)> = Vec::new();
    let mut i: usize = 0;
    while i < v.len()
        invariant
            i <= v@.len(),
            r@.len() == i,
            forall|j: int| 0 <= j < i ==> (#[trigger] r@[j]).0@ == v@[j].0@ && r@[j].1@ == v@[j].1@,
        decreases v@.len() - i,
    {
        r.push((v[i].0.clone(), v[i].1.clone()));
        i = i + 1;
    }
    r
}

/// What a user asks of a compilation; unset options come from the dossier
/// configuration or from the defaults.
#[derive(Debug)]
pub struct CompilationConfiguration {
    pub format: OutputFormat,
    pub input_location: String,
    pub output_location: String,
    pub fast_draft: bool,
    pub embed_local_image: Option<bool>,
    pub embed_remote_image: Option<bool>,
    pub compress_embed_image: Option<bool>,
    pub strict_image_src_check: Option<bool>,
    pub parallelization: Option<bool>,
    pub use_remote_addons: Option<bool>,
    pub references: Option<Vec<(String, String)>>,
    pub documents_subset_to_compile: Option<Vec<String>>,
    pub bibliography: Option<Bibliography>,
    pub theme: Option<Theme>,
}

/// The options of a compilation that are either set or not.
pub open spec fn flags(c: &CompilationConfiguration) -> (
    Option<bool>,
    Option<bool>,
    Option<bool>,
    Option<bool>,
    Option<bool>,
    Option<bool>,
    Option<Theme>,
) {
    (
        c.embed_local_image,
        c.embed_remote_image,
        c.compress_embed_image,
        c.strict_image_src_check,
        c.parallelization,
        c.use_remote_addons,
        c.theme,
    )
}

/// An option kept when set, else taken from `fallback`.
pub open spec fn or_else<T>(o: Option<T>, fallback: T) -> Option<T> {
    match o {
        Some(v) => Some(v),
        None => Some(fallback),
    }
}

/// Law: an option once merged or filled is set, keeps a value that was set,
/// and stays as it is through any later merge or filling: the first value
/// wins.
pub proof fn law_first_setting_wins<T>(o: Option<T>, first: T, second: T)
    ensures
        or_else(o, first) is Some,
        o matches Some(v) ==> or_else(o, first) == Some(v),
        or_else(or_else(o, first), second) == or_else(o, first),
{
}

/// An option kept when set, else `fallback`.
fn keep_or(o: Option<bool>, fallback: bool) -> (r: Option<bool>)
    ensures
        r == or_else(o, fallback),
{
    match o {
        Some(v) => Some(v),
        None => Some(fallback),
    }
}

impl CompilationConfiguration {
    /// A compilation of `input_location` into `output_location`, in
    /// `format`, every option unset.
    pub fn new(format: OutputFormat, input_location: String, output_location: String) -> (r: Self)
        ensures
            r.format == format,
            r.input_location == input_location,
            r.output_location == output_location,
            !r.fast_draft,
            flags(&r) == (
                None::<bool>,
                None::<bool>,
                None::<bool>,
                None::<bool>,
                None::<bool>,
                None::<bool>,
                None::<Theme>,
            ),
            r.references is None,
            r.documents_subset_to_compile is None,
            r.bibliography is None,
    {
        Self {
            format,
            input_location,
            output_location,
            fast_draft: false,
            embed_local_image: None,
            embed_remote_image: None,
            compress_embed_image: None,
            strict_image_src_check: None,
            parallelization: None,
            use_remote_addons: None,
            references: None,
            documents_subset_to_compile: None,
            bibliography: None,
            theme: None,
        }
    }

    /// HTML, from and to the working directory, every option unset.
    pub fn default() -> (r: Self)
        ensures
            r.format == OutputFormat::Html,
            r.input_location@ == "."@,
            r.output_location@ == "."@,
            flags(&r) == (
                None::<bool>,
                None::<bool>,
                None::<bool>,
                None::<bool>,
                None::<bool>,
                None::<bool>,
                None::<Theme>,
            ),
    {
        Self::new(OutputFormat::Html, owned("."), owned("."))
    }

    /// The codex of the format, over the standard modifiers.
    pub fn codex(&self) -> (r: Codex)
        ensures
            rules_view(r.text_rules@) == html_text_rules(),
            rules_view(r.paragraph_rules@) == html_paragraph_rules(),
    {
        Codex::from(&self.format, CodexConfiguration::default())
    }

    /// The parsing options of this compilation (its options must be set).
    pub fn parsing_configuration(&self) -> (r: ParsingConfiguration)
        requires
            self.embed_local_image is Some,
            self.embed_remote_image is Some,
            self.compress_embed_image is Some,
            self.strict_image_src_check is Some,
            self.parallelization is Some,
        ensures
            r.input_location@ == self.input_location@,
            r.output_location@ == self.output_location@,
            r.embed_local_image == self.embed_local_image->0,
            r.embed_remote_image == self.embed_remote_image->0,
            r.compress_embed_image == self.compress_embed_image->0,
            r.strict_image_src_check == self.strict_image_src_check->0,
            r.parallelization == self.parallelization->0,
            r.excluded_modifiers@ == BucketView::Nothing,
            bullets_view(r.list_bullets_configuration@) == spec_default_bullets(),
            !r.strict_list_check,
            !r.strict_focus_block_check,
    {
        ParsingConfiguration {
            input_location: self.input_location.clone(),
            output_location: self.output_location.clone(),
            embed_local_image: self.embed_local_image.unwrap(),
            embed_remote_image: self.embed_remote_image.unwrap(),
            compress_embed_image: self.compress_embed_image.unwrap(),
            strict_image_src_check: self.strict_image_src_check.unwrap(),
            metadata: ParsingConfigurationMetadata::new(),
            excluded_modifiers: ModifiersBucket::Nothing,
            parallelization: self.parallelization.unwrap(),
            list_bullets_configuration: default_bullets_configuration(),
            strict_list_check: false,
            strict_focus_block_check: false,
        }
    }

    /// Sets every option that is not set to what the dossier configuration
    /// says.
    pub fn merge_dossier_configuration(&mut self, dossier_configuration: &DossierConfiguration)
        ensures
            flags(final(self)) == (
                or_else(old(self).embed_local_image, dossier_configuration.compilation.embed_local_image),
                or_else(old(self).embed_remote_image, dossier_configuration.compilation.embed_remote_image),
                or_else(old(self).compress_embed_image, dossier_configuration.compilation.compress_embed_image),
                or_else(old(self).strict_image_src_check, dossier_configuration.compilation.strict_image_src_check),
                or_else(old(self).parallelization, dossier_configuration.compilation.parallelization),
                or_else(old(self).use_remote_addons, dossier_configuration.compilation.use_remote_addons),
                or_else(old(self).theme, dossier_configuration.style.theme),
            ),
            old(self).references is Some ==> final(self).references == old(self).references,
            old(self).references is None ==> (final(self).references matches Some(v) && v@.len()
                == dossier_configuration.references@.len() && forall|i: int|
                0 <= i < v@.len() ==> (#[trigger] v@[i]).0@ == dossier_configuration.references@[i].0@
                    && v@[i].1@ == dossier_configuration.references@[i].1@),
            old(self).bibliography is Some ==> final(self).bibliography == old(self).bibliography,
            old(self).bibliography is None ==> (final(self).bibliography matches Some(b) && b.title@
                == dossier_configuration.bibliography.title@ && b.entries@.len()
                == dossier_configuration.bibliography.entries@.len() && b.parsed_content is None
                && forall|i: int|
                0 <= i < b.entries@.len() ==> (#[trigger] b.entries@[i]).0@
                    == dossier_configuration.bibliography.entries@[i].0@),
            final(self).format == old(self).format,
            final(self).input_location == old(self).input_location,
            final(self).output_location == old(self).output_location,
            final(self).fast_draft == old(self).fast_draft,
            final(self).documents_subset_to_compile == old(self).documents_subset_to_compile,
    {
        let c = dossier_configuration.compilation();
        self.embed_local_image = keep_or(self.embed_local_image, c.embed_local_image());
        self.embed_remote_image = keep_or(self.embed_remote_image, c.embed_remote_image());
        self.compress_embed_image = keep_or(self.compress_embed_image, c.compress_embed_image());
        self.use_remote_addons = keep_or(self.use_remote_addons, c.use_remote_addons());
        self.parallelization = keep_or(self.parallelization, c.parallelization());
        self.strict_image_src_check = keep_or(self.strict_image_src_check, c.strict_image_src_check());
        if self.references.is_none() {
            self.references = Some(copy_references(dossier_configuration.references()));
        }
        if self.bibliography.is_none() {
            self.bibliography = Some(Bibliography::from(dossier_configuration.bibliography()));
        }
        if self.theme.is_none() {
            self.theme = Some(dossier_configuration.style().theme);
        }
    }

    /// Sets every option that is not set to its default: local images
    /// embedded, remote ones not, no compression, no remote addons, parallel
    /// compilation, strict image checks, no references, the default theme.
    pub fn fill_with_default(&mut self)
        ensures
            flags(final(self)) == (
                or_else(old(self).embed_local_image, true),
                or_else(old(self).embed_remote_image, false),
                or_else(old(self).compress_embed_image, false),
                or_else(old(self).strict_image_src_check, true),
                or_else(old(self).parallelization, true),
                or_else(old(self).use_remote_addons, false),
                or_else(old(self).theme, Theme::Light),
            ),
            old(self).references is Some ==> final(self).references == old(self).references,
            old(self).references is None ==> (final(self).references matches Some(v) && v@.len() == 0),
            final(self).bibliography == old(self).bibliography,
            final(self).format == old(self).format,
            final(self).input_location == old(self).input_location,
            final(self).output_location == old(self).output_location,
            final(self).fast_draft == old(self).fast_draft,
            final(self).documents_subset_to_compile == old(self).documents_subset_to_compile,
    {
        self.embed_local_image = keep_or(self.embed_local_image, true);
        self.embed_remote_image = keep_or(self.embed_remote_image, false);
        self.compress_embed_image = keep_or(self.compress_embed_image, false);
        self.use_remote_addons = keep_or(self.use_remote_addons, false);
        self.parallelization = keep_or(self.parallelization, true);
        self.strict_image_src_check = keep_or(self.strict_image_src_check, true);
        if self.references.is_none() {
            self.references = Some(Vec::new());
        }
        if self.theme.is_none() {
            self.theme = Some(Theme::default());
        }
    }
}

// ---------------------------------------------------------------------------
// Assembling and artifacts
// ---------------------------------------------------------------------------

/// How compiled documents are assembled into the output.
#[derive(Debug)]
pub struct AssemblerConfiguration {
    pub theme: Theme,
    pub use_remote_addons: bool,
    pub parallelization: bool,
    pub styles_raw_path: Vec<String>,
    pub preview: bool,
    pub watching: bool,
}

impl AssemblerConfiguration {
    pub fn new(theme: Theme, use_remote_addons: bool, parallelization: bool, preview: bool, watching: bool) -> (r: Self)
        ensures
            r.theme == theme,
            r.use_remote_addons == use_remote_addons,
            r.parallelization == parallelization,
            r.styles_raw_path@.len() == 0,
            r.preview == preview,
            r.watching == watching,
    {
        Self { theme, use_remote_addons, parallelization, styles_raw_path: Vec::new(), preview, watching }
    }

    /// The light theme, nothing else.
    pub fn default() -> (r: Self)
        ensures
            r.theme == Theme::Light,
            !r.use_remote_addons,
            !r.parallelization,
            r.styles_raw_path@.len() == 0,
            !r.preview,
            !r.watching,
    {
        Self::new(Theme::Light, false, false, false, false)
    }

    /// The assembling asked for by a dossier configuration: its theme, its
    /// remote addons and parallelization.
    pub fn from_dossier_configuration(dossier_configuration: &DossierConfiguration) -> (r: Self)
        ensures
            r.theme == dossier_configuration.style.theme,
            r.use_remote_addons == dossier_configuration.compilation.use_remote_addons,
            r.parallelization == dossier_configuration.compilation.parallelization,
            r.styles_raw_path@.len() == 0,
            !r.preview,
            !r.watching,
    {
        Self::new(
            dossier_configuration.style().theme,
            dossier_configuration.compilation().use_remote_addons(),
            dossier_configuration.compilation().parallelization(),
            false,
            false,
        )
    }
}

#[derive(Debug)]
pub enum ArtifactError {
    /// The output path must be an existing directory.
    OutputPathNotDir,
    ResourceError(crate::resource::ResourceError),
}

/// A compiled output.
#[derive(Debug, Clone)]
pub struct Artifact {
    pub content: String,
}

impl Artifact {
    pub fn new(content: String) -> (r: Self)
        ensures
            r.content == content,
    {
        Self { content }
    }

    pub fn content(&self) -> (r: &String)
        ensures
            r@ == self.content@,
    {
        &self.content
    }

    pub fn set_content(&mut self, content: String)
        ensures
            final(self).content == content,
    {
        self.content = content;
    }
}

impl From<Artifact> for String {
    /// The content of the artifact.
    fn from(artifact: Artifact) -> (r: String) {
        artifact.content
    }
}

impl vstd::std_specs::convert::FromSpecImpl<Artifact> for String {
    open spec fn obeys_from_spec() -> bool {
        true
    }

    open spec fn from_spec(artifact: Artifact) -> String {
        artifact.content
    }
}

/// The artifacts of a compilation and where they go.
#[derive(Debug)]
pub struct ArtifactsCollection {
    /// The style sheets and scripts written beside the artifacts, once set.
    pub assets: Option<crate::assembler::HtmlAssets>,
    pub artifacts: Vec<Artifact>,
    pub output_path: String,
}

impl ArtifactsCollection {
    /// An empty collection bound for `output_path`, which must be a
    /// directory (`output_path_is_dir` says whether it is).
    pub fn new(output_path: String, output_path_is_dir: bool) -> (r: Result<Self, ArtifactError>)
        ensures
            !output_path_is_dir ==> r matches Err(ArtifactError::OutputPathNotDir),
            output_path_is_dir ==> (r matches Ok(c) && c.artifacts@.len() == 0 && c.output_path
                == output_path && c.assets is None),
    {
        if !output_path_is_dir {
            return Err(ArtifactError::OutputPathNotDir);
        }
        Ok(Self { assets: None, artifacts: Vec::new(), output_path })
    }
}

#[derive(Debug)]
pub enum DumpError {
    ResourceError(crate::resource::ResourceError),
}

/// Where and how an artifact is written.
#[derive(Debug, Clone)]
pub struct DumpConfiguration {
    pub output_path: String,
    pub force_dump: bool,
}

impl DumpConfiguration {
    pub fn new(output_path: String, force_dump: bool) -> (r: Self)
        ensures
            r.output_path == output_path,
            r.force_dump == force_dump,
    {
        Self { output_path, force_dump }
    }

    pub fn output_path(&self) -> (r: &String)
        ensures
            r@ == self.output_path@,
    {
        &self.output_path
    }

    pub fn force_dump(&self) -> (r: bool)
        ensures
            r == self.force_dump,
    {
        self.force_dump
    }
}

} // verus!
