//! Building dossiers and documents from what a user asks for on the command
//! line: the options of a build, and how they become a compilation.
use vstd::prelude::*;

use crate::assembler::{HtmlAssets, StyleSource};
use crate::chapter::opt_view;
use crate::codex::{html_paragraph_rules, html_paragraph_rules_with, html_text_rules, rules_view, Codex};
use crate::image_rule::{sources_view, ImageSource};
use crate::codex_configuration::CodexConfiguration;
use crate::compiler::{
    document_compilable_by,
    document_compiled,
    dossier_compilable_in,
    dossier_compiled,
    CompilationError,
    Compiler,
};
use crate::configuration::{
    copy_references,
    flags,
    or_else,
    Artifact,
    Bibliography,
    CompilationConfiguration,
    DossierConfiguration,
    join_path,
    path_join,
    Theme,
};
use crate::document::Document;
use crate::document_parsing::Dossier;
use crate::output_format::OutputFormat;
use crate::text::{append_str, owned};

verus! {

/// The name of the artifact of a file: its stem, a dot and the extension of
/// the output format.
pub open spec fn output_file_name(stem: Seq<char>, extension: Seq<char>) -> Seq<char> {
    stem + "."@ + extension
}

/// Where the artifact of a build goes when no output path is given: a
/// dossier's into the dossier's directory; a file's, named after the file,
/// into the input when it is a directory, else beside the file (`parent`).
pub open spec fn default_output(
    input: Seq<char>,
    is_dossier: bool,
    input_is_dir: bool,
    stem: Seq<char>,
    parent: Seq<char>,
    extension: Seq<char>,
) -> Seq<char> {
    if is_dossier {
        input
    } else if input_is_dir {
        path_join(input, output_file_name(stem, extension))
    } else {
        path_join(parent, output_file_name(stem, extension))
    }
}

/// Where the artifact of a build goes when no output path is given; `stem`
/// and `parent` are the input's file stem and parent directory, and
/// `input_is_dir` whether the input is a directory.
pub fn default_output_location(
    input: &str,
    is_dossier: bool,
    input_is_dir: bool,
    stem: &str,
    parent: &str,
    extension: &str,
) -> (r: String)
    ensures
        r@ == default_output(input@, is_dossier, input_is_dir, stem@, parent@, extension@),
{
    if is_dossier {
        return owned(input);
    }
    let mut name = owned(stem);
    append_str(&mut name, ".");
    append_str(&mut name, extension);
    if input_is_dir {
        join_path(input, name.as_str())
    } else {
        join_path(parent, name.as_str())
    }
}

/// What a build takes as input.
#[derive(Debug, Clone, Copy, PartialEq, Eq, Structural)]
pub enum CompilableResourceType {
    Dossier,
    File,
    Unknown,
}

/// The options of a build, as the user gives them; those left unset come
/// from the dossier configuration or from the defaults.
#[derive(Debug)]
pub struct BuilderConfiguration {
    pub format: OutputFormat,
    pub input_location: String,
    pub output_location: String,
    pub force_output: Option<bool>,
    pub fast_draft: Option<bool>,
    pub embed_local_image: Option<bool>,
    pub embed_remote_image: Option<bool>,
    pub compress_embed_image: Option<bool>,
    pub strict_image_src_check: Option<bool>,
    pub parallelization: Option<bool>,
    pub use_remote_addons: Option<bool>,
    pub references: Option<Vec<(String, String)>>,
    pub documents_subset_to_compile: Option<Vec<String>>,
    pub bibliography: Option<Bibliography>,
    pub theme: Option<Theme>,
    pub styles_raw_path: Vec<String>,
    pub resource_type: CompilableResourceType,
    pub preview: Option<bool>,
    pub watching: Option<bool>,
    pub nuid: Option<bool>,
}

/// The options of a build that are either set or not, in the order of
/// `flags` for a compilation.
pub open spec fn builder_flags(b: &BuilderConfiguration) -> (
    Option<bool>,
    Option<bool>,
    Option<bool>,
    Option<bool>,
    Option<bool>,
    Option<bool>,
    Option<Theme>,
) {
    (
        b.embed_local_image,
        b.embed_remote_image,
        b.compress_embed_image,
        b.strict_image_src_check,
        b.parallelization,
        b.use_remote_addons,
        b.theme,
    )
}

/// Two bibliographies with the same title, keys and parsed content.
pub open spec fn same_bibliography(a: Bibliography, b: Bibliography) -> bool {
    &&& a.title@ == b.title@
    &&& a.entries@.len() == b.entries@.len()
    &&& forall|i: int| 0 <= i < a.entries@.len() ==> (#[trigger] a.entries@[i]).0@ == b.entries@[i].0@
    &&& opt_view(a.parsed_content) == opt_view(b.parsed_content)
}

fn copy_bibliography(b: &Bibliography) -> (r: Bibliography)
    ensures
        same_bibliography(r, *b),
{
    let mut entries: Vec<(String, crate::configuration::BibliographyEntry)> = Vec::new();
    let mut i: usize = 0;
    while i < b.entries.len()
        invariant
            i <= b.entries@.len(),
            entries@.len() == i,
            forall|j: int| 0 <= j < i ==> (#[trigger] entries@[j]).0@ == b.entries@[j].0@,
        decreases b.entries@.len() - i,
    {
        entries.push((b.entries[i].0.clone(), b.entries[i].1.clone()));
        i = i + 1;
    }
    let parsed_content = match &b.parsed_content {
        Some(p) => Some(p.clone()),
        None => None,
    };
    Bibliography { title: b.title.clone(), entries, parsed_content }
}

/// An option kept when set, else `fallback`.
fn keep(o: Option<bool>, fallback: bool) -> (r: Option<bool>)
    ensures
        r == or_else(o, fallback),
{
    match o {
        Some(v) => Some(v),
        None => Some(fallback),
    }
}

impl BuilderConfiguration {
    /// HTML, from and to the working directory; no fast draft, no forced
    /// output, no preview, no watching, no identifiers; every other option
    /// unset; the kind of input not known yet.
    pub fn default() -> (r: Self)
        ensures
            r.format == OutputFormat::Html,
            r.input_location@ == "."@,
            r.output_location@ == "."@,
            r.fast_draft == Some(false),
            r.force_output == Some(false),
            builder_flags(&r) == (
                None::<bool>,
                None::<bool>,
                None::<bool>,
                None::<bool>,
                None::<bool>,
                None::<bool>,
                None::<Theme>,
            ),
            r.references is None,
            r.documents_subset_to_compile is None,
            r.bibliography is None,
            r.styles_raw_path@.len() == 0,
            r.resource_type == CompilableResourceType::Unknown,
            r.preview == Some(false),
            r.watching == Some(false),
            r.nuid == Some(false),
    {
        Self {
            format: OutputFormat::Html,
            input_location: owned("."),
            output_location: owned("."),
            force_output: Some(false),
            fast_draft: Some(false),
            embed_local_image: None,
            embed_remote_image: None,
            compress_embed_image: None,
            strict_image_src_check: None,
            parallelization: None,
            use_remote_addons: None,
            references: None,
            documents_subset_to_compile: None,
            bibliography: None,
            theme: None,
            styles_raw_path: Vec::new(),
            resource_type: CompilableResourceType::Unknown,
            preview: Some(false),
            watching: Some(false),
            nuid: Some(false),
        }
    }

    /// The default options, reading `input_location` (a dossier when it is
    /// a directory, as `input_is_dir` says) into `output_location`.
    pub fn new(input_location: String, input_is_dir: bool, output_location: String) -> (r: Self)
        ensures
            r.input_location == input_location,
            r.output_location == output_location,
            r.resource_type == (if input_is_dir {
                CompilableResourceType::Dossier
            } else {
                CompilableResourceType::File
            }),
            r.format == OutputFormat::Html,
            builder_flags(&r) == (
                None::<bool>,
                None::<bool>,
                None::<bool>,
                None::<bool>,
                None::<bool>,
                None::<bool>,
                None::<Theme>,
            ),
    {
        let mut r = Self::default();
        r.output_location = output_location;
        r.set_input_location(input_location, input_is_dir);
        r
    }

    /// Sets the input, and the kind of input: a dossier when it is a
    /// directory (as `input_is_dir` says), else a file.
    pub fn set_input_location(&mut self, input_location: String, input_is_dir: bool)
        ensures
            final(self).input_location == input_location,
            final(self).resource_type == (if input_is_dir {
                CompilableResourceType::Dossier
            } else {
                CompilableResourceType::File
            }),
            final(self).output_location == old(self).output_location,
            final(self).format == old(self).format,
            builder_flags(final(self)) == builder_flags(old(self)),
    {
        if input_is_dir {
            self.resource_type = CompilableResourceType::Dossier;
        } else {
            self.resource_type = CompilableResourceType::File;
        }
        self.input_location = input_location;
    }

    /// The codex of the build's format, over the standard modifiers.
    pub fn codex(&self) -> (r: Codex)
        ensures
            rules_view(r.text_rules@) == html_text_rules(),
            rules_view(r.paragraph_rules@) == html_paragraph_rules(),
    {
        Codex::from(&self.format, CodexConfiguration::default())
    }

    /// The codex of the build's format, over the standard modifiers, its
    /// image rules with what was found of the image files.
    pub fn codex_with_images(&self, image_sources: &Vec<(String, ImageSource)>) -> (r: Codex)
        ensures
            rules_view(r.text_rules@) == html_text_rules(),
            rules_view(r.paragraph_rules@) == html_paragraph_rules_with(sources_view(image_sources@)),
    {
        match self.format {
            OutputFormat::Html => Codex::of_html_with_images(CodexConfiguration::default(), image_sources),
        }
    }

    /// The compilation the build asks for: its input and output, the image
    /// options, parallelization, fast draft, references and theme when set,
    /// and its bibliography; every other option unset.
    pub fn generate_compilation_configuration(&self) -> (r: CompilationConfiguration)
        ensures
            r.format == OutputFormat::Html,
            r.input_location@ == self.input_location@,
            r.output_location@ == self.output_location@,
            r.fast_draft == match self.fast_draft {
                Some(v) => v,
                None => false,
            },
            flags(&r) == (
                self.embed_local_image,
                self.embed_remote_image,
                self.compress_embed_image,
                self.strict_image_src_check,
                self.parallelization,
                None::<bool>,
                self.theme,
            ),
            self.references is None ==> r.references is None,
            self.references matches Some(v) ==> (r.references matches Some(w) && w@.len() == v@.len()
                && forall|i: int|
                0 <= i < w@.len() ==> (#[trigger] w@[i]).0@ == v@[i].0@ && w@[i].1@ == v@[i].1@),
            self.bibliography is None ==> r.bibliography is None,
            self.bibliography matches Some(b) ==> (r.bibliography matches Some(c) && same_bibliography(
                c,
                b,
            )),
            r.documents_subset_to_compile is None,
    {
        let mut c = CompilationConfiguration::new(
            OutputFormat::Html,
            self.input_location.clone(),
            self.output_location.clone(),
        );
        if let Some(v) = self.embed_local_image {
            c.embed_local_image = Some(v);
        }
        if let Some(v) = self.compress_embed_image {
            c.compress_embed_image = Some(v);
        }
        if let Some(v) = self.embed_remote_image {
            c.embed_remote_image = Some(v);
        }
        if let Some(v) = self.strict_image_src_check {
            c.strict_image_src_check = Some(v);
        }
        if let Some(v) = self.parallelization {
            c.parallelization = Some(v);
        }
        if let Some(v) = self.fast_draft {
            c.fast_draft = v;
        }
        if let Some(v) = &self.references {
            c.references = Some(copy_references(v));
        }
        c.bibliography = match &self.bibliography {
            Some(b) => Some(copy_bibliography(b)),
            None => None,
        };
        if let Some(t) = self.theme {
            c.theme = Some(t);
        }
        c
    }

    /// Sets every option that is not set to what the dossier configuration
    /// says.
    pub fn merge_dossier_configuration(&mut self, dossier_configuration: &DossierConfiguration)
        ensures
            builder_flags(final(self)) == (
                or_else(old(self).embed_local_image, dossier_configuration.compilation.embed_local_image),
                or_else(old(self).embed_remote_image, dossier_configuration.compilation.embed_remote_image),
                or_else(old(self).compress_embed_image, dossier_configuration.compilation.compress_embed_image),
                or_else(old(self).strict_image_src_check, dossier_configuration.compilation.strict_image_src_check),
                or_else(old(self).parallelization, dossier_configuration.compilation.parallelization),
                or_else(old(self).use_remote_addons, dossier_configuration.compilation.use_remote_addons),
                or_else(old(self).theme, dossier_configuration.style.theme),
            ),
            old(self).references is Some ==> final(self).references == old(self).references,
            old(self).references is None ==> (final(self).references matches Some(v) && v@.len()
                == dossier_configuration.references@.len() && forall|i: int|
                0 <= i < v@.len() ==> (#[trigger] v@[i]).0@ == dossier_configuration.references@[i].0@
                    && v@[i].1@ == dossier_configuration.references@[i].1@),
            old(self).bibliography is Some ==> final(self).bibliography == old(self).bibliography,
            old(self).bibliography is None ==> (final(self).bibliography matches Some(b) && b.title@
                == dossier_configuration.bibliography.title@ && b.entries@.len()
                == dossier_configuration.bibliography.entries@.len()),
            final(self).format == old(self).format,
            final(self).input_location == old(self).input_location,
            final(self).output_location == old(self).output_location,
            final(self).resource_type == old(self).resource_type,
    {
        let c = dossier_configuration.compilation();
        self.embed_local_image = keep(self.embed_local_image, c.embed_local_image());
        self.embed_remote_image = keep(self.embed_remote_image, c.embed_remote_image());
        self.compress_embed_image = keep(self.compress_embed_image, c.compress_embed_image());
        self.use_remote_addons = keep(self.use_remote_addons, c.use_remote_addons());
        self.parallelization = keep(self.parallelization, c.parallelization());
        self.strict_image_src_check = keep(self.strict_image_src_check, c.strict_image_src_check());
        if self.references.is_none() {
            self.references = Some(copy_references(dossier_configuration.references()));
        }
        if self.bibliography.is_none() {
            self.bibliography = Some(Bibliography::from(dossier_configuration.bibliography()));
        }
        if self.theme.is_none() {
            self.theme = Some(dossier_configuration.style().theme);
        }
    }

    /// Sets every option that is not set to its default: no image embedded
    /// or compressed, no remote addons, no parallelization, strict image
    /// checks, no references, the default theme.
    pub fn fill_with_default(&mut self)
        ensures
            builder_flags(final(self)) == (
                or_else(old(self).embed_local_image, false),
                or_else(old(self).embed_remote_image, false),
                or_else(old(self).compress_embed_image, false),
                or_else(old(self).strict_image_src_check, true),
                or_else(old(self).parallelization, false),
                or_else(old(self).use_remote_addons, false),
                or_else(old(self).theme, Theme::Light),
            ),
            old(self).references is Some ==> final(self).references == old(self).references,
            old(self).references is None ==> (final(self).references matches Some(v) && v@.len() == 0),
            final(self).bibliography == old(self).bibliography,
            final(self).format == old(self).format,
            final(self).input_location == old(self).input_location,
            final(self).output_location == old(self).output_location,
            final(self).resource_type == old(self).resource_type,
    {
        self.embed_local_image = keep(self.embed_local_image, false);
        self.embed_remote_image = keep(self.embed_remote_image, false);
        self.compress_embed_image = keep(self.compress_embed_image, false);
        self.use_remote_addons = keep(self.use_remote_addons, false);
        self.parallelization = keep(self.parallelization, false);
        self.strict_image_src_check = keep(self.strict_image_src_check, true);
        if self.references.is_none() {
            self.references = Some(Vec::new());
        }
        if self.theme.is_none() {
            self.theme = Some(Theme::default());
        }
    }
}

/// Builds dossiers and documents as a build asks.
pub struct Builder {}

impl Builder {
    /// Builds a loaded dossier: compiles it with the compilation the build
    /// asks for, in the build's theme (else the dossier's).
    pub fn build_dossier(
        dossier: &mut Dossier,
        builder_configuration: &BuilderConfiguration,
        codex: &Codex,
        assets: HtmlAssets,
        styles: &Vec<StyleSource>,
    ) -> (r: Result<Artifact, CompilationError>)
        requires
            dossier_compilable_in(
                codex,
                *old(dossier),
                (builder_configuration.embed_remote_image, builder_configuration.strict_image_src_check),
                or_else(builder_configuration.theme, old(dossier).configuration.style.theme)->0,
            ),
        ensures
            dossier_compiled(
                codex,
                *old(dossier),
                *final(dossier),
                (builder_configuration.embed_remote_image, builder_configuration.strict_image_src_check),
                or_else(builder_configuration.theme, old(dossier).configuration.style.theme)->0,
                assets,
                styles@,
                r,
            ),
    {
        let compilation = builder_configuration.generate_compilation_configuration();
        Compiler::compile_dossier(compilation, codex, dossier, assets, styles)
    }

    /// Builds a loaded document on its own.
    pub fn build_document(
        document: &mut Document,
        builder_configuration: &BuilderConfiguration,
        codex: &Codex,
    ) -> (r: Result<Artifact, CompilationError>)
        requires
            document_compilable_by(
                codex,
                old(document)@,
                (builder_configuration.embed_remote_image, builder_configuration.strict_image_src_check),
            ),
        ensures
            document_compiled(
                codex,
                old(document)@,
                final(document)@,
                (builder_configuration.embed_remote_image, builder_configuration.strict_image_src_check),
                r,
            ),
    {
        let compilation = builder_configuration.generate_compilation_configuration();
        Compiler::compile_document(compilation, codex, document)
    }
}

} // verus!
