//! Loading dossiers from what was read of their files, and compiling
//! dossiers and documents into artifacts.
//!
//! Reading files is left to the caller: the functions here take what
//! reading gave, the text of each file or the error met.
use std::path::Path;
use vstd::prelude::*;

use crate::assembler::{
    document_body,
    documents_bodies,
    dossier_page,
    page_theme,
    AssemblerError,
    HtmlAssembler,
    HtmlAssets,
    StyleSource,
};
use crate::chapter::{paragraphs_view, Paragraph};
use crate::codex::{rule_for, rules_view, Codex};
use crate::codex_configuration::ModifierView;
use crate::configuration::{
    or_else,
    strings_of,
    Artifact,
    AssemblerConfiguration,
    CompilationConfiguration,
    DossierConfiguration,
    DumpError,
    Theme,
};
use crate::document::{chapters_view, ChapterView, Document};
use crate::document_parsing::{
    all_parsable,
    chapters_parsable,
    document_after,
    documents_after,
    documents_parsable,
    documents_view,
    paragraph_parsable,
    text_parsable,
    Dossier,
};
use crate::loader::{loaded_document, LoadError, Loader, ParagraphView};
use crate::modifier::BucketView;
use crate::parser::rules_total;
use crate::parsing::{bullets_view, duplicate_bullets, spec_default_bullets, OptionsView, ParsingError};
use crate::parsing_rule::{quote_line, ParsingRule};
use crate::resource::ResourceError;
use crate::text::{append_str, lines, lines_of, owned, to_chars};

verus! {

/// A character of a plain file name: an ASCII letter or digit, `.`, `_`
/// or `-`.
pub open spec fn plain_name_char(c: char) -> bool {
    ('a' <= c && c <= 'z') || ('A' <= c && c <= 'Z') || ('0' <= c && c <= '9') || c == '.' || c
        == '_' || c == '-'
}

/// Whether a text is `.` or `..`.
pub open spec fn is_dot_name(s: Seq<char>) -> bool {
    (s.len() == 1 && s[0] == '.') || (s.len() == 2 && s[0] == '.' && s[1] == '.')
}

/// A plain file name: not empty, made of plain characters only, and neither
/// `.` nor `..`. Such a path is its own file name on every platform.
pub open spec fn plain_name(s: Seq<char>) -> bool {
    &&& s.len() > 0
    &&& !is_dot_name(s)
    &&& forall|i: int| 0 <= i < s.len() ==> plain_name_char(#[trigger] s[i])
}

/// What holds of a file name `n` taken of `path` on every platform: it is
/// not empty, neither `.` nor `..`, a contiguous piece of the path, and,
/// unless the path starts with a backslash (where a Windows verbatim prefix
/// makes `/` an ordinary character), it holds no `/`.
pub open spec fn file_name_shape(n: Seq<char>, path: Seq<char>) -> bool {
    &&& n.len() > 0
    &&& !is_dot_name(n)
    &&& exists|i: int| 0 <= i && i + n.len() <= path.len() && #[trigger] path.subrange(i, i + n.len()) == n
    &&& (path.len() == 0 || path[0] != '\\') ==> forall|j: int| 0 <= j < n.len() ==> #[trigger] n[j] != '/'
}

/// What holds of the file name `name` found for `path` (`None` when there
/// is none): a found name has the shape of a file name of the path, and a
/// plain path is its own file name.
pub open spec fn file_name_found(name: Option<Seq<char>>, path: Seq<char>) -> bool {
    &&& name matches Some(n) ==> file_name_shape(n, path)
    &&& plain_name(path) ==> name == Some(path)
}

/// `Path::file_name` of a path, as text (lossily converted): the last
/// component of the path, `None` when there is none or the path ends in
/// `..`. Which characters separate components depends on the platform, so
/// only what holds on every platform is stated: a name found is a non-empty
/// piece of the path other than `.` and `..`, holding no `/` (unless the
/// path starts with a backslash), and a plain name is its own file name.
#[verifier::external_body]
pub(crate) fn file_name_of(path: &str) -> (r: Option<String>)
    ensures
        r matches Some(n) ==> file_name_shape(n@, path@),
        r matches Some(n) ==> (plain_name(path@) ==> n@ == path@),
        r is Some || !plain_name(path@),
{
    match Path::new(path).file_name() {
        Some(name) => Some(name.to_string_lossy().to_string()),
        None => None,
    }
}

/// The variant of a load error, numbered, and its text.
pub open spec fn load_error_view(e: LoadError) -> (nat, Seq<char>) {
    match e {
        LoadError::ResourceError(ResourceError::ResourceNotFound(s)) => (0, s@),
        LoadError::ResourceError(ResourceError::InvalidResourceVerbose(s)) => (1, s@),
        LoadError::ElaborationError(s) => (2, s@),
        LoadError::IoError(s) => (3, s@),
    }
}

/// The text of a load error: what it carries; an elaboration error is
/// prefixed as such.
pub open spec fn load_error_text(e: LoadError) -> Seq<char> {
    match e {
        LoadError::ElaborationError(s) => "elaboration error: "@ + s@,
        _ => load_error_view(e).1,
    }
}

/// The text of a load error.
pub fn load_error_text_of(e: &LoadError) -> (r: String)
    ensures
        r@ == load_error_text(*e),
{
    match e {
        LoadError::ResourceError(ResourceError::ResourceNotFound(s)) => s.clone(),
        LoadError::ResourceError(ResourceError::InvalidResourceVerbose(s)) => s.clone(),
        LoadError::ElaborationError(s) => {
            let mut r = owned("elaboration error: ");
            append_str(&mut r, s.as_str());
            r
        },
        LoadError::IoError(s) => s.clone(),
    }
}

impl Clone for LoadError {
    /// A copy of the error; an I/O error becomes an elaboration error with
    /// the same text.
    fn clone(&self) -> (r: Self)
        ensures
            self is IoError ==> load_error_view(r) == (2nat, load_error_view(*self).1),
            !(self is IoError) ==> load_error_view(r) == load_error_view(*self),
    {
        match self {
            LoadError::ResourceError(ResourceError::ResourceNotFound(s)) => LoadError::ResourceError(
                ResourceError::ResourceNotFound(s.clone()),
            ),
            LoadError::ResourceError(ResourceError::InvalidResourceVerbose(s)) => LoadError::ResourceError(
                ResourceError::InvalidResourceVerbose(s.clone()),
            ),
            LoadError::ElaborationError(s) => LoadError::ElaborationError(s.clone()),
            LoadError::IoError(s) => LoadError::ElaborationError(s.clone()),
        }
    }
}

/// The mathematical value of a document: name, preamble, chapters.
pub type DocumentView = (Seq<char>, Seq<ParagraphView>, Seq<ChapterView>);

/// The documents loaded from what was read of their files, in order, until
/// the first failure: a file that could not be read gives its error
/// (`Some`); one whose text gives no document gives `None`.
pub open spec fn documents_loaded(
    read: Seq<Result<(String, String), LoadError>>,
    chapter_modifiers: Seq<ModifierView>,
    paragraph_modifiers: Seq<ModifierView>,
) -> Result<Seq<DocumentView>, Option<LoadError>>
    decreases read.len(),
{
    if read.len() == 0 {
        Ok(Seq::empty())
    } else {
        match read[0] {
            Err(e) => Err(Some(e)),
            Ok((name, content)) => match loaded_document(
                name@,
                content@,
                chapter_modifiers,
                paragraph_modifiers,
            ) {
                None => Err(None),
                Some(d) => match documents_loaded(
                    read.drop_first(),
                    chapter_modifiers,
                    paragraph_modifiers,
                ) {
                    Ok(ds) => Ok(seq![d] + ds),
                    Err(x) => Err(x),
                },
            },
        }
    }
}

/// What loading a dossier gives from what was read of its documents: an
/// error when it has no documents or no name; otherwise the documents
/// loaded in order, or the first failure.
pub open spec fn dossier_outcome(
    r: Result<Dossier, LoadError>,
    dossier_configuration: DossierConfiguration,
    read: Seq<Result<(String, String), LoadError>>,
    chapter_modifiers: Seq<ModifierView>,
    paragraph_modifiers: Seq<ModifierView>,
) -> bool {
    if dossier_configuration.raw_documents_paths@.len() == 0 {
        r matches Err(LoadError::ResourceError(ResourceError::InvalidResourceVerbose(m)))
            && m@ == "there are no documents"@
    } else if dossier_configuration.name@.len() == 0 {
        r matches Err(LoadError::ResourceError(ResourceError::InvalidResourceVerbose(m)))
            && m@ == "there is no name"@
    } else {
        match documents_loaded(read, chapter_modifiers, paragraph_modifiers) {
            Ok(ds) => r matches Ok(d) && d.configuration == dossier_configuration
                && documents_view(d.documents@) == ds && d.bibliography is None,
            Err(Some(e)) => r matches Err(f) && f == e,
            Err(None) => r matches Err(LoadError::ElaborationError(t)) && t@ == "heading"@,
        }
    }
}

/// How what was read of each document's path becomes the name and text of
/// the document: a read error stays; a text is named after the file (a
/// plain path after itself), or the path, without a file name, is an
/// invalid resource (never a plain path).
pub open spec fn named_reads(
    read: Seq<(String, Result<String, LoadError>)>,
    named: Seq<Result<(String, String), LoadError>>,
) -> bool {
    &&& named.len() == read.len()
    &&& forall|i: int|
        0 <= i < read.len() ==> match (#[trigger] read[i]).1 {
            Err(e) => named[i] == Err::<(String, String), LoadError>(e),
            Ok(c) => (named[i] matches Ok((n, t)) && t@ == c@ && file_name_found(
                Some(n@),
                read[i].0@,
            )) || (named[i] matches Err(
                LoadError::ResourceError(ResourceError::InvalidResourceVerbose(p)),
            ) && p@ == read[i].0@ && !plain_name(read[i].0@)),
        }
}

impl Loader {
    /// Loads a document from the text of its file under the given name; a
    /// text that gives no document is an elaboration error.
    pub fn load_document_named(&self, codex: &Codex, name: &str, content: &str) -> (r: Result<
        Document,
        LoadError,
    >)
        ensures
            match loaded_document(name@, content@, codex.configuration@.2, codex.configuration@.1) {
                Some(d) => r matches Ok(doc) && doc@ == d,
                None => r matches Err(LoadError::ElaborationError(t)) && t@ == "heading"@,
            },
    {
        match self.load_document_from_str(codex, name, content) {
            Ok(d) => Ok(d),
            Err(e) => Err(LoadError::ElaborationError(load_error_text_of(&e))),
        }
    }

    /// Loads a document from its file: `content` is what reading the file
    /// gave. The document is named after the file (`Path::file_name`); a
    /// path without a file name is an invalid resource. A plain file name is
    /// its own name on every platform, so the document it gives is stated
    /// exactly.
    pub fn load_document_from_path(
        &self,
        codex: &Codex,
        path: &str,
        content: Result<String, LoadError>,
    ) -> (r: Result<Document, LoadError>)
        ensures
            content matches Err(e) ==> (r matches Err(f) && f == e),
            content matches Ok(c) ==> match r {
                Ok(doc) => file_name_found(Some(doc@.0), path@) && loaded_document(
                    doc@.0,
                    c@,
                    codex.configuration@.2,
                    codex.configuration@.1,
                ) == Some(doc@),
                Err(LoadError::ElaborationError(t)) => t@ == "heading"@ && exists|n: Seq<char>|
                    #[trigger] file_name_found(Some(n), path@) && loaded_document(
                        n,
                        c@,
                        codex.configuration@.2,
                        codex.configuration@.1,
                    ) is None,
                Err(LoadError::ResourceError(ResourceError::InvalidResourceVerbose(p))) => p@
                    == path@ && !plain_name(path@),
                _ => false,
            },
            content matches Ok(c) ==> (plain_name(path@) ==> match loaded_document(
                path@,
                c@,
                codex.configuration@.2,
                codex.configuration@.1,
            ) {
                Some(d) => r matches Ok(doc) && doc@ == d,
                None => r matches Err(LoadError::ElaborationError(t)) && t@ == "heading"@,
            }),
    {
        let text = match content {
            Ok(c) => c,
            Err(e) => {
                return Err(e);
            },
        };
        match file_name_of(path) {
            Some(name) => {
                let r = self.load_document_named(codex, name.as_str(), text.as_str());
                proof {
                    assert(file_name_found(Some(name@), path@));
                    if r is Ok {
                        assert(loaded_document(name@, text@, codex.configuration@.2, codex.configuration@.1) is Some);
                    }
                }
                r
            },
            None => Err(LoadError::ResourceError(ResourceError::InvalidResourceVerbose(owned(path)))),
        }
    }

    /// Loads a dossier from what was read of its documents, in the order of
    /// its documents' paths: the name and text of each document, or the
    /// error met reading it. A dossier without documents, or without a
    /// name, cannot be loaded; otherwise the first document that cannot be
    /// loaded makes the dossier fail.
    #[verifier::loop_isolation(false)]
    #[verifier::spinoff_prover]
    pub fn load_dossier_from_documents(
        &self,
        codex: &Codex,
        dossier_configuration: DossierConfiguration,
        read: Vec<Result<(String, String), LoadError>>,
    ) -> (r: Result<Dossier, LoadError>)
        ensures
            dossier_outcome(
                r,
                dossier_configuration,
                read@,
                codex.configuration@.2,
                codex.configuration@.1,
            ),
    {
        if dossier_configuration.raw_documents_paths.len() == 0 {
            return Err(
                LoadError::ResourceError(
                    ResourceError::InvalidResourceVerbose(owned("there are no documents")),
                ),
            );
        }
        if dossier_configuration.name.as_str().is_empty() {
            return Err(
                LoadError::ResourceError(
                    ResourceError::InvalidResourceVerbose(owned("there is no name")),
                ),
            );
        }
        let ghost cmv = codex.configuration@.2;
        let ghost pmv = codex.configuration@.1;
        let ghost all = read@;
        let mut read = read;
        let mut documents: Vec<Document> = Vec::new();
        proof {
            if let Ok(ds) = documents_loaded(all, cmv, pmv) {
                assert(documents_view(documents@) + ds =~= ds);
            }
        }
        while read.len() > 0
            invariant
                cmv == codex.configuration@.2,
                pmv == codex.configuration@.1,
                dossier_configuration.raw_documents_paths@.len() > 0,
                dossier_configuration.name@.len() > 0,
                match documents_loaded(read@, cmv, pmv) {
                    Ok(ds) => documents_loaded(all, cmv, pmv) == Ok::<
                        Seq<DocumentView>,
                        Option<LoadError>,
                    >(documents_view(documents@) + ds),
                    Err(x) => documents_loaded(all, cmv, pmv) == Err::<
                        Seq<DocumentView>,
                        Option<LoadError>,
                    >(x),
                },
            decreases read@.len(),
        {
            let ghost before = read@;
            let item = read.remove(0);
            proof {
                assert(read@ =~= before.drop_first());
                assert(before[0] == item);
            }
            match item {
                Err(e) => {
                    proof {
                        assert(documents_loaded(before, cmv, pmv) == Err::<
                            Seq<DocumentView>,
                            Option<LoadError>,
                        >(Some(e)));
                    }
                    return Err(e);
                },
                Ok((name, content)) => {
                    let document = match self.load_document_named(
                        codex,
                        name.as_str(),
                        content.as_str(),
                    ) {
                        Ok(d) => d,
                        Err(e) => {
                            proof {
                                assert(documents_loaded(before, cmv, pmv) == Err::<
                                    Seq<DocumentView>,
                                    Option<LoadError>,
                                >(None));
                            }
                            return Err(e);
                        },
                    };
                    let ghost prev = documents_view(documents@);
                    documents.push(document);
                    proof {
                        assert(documents_view(documents@) =~= prev.push(document@));
                        if let Ok(ds) = documents_loaded(read@, cmv, pmv) {
                            assert(prev + (seq![document@] + ds) =~= documents_view(documents@) + ds);
                        }
                    }
                },
            }
        }
        proof {
            assert(documents_view(documents@) + Seq::<DocumentView>::empty() =~= documents_view(
                documents@,
            ));
        }
        Ok(Dossier::new(dossier_configuration, documents))
    }

    /// Loads a dossier from what was read of its documents' paths, in
    /// order: each path and the text read from it, or the error met. Each
    /// document is named after its file, as `load_document_from_path` does.
    pub fn load_dossier_from_dossier_configuration(
        &self,
        codex: &Codex,
        dossier_configuration: DossierConfiguration,
        read: Vec<(String, Result<String, LoadError>)>,
    ) -> (r: Result<Dossier, LoadError>)
        ensures
            exists|named: Seq<Result<(String, String), LoadError>>|
                named_reads(read@, named) && dossier_outcome(
                    r,
                    dossier_configuration,
                    named,
                    codex.configuration@.2,
                    codex.configuration@.1,
                ),
    {
        let ghost all = read@;
        let total = read.len();
        let mut read = read;
        let mut named: Vec<Result<(String, String), LoadError>> = Vec::new();
        let mut i: usize = 0;
        while read.len() > 0
            invariant
                all.len() == total,
                i + read@.len() == all.len(),
                named@.len() == i,
                read@ == all.skip(i as int),
                forall|j: int|
                    0 <= j < i ==> match (#[trigger] all[j]).1 {
                        Err(e) => named@[j] == Err::<(String, String), LoadError>(e),
                        Ok(c) => (named@[j] matches Ok((n, t)) && t@ == c@ && file_name_found(
                            Some(n@),
                            all[j].0@,
                        )) || (named@[j] matches Err(
                            LoadError::ResourceError(ResourceError::InvalidResourceVerbose(p)),
                        ) && p@ == all[j].0@ && !plain_name(all[j].0@)),
                    },
            decreases read@.len(),
        {
            let ghost before = read@;
            let (path, content) = read.remove(0);
            proof {
                assert(before[0] == all[i as int]);
                assert(read@ =~= all.skip(i + 1));
            }
            let entry = match content {
                Err(e) => Err(e),
                Ok(text) => match file_name_of(path.as_str()) {
                    Some(name) => Ok((name, text)),
                    None => Err(LoadError::ResourceError(ResourceError::InvalidResourceVerbose(path))),
                },
            };
            named.push(entry);
            i = i + 1;
        }
        let ghost witness = named@;
        let r = self.load_dossier_from_documents(codex, dossier_configuration, named);
        proof {
            assert(named_reads(all, witness));
        }
        r
    }
}

/// The paths kept: those whose file name is one of `only`.
pub open spec fn kept_paths(
    paths: Seq<Seq<char>>,
    names: Seq<Seq<char>>,
    only: Seq<Seq<char>>,
) -> Seq<Seq<char>>
    decreases paths.len(),
{
    if paths.len() == 0 {
        Seq::empty()
    } else {
        let rest = kept_paths(paths.drop_last(), names.drop_last(), only);
        if only.contains(names.last()) {
            rest.push(paths.last())
        } else {
            rest
        }
    }
}

/// Whether a text is one of the texts.
pub(crate) fn is_one_of(s: &String, texts: &Vec<String>) -> (r: bool)
    ensures
        r == strings_of(texts@).contains(s@),
{
    let mut i: usize = 0;
    while i < texts.len()
        invariant
            i <= texts@.len(),
            forall|j: int| 0 <= j < i ==> texts@[j]@ != s@,
        decreases texts@.len() - i,
    {
        if texts[i].eq(s) {
            proof {
                assert(strings_of(texts@)[i as int] == s@);
            }
            return true;
        }
        i = i + 1;
    }
    proof {
        if strings_of(texts@).contains(s@) {
            let j = choose|j: int| 0 <= j < strings_of(texts@).len() && strings_of(texts@)[j] == s@;
            assert(texts@[j]@ == s@);
        }
    }
    false
}

/// The paths whose file name (`names`, one per path) is one of `only`, in
/// order.
pub fn select_documents(paths: &Vec<String>, names: &Vec<String>, only: &Vec<String>) -> (r: Vec<
    String,
>)
    requires
        names@.len() == paths@.len(),
    ensures
        strings_of(r@) == kept_paths(strings_of(paths@), strings_of(names@), strings_of(only@)),
{
    let mut r: Vec<String> = Vec::new();
    let mut i: usize = 0;
    proof {
        assert(strings_of(paths@).take(0) =~= Seq::<Seq<char>>::empty());
    }
    while i < paths.len()
        invariant
            i <= paths@.len() == names@.len(),
            strings_of(r@) == kept_paths(
                strings_of(paths@).take(i as int),
                strings_of(names@).take(i as int),
                strings_of(only@),
            ),
        decreases paths@.len() - i,
    {
        let ghost pv = strings_of(paths@);
        let ghost nv = strings_of(names@);
        proof {
            assert(pv.take(i + 1).drop_last() =~= pv.take(i as int));
            assert(nv.take(i + 1).drop_last() =~= nv.take(i as int));
            assert(pv.take(i + 1).last() == paths@[i as int]@);
            assert(nv.take(i + 1).last() == names@[i as int]@);
        }
        if is_one_of(&names[i], only) {
            let ghost before = strings_of(r@);
            r.push(paths[i].clone());
            proof {
                assert(strings_of(r@) =~= before.push(paths@[i as int]@));
            }
        }
        i = i + 1;
    }
    proof {
        assert(strings_of(paths@).take(i as int) =~= strings_of(paths@));
        assert(strings_of(names@).take(i as int) =~= strings_of(names@));
    }
    r
}

/// Whether `names` are file names found for `paths`, one per path.
pub open spec fn names_found(names: Seq<Seq<char>>, paths: Seq<Seq<char>>) -> bool {
    &&& names.len() == paths.len()
    &&& forall|i: int| 0 <= i < paths.len() ==> file_name_found(Some(#[trigger] names[i]), paths[i])
}

/// Whether every path is a plain file name.
pub open spec fn all_plain(paths: Seq<Seq<char>>) -> bool {
    forall|i: int| 0 <= i < paths.len() ==> plain_name(#[trigger] paths[i])
}

impl Loader {
    /// Keeps, of the documents of a dossier configuration, those whose file
    /// name (`Path::file_name`) is one of `only_documents`. A path without a
    /// file name is an invalid resource, and the configuration is left as
    /// it was. Paths that are plain file names are their own names, so with
    /// such paths the documents kept are stated exactly.
    #[verifier::spinoff_prover]
    pub fn keep_only_documents(
        &self,
        dossier_configuration: &mut DossierConfiguration,
        only_documents: &Vec<String>,
    ) -> (r: Result<(), LoadError>)
        ensures
            r is Ok ==> exists|names: Seq<Seq<char>>|
                #[trigger] names_found(names, strings_of(old(dossier_configuration).raw_documents_paths@))
                    && strings_of(final(dossier_configuration).raw_documents_paths@) == kept_paths(
                    strings_of(old(dossier_configuration).raw_documents_paths@),
                    names,
                    strings_of(only_documents@),
                ),
            all_plain(strings_of(old(dossier_configuration).raw_documents_paths@)) ==> (r is Ok
                && strings_of(final(dossier_configuration).raw_documents_paths@) == kept_paths(
                strings_of(old(dossier_configuration).raw_documents_paths@),
                strings_of(old(dossier_configuration).raw_documents_paths@),
                strings_of(only_documents@),
            )),
            r matches Err(e) ==> (e matches LoadError::ResourceError(
                ResourceError::InvalidResourceVerbose(p),
            ) && strings_of(old(dossier_configuration).raw_documents_paths@).contains(p@)
                && !plain_name(p@)
                && final(dossier_configuration).raw_documents_paths
                == old(dossier_configuration).raw_documents_paths),
            final(dossier_configuration).name == old(dossier_configuration).name,
            final(dossier_configuration).compilation == old(dossier_configuration).compilation,
            final(dossier_configuration).references == old(dossier_configuration).references,
            final(dossier_configuration).reference_manager == old(
                dossier_configuration,
            ).reference_manager,
    {
        let ghost pv = strings_of(dossier_configuration.raw_documents_paths@);
        let mut names: Vec<String> = Vec::new();
        let mut i: usize = 0;
        while i < dossier_configuration.raw_documents_paths.len()
            invariant
                i <= dossier_configuration.raw_documents_paths@.len(),
                pv == strings_of(dossier_configuration.raw_documents_paths@),
                names@.len() == i,
                forall|j: int| 0 <= j < i ==> file_name_found(Some(#[trigger] names@[j]@), pv[j]),
            decreases dossier_configuration.raw_documents_paths@.len() - i,
        {
            proof {
                assert(pv[i as int] == dossier_configuration.raw_documents_paths@[i as int]@);
            }
            match file_name_of(dossier_configuration.raw_documents_paths[i].as_str()) {
                Some(n) => {
                    let ghost before = names@;
                    names.push(n);
                    proof {
                        assert forall|j: int| 0 <= j < i + 1 implies file_name_found(
                            Some(#[trigger] names@[j]@),
                            pv[j],
                        ) by {
                            if j < i {
                                assert(names@[j] == before[j]);
                            }
                        }
                    }
                },
                None => {
                    return Err(
                        LoadError::ResourceError(
                            ResourceError::InvalidResourceVerbose(
                                dossier_configuration.raw_documents_paths[i].clone(),
                            ),
                        ),
                    );
                },
            }
            i = i + 1;
        }
        let ghost nv = strings_of(names@);
        proof {
            assert forall|j: int| 0 <= j < pv.len() implies file_name_found(Some(#[trigger] nv[j]), pv[j]) by {
                assert(nv[j] == names@[j]@);
            }
            assert(names_found(nv, pv));
            if all_plain(pv) {
                assert forall|j: int| 0 <= j < pv.len() implies nv[j] == pv[j] by {
                    assert(plain_name(pv[j]));
                    assert(nv[j] == names@[j]@);
                    assert(file_name_found(Some(names@[j]@), pv[j]));
                }
                assert(nv =~= pv);
            }
        }
        let kept = select_documents(&dossier_configuration.raw_documents_paths, &names, only_documents);
        dossier_configuration.set_raw_documents_paths(kept);
        Ok(())
    }
}

// ---------------------------------------------------------------------------
// Compiling
// ---------------------------------------------------------------------------

/// Why a compilation failed.
#[derive(Debug)]
pub enum CompilationError {
    Unknown(String),
    LoadError(LoadError),
    ParsingError(ParsingError),
    AssemblerError(AssemblerError),
    DumpError(DumpError),
}

/// The image options a compilation asks for, each unset or set: embedding
/// remote images, strict image source checks.
pub type ImageOptions = (Option<bool>, Option<bool>);

/// The image options of a compilation configuration.
pub open spec fn image_options(compilation_configuration: CompilationConfiguration) -> ImageOptions {
    (compilation_configuration.embed_remote_image, compilation_configuration.strict_image_src_check)
}

/// The options under which a dossier's documents are parsed: no modifier
/// excluded, the dossier's list bullets and list strictness, focus blocks
/// checked leniently; the image options asked for, else the dossier's.
pub open spec fn dossier_options(
    dossier_configuration: DossierConfiguration,
    images: ImageOptions,
) -> OptionsView {
    (
        BucketView::Nothing,
        bullets_view(dossier_configuration.style.list_bullets_configuration@),
        dossier_configuration.compilation.strict_list_check,
        false,
        or_else(images.0, dossier_configuration.compilation.embed_remote_image)->0,
        or_else(images.1, dossier_configuration.compilation.strict_image_src_check)->0,
    )
}

/// The options under which a single document is parsed: the defaults, and
/// the image options asked for, else theirs (remote images linked, strict
/// source checks).
pub open spec fn document_options(images: ImageOptions) -> OptionsView {
    (
        BucketView::Nothing,
        spec_default_bullets(),
        false,
        false,
        or_else(images.0, false)->0,
        or_else(images.1, true)->0,
    )
}

/// The theme of a dossier's compilation: the compilation's own when set,
/// else the dossier's.
pub open spec fn dossier_theme(
    compilation_configuration: CompilationConfiguration,
    dossier_configuration: DossierConfiguration,
) -> Theme {
    or_else(compilation_configuration.theme, dossier_configuration.style.theme)->0
}

/// Whether a dossier can be compiled: the text rules take any text and
/// every paragraph can be parsed, under the options a dossier is compiled
/// with; and, when parsing succeeds on a dossier with documents, the theme
/// has a page style.
pub open spec fn dossier_compilable_in(
    codex: &Codex,
    dossier: Dossier,
    images: ImageOptions,
    theme: Theme,
) -> bool {
    &&& text_parsable(codex, dossier_options(dossier.configuration, images))
    &&& documents_parsable(
        codex,
        dossier_options(dossier.configuration, images),
        documents_view(dossier.documents@),
    )
    &&& documents_after(
        codex,
        dossier_options(dossier.configuration, images),
        documents_view(dossier.documents@),
    ).1 is None && dossier.documents@.len() > 0 ==> page_theme(theme)
}

/// What compiling a dossier gives: its documents parsed in order until the
/// first failure, which is the error; else its page, assembled in `theme`
/// with the dossier's remote addons setting, the assets and the style
/// sheets (an error without documents, or with an element not parsed).
pub open spec fn dossier_compiled(
    codex: &Codex,
    before: Dossier,
    after: Dossier,
    images: ImageOptions,
    theme: Theme,
    assets: HtmlAssets,
    styles: Seq<StyleSource>,
    r: Result<Artifact, CompilationError>,
) -> bool {
    let parsed = documents_after(
        codex,
        dossier_options(before.configuration, images),
        documents_view(before.documents@),
    );
    &&& after.configuration == before.configuration
    &&& parsed.0 == documents_view(after.documents@)
    &&& match parsed.1 {
        Some(e) => r matches Err(CompilationError::ParsingError(pe)) && pe@ == e,
        None => if before.documents@.len() == 0 {
            r matches Err(CompilationError::AssemblerError(AssemblerError::TooFewElements(m)))
                && m@ == "there are no documents"@
        } else {
            match documents_bodies(documents_view(after.documents@)) {
                Some(bodies) => r matches Ok(a) && a.content@ == dossier_page(
                    before.configuration.name@,
                    before.configuration.compilation.use_remote_addons,
                    theme,
                    assets,
                    styles,
                    bodies,
                ),
                None => r matches Err(
                    CompilationError::AssemblerError(AssemblerError::ParsedContentNotFound),
                ),
            }
        },
    }
}

/// Whether a document can be compiled on its own: the text rules take any
/// text and every paragraph can be parsed, under the default options.
pub open spec fn document_compilable_by(
    codex: &Codex,
    document: DocumentView,
    images: ImageOptions,
) -> bool {
    &&& text_parsable(codex, document_options(images))
    &&& all_parsable(codex, document_options(images), document.1)
    &&& chapters_parsable(codex, document_options(images), document.2)
}

/// What compiling a document on its own gives: the document parsed with the
/// default options until the first failure, which is the error; else the
/// document assembled.
pub open spec fn document_compiled(
    codex: &Codex,
    before: DocumentView,
    after: DocumentView,
    images: ImageOptions,
    r: Result<Artifact, CompilationError>,
) -> bool {
    &&& document_after(codex, document_options(images), before).0 == after
    &&& match document_after(codex, document_options(images), before).1 {
        Some(e) => r matches Err(CompilationError::ParsingError(pe)) && pe@ == e,
        None => match document_body(after) {
            Some(h) => r matches Ok(a) && a.content@ == h,
            None => r matches Err(CompilationError::AssemblerError(AssemblerError::ParsedContentNotFound)),
        },
    }
}

/// Compiles dossiers and documents.
pub struct Compiler {}

impl Compiler {
    /// Compiles a loaded dossier into its HTML page: the compilation's unset
    /// options are taken from the dossier configuration; the documents are
    /// parsed with the dossier's list bullets and list strictness, until the
    /// first failure; then the dossier is assembled, in the compilation's
    /// theme (else the dossier's), with the dossier's remote addons setting,
    /// the given assets and style sheets. The caller writes the artifact.
    pub fn compile_dossier(
        compilation_configuration: CompilationConfiguration,
        codex: &Codex,
        dossier: &mut Dossier,
        assets: HtmlAssets,
        styles: &Vec<StyleSource>,
    ) -> (r: Result<Artifact, CompilationError>)
        requires
            dossier_compilable_in(
                codex,
                *old(dossier),
                image_options(compilation_configuration),
                dossier_theme(compilation_configuration, old(dossier).configuration),
            ),
        ensures
            dossier_compiled(
                codex,
                *old(dossier),
                *final(dossier),
                image_options(compilation_configuration),
                dossier_theme(compilation_configuration, old(dossier).configuration),
                assets,
                styles@,
                r,
            ),
    {
        let mut compilation_configuration = compilation_configuration;
        let ghost theme = dossier_theme(compilation_configuration, dossier.configuration);
        let ghost images = image_options(compilation_configuration);
        compilation_configuration.merge_dossier_configuration(&dossier.configuration);
        let mut parsing_configuration = compilation_configuration.parsing_configuration();
        parsing_configuration.set_list_bullets_configuration(
            duplicate_bullets(&dossier.configuration.style.list_bullets_configuration),
        );
        parsing_configuration.set_strict_list_check(dossier.configuration.compilation.strict_list_check);
        proof {
            assert(parsing_configuration.options() == dossier_options(dossier.configuration, images));
        }
        let mut assembler_configuration = AssemblerConfiguration::from_dossier_configuration(
            &dossier.configuration,
        );
        match dossier.standard_parse(codex, &mut parsing_configuration) {
            Ok(()) => {},
            Err(e) => {
                return Err(CompilationError::ParsingError(e));
            },
        }
        assembler_configuration.theme = match compilation_configuration.theme {
            Some(t) => t,
            None => dossier.configuration.style.theme,
        };
        let mut assembler = HtmlAssembler::new(assembler_configuration);
        assembler.set_assets(assets);
        match assembler.assemble_dossier(dossier, styles) {
            Ok(a) => Ok(a),
            Err(e) => Err(CompilationError::AssemblerError(e)),
        }
    }

    /// Compiles a single loaded document: the compilation's unset options
    /// take their defaults; the document is parsed with the default options
    /// and assembled on its own. The caller writes the artifact.
    pub fn compile_document(
        compilation_configuration: CompilationConfiguration,
        codex: &Codex,
        document: &mut Document,
    ) -> (r: Result<Artifact, CompilationError>)
        requires
            document_compilable_by(codex, old(document)@, image_options(compilation_configuration)),
        ensures
            document_compiled(
                codex,
                old(document)@,
                final(document)@,
                image_options(compilation_configuration),
                r,
            ),
    {
        let ghost images = image_options(compilation_configuration);
        let mut compilation_configuration = compilation_configuration;
        compilation_configuration.fill_with_default();
        let mut parsing_configuration = compilation_configuration.parsing_configuration();
        match document.standard_parse(codex, &mut parsing_configuration) {
            Ok(()) => {},
            Err(e) => {
                return Err(CompilationError::ParsingError(e));
            },
        }
        let mut assembler_configuration = AssemblerConfiguration::default();
        assembler_configuration.theme = match compilation_configuration.theme {
            Some(t) => t,
            None => Theme::Light,
        };
        let assembler = HtmlAssembler::new(assembler_configuration);
        match assembler.assemble_document(document) {
            Ok(a) => Ok(a),
            Err(e) => Err(CompilationError::AssemblerError(e)),
        }
    }
}

// ---------------------------------------------------------------------------
// What can be compiled
// ---------------------------------------------------------------------------

/// Whether every line of a text starts with `>`.
fn all_quote_lines(content: &str) -> (r: bool)
    ensures
        r == (forall|i: int|
            0 <= i < lines(content@).len() ==> quote_line(#[trigger] lines(content@)[i])),
{
    let ls = lines_of(content);
    let mut i: usize = 0;
    while i < ls.len()
        invariant
            i <= ls@.len() == lines(content@).len(),
            forall|q: int| 0 <= q < ls@.len() ==> #[trigger] ls@[q]@ == lines(content@)[q],
            forall|j: int| 0 <= j < i ==> quote_line(#[trigger] lines(content@)[j]),
        decreases ls@.len() - i,
    {
        let v = to_chars(ls[i].as_str());
        proof {
            assert(v@ == lines(content@)[i as int]);
        }
        if !(v.len() > 0 && v[0] == '>') {
            return false;
        }
        i = i + 1;
    }
    true
}

/// Whether the rules accept every text under options with the given focus
/// block strictness: a quote rule only with strict checks.
fn text_rules_total(rules: &Vec<(String, ParsingRule)>, strict_focus: bool) -> (r: bool)
    ensures
        forall|c: OptionsView| c.3 == strict_focus ==> (r == rules_total(rules_view(rules@), c)),
{
    if strict_focus {
        return true;
    }
    let ghost rv = rules_view(rules@);
    let mut i: usize = 0;
    while i < rules.len()
        invariant
            !strict_focus,
            i <= rules@.len() == rv.len(),
            rv == rules_view(rules@),
            forall|j: int| 0 <= j < i ==> !((#[trigger] rv[j]).1 is ExtendedBlockQuote),
        decreases rules@.len() - i,
    {
        proof {
            assert(rv[i as int].1 == rules@[i as int].1@);
        }
        match &rules[i].1 {
            ParsingRule::ExtendedBlockQuote(_) => {
                return false;
            },
            _ => {},
        }
        i = i + 1;
    }
    true
}

/// Whether the codex can parse a paragraph under options with the given
/// focus block strictness: it knows the paragraph's modifier, and a quote
/// is made of quote lines unless the checks are strict.
pub fn paragraph_parsable_under(codex: &Codex, strict_focus: bool, paragraph: &Paragraph) -> (r: bool)
    ensures
        forall|c: OptionsView|
            c.3 == strict_focus ==> (r == paragraph_parsable(codex, c, paragraph@)),
{
    let m = match codex.configuration.paragraph_modifier(&paragraph.paragraph_type) {
        Some(m) => m,
        None => {
            return false;
        },
    };
    match rule_for(&codex.paragraph_rules, &m.identifier) {
        Some(ParsingRule::ExtendedBlockQuote(_)) => strict_focus || all_quote_lines(
            paragraph.content.as_str(),
        ),
        _ => true,
    }
}

fn paragraphs_parsable_under(codex: &Codex, strict_focus: bool, paragraphs: &Vec<Paragraph>) -> (r:
    bool)
    ensures
        forall|c: OptionsView|
            c.3 == strict_focus ==> (r == all_parsable(codex, c, paragraphs_view(paragraphs@))),
{
    let mut i: usize = 0;
    while i < paragraphs.len()
        invariant
            i <= paragraphs@.len(),
            forall|c: OptionsView, j: int|
                c.3 == strict_focus && 0 <= j < i ==> #[trigger] paragraph_parsable(
                    codex,
                    c,
                    paragraphs_view(paragraphs@)[j],
                ),
        decreases paragraphs@.len() - i,
    {
        if !paragraph_parsable_under(codex, strict_focus, &paragraphs[i]) {
            proof {
                assert(paragraphs_view(paragraphs@)[i as int] == paragraphs@[i as int]@);
            }
            return false;
        }
        proof {
            assert(paragraphs_view(paragraphs@)[i as int] == paragraphs@[i as int]@);
        }
        i = i + 1;
    }
    true
}

fn document_parsable_under(codex: &Codex, strict_focus: bool, document: &Document) -> (r: bool)
    ensures
        forall|c: OptionsView|
            c.3 == strict_focus ==> (r == (all_parsable(codex, c, document@.1) && chapters_parsable(
                codex,
                c,
                document@.2,
            ))),
{
    if !paragraphs_parsable_under(codex, strict_focus, &document.preamble) {
        return false;
    }
    let ghost cv = chapters_view(document.chapters@);
    let mut i: usize = 0;
    while i < document.chapters.len()
        invariant
            i <= document.chapters@.len() == cv.len(),
            cv == chapters_view(document.chapters@),
            cv == document@.2,
            forall|c: OptionsView| c.3 == strict_focus ==> all_parsable(codex, c, document@.1),
            forall|c: OptionsView, j: int|
                c.3 == strict_focus && 0 <= j < i ==> #[trigger] all_parsable(codex, c, cv[j].2),
        decreases document.chapters@.len() - i,
    {
        proof {
            assert(cv[i as int] == document.chapters@[i as int]@);
        }
        if !paragraphs_parsable_under(codex, strict_focus, &document.chapters[i].paragraphs) {
            return false;
        }
        i = i + 1;
    }
    true
}

/// Whether every paragraph of a document can be parsed under the options.
pub open spec fn document_ok(codex: &Codex, c: OptionsView, d: DocumentView) -> bool {
    all_parsable(codex, c, d.1) && chapters_parsable(codex, c, d.2)
}

impl Compiler {
    /// Whether a loaded dossier can be compiled with the codex: its text
    /// rules take any text and every paragraph of every document can be
    /// parsed, under the options a dossier is compiled with.
    pub fn dossier_compilable(codex: &Codex, dossier: &Dossier) -> (r: bool)
        ensures
            forall|images: ImageOptions|
                r == (text_parsable(codex, #[trigger] dossier_options(dossier.configuration, images))
                    && documents_parsable(
                    codex,
                    dossier_options(dossier.configuration, images),
                    documents_view(dossier.documents@),
                )),
    {
        if !text_rules_total(&codex.text_rules, false) {
            return false;
        }
        let ghost dv = documents_view(dossier.documents@);
        let mut i: usize = 0;
        while i < dossier.documents.len()
            invariant
                i <= dossier.documents@.len() == dv.len(),
                dv == documents_view(dossier.documents@),
                forall|c: OptionsView| c.3 == false ==> text_parsable(codex, c),
                forall|c: OptionsView, j: int|
                    c.3 == false && 0 <= j < i ==> #[trigger] document_ok(codex, c, dv[j]),
            decreases dossier.documents@.len() - i,
        {
            proof {
                assert(dv[i as int] == dossier.documents@[i as int]@);
            }
            if !document_parsable_under(codex, false, &dossier.documents[i]) {
                proof {
                    assert forall|images: ImageOptions| !documents_parsable(
                        codex,
                        #[trigger] dossier_options(dossier.configuration, images),
                        dv,
                    ) by {
                        let c = dossier_options(dossier.configuration, images);
                        assert(!(all_parsable(codex, c, dv[i as int].1) && chapters_parsable(codex, c, dv[i as int].2)));
                    }
                }
                return false;
            }
            proof {
                assert forall|c: OptionsView, j: int|
                    c.3 == false && 0 <= j < i + 1 implies #[trigger] document_ok(codex, c, dv[j]) by {
                    if j == i as int {
                        assert(dossier.documents@[i as int]@ == dv[j]);
                        assert(all_parsable(codex, c, dossier.documents@[i as int]@.1));
                    }
                }
            }
            i = i + 1;
        }
        proof {
            assert forall|images: ImageOptions|
                text_parsable(codex, #[trigger] dossier_options(dossier.configuration, images))
                    && documents_parsable(codex, dossier_options(dossier.configuration, images), dv) by {
                let c = dossier_options(dossier.configuration, images);
                assert forall|k: int| 0 <= k < dv.len() implies all_parsable(codex, c, (#[trigger] dv[k]).1)
                    && chapters_parsable(codex, c, dv[k].2) by {
                    assert(document_ok(codex, c, dv[k]));
                }
            }
        }
        true
    }

    /// Whether a loaded document can be compiled on its own with the codex,
    /// under the default options.
    pub fn document_compilable(codex: &Codex, document: &Document) -> (r: bool)
        ensures
            forall|images: ImageOptions|
                r == (text_parsable(codex, #[trigger] document_options(images)) && all_parsable(
                    codex,
                    document_options(images),
                    document@.1,
                ) && chapters_parsable(codex, document_options(images), document@.2)),
    {
        text_rules_total(&codex.text_rules, false) && document_parsable_under(codex, false, document)
    }
}

} // verus!
