//! Parsing rules: how what a modifier matches becomes the output format, and
//! the options that steer them.
use vstd::prelude::*;

use crate::modifier::{BucketView, ModifiersBucket};

use crate::text::owned;

verus! {

// ---------------------------------------------------------------------------
// Outcome and errors
// ---------------------------------------------------------------------------

/// What parsing produced.
#[derive(Debug)]
pub struct ParsingOutcome {
    pub parsed_content: String,
}

impl ParsingOutcome {
    pub fn new(parsed_content: String) -> (r: Self)
        ensures
            r.parsed_content@ == parsed_content@,
    {
        Self { parsed_content }
    }

    pub fn parsed_content(&self) -> (r: &String)
        ensures
            r@ == self.parsed_content@,
    {
        &self.parsed_content
    }
}

#[derive(Debug)]
pub enum ParsingError {
    /// The pattern does not compile.
    InvalidPattern(String),
    /// The source cannot be parsed.
    InvalidSource(String),
    Unknown,
}

pub enum ParsingErrorView {
    InvalidPattern(Seq<char>),
    InvalidSource(Seq<char>),
    Unknown,
}

impl View for ParsingError {
    type V = ParsingErrorView;

    open spec fn view(&self) -> ParsingErrorView {
        match self {
            ParsingError::InvalidPattern(s) => ParsingErrorView::InvalidPattern(s@),
            ParsingError::InvalidSource(s) => ParsingErrorView::InvalidSource(s@),
            ParsingError::Unknown => ParsingErrorView::Unknown,
        }
    }
}

/// The mathematical value of a parsing result: the parsed text or the error.
pub open spec fn outcome_view(r: Result<ParsingOutcome, ParsingError>) -> Result<
    Seq<char>,
    ParsingErrorView,
> {
    match r {
        Ok(o) => Ok(o.parsed_content@),
        Err(e) => Err(e@),
    }
}

// ---------------------------------------------------------------------------
// List bullets
// ---------------------------------------------------------------------------

/// The bullet that stands for an unchecked checkbox.
pub const CHECKBOX: &'static str = ":checkbox:";

/// The bullet that stands for a checked checkbox.
pub const CHECKBOX_CHECKED: &'static str = ":checkbox-checked:";

/// How a list bullet is rendered: `from` becomes `to` at the given
/// indentation level (exactly, or from it on when not strict).
#[derive(Debug)]
pub struct ListBulletConfigurationRecord {
    pub from: String,
    pub to: String,
    pub indentation_level: usize,
    pub strict_indentation: bool,
}

pub type BulletView = (Seq<char>, Seq<char>, usize, bool);

impl View for ListBulletConfigurationRecord {
    type V = BulletView;

    open spec fn view(&self) -> BulletView {
        (self.from@, self.to@, self.indentation_level, self.strict_indentation)
    }
}

pub open spec fn bullets_view(v: Seq<ListBulletConfigurationRecord>) -> Seq<BulletView> {
    v.map_values(|r: ListBulletConfigurationRecord| r@)
}

impl ListBulletConfigurationRecord {
    pub fn new(from: String, to: String, indentation_level: usize, strict_indentation: bool) -> (r:
        Self)
        ensures
            r@ == (from@, to@, indentation_level, strict_indentation),
    {
        Self { from, to, indentation_level, strict_indentation }
    }

    pub fn from(&self) -> (r: &String)
        ensures
            r@ == self@.0,
    {
        &self.from
    }

    pub fn to(&self) -> (r: &String)
        ensures
            r@ == self@.1,
    {
        &self.to
    }

    pub fn indentation_level(&self) -> (r: usize)
        ensures
            r == self@.2,
    {
        self.indentation_level
    }

    pub fn strict_indentation(&self) -> (r: bool)
        ensures
            r == self@.3,
    {
        self.strict_indentation
    }

    pub fn duplicate(&self) -> (r: Self)
        ensures
            r@ == self@,
    {
        Self {
            from: self.from.clone(),
            to: self.to.clone(),
            indentation_level: self.indentation_level,
            strict_indentation: self.strict_indentation,
        }
    }
}

/// The bullets NMD renders by default.
pub open spec fn spec_default_bullets() -> Seq<BulletView> {
    seq![
        ("|"@, "&#8205;"@, 0usize, false),
        ("-"@, "&bull;"@, 0usize, true),
        ("-"@, "&#9702;"@, 1usize, true),
        ("-"@, "&#8211;"@, 2usize, false),
        ("*"@, "&bull;"@, 0usize, false),
        ("+"@, "&#9702;"@, 0usize, false),
        ("->"@, "&#9654;"@, 0usize, false),
        ("--"@, "&#8211;"@, 0usize, false),
    ]
}

fn bullet(from: &str, to: &str, level: usize, strict: bool) -> (r: ListBulletConfigurationRecord)
    ensures
        r@ == (from@, to@, level, strict),
{
    ListBulletConfigurationRecord::new(owned(from), owned(to), level, strict)
}

/// The bullets NMD renders by default.
pub fn default_bullets_configuration() -> (r: Vec<ListBulletConfigurationRecord>)
    ensures
        bullets_view(r@) == spec_default_bullets(),
{
    let r = vec![
        bullet("|", "&#8205;", 0, false),
        bullet("-", "&bull;", 0, true),
        bullet("-", "&#9702;", 1, true),
        bullet("-", "&#8211;", 2, false),
        bullet("*", "&bull;", 0, false),
        bullet("+", "&#9702;", 0, false),
        bullet("->", "&#9654;", 0, false),
        bullet("--", "&#8211;", 0, false),
    ];
    proof {
        assert(bullets_view(r@) =~= spec_default_bullets());
    }
    r
}

/// A copy of the bullets.
pub fn duplicate_bullets(v: &Vec<ListBulletConfigurationRecord>) -> (r: Vec<
    ListBulletConfigurationRecord,
>)
    ensures
        bullets_view(r@) == bullets_view(v@),
{
    let mut r: Vec<ListBulletConfigurationRecord> = Vec::new();
    let mut i: usize = 0;
    while i < v.len()
        invariant
            i <= v@.len(),
            bullets_view(r@) == bullets_view(v@).take(i as int),
        decreases v@.len() - i,
    {
        let b = v[i].duplicate();
        let ghost before = r@;
        r.push(b);
        proof {
            assert(bullets_view(r@) =~= bullets_view(before).push(b@));
            assert(bullets_view(v@).take(i + 1) =~= bullets_view(v@).take(i as int).push(
                v@[i as int]@,
            ));
        }
        i = i + 1;
    }
    proof {
        assert(bullets_view(v@).take(v@.len() as int) =~= bullets_view(v@));
    }
    r
}

// ---------------------------------------------------------------------------
// Parsing configuration
// ---------------------------------------------------------------------------

/// The options that parsing depends on: the modifiers excluded, the list
/// bullets, strict list checks, strict focus block checks, embedding remote
/// images, strict image source checks.
pub type OptionsView = (BucketView, Seq<BulletView>, bool, bool, bool, bool);

/// What is being parsed: the dossier and the document.
#[derive(Debug)]
pub struct ParsingConfigurationMetadata {
    pub dossier_name: Option<String>,
    pub document_name: Option<String>,
}

impl ParsingConfigurationMetadata {
    /// Nothing named yet.
    pub fn new() -> (r: Self)
        ensures
            r.dossier_name is None,
            r.document_name is None,
    {
        Self { dossier_name: None, document_name: None }
    }

    pub fn dossier_name(&self) -> (r: &Option<String>)
        ensures
            r == &self.dossier_name,
    {
        &self.dossier_name
    }

    pub fn document_name(&self) -> (r: &Option<String>)
        ensures
            r == &self.document_name,
    {
        &self.document_name
    }

    pub fn set_dossier_name(&mut self, name: Option<String>)
        ensures
            final(self).dossier_name == name,
            final(self).document_name == old(self).document_name,
    {
        self.dossier_name = name;
    }

    pub fn set_document_name(&mut self, name: Option<String>)
        ensures
            final(self).document_name == name,
            final(self).dossier_name == old(self).dossier_name,
    {
        self.document_name = name;
    }
}

/// The options of a parse.
#[derive(Debug)]
pub struct ParsingConfiguration {
    pub input_location: String,
    pub output_location: String,
    pub embed_local_image: bool,
    pub embed_remote_image: bool,
    pub compress_embed_image: bool,
    pub strict_image_src_check: bool,
    pub metadata: ParsingConfigurationMetadata,
    pub excluded_modifiers: ModifiersBucket,
    pub parallelization: bool,
    pub list_bullets_configuration: Vec<ListBulletConfigurationRecord>,
    pub strict_list_check: bool,
    pub strict_focus_block_check: bool,
}

impl ParsingConfiguration {
    /// The options that parsing depends on.
    pub open spec fn options(&self) -> OptionsView {
        (
            self.excluded_modifiers@,
            bullets_view(self.list_bullets_configuration@),
            self.strict_list_check,
            self.strict_focus_block_check,
            self.embed_remote_image,
            self.strict_image_src_check,
        )
    }

    pub fn new(
        input_location: String,
        output_location: String,
        embed_local_image: bool,
        embed_remote_image: bool,
        compress_embed_image: bool,
        strict_image_src_check: bool,
        metadata: ParsingConfigurationMetadata,
        excluded_modifiers: ModifiersBucket,
        parallelization: bool,
        list_bullets_configuration: Vec<ListBulletConfigurationRecord>,
    ) -> (r: Self)
        ensures
            r.input_location@ == input_location@,
            r.output_location@ == output_location@,
            r.embed_local_image == embed_local_image,
            r.embed_remote_image == embed_remote_image,
            r.compress_embed_image == compress_embed_image,
            r.strict_image_src_check == strict_image_src_check,
            r.excluded_modifiers@ == excluded_modifiers@,
            r.parallelization == parallelization,
            bullets_view(r.list_bullets_configuration@) == bullets_view(list_bullets_configuration@),
            !r.strict_list_check,
            !r.strict_focus_block_check,
    {
        Self {
            input_location,
            output_location,
            embed_local_image,
            embed_remote_image,
            compress_embed_image,
            strict_image_src_check,
            metadata,
            excluded_modifiers,
            parallelization,
            list_bullets_configuration,
            strict_list_check: false,
            strict_focus_block_check: false,
        }
    }

    /// Input and output in the working directory, local images embedded,
    /// nothing excluded, default bullets, no strict checks.
    pub fn default() -> (r: Self)
        ensures
            r.input_location@ == "."@,
            r.output_location@ == "."@,
            r.embed_local_image,
            !r.embed_remote_image,
            !r.compress_embed_image,
            !r.strict_image_src_check,
            r.excluded_modifiers@ == BucketView::Nothing,
            !r.parallelization,
            bullets_view(r.list_bullets_configuration@) == spec_default_bullets(),
            !r.strict_list_check,
            !r.strict_focus_block_check,
    {
        Self::new(
            owned("."),
            owned("."),
            true,
            false,
            false,
            false,
            ParsingConfigurationMetadata::new(),
            ModifiersBucket::Nothing,
            false,
            default_bullets_configuration(),
        )
    }

    pub fn input_location(&self) -> (r: &String)
        ensures
            r@ == self.input_location@,
    {
        &self.input_location
    }

    pub fn output_location(&self) -> (r: &String)
        ensures
            r@ == self.output_location@,
    {
        &self.output_location
    }

    pub fn embed_local_image(&self) -> (r: bool)
        ensures
            r == self.embed_local_image,
    {
        self.embed_local_image
    }

    pub fn embed_remote_image(&self) -> (r: bool)
        ensures
            r == self.embed_remote_image,
    {
        self.embed_remote_image
    }

    pub fn compress_embed_image(&self) -> (r: bool)
        ensures
            r == self.compress_embed_image,
    {
        self.compress_embed_image
    }

    pub fn strict_image_src_check(&self) -> (r: bool)
        ensures
            r == self.strict_image_src_check,
    {
        self.strict_image_src_check
    }

    pub fn metadata(&self) -> (r: &ParsingConfigurationMetadata)
        ensures
            r == &self.metadata,
    {
        &self.metadata
    }

    pub fn modifiers_excluded(&self) -> (r: &ModifiersBucket)
        ensures
            r@ == self.excluded_modifiers@,
    {
        &self.excluded_modifiers
    }

    pub fn parallelization(&self) -> (r: bool)
        ensures
            r == self.parallelization,
    {
        self.parallelization
    }

    pub fn list_bullets_configuration(&self) -> (r: &Vec<ListBulletConfigurationRecord>)
        ensures
            bullets_view(r@) == bullets_view(self.list_bullets_configuration@),
    {
        &self.list_bullets_configuration
    }

    pub fn strict_list_check(&self) -> (r: bool)
        ensures
            r == self.strict_list_check,
    {
        self.strict_list_check
    }

    pub fn strict_focus_block_check(&self) -> (r: bool)
        ensures
            r == self.strict_focus_block_check,
    {
        self.strict_focus_block_check
    }

    pub fn set_input_location(&mut self, new_input_location: String)
        ensures
            final(self).input_location@ == new_input_location@,
            final(self).output_location == old(self).output_location,
            final(self).excluded_modifiers@ == old(self).excluded_modifiers@,
    {
        self.input_location = new_input_location;
    }

    pub fn set_output_location(&mut self, new_output_location: String)
        ensures
            final(self).output_location@ == new_output_location@,
            final(self).input_location == old(self).input_location,
            final(self).excluded_modifiers@ == old(self).excluded_modifiers@,
    {
        self.output_location = new_output_location;
    }

    pub fn set_embed_local_image(&mut self, new_embed_local_image: bool)
        ensures
            final(self).embed_local_image == new_embed_local_image,
            final(self).embed_remote_image == old(self).embed_remote_image,
            final(self).excluded_modifiers@ == old(self).excluded_modifiers@,
    {
        self.embed_local_image = new_embed_local_image;
    }

    pub fn set_embed_remote_image(&mut self, new_embed_remote_image: bool)
        ensures
            final(self).embed_remote_image == new_embed_remote_image,
            final(self).embed_local_image == old(self).embed_local_image,
            final(self).excluded_modifiers@ == old(self).excluded_modifiers@,
    {
        self.embed_remote_image = new_embed_remote_image;
    }

    pub fn set_compress_embed_image(&mut self, compress_embed_image: bool)
        ensures
            final(self).compress_embed_image == compress_embed_image,
            final(self).excluded_modifiers@ == old(self).excluded_modifiers@,
    {
        self.compress_embed_image = compress_embed_image;
    }

    pub fn set_strict_image_src_check(&mut self, new_strict_image_src_check: bool)
        ensures
            final(self).strict_image_src_check == new_strict_image_src_check,
            final(self).excluded_modifiers@ == old(self).excluded_modifiers@,
    {
        self.strict_image_src_check = new_strict_image_src_check;
    }

    /// Replaces what is being parsed; every other option stays.
    pub fn set_metadata(&mut self, new_metadata: ParsingConfigurationMetadata)
        ensures
            *final(self) == (ParsingConfiguration { metadata: new_metadata, ..*old(self) }),
            final(self).excluded_modifiers@ == old(self).excluded_modifiers@,
            final(self).strict_focus_block_check == old(self).strict_focus_block_check,
    {
        self.metadata = new_metadata;
    }

    pub fn set_excluded_modifiers(&mut self, modifiers_excluded: ModifiersBucket)
        ensures
            final(self).excluded_modifiers@ == modifiers_excluded@,
            final(self).strict_focus_block_check == old(self).strict_focus_block_check,
    {
        self.excluded_modifiers = modifiers_excluded;
    }

    /// Excludes more modifiers: the union of those already excluded and the
    /// new ones.
    pub fn add_excluded_modifiers(&mut self, modifiers_excluded: ModifiersBucket)
        ensures
            final(self).excluded_modifiers@ == crate::modifier::bucket_union(
                old(self).excluded_modifiers@,
                modifiers_excluded@,
            ),
            final(self).strict_focus_block_check == old(self).strict_focus_block_check,
    {
        let current = self.excluded_modifiers.duplicate();
        self.excluded_modifiers = current.add(modifiers_excluded);
    }

    pub fn set_parallelization(&mut self, value: bool)
        ensures
            final(self).parallelization == value,
            final(self).excluded_modifiers@ == old(self).excluded_modifiers@,
    {
        self.parallelization = value;
    }

    pub fn set_list_bullets_configuration(&mut self, value: Vec<ListBulletConfigurationRecord>)
        ensures
            *final(self) == (ParsingConfiguration { list_bullets_configuration: value, ..*old(self) }),
            bullets_view(final(self).list_bullets_configuration@) == bullets_view(value@),
            final(self).excluded_modifiers@ == old(self).excluded_modifiers@,
            final(self).strict_list_check == old(self).strict_list_check,
            final(self).strict_focus_block_check == old(self).strict_focus_block_check,
    {
        self.list_bullets_configuration = value;
    }

    pub fn set_strict_list_check(&mut self, value: bool)
        ensures
            *final(self) == (ParsingConfiguration { strict_list_check: value, ..*old(self) }),
            final(self).strict_list_check == value,
            final(self).excluded_modifiers@ == old(self).excluded_modifiers@,
            final(self).strict_focus_block_check == old(self).strict_focus_block_check,
            final(self).list_bullets_configuration == old(self).list_bullets_configuration,
    {
        self.strict_list_check = value;
    }

    pub fn set_strict_focus_block_check(&mut self, value: bool)
        ensures
            *final(self) == (ParsingConfiguration { strict_focus_block_check: value, ..*old(self) }),
            final(self).strict_focus_block_check == value,
            final(self).excluded_modifiers@ == old(self).excluded_modifiers@,
            final(self).strict_list_check == old(self).strict_list_check,
    {
        self.strict_focus_block_check = value;
    }
}

} // verus!
