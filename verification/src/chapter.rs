//! Paragraphs, headings, chapter tags and chapters.
use vstd::prelude::*;

use crate::modifier::ModifierIdentifier;
use crate::pattern::{captures, regex_captures, regex_compiles};
use crate::text::{ascii_lower_seq, eq_ascii_lowercase, owned, to_chars};

verus! {

pub type ParagraphType = ModifierIdentifier;

pub type HeadingLevel = u32;

/// A character that `contains_only_newlines` accepts.
pub open spec fn is_newline_char(c: char) -> bool {
    c == '\n' || c == '\r'
}

pub open spec fn only_newlines(s: Seq<char>) -> bool {
    forall|i: int| 0 <= i < s.len() ==> is_newline_char(#[trigger] s[i])
}

#[derive(Debug)]
pub enum ParagraphError {
    Creation,
    Empty,
}

/// A paragraph of a document: its raw content, the modifier that found it,
/// and, once parsed, the parsed content.
#[derive(Debug)]
pub struct Paragraph {
    pub content: String,
    pub parsed_content: Option<String>,
    pub paragraph_type: ParagraphType,
}

/// The mathematical value of an optional string.
pub open spec fn opt_view(o: Option<String>) -> Option<Seq<char>> {
    match o {
        Some(s) => Some(s@),
        None => None,
    }
}

impl View for Paragraph {
    /// Content, parsed content, paragraph type.
    type V = (Seq<char>, Option<Seq<char>>, Seq<char>);

    open spec fn view(&self) -> Self::V {
        (self.content@, opt_view(self.parsed_content), self.paragraph_type@)
    }
}

pub fn clone_opt_string(o: &Option<String>) -> (r: Option<String>)
    ensures
        opt_view(r) == opt_view(*o),
{
    match o {
        Some(s) => Some(s.clone()),
        None => None,
    }
}

impl Paragraph {
    pub fn new(content: String, paragraph_type: ParagraphType) -> (r: Self)
        ensures
            r@ == (content@, None::<Seq<char>>, paragraph_type@),
    {
        Self { content, paragraph_type, parsed_content: None }
    }

    pub fn content(&self) -> (r: &String)
        ensures
            r@ == self@.0,
    {
        &self.content
    }

    pub fn parsed_content(&self) -> (r: &Option<String>)
        ensures
            opt_view(*r) == self@.1,
    {
        &self.parsed_content
    }

    pub fn paragraph_type(&self) -> (r: &ParagraphType)
        ensures
            r@ == self@.2,
    {
        &self.paragraph_type
    }

    pub fn set_parsed_content(&mut self, parsed_content: Option<String>)
        ensures
            final(self)@ == (old(self)@.0, opt_view(parsed_content), old(self)@.2),
    {
        self.parsed_content = parsed_content;
    }

    /// Whether the content is made only of `'\n'` and `'\r'`.
    pub fn contains_only_newlines(&self) -> (r: bool)
        ensures
            r == only_newlines(self@.0),
    {
        let v = to_chars(self.content.as_str());
        let mut i: usize = 0;
        while i < v.len()
            invariant
                i <= v.len(),
                v@ == self@.0,
                forall|j: int| 0 <= j < i ==> is_newline_char(#[trigger] v@[j]),
            decreases v.len() - i,
        {
            if v[i] != '\n' && v[i] != '\r' {
                return false;
            }
            i = i + 1;
        }
        true
    }

    pub fn duplicate(&self) -> (r: Paragraph)
        ensures
            r@ == self@,
    {
        Paragraph {
            content: self.content.clone(),
            parsed_content: clone_opt_string(&self.parsed_content),
            paragraph_type: self.paragraph_type.clone(),
        }
    }
}

/// A chapter heading: level and title, and once parsed, its parsed content.
#[derive(Debug)]
pub struct Heading {
    pub level: HeadingLevel,
    pub title: String,
    pub parsed_content: Option<String>,
}

impl View for Heading {
    /// Level, title, parsed content.
    type V = (u32, Seq<char>, Option<Seq<char>>);

    open spec fn view(&self) -> Self::V {
        (self.level, self.title@, opt_view(self.parsed_content))
    }
}

impl Heading {
    pub fn new(level: HeadingLevel, title: String) -> (r: Self)
        ensures
            r@ == (level, title@, None::<Seq<char>>),
    {
        Self { level, title, parsed_content: None }
    }

    pub fn level(&self) -> (r: HeadingLevel)
        ensures
            r == self@.0,
    {
        self.level
    }

    pub fn title(&self) -> (r: &String)
        ensures
            r@ == self@.1,
    {
        &self.title
    }

    pub fn parsed_content(&self) -> (r: &Option<String>)
        ensures
            opt_view(*r) == self@.2,
    {
        &self.parsed_content
    }

    pub fn set_parsed_content(&mut self, parsed_content: Option<String>)
        ensures
            final(self)@ == (old(self)@.0, old(self)@.1, opt_view(parsed_content)),
    {
        self.parsed_content = parsed_content;
    }

    pub fn duplicate(&self) -> (r: Heading)
        ensures
            r@ == self@,
    {
        Heading {
            level: self.level,
            title: self.title.clone(),
            parsed_content: clone_opt_string(&self.parsed_content),
        }
    }
}

/// The keys a chapter tag may have.
#[derive(Debug, Clone, Copy, PartialEq, Eq, Structural)]
pub enum ChapterTagKey {
    Id,
    Author,
    Date,
    Intent,
    Style,
    StyleClass,
    Nothing,
}

/// The key named by `s`, compared case-insensitively.
pub open spec fn spec_tag_key(s: Seq<char>) -> Option<ChapterTagKey> {
    let l = ascii_lower_seq(s);
    if l == "id"@ {
        Some(ChapterTagKey::Id)
    } else if l == "author"@ {
        Some(ChapterTagKey::Author)
    } else if l == "date"@ {
        Some(ChapterTagKey::Date)
    } else if l == "intent"@ {
        Some(ChapterTagKey::Intent)
    } else if l == "style"@ {
        Some(ChapterTagKey::Style)
    } else if l == "styleclass"@ {
        Some(ChapterTagKey::StyleClass)
    } else {
        None
    }
}

impl ChapterTagKey {
    /// The key named by `s` (case-insensitive), or an error naming `s`.
    pub fn from_str(s: &str) -> (r: Result<Self, String>)
        ensures
            r is Ok <==> spec_tag_key(s@) is Some,
            r matches Ok(k) ==> spec_tag_key(s@) == Some(k),
            r matches Err(e) ==> e@ == "chapter key '"@ + s@ + "' not found"@,
    {
        if eq_ascii_lowercase(s, "id") {
            Ok(Self::Id)
        } else if eq_ascii_lowercase(s, "author") {
            Ok(Self::Author)
        } else if eq_ascii_lowercase(s, "date") {
            Ok(Self::Date)
        } else if eq_ascii_lowercase(s, "intent") {
            Ok(Self::Intent)
        } else if eq_ascii_lowercase(s, "style") {
            Ok(Self::Style)
        } else if eq_ascii_lowercase(s, "styleclass") {
            Ok(Self::StyleClass)
        } else {
            let mut e = String::from_str("chapter key '");
            e.append(s);
            e.append("' not found");
            Err(e)
        }
    }
}

/// A chapter tag: `@key value` under a heading.
#[derive(Debug)]
pub struct ChapterTag {
    pub key: ChapterTagKey,
    pub value: Option<String>,
}

impl View for ChapterTag {
    type V = (ChapterTagKey, Option<Seq<char>>);

    open spec fn view(&self) -> Self::V {
        (self.key, opt_view(self.value))
    }
}

/// The pattern of a tag line: `@`, a word, a space, the value.
pub const CHAPTER_TAG_PATTERN: &'static str = "@(\\w+) (.*)";

/// What `ChapterTag::from_str` yields for a line: the first match of the tag
/// pattern, its key looked up case-insensitively, and its value.
pub open spec fn spec_tag_of(s: Seq<char>) -> Result<(ChapterTagKey, Option<Seq<char>>), Seq<char>> {
    if !regex_compiles(CHAPTER_TAG_PATTERN@) {
        Err(s + " is not a valid tag"@)
    } else {
        match regex_captures(CHAPTER_TAG_PATTERN@, s) {
            Some(g) => if g.len() > 1 && g[1] is Some {
                match spec_tag_key(g[1]->0) {
                    Some(k) => Ok((k, if g.len() > 2 { g[2] } else { None })),
                    None => Err("chapter key '"@ + g[1]->0 + "' not found"@),
                }
            } else {
                Err(s + " is not a valid tag"@)
            },
            None => Err(s + " is not a valid tag"@),
        }
    }
}

impl ChapterTag {
    pub fn default() -> (r: Self)
        ensures
            r@ == (ChapterTagKey::Nothing, None::<Seq<char>>),
    {
        Self { key: ChapterTagKey::Nothing, value: None }
    }

    pub fn key(&self) -> (r: ChapterTagKey)
        ensures
            r == self@.0,
    {
        self.key
    }

    pub fn value(&self) -> (r: &Option<String>)
        ensures
            opt_view(*r) == self@.1,
    {
        &self.value
    }

    pub fn set_key(&mut self, key: ChapterTagKey)
        ensures
            final(self)@ == (key, old(self)@.1),
    {
        self.key = key;
    }

    pub fn set_value(&mut self, value: Option<String>)
        ensures
            final(self)@ == (old(self)@.0, opt_view(value)),
    {
        self.value = value;
    }

    /// The tag written on a line `@key value`.
    pub fn from_str(s: &str) -> (r: Result<Self, String>)
        ensures
            match spec_tag_of(s@) {
                Ok(t) => r matches Ok(tag) && tag@ == t,
                Err(e) => r matches Err(m) && m@ == e,
            },
    {
        match captures(CHAPTER_TAG_PATTERN, s) {
            Some(Some(groups)) => {
                if groups.len() > 1 {
                    match &groups[1] {
                        Some(key) => {
                            let mut chapter_tag = ChapterTag::default();
                            match ChapterTagKey::from_str(key.as_str()) {
                                Ok(k) => chapter_tag.set_key(k),
                                Err(e) => return Err(e),
                            }
                            if groups.len() > 2 {
                                chapter_tag.set_value(clone_opt_string(&groups[2]));
                            }
                            return Ok(chapter_tag);
                        },
                        None => {},
                    }
                }
            },
            _ => {},
        }
        let mut e = owned(s);
        e.append(" is not a valid tag");
        Err(e)
    }

    pub fn duplicate(&self) -> (r: ChapterTag)
        ensures
            r@ == self@,
    {
        ChapterTag { key: self.key, value: clone_opt_string(&self.value) }
    }
}

/// A chapter: a heading, its tags, and its paragraphs.
#[derive(Debug)]
pub struct Chapter {
    pub heading: Heading,
    pub tags: Vec<ChapterTag>,
    pub paragraphs: Vec<Paragraph>,
}

pub open spec fn tags_view(t: Seq<ChapterTag>) -> Seq<(ChapterTagKey, Option<Seq<char>>)> {
    t.map_values(|x: ChapterTag| x@)
}

pub open spec fn paragraphs_view(p: Seq<Paragraph>) -> Seq<(Seq<char>, Option<Seq<char>>, Seq<char>)> {
    p.map_values(|x: Paragraph| x@)
}

impl View for Chapter {
    type V = (
        (u32, Seq<char>, Option<Seq<char>>),
        Seq<(ChapterTagKey, Option<Seq<char>>)>,
        Seq<(Seq<char>, Option<Seq<char>>, Seq<char>)>,
    );

    open spec fn view(&self) -> Self::V {
        (self.heading@, tags_view(self.tags@), paragraphs_view(self.paragraphs@))
    }
}

impl Chapter {
    pub fn new(heading: Heading, tags: Vec<ChapterTag>, paragraphs: Vec<Paragraph>) -> (r: Self)
        ensures
            r@ == (heading@, tags_view(tags@), paragraphs_view(paragraphs@)),
    {
        Self { heading, tags, paragraphs }
    }

    pub fn heading(&self) -> (r: &Heading)
        ensures
            r@ == self@.0,
    {
        &self.heading
    }

    pub fn tags(&self) -> (r: &Vec<ChapterTag>)
        ensures
            tags_view(r@) == self@.1,
    {
        &self.tags
    }

    pub fn paragraphs(&self) -> (r: &Vec<Paragraph>)
        ensures
            paragraphs_view(r@) == self@.2,
    {
        &self.paragraphs
    }
}

#[derive(Debug)]
pub enum ChapterBuilderError {
    ImpossibleToBuild,
    ParagraphError(ParagraphError),
}

/// Collects the parts of a chapter.
pub struct ChapterBuilder {
    pub heading: Option<Heading>,
    pub paragraphs: Vec<Paragraph>,
}

impl ChapterBuilder {
    pub fn new() -> (r: Self)
        ensures
            r.heading is None,
            r.paragraphs@.len() == 0,
    {
        Self { heading: None, paragraphs: Vec::new() }
    }

    pub fn set_heading(&mut self, heading: Heading)
        ensures
            final(self).heading matches Some(h) && h@ == heading@,
            final(self).paragraphs@ == old(self).paragraphs@,
    {
        self.heading = Some(heading);
    }

    /// Building needs a heading: without one it fails. (With a heading the
    /// builder has no way yet to finish a chapter, so that case is not
    /// accepted.)
    pub fn build(self) -> (r: Result<Chapter, ChapterBuilderError>)
        requires
            self.heading is None,
        ensures
            r matches Err(ChapterBuilderError::ImpossibleToBuild),
    {
        Err(ChapterBuilderError::ImpossibleToBuild)
    }
}

} // verus!
