//! A document: a name, the paragraphs before its first chapter, and its
//! chapters.
use vstd::prelude::*;

use crate::chapter::{paragraphs_view, Chapter, ChapterTagKey, Paragraph};

verus! {

/// The mathematical value of a chapter: heading (level, title, parsed
/// content), tags, paragraphs.
pub type ChapterView = (
    (u32, Seq<char>, Option<Seq<char>>),
    Seq<(ChapterTagKey, Option<Seq<char>>)>,
    Seq<(Seq<char>, Option<Seq<char>>, Seq<char>)>,
);

pub open spec fn chapters_view(c: Seq<Chapter>) -> Seq<ChapterView> {
    c.map_values(|x: Chapter| x@)
}

#[derive(Debug)]
pub struct Document {
    pub name: String,
    pub preamble: Vec<Paragraph>,
    pub chapters: Vec<Chapter>,
}

impl View for Document {
    /// Name, preamble, chapters.
    type V = (Seq<char>, Seq<(Seq<char>, Option<Seq<char>>, Seq<char>)>, Seq<ChapterView>);

    open spec fn view(&self) -> Self::V {
        (self.name@, paragraphs_view(self.preamble@), chapters_view(self.chapters@))
    }
}

impl Document {
    pub fn new(name: String, preamble: Vec<Paragraph>, chapters: Vec<Chapter>) -> (r: Self)
        ensures
            r@ == (name@, paragraphs_view(preamble@), chapters_view(chapters@)),
    {
        Self { name, preamble, chapters }
    }

    pub fn name(&self) -> (r: &String)
        ensures
            r@ == self@.0,
    {
        &self.name
    }

    pub fn chapters(&self) -> (r: &Vec<Chapter>)
        ensures
            chapters_view(r@) == self@.2,
    {
        &self.chapters
    }

    pub fn preamble(&self) -> (r: &Vec<Paragraph>)
        ensures
            paragraphs_view(r@) == self@.1,
    {
        &self.preamble
    }
}

} // verus!
