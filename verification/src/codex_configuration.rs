//! The modifiers a codex knows, in the order in which they are tried.
use vstd::prelude::*;

use crate::modifier::{BaseModifier, BucketView};
use crate::standard_chapter_modifier::StandardChapterModifier;
use crate::standard_paragraph_modifier::StandardParagraphModifier;
use crate::standard_text_modifier::StandardTextModifier;

verus! {

/// The mathematical value of a modifier: identifier, pattern, incompatible
/// modifiers.
pub type ModifierView = (Seq<char>, Seq<char>, BucketView);

pub open spec fn modifiers_view(m: Seq<BaseModifier>) -> Seq<ModifierView> {
    m.map_values(|x: BaseModifier| x@)
}

/// The ordered text, paragraph and chapter modifiers.
#[derive(Debug)]
pub struct CodexConfiguration {
    pub ordered_text_modifiers: Vec<BaseModifier>,
    pub ordered_paragraph_modifiers: Vec<BaseModifier>,
    pub ordered_chapter_modifier: Vec<BaseModifier>,
}

impl View for CodexConfiguration {
    type V = (Seq<ModifierView>, Seq<ModifierView>, Seq<ModifierView>);

    open spec fn view(&self) -> Self::V {
        (
            modifiers_view(self.ordered_text_modifiers@),
            modifiers_view(self.ordered_paragraph_modifiers@),
            modifiers_view(self.ordered_chapter_modifier@),
        )
    }
}

/// The base view of a standard text modifier.
pub open spec fn text_base(m: StandardTextModifier) -> ModifierView {
    (
        m.spec_identifier(),
        m.spec_modifier_pattern(),
        if m.spec_excludes_all() {
            BucketView::All
        } else {
            BucketView::Nothing
        },
    )
}

/// The base view of a standard paragraph modifier (pattern framed by
/// paragraph separators).
pub open spec fn paragraph_base(m: StandardParagraphModifier) -> ModifierView {
    (
        m.spec_identifier(),
        m.spec_pattern_with_separator(),
        if m.spec_excludes_all() {
            BucketView::All
        } else {
            BucketView::Nothing
        },
    )
}

/// The base view of a standard chapter modifier.
pub open spec fn chapter_base(m: StandardChapterModifier) -> ModifierView {
    (m.spec_identifier(), m.spec_modifier_pattern(), BucketView::Nothing)
}

/// The first modifier of `mods` with identifier `id`.
pub open spec fn modifier_named(mods: Seq<ModifierView>, id: Seq<char>) -> Option<ModifierView>
    decreases mods.len(),
{
    if mods.len() == 0 {
        None
    } else if mods[0].0 == id {
        Some(mods[0])
    } else {
        modifier_named(mods.drop_first(), id)
    }
}

/// The first modifier of `mods` with identifier `identifier`, if any.
fn find_modifier<'a>(mods: &'a Vec<BaseModifier>, identifier: &String) -> (r: Option<&'a BaseModifier>)
    ensures
        match modifier_named(modifiers_view(mods@), identifier@) {
            Some(v) => r matches Some(m) && m@ == v,
            None => r is None,
        },
{
    let ghost v = modifiers_view(mods@);
    let mut i: usize = 0;
    proof {
        assert(v.skip(0) =~= v);
    }
    while i < mods.len()
        invariant
            i <= mods.len(),
            v == modifiers_view(mods@),
            modifier_named(v, identifier@) == modifier_named(v.skip(i as int), identifier@),
        decreases mods.len() - i,
    {
        proof {
            let t = v.skip(i as int);
            assert(t[0] == mods@[i as int]@);
            assert(t.drop_first() =~= v.skip(i + 1));
        }
        if mods[i].identifier.eq(identifier) {
            return Some(&mods[i]);
        }
        i = i + 1;
    }
    proof {
        assert(v.skip(i as int) =~= Seq::<ModifierView>::empty());
    }
    None
}

impl CodexConfiguration {
    pub fn new(
        ordered_text_modifiers: Vec<BaseModifier>,
        ordered_paragraph_modifiers: Vec<BaseModifier>,
        ordered_chapter_modifier: Vec<BaseModifier>,
    ) -> (r: Self)
        ensures
            r@ == (
                modifiers_view(ordered_text_modifiers@),
                modifiers_view(ordered_paragraph_modifiers@),
                modifiers_view(ordered_chapter_modifier@),
            ),
    {
        Self { ordered_text_modifiers, ordered_paragraph_modifiers, ordered_chapter_modifier }
    }

    pub fn ordered_text_modifiers(&self) -> (r: &Vec<BaseModifier>)
        ensures
            modifiers_view(r@) == self@.0,
    {
        &self.ordered_text_modifiers
    }

    pub fn ordered_paragraph_modifiers(&self) -> (r: &Vec<BaseModifier>)
        ensures
            modifiers_view(r@) == self@.1,
    {
        &self.ordered_paragraph_modifiers
    }

    pub fn ordered_chapter_modifier(&self) -> (r: &Vec<BaseModifier>)
        ensures
            modifiers_view(r@) == self@.2,
    {
        &self.ordered_chapter_modifier
    }

    /// The first text modifier with the given identifier, if there is one.
    pub fn text_modifier(&self, identifier: &String) -> (r: Option<&BaseModifier>)
        ensures
            match modifier_named(self@.0, identifier@) {
                Some(v) => r matches Some(m) && m@ == v,
                None => r is None,
            },
    {
        find_modifier(&self.ordered_text_modifiers, identifier)
    }

    /// The first paragraph modifier with the given identifier, if there is one.
    pub fn paragraph_modifier(&self, identifier: &String) -> (r: Option<&BaseModifier>)
        ensures
            match modifier_named(self@.1, identifier@) {
                Some(v) => r matches Some(m) && m@ == v,
                None => r is None,
            },
    {
        find_modifier(&self.ordered_paragraph_modifiers, identifier)
    }

    /// The first chapter modifier with the given identifier, if there is one.
    pub fn chapter_modifier(&self, identifier: &String) -> (r: Option<&BaseModifier>)
        ensures
            match modifier_named(self@.2, identifier@) {
                Some(v) => r matches Some(m) && m@ == v,
                None => r is None,
            },
    {
        find_modifier(&self.ordered_chapter_modifier, identifier)
    }

    /// The standard modifiers of NMD, each in its order.
    pub fn default() -> (r: Self)
        ensures
            r@.0 == StandardTextModifier::spec_ordered().map_values(|m: StandardTextModifier| text_base(m)),
            r@.1 == StandardParagraphModifier::spec_ordered().map_values(
                |m: StandardParagraphModifier| paragraph_base(m),
            ),
            r@.2 == StandardChapterModifier::spec_ordered().map_values(
                |m: StandardChapterModifier| chapter_base(m),
            ),
    {
        let tms = StandardTextModifier::ordered();
        let mut text: Vec<BaseModifier> = Vec::new();
        let mut i: usize = 0;
        while i < tms.len()
            invariant
                i <= tms.len(),
                modifiers_view(text@) == tms@.take(i as int).map_values(|m: StandardTextModifier| text_base(m)),
            decreases tms.len() - i,
        {
            let b = tms[i].into_base();
            let ghost before = text@;
            text.push(b);
            proof {
                assert(modifiers_view(text@) =~= modifiers_view(before).push(b@));
                assert(tms@.take(i + 1).map_values(|m: StandardTextModifier| text_base(m)) =~= tms@.take(
                    i as int,
                ).map_values(|m: StandardTextModifier| text_base(m)).push(text_base(tms@[i as int])));
            }
            i = i + 1;
        }
        let pms = StandardParagraphModifier::ordered();
        let mut paragraph: Vec<BaseModifier> = Vec::new();
        let mut i: usize = 0;
        while i < pms.len()
            invariant
                i <= pms.len(),
                modifiers_view(paragraph@) == pms@.take(i as int).map_values(
                    |m: StandardParagraphModifier| paragraph_base(m),
                ),
            decreases pms.len() - i,
        {
            let b = pms[i].into_base();
            let ghost before = paragraph@;
            paragraph.push(b);
            proof {
                assert(modifiers_view(paragraph@) =~= modifiers_view(before).push(b@));
                assert(pms@.take(i + 1).map_values(|m: StandardParagraphModifier| paragraph_base(m))
                    =~= pms@.take(i as int).map_values(
                    |m: StandardParagraphModifier| paragraph_base(m),
                ).push(paragraph_base(pms@[i as int])));
            }
            i = i + 1;
        }
        let cms = StandardChapterModifier::ordered();
        let mut chapter: Vec<BaseModifier> = Vec::new();
        let mut i: usize = 0;
        while i < cms.len()
            invariant
                i <= cms.len(),
                forall|j: int| 0 <= j < cms@.len() ==> (#[trigger] cms@[j]).well_formed(),
                modifiers_view(chapter@) == cms@.take(i as int).map_values(
                    |m: StandardChapterModifier| chapter_base(m),
                ),
            decreases cms.len() - i,
        {
            let b = cms[i].into_base();
            let ghost before = chapter@;
            chapter.push(b);
            proof {
                assert(modifiers_view(chapter@) =~= modifiers_view(before).push(b@));
                assert(cms@.take(i + 1).map_values(|m: StandardChapterModifier| chapter_base(m))
                    =~= cms@.take(i as int).map_values(
                    |m: StandardChapterModifier| chapter_base(m),
                ).push(chapter_base(cms@[i as int])));
            }
            i = i + 1;
        }
        proof {
            assert(tms@.take(tms@.len() as int) =~= tms@);
            assert(pms@.take(pms@.len() as int) =~= pms@);
            assert(cms@.take(cms@.len() as int) =~= cms@);
        }
        Self {
            ordered_text_modifiers: text,
            ordered_paragraph_modifiers: paragraph,
            ordered_chapter_modifier: chapter,
        }
    }
}

} // verus!
