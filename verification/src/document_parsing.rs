//! Parsing a dossier, its documents, their chapters, headings and
//! paragraphs: each gets its parsed content, in order, until the first
//! failure.
use vstd::prelude::*;

use crate::chapter::{
    opt_view,
    paragraphs_view,
    Chapter,
    Heading,
    Paragraph,
};
use crate::codex::{lookup_rule, rules_view, Codex};
use crate::codex_configuration::modifier_named;
use crate::configuration::{Bibliography, DossierConfiguration};
use crate::document::{chapters_view, ChapterView, Document};
use crate::modifier::BucketView;
use crate::parser::{parsed_paragraph, parsed_text, rules_total, Parser};
use crate::parsing::{
    outcome_view,
    OptionsView,
    ParsingConfiguration,
    ParsingError,
    ParsingErrorView,
};
use crate::parsing_rule::rule_accepts;
use crate::reference::{internal_value, reference_str, Reference};
use crate::text::{append_str, owned, push_char};

verus! {

pub type ParagraphView = (Seq<char>, Option<Seq<char>>, Seq<char>);

pub type HeadingView = (u32, Seq<char>, Option<Seq<char>>);

/// The decimal digits of a number.
pub open spec fn decimal(n: nat) -> Seq<char>
    decreases n,
{
    if n < 10 {
        seq![((48 + n) as u8) as char]
    } else {
        decimal(n / 10).push(((48 + n % 10) as u8) as char)
    }
}

/// A number written in decimal.
pub fn decimal_string(n: u32) -> (r: String)
    ensures
        r@ == decimal(n as nat),
    decreases n,
{
    if n < 10 {
        let mut r = String::new();
        push_char(&mut r, ((48 + n) as u8) as char);
        proof {
            assert(r@ =~= decimal(n as nat));
        }
        r
    } else {
        let mut r = decimal_string(n / 10);
        push_char(&mut r, ((48 + n % 10) as u8) as char);
        r
    }
}

/// Whether the text rules of the codex accept every text under the options.
pub open spec fn text_parsable(codex: &Codex, c: OptionsView) -> bool {
    rules_total(rules_view(codex.text_rules@), c)
}

/// Whether the codex can parse a paragraph: it knows its modifier, and the
/// rule of that modifier accepts its content.
pub open spec fn paragraph_parsable(codex: &Codex, c: OptionsView, p: ParagraphView) -> bool {
    &&& modifier_named(codex.configuration@.1, p.2) is Some
    &&& match lookup_rule(
        rules_view(codex.paragraph_rules@),
        (modifier_named(codex.configuration@.1, p.2)->0).0,
    ) {
        Some(rule) => rule_accepts(rule, p.0, c),
        None => true,
    }
}

/// What parsing a paragraph gives.
pub open spec fn paragraph_result(codex: &Codex, c: OptionsView, p: ParagraphView) -> Result<
    Seq<char>,
    ParsingErrorView,
> {
    parsed_paragraph(
        codex.configuration@.0,
        rules_view(codex.text_rules@),
        codex.configuration@.1,
        rules_view(codex.paragraph_rules@),
        p,
        BucketView::Nothing,
        c,
    )
}

/// Paragraphs after parsing them in order, and the first failure: the ones
/// before it get their parsed content, the others are left as they were.
pub open spec fn paragraphs_after(codex: &Codex, c: OptionsView, ps: Seq<ParagraphView>) -> (
    Seq<ParagraphView>,
    Option<ParsingErrorView>,
)
    decreases ps.len(),
{
    if ps.len() == 0 {
        (ps, None)
    } else {
        match paragraph_result(codex, c, ps[0]) {
            Err(e) => (ps, Some(e)),
            Ok(s) => {
                let (rest, err) = paragraphs_after(codex, c, ps.drop_first());
                (seq![(ps[0].0, Some(s), ps[0].2)] + rest, err)
            },
        }
    }
}

/// The markup of a heading.
pub open spec fn heading_html(level: u32, id: Seq<char>, title: Seq<char>) -> Seq<char> {
    "<h"@ + decimal(level as nat) + " class=\"heading-"@ + decimal(level as nat) + "\" id=\""@ + id
        + "\">"@ + title + "</h"@ + decimal(level as nat) + ">"@
}

/// What parsing a heading gives, in a document: its identifier is made of
/// the document name and its title, its title is parsed as text.
pub open spec fn heading_result(
    codex: &Codex,
    c: OptionsView,
    h: HeadingView,
    document_name: Seq<char>,
) -> Result<Seq<char>, ParsingErrorView> {
    match internal_value("#"@ + h.1, Some(document_name)) {
        None => Err(ParsingErrorView::InvalidSource(h.1)),
        Some(v) => match parsed_text(
            codex.configuration@.0,
            rules_view(codex.text_rules@),
            h.1,
            c.0,
            c,
        ) {
            Err(e) => Err(e),
            Ok(t) => Ok(heading_html(h.0, reference_str(v), t)),
        },
    }
}

/// Law: a parsed heading shows its parsed title, and only it, between its
/// opening tag and its closing tag, and carries as its `id` the reference
/// built of the document name and the title: `<hN class="heading-N"
/// id="REF">` + the parsed title + `</hN>`, where `N` is the level written
/// in decimal.
pub proof fn law_heading_shows_title_and_carries_reference(
    codex: &Codex,
    c: OptionsView,
    h: HeadingView,
    document_name: Seq<char>,
    v: Seq<char>,
    t: Seq<char>,
)
    requires
        internal_value("#"@ + h.1, Some(document_name)) == Some(v),
        parsed_text(codex.configuration@.0, rules_view(codex.text_rules@), h.1, c.0, c) == Ok::<
            Seq<char>,
            ParsingErrorView,
        >(t),
    ensures
        heading_result(codex, c, h, document_name) matches Ok(s) && {
            let n = decimal(h.0 as nat);
            let open = "<h"@ + n + " class=\"heading-"@ + n + "\" id=\""@ + reference_str(v) + "\">"@;
            let close = "</h"@ + n + ">"@;
            &&& s == open + t + close
            &&& s.subrange(open.len() as int, s.len() - close.len()) == t
        },
{
    let n = decimal(h.0 as nat);
    let open = "<h"@ + n + " class=\"heading-"@ + n + "\" id=\""@ + reference_str(v) + "\">"@;
    let close = "</h"@ + n + ">"@;
    let s = heading_html(h.0, reference_str(v), t);
    assert(s =~= open + t + close);
    assert((open + t + close).subrange(open.len() as int, (open + t + close).len() - close.len()) =~= t);
}

/// A chapter after parsing its heading, then its paragraphs, and the first
/// failure.
pub open spec fn chapter_after(
    codex: &Codex,
    c: OptionsView,
    ch: ChapterView,
    document_name: Seq<char>,
) -> (ChapterView, Option<ParsingErrorView>) {
    match heading_result(codex, c, ch.0, document_name) {
        Err(e) => (ch, Some(e)),
        Ok(hs) => {
            let (ps, err) = paragraphs_after(codex, c, ch.2);
            (((ch.0.0, ch.0.1, Some(hs)), ch.1, ps), err)
        },
    }
}

/// Chapters after parsing them in order, and the first failure.
pub open spec fn chapters_after(
    codex: &Codex,
    c: OptionsView,
    chs: Seq<ChapterView>,
    document_name: Seq<char>,
) -> (Seq<ChapterView>, Option<ParsingErrorView>)
    decreases chs.len(),
{
    if chs.len() == 0 {
        (chs, None)
    } else {
        let (first, err) = chapter_after(codex, c, chs[0], document_name);
        match err {
            Some(e) => (seq![first] + chs.drop_first(), Some(e)),
            None => {
                let (rest, err2) = chapters_after(codex, c, chs.drop_first(), document_name);
                (seq![first] + rest, err2)
            },
        }
    }
}

/// The failure of a parse, if any.
pub open spec fn failure(r: Result<(), ParsingError>) -> Option<ParsingErrorView> {
    match r {
        Ok(_) => None,
        Err(e) => Some(e@),
    }
}

/// Whether every paragraph can be parsed.
pub open spec fn all_parsable(codex: &Codex, c: OptionsView, ps: Seq<ParagraphView>) -> bool {
    forall|i: int| 0 <= i < ps.len() ==> paragraph_parsable(codex, c, #[trigger] ps[i])
}

proof fn lemma_paragraphs_after_step(
    codex: &Codex,
    c: OptionsView,
    ps: Seq<ParagraphView>,
    i: int,
    s: Seq<char>,
)
    requires
        0 <= i < ps.len(),
        paragraph_result(codex, c, ps[i]) == Ok::<Seq<char>, ParsingErrorView>(s),
    ensures
        paragraphs_after(codex, c, ps.skip(i)).0 == seq![(ps[i].0, Some(s), ps[i].2)]
            + paragraphs_after(codex, c, ps.skip(i + 1)).0,
        paragraphs_after(codex, c, ps.skip(i)).1 == paragraphs_after(codex, c, ps.skip(i + 1)).1,
{
    assert(ps.skip(i)[0] == ps[i]);
    assert(ps.skip(i).drop_first() =~= ps.skip(i + 1));
}

impl Paragraph {
    /// Parses the paragraph: on success its parsed content is set.
    pub fn standard_parse(&mut self, codex: &Codex, parsing_configuration: &ParsingConfiguration) -> (r:
        Result<(), ParsingError>)
        requires
            text_parsable(codex, parsing_configuration.options()),
            paragraph_parsable(codex, parsing_configuration.options(), old(self)@),
        ensures
            match paragraph_result(codex, parsing_configuration.options(), old(self)@) {
                Ok(s) => r is Ok && final(self)@ == (old(self)@.0, Some(s), old(self)@.2),
                Err(e) => r matches Err(x) && x@ == e && final(self)@ == old(self)@,
            },
    {
        let outcome = match Parser::parse_paragraph(codex, self, parsing_configuration) {
            Ok(o) => o,
            Err(e) => {
                return Err(e);
            },
        };
        self.set_parsed_content(Some(outcome.parsed_content));
        Ok(())
    }
}

/// Parses paragraphs in order, until the first failure.
fn parse_paragraphs(
    paragraphs: &mut Vec<Paragraph>,
    codex: &Codex,
    parsing_configuration: &ParsingConfiguration,
) -> (r: Result<(), ParsingError>)
    requires
        text_parsable(codex, parsing_configuration.options()),
        all_parsable(codex, parsing_configuration.options(), paragraphs_view(old(paragraphs)@)),
    ensures
        paragraphs_after(codex, parsing_configuration.options(), paragraphs_view(old(paragraphs)@)) == (
            paragraphs_view(final(paragraphs)@),
            failure(r),
        ),
{
    let ghost ps = paragraphs_view(paragraphs@);
    let ghost target = paragraphs_after(codex, parsing_configuration.options(), ps);
    let mut i: usize = 0;
    proof {
        assert(ps.skip(0) =~= ps);
    }
    while i < paragraphs.len()
        invariant
            i <= paragraphs@.len() == ps.len(),
            text_parsable(codex, parsing_configuration.options()),
            all_parsable(codex, parsing_configuration.options(), ps),
            target == paragraphs_after(codex, parsing_configuration.options(), ps),
            ps == paragraphs_view(old(paragraphs)@),
            paragraphs_view(paragraphs@).skip(i as int) == ps.skip(i as int),
            target.0 == paragraphs_view(paragraphs@).take(i as int) + paragraphs_after(
                codex,
                parsing_configuration.options(),
                ps.skip(i as int),
            ).0,
            target.1 == paragraphs_after(codex, parsing_configuration.options(), ps.skip(i as int)).1,
        decreases ps.len() - i,
    {
        let mut p = paragraphs[i].duplicate();
        proof {
            assert(paragraphs_view(paragraphs@).skip(i as int)[0] == ps.skip(i as int)[0]);
            assert(p@ == ps[i as int]);
        }
        let ghost before = paragraphs_view(paragraphs@);
        match p.standard_parse(codex, parsing_configuration) {
            Ok(()) => {},
            Err(e) => {
                proof {
                    assert(ps.skip(i as int)[0] == ps[i as int]);
                    assert(paragraph_result(codex, parsing_configuration.options(), ps.skip(i as int)[0])
                        == Err::<Seq<char>, ParsingErrorView>(e@));
                    assert(paragraphs_after(codex, parsing_configuration.options(), ps.skip(i as int)) == (
                        ps.skip(i as int),
                        Some(e@),
                    ));
                    assert(before.take(i as int) + ps.skip(i as int) =~= before);
                }
                return Err(e);
            },
        }
        let ghost s = p@.1->0;
        paragraphs.set(i, p);
        proof {
            lemma_paragraphs_after_step(codex, parsing_configuration.options(), ps, i as int, s);
            let now = paragraphs_view(paragraphs@);
            assert(now =~= before.update(i as int, p@));
            assert(now.skip(i + 1) =~= before.skip(i + 1));
            assert(before.skip(i + 1) =~= before.skip(i as int).drop_first());
            assert(ps.skip(i + 1) =~= ps.skip(i as int).drop_first());
            let rest = paragraphs_after(codex, parsing_configuration.options(), ps.skip(i + 1)).0;
            assert(before.take(i as int) + (seq![(ps[i as int].0, Some(s), ps[i as int].2)] + rest)
                =~= now.take(i + 1) + rest);
        }
        i = i + 1;
    }
    proof {
        assert(ps.skip(i as int) =~= Seq::<ParagraphView>::empty());
        assert(paragraphs_view(paragraphs@).take(i as int) =~= paragraphs_view(paragraphs@));
        assert(paragraphs_view(paragraphs@) + Seq::<ParagraphView>::empty() =~= paragraphs_view(
            paragraphs@,
        ));
    }
    Ok(())
}

impl Heading {
    /// Parses the heading in the document being parsed: its identifier is
    /// made of the document name and its title; its title is parsed as text.
    pub fn standard_parse(&mut self, codex: &Codex, parsing_configuration: &ParsingConfiguration) -> (r:
        Result<(), ParsingError>)
        requires
            text_parsable(codex, parsing_configuration.options()),
            parsing_configuration.metadata.document_name is Some,
        ensures
            match heading_result(
                codex,
                parsing_configuration.options(),
                old(self)@,
                (parsing_configuration.metadata.document_name->0)@,
            ) {
                Ok(s) => r is Ok && final(self)@ == (old(self)@.0, old(self)@.1, Some(s)),
                Err(e) => r matches Err(x) && x@ == e && final(self)@ == old(self)@,
            },
    {
        let document_name = match &parsing_configuration.metadata.document_name {
            Some(n) => n,
            None => {
                return Err(ParsingError::Unknown);
            },
        };
        let id = match Reference::of_internal_without_sharp(self.title.as_str(), Some(document_name.as_str())) {
            Ok(id) => id,
            Err(_) => {
                return Err(ParsingError::InvalidSource(self.title.clone()));
            },
        };
        let parsed_title = match Parser::parse_text(codex, self.title.as_str(), parsing_configuration) {
            Ok(t) => t,
            Err(e) => {
                return Err(e);
            },
        };
        let level = decimal_string(self.level);
        let id_string = id.build_without_internal_sharp();
        let mut html = owned("<h");
        append_str(&mut html, level.as_str());
        append_str(&mut html, " class=\"heading-");
        append_str(&mut html, level.as_str());
        append_str(&mut html, "\" id=\"");
        append_str(&mut html, id_string.as_str());
        append_str(&mut html, "\">");
        append_str(&mut html, parsed_title.parsed_content.as_str());
        append_str(&mut html, "</h");
        append_str(&mut html, level.as_str());
        append_str(&mut html, ">");
        proof {
            assert(html@ =~= heading_html(self.level, id_string@, parsed_title.parsed_content@));
        }
        self.set_parsed_content(Some(html));
        Ok(())
    }
}

impl Chapter {
    /// Parses the heading, then the paragraphs in order, until the first
    /// failure.
    pub fn standard_parse(&mut self, codex: &Codex, parsing_configuration: &ParsingConfiguration) -> (r:
        Result<(), ParsingError>)
        requires
            text_parsable(codex, parsing_configuration.options()),
            parsing_configuration.metadata.document_name is Some,
            all_parsable(codex, parsing_configuration.options(), old(self)@.2),
        ensures
            chapter_after(
                codex,
                parsing_configuration.options(),
                old(self)@,
                (parsing_configuration.metadata.document_name->0)@,
            ) == (final(self)@, failure(r)),
    {
        match self.heading.standard_parse(codex, parsing_configuration) {
            Ok(()) => {},
            Err(e) => {
                return Err(e);
            },
        }
        parse_paragraphs(&mut self.paragraphs, codex, parsing_configuration)
    }
}

/// Whether every paragraph of every chapter can be parsed.
pub open spec fn chapters_parsable(codex: &Codex, c: OptionsView, chs: Seq<ChapterView>) -> bool {
    forall|i: int| 0 <= i < chs.len() ==> all_parsable(codex, c, (#[trigger] chs[i]).2)
}

/// A document after parsing: its preamble, then its chapters, in order,
/// until the first failure.
pub open spec fn document_after(
    codex: &Codex,
    c: OptionsView,
    d: (Seq<char>, Seq<ParagraphView>, Seq<ChapterView>),
) -> ((Seq<char>, Seq<ParagraphView>, Seq<ChapterView>), Option<ParsingErrorView>) {
    let (pre, err) = paragraphs_after(codex, c, d.1);
    match err {
        Some(e) => ((d.0, pre, d.2), Some(e)),
        None => {
            let (chs, err2) = chapters_after(codex, c, d.2, d.0);
            ((d.0, pre, chs), err2)
        },
    }
}

/// The options with the name of the document being parsed.
pub open spec fn naming_document(c: ParsingConfiguration, name: Seq<char>) -> bool {
    c.metadata.document_name matches Some(n) && n@ == name
}

proof fn lemma_chapters_after_step(
    codex: &Codex,
    c: OptionsView,
    cs: Seq<ChapterView>,
    i: int,
    name: Seq<char>,
    first: ChapterView,
    err: Option<ParsingErrorView>,
)
    requires
        0 <= i < cs.len(),
        chapter_after(codex, c, cs[i], name) == (first, err),
    ensures
        err is Some ==> chapters_after(codex, c, cs.skip(i), name) == (
            seq![first] + cs.skip(i + 1),
            err,
        ),
        err is None ==> chapters_after(codex, c, cs.skip(i), name).0 == seq![first] + chapters_after(
            codex,
            c,
            cs.skip(i + 1),
            name,
        ).0,
        err is None ==> chapters_after(codex, c, cs.skip(i), name).1 == chapters_after(
            codex,
            c,
            cs.skip(i + 1),
            name,
        ).1,
{
    assert(cs.skip(i)[0] == cs[i]);
    assert(cs.skip(i).drop_first() =~= cs.skip(i + 1));
}

/// Parses chapters in order, until the first failure.
fn parse_chapters(
    chapters: &mut Vec<Chapter>,
    codex: &Codex,
    parsing_configuration: &ParsingConfiguration,
) -> (r: Result<(), ParsingError>)
    requires
        text_parsable(codex, parsing_configuration.options()),
        parsing_configuration.metadata.document_name is Some,
        chapters_parsable(codex, parsing_configuration.options(), chapters_view(old(chapters)@)),
    ensures
        chapters_after(
            codex,
            parsing_configuration.options(),
            chapters_view(old(chapters)@),
            (parsing_configuration.metadata.document_name->0)@,
        ) == (chapters_view(final(chapters)@), failure(r)),
{
    let ghost name = (parsing_configuration.metadata.document_name->0)@;
    let ghost cs = chapters_view(chapters@);
    let ghost target = chapters_after(codex, parsing_configuration.options(), cs, name);
    let mut i: usize = 0;
    proof {
        assert(cs.skip(0) =~= cs);
    }
    while i < chapters.len()
        invariant
            i <= chapters@.len() == cs.len(),
            text_parsable(codex, parsing_configuration.options()),
            parsing_configuration.metadata.document_name is Some,
            name == (parsing_configuration.metadata.document_name->0)@,
            chapters_parsable(codex, parsing_configuration.options(), cs),
            target == chapters_after(codex, parsing_configuration.options(), cs, name),
            cs == chapters_view(old(chapters)@),
            chapters_view(chapters@).skip(i as int) == cs.skip(i as int),
            target.0 == chapters_view(chapters@).take(i as int) + chapters_after(
                codex,
                parsing_configuration.options(),
                cs.skip(i as int),
                name,
            ).0,
            target.1 == chapters_after(codex, parsing_configuration.options(), cs.skip(i as int), name).1,
        decreases cs.len() - i,
    {
        let ghost before = chapters_view(chapters@);
        proof {
            assert(before.skip(i as int)[0] == cs.skip(i as int)[0]);
            assert(cs.skip(i as int)[0] == cs[i as int]);
            assert(chapters@[i as int]@ == cs[i as int]);
        }
        let result = chapters[i].standard_parse(codex, parsing_configuration);
        let ghost now = chapters_view(chapters@);
        let ghost first = now[i as int];
        proof {
            assert(now =~= before.update(i as int, first));
            lemma_chapters_after_step(codex, parsing_configuration.options(), cs, i as int, name, first, failure(result));
            assert(before.skip(i + 1) =~= before.skip(i as int).drop_first());
            assert(now.skip(i + 1) =~= before.skip(i + 1));
            assert(now.take(i as int) =~= before.take(i as int));
        }
        match result {
            Ok(()) => {},
            Err(e) => {
                proof {
                    assert(cs.skip(i + 1) =~= cs.skip(i as int).drop_first());
                    assert(before.take(i as int) + (seq![first] + cs.skip(i + 1)) =~= now);
                }
                return Err(e);
            },
        }
        proof {
            let rest = chapters_after(codex, parsing_configuration.options(), cs.skip(i + 1), name).0;
            assert(before.take(i as int) + (seq![first] + rest) =~= now.take(i + 1) + rest);
        }
        i = i + 1;
    }
    proof {
        assert(cs.skip(i as int) =~= Seq::<ChapterView>::empty());
        assert(chapters_view(chapters@).take(i as int) =~= chapters_view(chapters@));
        assert(chapters_view(chapters@) + Seq::<ChapterView>::empty() =~= chapters_view(chapters@));
    }
    Ok(())
}

impl Document {
    /// Parses the document: the options name it as the document being
    /// parsed; then its preamble, then its chapters, in order, until the
    /// first failure.
    pub fn standard_parse(&mut self, codex: &Codex, parsing_configuration: &mut ParsingConfiguration) -> (r:
        Result<(), ParsingError>)
        requires
            text_parsable(codex, old(parsing_configuration).options()),
            all_parsable(codex, old(parsing_configuration).options(), old(self)@.1),
            chapters_parsable(codex, old(parsing_configuration).options(), old(self)@.2),
        ensures
            naming_document(*final(parsing_configuration), old(self)@.0),
            *final(parsing_configuration) == (ParsingConfiguration {
                metadata: final(parsing_configuration).metadata,
                ..*old(parsing_configuration)
            }),
            final(parsing_configuration).excluded_modifiers == old(parsing_configuration).excluded_modifiers,
            final(parsing_configuration).list_bullets_configuration == old(
                parsing_configuration,
            ).list_bullets_configuration,
            final(parsing_configuration).strict_list_check == old(parsing_configuration).strict_list_check,
            final(parsing_configuration).strict_focus_block_check == old(
                parsing_configuration,
            ).strict_focus_block_check,
            final(parsing_configuration).metadata.dossier_name == old(
                parsing_configuration,
            ).metadata.dossier_name,
            document_after(codex, final(parsing_configuration).options(), old(self)@) == (
                final(self)@,
                failure(r),
            ),
    {
        parsing_configuration.metadata.set_document_name(Some(self.name.clone()));
        proof {
            assert(all_parsable(codex, parsing_configuration.options(), paragraphs_view(self.preamble@))) by {
                assert forall|i: int| 0 <= i < paragraphs_view(self.preamble@).len() implies paragraph_parsable(
                    codex,
                    parsing_configuration.options(),
                    #[trigger] paragraphs_view(self.preamble@)[i],
                ) by {
                    assert(paragraph_parsable(codex, old(parsing_configuration).options(), paragraphs_view(self.preamble@)[i]));
                }
            }
            assert(chapters_parsable(codex, parsing_configuration.options(), chapters_view(self.chapters@))) by {
                assert forall|i: int| 0 <= i < chapters_view(self.chapters@).len() implies all_parsable(
                    codex,
                    parsing_configuration.options(),
                    (#[trigger] chapters_view(self.chapters@)[i]).2,
                ) by {
                    let ps = chapters_view(self.chapters@)[i].2;
                    assert(all_parsable(codex, old(parsing_configuration).options(), ps));
                    assert forall|j: int| 0 <= j < ps.len() implies paragraph_parsable(
                        codex,
                        parsing_configuration.options(),
                        #[trigger] ps[j],
                    ) by {
                        assert(paragraph_parsable(codex, old(parsing_configuration).options(), ps[j]));
                    }
                }
            }
        }
        match parse_paragraphs(&mut self.preamble, codex, parsing_configuration) {
            Ok(()) => {},
            Err(e) => {
                return Err(e);
            },
        }
        parse_chapters(&mut self.chapters, codex, parsing_configuration)
    }
}

/// A dossier: its configuration, its documents, and its bibliography.
#[derive(Debug)]
pub struct Dossier {
    pub configuration: DossierConfiguration,
    pub documents: Vec<Document>,
    pub bibliography: Option<Bibliography>,
}

/// The folders of a dossier.
pub const ASSETS_DIR: &'static str = "assets";

pub const IMAGES_DIR: &'static str = "images";

pub const DOCUMENTS_DIR: &'static str = "documents";

pub const STYLES_DIR: &'static str = "styles";

impl Dossier {
    pub fn new(configuration: DossierConfiguration, documents: Vec<Document>) -> (r: Self)
        ensures
            r.configuration == configuration,
            r.documents == documents,
            r.bibliography is None,
    {
        Self { configuration, documents, bibliography: None }
    }

    pub fn name(&self) -> (r: &String)
        ensures
            r@ == self.configuration.name@,
    {
        self.configuration.name()
    }

    pub fn configuration(&self) -> (r: &DossierConfiguration)
        ensures
            r == &self.configuration,
    {
        &self.configuration
    }

    pub fn documents(&self) -> (r: &Vec<Document>)
        ensures
            r == &self.documents,
    {
        &self.documents
    }

    pub fn set_documents(&mut self, documents: Vec<Document>)
        ensures
            final(self).documents == documents,
            final(self).configuration == old(self).configuration,
            final(self).bibliography == old(self).bibliography,
    {
        self.documents = documents;
    }
}

/// The documents of a dossier after parsing them in order, and the first
/// failure.
pub open spec fn documents_after(
    codex: &Codex,
    c: OptionsView,
    ds: Seq<(Seq<char>, Seq<ParagraphView>, Seq<ChapterView>)>,
) -> (Seq<(Seq<char>, Seq<ParagraphView>, Seq<ChapterView>)>, Option<ParsingErrorView>)
    decreases ds.len(),
{
    if ds.len() == 0 {
        (ds, None)
    } else {
        let (first, err) = document_after(codex, c, ds[0]);
        match err {
            Some(e) => (seq![first] + ds.drop_first(), Some(e)),
            None => {
                let (rest, err2) = documents_after(codex, c, ds.drop_first());
                (seq![first] + rest, err2)
            },
        }
    }
}

pub open spec fn documents_view(v: Seq<Document>) -> Seq<(Seq<char>, Seq<ParagraphView>, Seq<ChapterView>)> {
    v.map_values(|d: Document| d@)
}

/// Whether every paragraph of every document can be parsed.
pub open spec fn documents_parsable(
    codex: &Codex,
    c: OptionsView,
    ds: Seq<(Seq<char>, Seq<ParagraphView>, Seq<ChapterView>)>,
) -> bool {
    forall|i: int|
        0 <= i < ds.len() ==> all_parsable(codex, c, (#[trigger] ds[i]).1) && chapters_parsable(
            codex,
            c,
            ds[i].2,
        )
}

proof fn lemma_documents_after_step(
    codex: &Codex,
    c: OptionsView,
    ds: Seq<(Seq<char>, Seq<ParagraphView>, Seq<ChapterView>)>,
    i: int,
    first: (Seq<char>, Seq<ParagraphView>, Seq<ChapterView>),
    err: Option<ParsingErrorView>,
)
    requires
        0 <= i < ds.len(),
        document_after(codex, c, ds[i]) == (first, err),
    ensures
        err is Some ==> documents_after(codex, c, ds.skip(i)) == (seq![first] + ds.skip(i + 1), err),
        err is None ==> documents_after(codex, c, ds.skip(i)).0 == seq![first] + documents_after(
            codex,
            c,
            ds.skip(i + 1),
        ).0,
        err is None ==> documents_after(codex, c, ds.skip(i)).1 == documents_after(
            codex,
            c,
            ds.skip(i + 1),
        ).1,
{
    assert(ds.skip(i)[0] == ds[i]);
    assert(ds.skip(i).drop_first() =~= ds.skip(i + 1));
}

impl Dossier {
    /// Parses the documents in order, until the first failure; the options
    /// name the dossier, and each document while it is parsed.
    #[verifier::spinoff_prover]
    #[verifier::rlimit(50)]
    pub fn standard_parse(&mut self, codex: &Codex, parsing_configuration: &mut ParsingConfiguration) -> (r:
        Result<(), ParsingError>)
        requires
            text_parsable(codex, old(parsing_configuration).options()),
            documents_parsable(codex, old(parsing_configuration).options(), documents_view(old(self).documents@)),
        ensures
            final(parsing_configuration).metadata.dossier_name matches Some(n) && n@
                == old(self).configuration.name@,
            *final(parsing_configuration) == (ParsingConfiguration {
                metadata: final(parsing_configuration).metadata,
                ..*old(parsing_configuration)
            }),
            old(self).documents@.len() == 0 ==> final(parsing_configuration).metadata.document_name
                == old(parsing_configuration).metadata.document_name,
            final(parsing_configuration).options() == old(parsing_configuration).options(),
            final(self).configuration == old(self).configuration,
            final(self).bibliography == old(self).bibliography,
            documents_after(
                codex,
                old(parsing_configuration).options(),
                documents_view(old(self).documents@),
            ) == (documents_view(final(self).documents@), failure(r)),
    {
        parsing_configuration.metadata.set_dossier_name(Some(self.configuration.name.clone()));
        let ghost c = old(parsing_configuration).options();
        let ghost ds = documents_view(self.documents@);
        let ghost target = documents_after(codex, c, ds);
        let mut i: usize = 0;
        proof {
            assert(ds.skip(0) =~= ds);
            assert(documents_view(self.documents@).take(0) + target.0 =~= target.0);
        }
        while i < self.documents.len()
            invariant
                i <= self.documents@.len() == ds.len(),
                ds == documents_view(old(self).documents@),
                c == old(parsing_configuration).options(),
                parsing_configuration.options() == c,
                *parsing_configuration == (ParsingConfiguration {
                    metadata: parsing_configuration.metadata,
                    ..*old(parsing_configuration)
                }),
                i == 0 ==> parsing_configuration.metadata.document_name == old(
                    parsing_configuration,
                ).metadata.document_name,
                text_parsable(codex, c),
                parsing_configuration.metadata.dossier_name matches Some(n) && n@ == old(self).configuration.name@,
                documents_parsable(codex, c, ds),
                target == documents_after(codex, c, ds),
                documents_view(self.documents@).skip(i as int) == ds.skip(i as int),
                target.0 == documents_view(self.documents@).take(i as int) + documents_after(
                    codex,
                    c,
                    ds.skip(i as int),
                ).0,
                target.1 == documents_after(codex, c, ds.skip(i as int)).1,
                self.configuration == old(self).configuration,
                self.bibliography == old(self).bibliography,
            decreases ds.len() - i,
        {
            let ghost before = documents_view(self.documents@);
            proof {
                assert(before.skip(i as int)[0] == ds.skip(i as int)[0]);
                assert(ds.skip(i as int)[0] == ds[i as int]);
                assert(self.documents@[i as int]@ == ds[i as int]);
            }
            let result = self.documents[i].standard_parse(codex, parsing_configuration);
            let ghost now = documents_view(self.documents@);
            let ghost first = now[i as int];
            proof {
                assert(now =~= before.update(i as int, first));
                lemma_documents_after_step(codex, c, ds, i as int, first, failure(result));
                assert(before.skip(i + 1) =~= before.skip(i as int).drop_first());
                assert(ds.skip(i + 1) =~= ds.skip(i as int).drop_first());
                assert(now.skip(i + 1) =~= before.skip(i + 1));
                assert(now.take(i as int) =~= before.take(i as int));
            }
            match result {
                Ok(()) => {},
                Err(e) => {
                    proof {
                        assert(before.take(i as int) + (seq![first] + ds.skip(i + 1)) =~= now);
                    }
                    return Err(e);
                },
            }
            proof {
                let rest = documents_after(codex, c, ds.skip(i + 1)).0;
                assert(before.take(i as int) + (seq![first] + rest) =~= now.take(i + 1) + rest);
            }
            i = i + 1;
        }
        proof {
            assert(ds.skip(i as int) =~= Seq::<(Seq<char>, Seq<ParagraphView>, Seq<ChapterView>)>::empty());
            assert(documents_view(self.documents@).take(i as int) =~= documents_view(self.documents@));
            assert(documents_view(self.documents@) + Seq::<(Seq<char>, Seq<ParagraphView>, Seq<ChapterView>)>::empty()
                =~= documents_view(self.documents@));
        }
        Ok(())
    }
}

/// What a parsed bibliography starts with, before its title.
pub const BIBLIOGRAPHY_OPEN: &'static str =
    "<section class=\"bibliography\"><span class=\"bibliography-title\">";

/// What a parsed bibliography ends with, after its title.
pub const BIBLIOGRAPHY_CLOSE: &'static str = "</span><ul class=\"bibliography-body\"></ul></section>";

impl Bibliography {
    /// Parses the bibliography: its title, parsed as a text, in a section
    /// with the list of entries; on failure it is left as it was.
    pub fn standard_parse(&mut self, codex: &Codex, parsing_configuration: &ParsingConfiguration) -> (r:
        Result<(), ParsingError>)
        requires
            rules_total(rules_view(codex.text_rules@), parsing_configuration.options()),
        ensures
            final(self).title == old(self).title,
            final(self).entries == old(self).entries,
            match parsed_text(
                codex.configuration@.0,
                rules_view(codex.text_rules@),
                old(self).title@,
                parsing_configuration.excluded_modifiers@,
                parsing_configuration.options(),
            ) {
                Ok(t) => r is Ok && opt_view(final(self).parsed_content) == Some(
                    BIBLIOGRAPHY_OPEN@ + t + BIBLIOGRAPHY_CLOSE@,
                ),
                Err(e) => r matches Err(pe) && pe@ == e && final(self).parsed_content == old(
                    self,
                ).parsed_content,
            },
    {
        let title = match Parser::parse_text(codex, self.title.as_str(), parsing_configuration) {
            Ok(o) => o,
            Err(e) => {
                return Err(e);
            },
        };
        let mut content = owned(BIBLIOGRAPHY_OPEN);
        append_str(&mut content, title.parsed_content.as_str());
        append_str(&mut content, BIBLIOGRAPHY_CLOSE);
        self.parsed_content = Some(content);
        Ok(())
    }
}

} // verus!
