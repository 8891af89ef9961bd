//! The codex: the modifiers NMD knows and the rules that turn what they match
//! into the output format.
use vstd::prelude::*;

use crate::codex_configuration::CodexConfiguration;
use crate::image_rule::{copy_sources, sources_view, HtmlImageRule, ImageSource, ImageSourcesView};
use crate::modifier::{ModifierIdentifier, ModifierPattern};
use crate::nmd_id::{id_of, identifier_of};
use crate::output_format::OutputFormat;
use crate::parsing_rule::{
    HtmlExtendedBlockQuoteRule,
    HtmlListRule,
    ParsingRule,
    ReplacementRule,
    RuleView,
};
use crate::standard_paragraph_modifier::StandardParagraphModifier;
use crate::standard_text_modifier::StandardTextModifier;
use crate::text::owned;

verus! {

/// Rules by modifier identifier, as mathematical values.
pub open spec fn rules_view(v: Seq<(ModifierIdentifier, ParsingRule)>) -> Seq<(Seq<char>, RuleView)> {
    v.map_values(|e: (ModifierIdentifier, ParsingRule)| (e.0@, e.1@))
}

/// The rule for the modifier `id`: the first one listed for it.
pub open spec fn lookup_rule(rules: Seq<(Seq<char>, RuleView)>, id: Seq<char>) -> Option<RuleView>
    decreases rules.len(),
{
    if rules.len() == 0 {
        None
    } else if rules[0].0 == id {
        Some(rules[0].1)
    } else {
        lookup_rule(rules.drop_first(), id)
    }
}

/// The rule found for `id` is the one at `k` when no rule before `k` is for
/// `id`.
proof fn lemma_lookup_at(rules: Seq<(Seq<char>, RuleView)>, id: Seq<char>, k: int)
    requires
        0 <= k < rules.len(),
        rules[k].0 == id,
        forall|j: int| 0 <= j < k ==> (#[trigger] rules[j]).0 != id,
    ensures
        lookup_rule(rules, id) == Some(rules[k].1),
    decreases k,
{
    if k > 0 {
        let rest = rules.drop_first();
        assert forall|j: int| 0 <= j < k - 1 implies (#[trigger] rest[j]).0 != id by {
            assert(rest[j] == rules[j + 1]);
        }
        lemma_lookup_at(rest, id, k - 1);
    }
}

/// Law: in the HTML codex, text between single stars or single
/// underscores is emphasised (`<em class="italic">`) and text between double
/// stars or double underscores is made strong (`<strong class="bold">`): the
/// rule found for each of these modifiers replaces a match by its text in
/// that element.
pub proof fn law_html_emphasis_and_strong_text()
    ensures
        lookup_rule(html_text_rules(), StandardTextModifier::ItalicStarVersion.spec_identifier())
            == Some(RuleView::Replacement((
            StandardTextModifier::ItalicStarVersion.spec_modifier_pattern(),
            "<em class=\"italic\">"@ + "$1"@ + "</em>"@,
            None::<Seq<char>>,
        ))),
        lookup_rule(html_text_rules(), StandardTextModifier::ItalicUnderscoreVersion.spec_identifier())
            == Some(RuleView::Replacement((
            StandardTextModifier::ItalicUnderscoreVersion.spec_modifier_pattern(),
            "<em class=\"italic\">"@ + "$1"@ + "</em>"@,
            None::<Seq<char>>,
        ))),
        lookup_rule(html_text_rules(), StandardTextModifier::BoldStarVersion.spec_identifier())
            == Some(RuleView::Replacement((
            StandardTextModifier::BoldStarVersion.spec_modifier_pattern(),
            "<strong class=\"bold\">"@ + "$1"@ + "</strong>"@,
            None::<Seq<char>>,
        ))),
        lookup_rule(html_text_rules(), StandardTextModifier::BoldUnderscoreVersion.spec_identifier())
            == Some(RuleView::Replacement((
            StandardTextModifier::BoldUnderscoreVersion.spec_modifier_pattern(),
            "<strong class=\"bold\">"@ + "$1"@ + "</strong>"@,
            None::<Seq<char>>,
        ))),
{
    reveal_strlit("todo");
    reveal_strlit("bookmark-with-id");
    reveal_strlit("bookmark");
    reveal_strlit("abridged-bookmark-with-id");
    reveal_strlit("abridged-bookmark");
    reveal_strlit("embedded-style-with-id");
    reveal_strlit("embedded-style");
    reveal_strlit("abridged-embedded-style-with-id");
    reveal_strlit("abridged-embedded-style");
    reveal_strlit("identifier");
    reveal_strlit("highlight");
    reveal_strlit("inline-math");
    reveal_strlit("inline-code");
    reveal_strlit("bold-star-version");
    reveal_strlit("bold-underscore-version");
    reveal_strlit("italic-star-version");
    reveal_strlit("italic-underscore-version");
    reveal_strlit("<em class=\"italic\">");
    reveal_strlit("$1");
    reveal_strlit("</em>");
    reveal_strlit("<em class=\"italic\">$1</em>");
    reveal_strlit("<strong class=\"bold\">");
    reveal_strlit("</strong>");
    reveal_strlit("<strong class=\"bold\">$1</strong>");
    let r = html_text_rules();
    let italic = StandardTextModifier::ItalicStarVersion.spec_identifier();
    let italic_u = StandardTextModifier::ItalicUnderscoreVersion.spec_identifier();
    let bold = StandardTextModifier::BoldStarVersion.spec_identifier();
    let bold_u = StandardTextModifier::BoldUnderscoreVersion.spec_identifier();
    assert(r[13].0 == bold && r[14].0 == bold_u && r[15].0 == italic && r[16].0 == italic_u);
    assert forall|j: int| 0 <= j < 13 implies (#[trigger] r[j]).0 != bold by {
        if j == 0 {
            assert(r[0].0.len() != bold.len());
        }
        else if j == 1 {
            assert(r[1].0.len() != bold.len());
        }
        else if j == 2 {
            assert(r[2].0.len() != bold.len());
        }
        else if j == 3 {
            assert(r[3].0.len() != bold.len());
        }
        else if j == 4 {
            assert(r[4].0[0] != bold[0]);
        }
        else if j == 5 {
            assert(r[5].0.len() != bold.len());
        }
        else if j == 6 {
            assert(r[6].0.len() != bold.len());
        }
        else if j == 7 {
            assert(r[7].0.len() != bold.len());
        }
        else if j == 8 {
            assert(r[8].0.len() != bold.len());
        }
        else if j == 9 {
            assert(r[9].0.len() != bold.len());
        }
        else if j == 10 {
            assert(r[10].0.len() != bold.len());
        }
        else if j == 11 {
            assert(r[11].0.len() != bold.len());
        }
        else if j == 12 {
            assert(r[12].0.len() != bold.len());
        }
    }
    lemma_lookup_at(r, bold, 13);
    assert forall|j: int| 0 <= j < 14 implies (#[trigger] r[j]).0 != bold_u by {
        if j == 0 {
            assert(r[0].0.len() != bold_u.len());
        }
        else if j == 1 {
            assert(r[1].0.len() != bold_u.len());
        }
        else if j == 2 {
            assert(r[2].0.len() != bold_u.len());
        }
        else if j == 3 {
            assert(r[3].0.len() != bold_u.len());
        }
        else if j == 4 {
            assert(r[4].0.len() != bold_u.len());
        }
        else if j == 5 {
            assert(r[5].0.len() != bold_u.len());
        }
        else if j == 6 {
            assert(r[6].0.len() != bold_u.len());
        }
        else if j == 7 {
            assert(r[7].0.len() != bold_u.len());
        }
        else if j == 8 {
            assert(r[8].0[0] != bold_u[0]);
        }
        else if j == 9 {
            assert(r[9].0.len() != bold_u.len());
        }
        else if j == 10 {
            assert(r[10].0.len() != bold_u.len());
        }
        else if j == 11 {
            assert(r[11].0.len() != bold_u.len());
        }
        else if j == 12 {
            assert(r[12].0.len() != bold_u.len());
        }
        else if j == 13 {
            assert(r[13].0.len() != bold_u.len());
        }
    }
    lemma_lookup_at(r, bold_u, 14);
    assert forall|j: int| 0 <= j < 15 implies (#[trigger] r[j]).0 != italic by {
        if j == 0 {
            assert(r[0].0.len() != italic.len());
        }
        else if j == 1 {
            assert(r[1].0.len() != italic.len());
        }
        else if j == 2 {
            assert(r[2].0.len() != italic.len());
        }
        else if j == 3 {
            assert(r[3].0.len() != italic.len());
        }
        else if j == 4 {
            assert(r[4].0.len() != italic.len());
        }
        else if j == 5 {
            assert(r[5].0.len() != italic.len());
        }
        else if j == 6 {
            assert(r[6].0.len() != italic.len());
        }
        else if j == 7 {
            assert(r[7].0.len() != italic.len());
        }
        else if j == 8 {
            assert(r[8].0.len() != italic.len());
        }
        else if j == 9 {
            assert(r[9].0.len() != italic.len());
        }
        else if j == 10 {
            assert(r[10].0.len() != italic.len());
        }
        else if j == 11 {
            assert(r[11].0.len() != italic.len());
        }
        else if j == 12 {
            assert(r[12].0.len() != italic.len());
        }
        else if j == 13 {
            assert(r[13].0.len() != italic.len());
        }
        else if j == 14 {
            assert(r[14].0.len() != italic.len());
        }
    }
    lemma_lookup_at(r, italic, 15);
    assert forall|j: int| 0 <= j < 16 implies (#[trigger] r[j]).0 != italic_u by {
        if j == 0 {
            assert(r[0].0.len() != italic_u.len());
        }
        else if j == 1 {
            assert(r[1].0.len() != italic_u.len());
        }
        else if j == 2 {
            assert(r[2].0.len() != italic_u.len());
        }
        else if j == 3 {
            assert(r[3].0[0] != italic_u[0]);
        }
        else if j == 4 {
            assert(r[4].0.len() != italic_u.len());
        }
        else if j == 5 {
            assert(r[5].0.len() != italic_u.len());
        }
        else if j == 6 {
            assert(r[6].0.len() != italic_u.len());
        }
        else if j == 7 {
            assert(r[7].0.len() != italic_u.len());
        }
        else if j == 8 {
            assert(r[8].0.len() != italic_u.len());
        }
        else if j == 9 {
            assert(r[9].0.len() != italic_u.len());
        }
        else if j == 10 {
            assert(r[10].0.len() != italic_u.len());
        }
        else if j == 11 {
            assert(r[11].0.len() != italic_u.len());
        }
        else if j == 12 {
            assert(r[12].0.len() != italic_u.len());
        }
        else if j == 13 {
            assert(r[13].0.len() != italic_u.len());
        }
        else if j == 14 {
            assert(r[14].0.len() != italic_u.len());
        }
        else if j == 15 {
            assert(r[15].0.len() != italic_u.len());
        }
    }
    lemma_lookup_at(r, italic_u, 16);
    assert("<em class=\"italic\">"@ + "$1"@ + "</em>"@ =~= "<em class=\"italic\">$1</em>"@);
    assert("<strong class=\"bold\">"@ + "$1"@ + "</strong>"@ =~= "<strong class=\"bold\">$1</strong>"@);
}

/// The rule for the modifier `id` among `rules`.
pub fn rule_for<'a>(rules: &'a Vec<(ModifierIdentifier, ParsingRule)>, id: &String) -> (r: Option<
    &'a ParsingRule,
>)
    ensures
        match lookup_rule(rules_view(rules@), id@) {
            Some(v) => r matches Some(rule) && rule@ == v,
            None => r is None,
        },
{
    let ghost rv = rules_view(rules@);
    let mut i: usize = 0;
    proof {
        assert(rv.skip(0) =~= rv);
    }
    while i < rules.len()
        invariant
            i <= rules@.len(),
            rv == rules_view(rules@),
            lookup_rule(rv, id@) == lookup_rule(rv.skip(i as int), id@),
        decreases rules@.len() - i,
    {
        proof {
            let t = rv.skip(i as int);
            assert(t[0] == (rules@[i as int].0@, rules@[i as int].1@));
            assert(t.drop_first() =~= rv.skip(i + 1));
        }
        if rules[i].0.eq(id) {
            return Some(&rules[i].1);
        }
        i = i + 1;
    }
    proof {
        assert(rv.skip(i as int) =~= Seq::<(Seq<char>, RuleView)>::empty());
    }
    None
}

fn replacement(pattern: ModifierPattern, template: &str) -> (r: ParsingRule)
    ensures
        r@ == RuleView::Replacement((pattern@, template@, None::<Seq<char>>)),
{
    ParsingRule::Replacement(ReplacementRule::new(pattern, owned(template)))
}

fn replacement_with_fix(pattern: ModifierPattern, template: &str, fix: &str) -> (r: ParsingRule)
    ensures
        r@ == RuleView::Replacement((pattern@, template@, Some(fix@))),
{
    ParsingRule::Replacement(ReplacementRule::new(pattern, owned(template)).with_newline_fix(owned(fix)))
}

/// The text rules of the HTML codex, by modifier identifier.
pub open spec fn html_text_rules() -> Seq<(Seq<char>, RuleView)> {
    seq![
        (StandardTextModifier::Todo.spec_identifier(), RuleView::Replacement((StandardTextModifier::Todo.spec_modifier_pattern(), "<div class=\"todo\"><div class=\"todo-title\"></div><div class=\"todo-description\">$1</div></div>"@, None::<Seq<char>>))),
        (StandardTextModifier::BookmarkWithId.spec_identifier(), RuleView::Replacement((StandardTextModifier::BookmarkWithId.spec_modifier_pattern(), "<div class=\"bookmark\" id=\"$2\"><div class=\"bookmark-title\">$1</div><div class=\"bookmark-description\">$3</div></div>"@, None::<Seq<char>>))),
        (StandardTextModifier::Bookmark.spec_identifier(), RuleView::Replacement((StandardTextModifier::Bookmark.spec_modifier_pattern(), "<div class=\"bookmark\"><div class=\"bookmark-title\">$1</div><div class=\"bookmark-description\">$2</div></div>"@, None::<Seq<char>>))),
        (StandardTextModifier::AbridgedBookmarkWithId.spec_identifier(), RuleView::Replacement((StandardTextModifier::AbridgedBookmarkWithId.spec_modifier_pattern(), "<div class=\"abridged-bookmark\" id=\"$2><div class=\"abridged-bookmark-title\">$1</div></div>"@, None::<Seq<char>>))),
        (StandardTextModifier::AbridgedBookmark.spec_identifier(), RuleView::Replacement((StandardTextModifier::AbridgedBookmark.spec_modifier_pattern(), "<div class=\"abridged-bookmark\"><div class=\"abridged-bookmark-title\">$1</div></div>"@, None::<Seq<char>>))),
        (StandardTextModifier::EmbeddedStyleWithId.spec_identifier(), RuleView::Replacement((StandardTextModifier::EmbeddedStyleWithId.spec_modifier_pattern(), "<span class=\"identifier embedded-style\" id=\"$2\" style=\"$3\">$1</span>"@, None::<Seq<char>>))),
        (StandardTextModifier::EmbeddedStyle.spec_identifier(), RuleView::Replacement((StandardTextModifier::EmbeddedStyle.spec_modifier_pattern(), "<span class=\"embedded-style\" style=\"$2\">$1</span>"@, None::<Seq<char>>))),
        (StandardTextModifier::AbridgedEmbeddedStyleWithId.spec_identifier(), RuleView::Replacement((StandardTextModifier::AbridgedEmbeddedStyleWithId.spec_modifier_pattern(), "<span class=\"identifier abridged-embedded-style\" id=\"$2\" style=\"color: $3; background-color: $4; font-family: $5;\">$1</span>"@, None::<Seq<char>>))),
        (StandardTextModifier::AbridgedEmbeddedStyle.spec_identifier(), RuleView::Replacement((StandardTextModifier::AbridgedEmbeddedStyle.spec_modifier_pattern(), "<span class=\"abridged-embedded-style\" style=\"color: $2; background-color: $3; font-family: $4;\">$1</span>"@, None::<Seq<char>>))),
        (StandardTextModifier::Identifier.spec_identifier(), RuleView::Replacement((StandardTextModifier::Identifier.spec_modifier_pattern(), "<span class=\"identifier\" id=\"$2\">$1</span>"@, None::<Seq<char>>))),
        (StandardTextModifier::Highlight.spec_identifier(), RuleView::Replacement((StandardTextModifier::Highlight.spec_modifier_pattern(), "<mark class=\"highlight\">$1</mark>"@, None::<Seq<char>>))),
        (StandardTextModifier::InlineMath.spec_identifier(), RuleView::Replacement((StandardTextModifier::InlineMath.spec_modifier_pattern(), "<span class=\"inline-math\">$$$1$$</span>"@, None::<Seq<char>>))),
        (StandardTextModifier::InlineCode.spec_identifier(), RuleView::Replacement((StandardTextModifier::InlineCode.spec_modifier_pattern(), "<code class=\"language-markup inline-code\">$1</code>"@, None::<Seq<char>>))),
        (StandardTextModifier::BoldStarVersion.spec_identifier(), RuleView::Replacement((StandardTextModifier::BoldStarVersion.spec_modifier_pattern(), "<strong class=\"bold\">$1</strong>"@, None::<Seq<char>>))),
        (StandardTextModifier::BoldUnderscoreVersion.spec_identifier(), RuleView::Replacement((StandardTextModifier::BoldUnderscoreVersion.spec_modifier_pattern(), "<strong class=\"bold\">$1</strong>"@, None::<Seq<char>>))),
        (StandardTextModifier::ItalicStarVersion.spec_identifier(), RuleView::Replacement((StandardTextModifier::ItalicStarVersion.spec_modifier_pattern(), "<em class=\"italic\">$1</em>"@, None::<Seq<char>>))),
        (StandardTextModifier::ItalicUnderscoreVersion.spec_identifier(), RuleView::Replacement((StandardTextModifier::ItalicUnderscoreVersion.spec_modifier_pattern(), "<em class=\"italic\">$1</em>"@, None::<Seq<char>>))),
        (StandardTextModifier::Strikethrough.spec_identifier(), RuleView::Replacement((StandardTextModifier::Strikethrough.spec_modifier_pattern(), "<del class=\"strikethrough\">$1</del>"@, None::<Seq<char>>))),
        (StandardTextModifier::Underlined.spec_identifier(), RuleView::Replacement((StandardTextModifier::Underlined.spec_modifier_pattern(), "<u class=\"underlined\">$1</u>"@, None::<Seq<char>>))),
        (StandardTextModifier::Superscript.spec_identifier(), RuleView::Replacement((StandardTextModifier::Superscript.spec_modifier_pattern(), "<sup class=\"superscript\">$1</sup>"@, None::<Seq<char>>))),
        (StandardTextModifier::Subscript.spec_identifier(), RuleView::Replacement((StandardTextModifier::Subscript.spec_modifier_pattern(), "<sub class=\"subscript\">$1</sub>"@, None::<Seq<char>>))),
        (StandardTextModifier::Link.spec_identifier(), RuleView::Replacement((StandardTextModifier::Link.spec_modifier_pattern(), "<a href=\"$2\" class=\"link\">$1</a>"@, None::<Seq<char>>))),
        (StandardTextModifier::Comment.spec_identifier(), RuleView::Replacement((StandardTextModifier::Comment.spec_modifier_pattern(), "<!-- $1 -->"@, None::<Seq<char>>))),
        (StandardTextModifier::Checkbox.spec_identifier(), RuleView::Replacement((StandardTextModifier::Checkbox.spec_modifier_pattern(), "<div class=\"checkbox checkbox-unchecked\"></div>"@, None::<Seq<char>>))),
        (StandardTextModifier::CheckboxChecked.spec_identifier(), RuleView::Replacement((StandardTextModifier::CheckboxChecked.spec_modifier_pattern(), "<div class=\"checkbox checkbox-checked\"></div>"@, None::<Seq<char>>))),
        (StandardTextModifier::Emoji.spec_identifier(), RuleView::Replacement((StandardTextModifier::Emoji.spec_modifier_pattern(), "<i class=\"em-svg em-${1}\" aria-role=\"presentation\"></i>"@, None::<Seq<char>>))),
        (StandardTextModifier::Escape.spec_identifier(), RuleView::Replacement((StandardTextModifier::Escape.spec_modifier_pattern(), "$1"@, None::<Seq<char>>))),
    ]
}

/// The paragraph rules of the HTML codex, by modifier identifier, when no
/// image file was read.
pub open spec fn html_paragraph_rules() -> Seq<(Seq<char>, RuleView)> {
    html_paragraph_rules_with(Seq::empty())
}

/// The paragraph rules of the HTML codex, by modifier identifier, the image
/// rules with what was found of the image files.
pub open spec fn html_paragraph_rules_with(images: ImageSourcesView) -> Seq<(Seq<char>, RuleView)> {
    seq![
        (StandardParagraphModifier::PageBreak.spec_identifier(), RuleView::Replacement((StandardParagraphModifier::PageBreak.spec_modifier_pattern(), "<div class=\"page-break\"></div>"@, None::<Seq<char>>))),
        (StandardParagraphModifier::EmbeddedParagraphStyleWithId.spec_identifier(), RuleView::Replacement((StandardParagraphModifier::EmbeddedParagraphStyleWithId.spec_modifier_pattern(), "<div class=\"identifier embedded-paragraph-style\" id=\"$2\" style=\"$3\">$1</div>"@, Some("<br>"@)))),
        (StandardParagraphModifier::EmbeddedParagraphStyle.spec_identifier(), RuleView::Replacement((StandardParagraphModifier::EmbeddedParagraphStyle.spec_modifier_pattern(), "<div class=\"embedded-paragraph-style\" style=\"$2\">$1</div>"@, Some("<br>"@)))),
        (StandardParagraphModifier::AbridgedEmbeddedParagraphStyleWithId.spec_identifier(), RuleView::Replacement((StandardParagraphModifier::AbridgedEmbeddedParagraphStyleWithId.spec_modifier_pattern(), "<div class=\"identifier abridged-embedded-paragraph-style\" id=\"$2\" style=\"color: $3; background-color: $4; font-family: $5;\">$1</div>"@, Some("<br>"@)))),
        (StandardParagraphModifier::AbridgedTodo.spec_identifier(), RuleView::Replacement((StandardParagraphModifier::AbridgedTodo.spec_modifier_pattern(), "<div class=\"todo abridged-todo\"><div class=\"todo-title\"></div><div class=\"todo-description\">$1</div></div>"@, None::<Seq<char>>))),
        (StandardParagraphModifier::MultilineTodo.spec_identifier(), RuleView::Replacement((StandardParagraphModifier::MultilineTodo.spec_modifier_pattern(), "<div class=\"todo multiline-todo\"><div class=\"todo-title\"></div><div class=\"todo-description\">$1</div></div>"@, None::<Seq<char>>))),
        (StandardParagraphModifier::AbridgedEmbeddedParagraphStyle.spec_identifier(), RuleView::Replacement((StandardParagraphModifier::AbridgedEmbeddedParagraphStyle.spec_modifier_pattern(), "<div class=\"abridged-embedded-paragraph-style\" style=\"color: $2; background-color: $3; font-family: $4;\">$1</div>"@, Some("<br>"@)))),
        (StandardParagraphModifier::ParagraphIdentifier.spec_identifier(), RuleView::Replacement((StandardParagraphModifier::ParagraphIdentifier.spec_modifier_pattern(), "<span class=\"identifier\" id=\"$2\">$1</span>"@, Some("<br>"@)))),
        (StandardParagraphModifier::ExtendedBlockQuote.spec_identifier(), RuleView::ExtendedBlockQuote),
        (StandardParagraphModifier::MathBlock.spec_identifier(), RuleView::Replacement((StandardParagraphModifier::MathBlock.spec_modifier_pattern(), "<p class=\"math-block\">$$$$${1}$$$$</p>"@, None::<Seq<char>>))),
        (StandardParagraphModifier::Image.spec_identifier(), RuleView::Image(images)),
        (StandardParagraphModifier::AbridgedImage.spec_identifier(), RuleView::Image(images)),
        (StandardParagraphModifier::MultiImage.spec_identifier(), RuleView::Image(images)),
        (StandardParagraphModifier::CodeBlock.spec_identifier(), RuleView::Replacement((StandardParagraphModifier::CodeBlock.spec_modifier_pattern(), "<pre><code class=\"language-${1} code-block\">$2</code></pre>"@, None::<Seq<char>>))),
        (StandardParagraphModifier::List.spec_identifier(), RuleView::List),
        (StandardParagraphModifier::FocusBlock.spec_identifier(), RuleView::Replacement((StandardParagraphModifier::FocusBlock.spec_modifier_pattern(), "<div class=\"focus-block focus-block-$1\"><div class=\"focus-block-title focus-block-$1-title\"></div><div class=\"focus-block-description focus-block-$1-description\"\">$2</div></div>"@, Some("<br>"@)))),
        (StandardParagraphModifier::LineBreakDash.spec_identifier(), RuleView::Replacement((StandardParagraphModifier::LineBreakDash.spec_modifier_pattern(), "<hr class=\"line-break line-break-dash\">"@, None::<Seq<char>>))),
        (StandardParagraphModifier::LineBreakStar.spec_identifier(), RuleView::Replacement((StandardParagraphModifier::LineBreakStar.spec_modifier_pattern(), "<hr class=\"line-break line-break-star\">"@, None::<Seq<char>>))),
        (StandardParagraphModifier::LineBreakPlus.spec_identifier(), RuleView::Replacement((StandardParagraphModifier::LineBreakPlus.spec_modifier_pattern(), "<hr class=\"line-break line-break-plus\">"@, None::<Seq<char>>))),
        (StandardParagraphModifier::CommonParagraph.spec_identifier(), RuleView::Replacement((StandardParagraphModifier::CommonParagraph.spec_pattern_with_separator(), "<p class=\"paragraph\">$1</p>"@, None::<Seq<char>>))),
    ]
}

/// The modifiers in use and, for each, the rule that transforms its matches.
#[derive(Debug)]
pub struct Codex {
    pub configuration: CodexConfiguration,
    pub text_rules: Vec<(ModifierIdentifier, ParsingRule)>,
    pub paragraph_rules: Vec<(ModifierIdentifier, ParsingRule)>,
    pub chapter_rules: Vec<(ModifierIdentifier, ParsingRule)>,
    pub document_rules: Vec<(ModifierIdentifier, ParsingRule)>,
}

impl Codex {
    /// The codex of a format.
    pub fn from(format: &OutputFormat, configuration: CodexConfiguration) -> (r: Self)
        ensures
            r.configuration@ == configuration@,
            rules_view(r.text_rules@) == html_text_rules(),
            rules_view(r.paragraph_rules@) == html_paragraph_rules(),
            r.chapter_rules@.len() == 0,
            r.document_rules@.len() == 0,
    {
        match format {
            OutputFormat::Html => Self::of_html(configuration),
        }
    }

    pub fn text_rules(&self) -> (r: &Vec<(ModifierIdentifier, ParsingRule)>)
        ensures
            rules_view(r@) == rules_view(self.text_rules@),
    {
        &self.text_rules
    }

    pub fn paragraph_rules(&self) -> (r: &Vec<(ModifierIdentifier, ParsingRule)>)
        ensures
            rules_view(r@) == rules_view(self.paragraph_rules@),
    {
        &self.paragraph_rules
    }

    pub fn configuration(&self) -> (r: &CodexConfiguration)
        ensures
            r@ == self.configuration@,
    {
        &self.configuration
    }

    fn new(
        configuration: CodexConfiguration,
        text_rules: Vec<(ModifierIdentifier, ParsingRule)>,
        paragraph_rules: Vec<(ModifierIdentifier, ParsingRule)>,
        chapter_rules: Vec<(ModifierIdentifier, ParsingRule)>,
        document_rules: Vec<(ModifierIdentifier, ParsingRule)>,
    ) -> (r: Codex)
        ensures
            r.configuration@ == configuration@,
            rules_view(r.text_rules@) == rules_view(text_rules@),
            rules_view(r.paragraph_rules@) == rules_view(paragraph_rules@),
            r.chapter_rules@.len() == chapter_rules@.len(),
            r.document_rules@.len() == document_rules@.len(),
    {
        Codex { configuration, text_rules, paragraph_rules, chapter_rules, document_rules }
    }

    /// The text rules of the HTML codex.
    fn html_text_rule_table() -> (r: Vec<(ModifierIdentifier, ParsingRule)>)
        ensures
            rules_view(r@) == html_text_rules(),
    {
        let r = vec![
            (StandardTextModifier::Todo.identifier(), replacement(StandardTextModifier::Todo.modifier_pattern(), "<div class=\"todo\"><div class=\"todo-title\"></div><div class=\"todo-description\">$1</div></div>")),
            (StandardTextModifier::BookmarkWithId.identifier(), replacement(StandardTextModifier::BookmarkWithId.modifier_pattern(), "<div class=\"bookmark\" id=\"$2\"><div class=\"bookmark-title\">$1</div><div class=\"bookmark-description\">$3</div></div>")),
            (StandardTextModifier::Bookmark.identifier(), replacement(StandardTextModifier::Bookmark.modifier_pattern(), "<div class=\"bookmark\"><div class=\"bookmark-title\">$1</div><div class=\"bookmark-description\">$2</div></div>")),
            (StandardTextModifier::AbridgedBookmarkWithId.identifier(), replacement(StandardTextModifier::AbridgedBookmarkWithId.modifier_pattern(), "<div class=\"abridged-bookmark\" id=\"$2><div class=\"abridged-bookmark-title\">$1</div></div>")),
            (StandardTextModifier::AbridgedBookmark.identifier(), replacement(StandardTextModifier::AbridgedBookmark.modifier_pattern(), "<div class=\"abridged-bookmark\"><div class=\"abridged-bookmark-title\">$1</div></div>")),
            (StandardTextModifier::EmbeddedStyleWithId.identifier(), replacement(StandardTextModifier::EmbeddedStyleWithId.modifier_pattern(), "<span class=\"identifier embedded-style\" id=\"$2\" style=\"$3\">$1</span>")),
            (StandardTextModifier::EmbeddedStyle.identifier(), replacement(StandardTextModifier::EmbeddedStyle.modifier_pattern(), "<span class=\"embedded-style\" style=\"$2\">$1</span>")),
            (StandardTextModifier::AbridgedEmbeddedStyleWithId.identifier(), replacement(StandardTextModifier::AbridgedEmbeddedStyleWithId.modifier_pattern(), "<span class=\"identifier abridged-embedded-style\" id=\"$2\" style=\"color: $3; background-color: $4; font-family: $5;\">$1</span>")),
            (StandardTextModifier::AbridgedEmbeddedStyle.identifier(), replacement(StandardTextModifier::AbridgedEmbeddedStyle.modifier_pattern(), "<span class=\"abridged-embedded-style\" style=\"color: $2; background-color: $3; font-family: $4;\">$1</span>")),
            (StandardTextModifier::Identifier.identifier(), replacement(StandardTextModifier::Identifier.modifier_pattern(), "<span class=\"identifier\" id=\"$2\">$1</span>")),
            (StandardTextModifier::Highlight.identifier(), replacement(StandardTextModifier::Highlight.modifier_pattern(), "<mark class=\"highlight\">$1</mark>")),
            (StandardTextModifier::InlineMath.identifier(), replacement(StandardTextModifier::InlineMath.modifier_pattern(), "<span class=\"inline-math\">$$$1$$</span>")),
            (StandardTextModifier::InlineCode.identifier(), replacement(StandardTextModifier::InlineCode.modifier_pattern(), "<code class=\"language-markup inline-code\">$1</code>")),
            (StandardTextModifier::BoldStarVersion.identifier(), replacement(StandardTextModifier::BoldStarVersion.modifier_pattern(), "<strong class=\"bold\">$1</strong>")),
            (StandardTextModifier::BoldUnderscoreVersion.identifier(), replacement(StandardTextModifier::BoldUnderscoreVersion.modifier_pattern(), "<strong class=\"bold\">$1</strong>")),
            (StandardTextModifier::ItalicStarVersion.identifier(), replacement(StandardTextModifier::ItalicStarVersion.modifier_pattern(), "<em class=\"italic\">$1</em>")),
            (StandardTextModifier::ItalicUnderscoreVersion.identifier(), replacement(StandardTextModifier::ItalicUnderscoreVersion.modifier_pattern(), "<em class=\"italic\">$1</em>")),
            (StandardTextModifier::Strikethrough.identifier(), replacement(StandardTextModifier::Strikethrough.modifier_pattern(), "<del class=\"strikethrough\">$1</del>")),
            (StandardTextModifier::Underlined.identifier(), replacement(StandardTextModifier::Underlined.modifier_pattern(), "<u class=\"underlined\">$1</u>")),
            (StandardTextModifier::Superscript.identifier(), replacement(StandardTextModifier::Superscript.modifier_pattern(), "<sup class=\"superscript\">$1</sup>")),
            (StandardTextModifier::Subscript.identifier(), replacement(StandardTextModifier::Subscript.modifier_pattern(), "<sub class=\"subscript\">$1</sub>")),
            (StandardTextModifier::Link.identifier(), replacement(StandardTextModifier::Link.modifier_pattern(), "<a href=\"$2\" class=\"link\">$1</a>")),
            (StandardTextModifier::Comment.identifier(), replacement(StandardTextModifier::Comment.modifier_pattern(), "<!-- $1 -->")),
            (StandardTextModifier::Checkbox.identifier(), replacement(StandardTextModifier::Checkbox.modifier_pattern(), "<div class=\"checkbox checkbox-unchecked\"></div>")),
            (StandardTextModifier::CheckboxChecked.identifier(), replacement(StandardTextModifier::CheckboxChecked.modifier_pattern(), "<div class=\"checkbox checkbox-checked\"></div>")),
            (StandardTextModifier::Emoji.identifier(), replacement(StandardTextModifier::Emoji.modifier_pattern(), "<i class=\"em-svg em-${1}\" aria-role=\"presentation\"></i>")),
            (StandardTextModifier::Escape.identifier(), replacement(StandardTextModifier::Escape.modifier_pattern(), "$1")),
        ];
        proof {
            assert(rules_view(r@) =~= html_text_rules());
        }
        r
    }

    /// The paragraph rules of the HTML codex, the image rules with what was
    /// found of the image files.
    fn html_paragraph_rule_table(images: &Vec<(String, ImageSource)>) -> (r: Vec<(ModifierIdentifier, ParsingRule)>)
        ensures
            rules_view(r@) == html_paragraph_rules_with(sources_view(images@)),
    {
        let r = vec![
            (StandardParagraphModifier::PageBreak.identifier(), replacement(StandardParagraphModifier::PageBreak.modifier_pattern(), "<div class=\"page-break\"></div>")),
            (StandardParagraphModifier::EmbeddedParagraphStyleWithId.identifier(), replacement_with_fix(StandardParagraphModifier::EmbeddedParagraphStyleWithId.modifier_pattern(), "<div class=\"identifier embedded-paragraph-style\" id=\"$2\" style=\"$3\">$1</div>", "<br>")),
            (StandardParagraphModifier::EmbeddedParagraphStyle.identifier(), replacement_with_fix(StandardParagraphModifier::EmbeddedParagraphStyle.modifier_pattern(), "<div class=\"embedded-paragraph-style\" style=\"$2\">$1</div>", "<br>")),
            (StandardParagraphModifier::AbridgedEmbeddedParagraphStyleWithId.identifier(), replacement_with_fix(StandardParagraphModifier::AbridgedEmbeddedParagraphStyleWithId.modifier_pattern(), "<div class=\"identifier abridged-embedded-paragraph-style\" id=\"$2\" style=\"color: $3; background-color: $4; font-family: $5;\">$1</div>", "<br>")),
            (StandardParagraphModifier::AbridgedTodo.identifier(), replacement(StandardParagraphModifier::AbridgedTodo.modifier_pattern(), "<div class=\"todo abridged-todo\"><div class=\"todo-title\"></div><div class=\"todo-description\">$1</div></div>")),
            (StandardParagraphModifier::MultilineTodo.identifier(), replacement(StandardParagraphModifier::MultilineTodo.modifier_pattern(), "<div class=\"todo multiline-todo\"><div class=\"todo-title\"></div><div class=\"todo-description\">$1</div></div>")),
            (StandardParagraphModifier::AbridgedEmbeddedParagraphStyle.identifier(), replacement_with_fix(StandardParagraphModifier::AbridgedEmbeddedParagraphStyle.modifier_pattern(), "<div class=\"abridged-embedded-paragraph-style\" style=\"color: $2; background-color: $3; font-family: $4;\">$1</div>", "<br>")),
            (StandardParagraphModifier::ParagraphIdentifier.identifier(), replacement_with_fix(StandardParagraphModifier::ParagraphIdentifier.modifier_pattern(), "<span class=\"identifier\" id=\"$2\">$1</span>", "<br>")),
            (StandardParagraphModifier::ExtendedBlockQuote.identifier(), ParsingRule::ExtendedBlockQuote(HtmlExtendedBlockQuoteRule::new())),
            (StandardParagraphModifier::MathBlock.identifier(), replacement(StandardParagraphModifier::MathBlock.modifier_pattern(), "<p class=\"math-block\">$$$$${1}$$$$</p>")),
            (StandardParagraphModifier::Image.identifier(), ParsingRule::Image(HtmlImageRule::with_sources(copy_sources(images)))),
            (StandardParagraphModifier::AbridgedImage.identifier(), ParsingRule::Image(HtmlImageRule::with_sources(copy_sources(images)))),
            (StandardParagraphModifier::MultiImage.identifier(), ParsingRule::Image(HtmlImageRule::with_sources(copy_sources(images)))),
            (StandardParagraphModifier::CodeBlock.identifier(), replacement(StandardParagraphModifier::CodeBlock.modifier_pattern(), "<pre><code class=\"language-${1} code-block\">$2</code></pre>")),
            (StandardParagraphModifier::List.identifier(), ParsingRule::List(HtmlListRule::new())),
            (StandardParagraphModifier::FocusBlock.identifier(), replacement_with_fix(StandardParagraphModifier::FocusBlock.modifier_pattern(), "<div class=\"focus-block focus-block-$1\"><div class=\"focus-block-title focus-block-$1-title\"></div><div class=\"focus-block-description focus-block-$1-description\"\">$2</div></div>", "<br>")),
            (StandardParagraphModifier::LineBreakDash.identifier(), replacement(StandardParagraphModifier::LineBreakDash.modifier_pattern(), "<hr class=\"line-break line-break-dash\">")),
            (StandardParagraphModifier::LineBreakStar.identifier(), replacement(StandardParagraphModifier::LineBreakStar.modifier_pattern(), "<hr class=\"line-break line-break-star\">")),
            (StandardParagraphModifier::LineBreakPlus.identifier(), replacement(StandardParagraphModifier::LineBreakPlus.modifier_pattern(), "<hr class=\"line-break line-break-plus\">")),
            (StandardParagraphModifier::CommonParagraph.identifier(), replacement(StandardParagraphModifier::CommonParagraph.modifier_pattern_with_paragraph_separator(), "<p class=\"paragraph\">$1</p>")),
        ];
        proof {
            assert(rules_view(r@) =~= html_paragraph_rules_with(sources_view(images@)));
        }
        r
    }

    /// The standard HTML codex over the given modifiers.
    pub fn of_html(configuration: CodexConfiguration) -> (r: Self)
        ensures
            r.configuration@ == configuration@,
            rules_view(r.text_rules@) == html_text_rules(),
            rules_view(r.paragraph_rules@) == html_paragraph_rules(),
            r.chapter_rules@.len() == 0,
            r.document_rules@.len() == 0,
    {
        let text_rules = Self::html_text_rule_table();
        let no_images: Vec<(String, ImageSource)> = Vec::new();
        let paragraph_rules = Self::html_paragraph_rule_table(&no_images);
        proof {
            assert(sources_view(no_images@) =~= Seq::<(Seq<char>, Option<Seq<char>>)>::empty());
        }
        Self::new(configuration, text_rules, paragraph_rules, Vec::new(), Vec::new())
    }

    /// The standard HTML codex over the given modifiers, its image rules
    /// with what was found of the image files (`image_sources`, by
    /// reference as written).
    pub fn of_html_with_images(configuration: CodexConfiguration, image_sources: &Vec<(String, ImageSource)>) -> (r: Self)
        ensures
            r.configuration@ == configuration@,
            rules_view(r.text_rules@) == html_text_rules(),
            rules_view(r.paragraph_rules@) == html_paragraph_rules_with(sources_view(image_sources@)),
            r.chapter_rules@.len() == 0,
            r.document_rules@.len() == 0,
    {
        let text_rules = Self::html_text_rule_table();
        let paragraph_rules = Self::html_paragraph_rule_table(image_sources);
        Self::new(configuration, text_rules, paragraph_rules, Vec::new(), Vec::new())
    }

    /// The identifier made of a text: its letters, digits, `_`, `-` and
    /// spaces, each space made a `-`.
    pub fn create_id(s: &str) -> (r: String)
        ensures
            r@ == id_of(s@),
    {
        identifier_of(s)
    }
}

} // verus!
