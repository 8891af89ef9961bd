//! The paragraph modifiers of the first NMD syntax, in their compatibility
//! order, each with its search pattern: the paragraph between blank lines.
use vstd::prelude::*;

use crate::modifier::{BucketView, ModifierPattern, ModifiersBucket};

verus! {

/// A paragraph modifier of the first NMD syntax. The comment block has no
/// rule of its own: its pattern only matches its own name.
#[derive(Debug, Clone, Copy, PartialEq, Eq, Structural)]
pub enum ParagraphModifier {
    List,
    ListItem,
    Image,
    CodeBlock,
    CommentBlock,
    ExtendedBlockQuote,
    ExtendedBlockQuoteLine,
    FocusBlock,
    MathBlock,
    LineBreakDash,
    LineBreakStar,
    LineBreakPlus,
    CommonParagraph,
    AbridgedEmbeddedParagraphStyleWithId,
    AbridgedEmbeddedParagraphStyle,
    EmbeddedParagraphStyleWithId,
    EmbeddedParagraphStyle,
    ParagraphIdentifier,
    PageBreak,
    AbridgedTodo,
}

impl ParagraphModifier {
    /// The modifiers in their compatibility order.
    pub open spec fn spec_ordered_paragraph_modifiers() -> Seq<Self> {
        seq![Self::AbridgedTodo, Self::PageBreak, Self::ParagraphIdentifier, Self::EmbeddedParagraphStyleWithId, Self::EmbeddedParagraphStyle, Self::AbridgedEmbeddedParagraphStyleWithId, Self::AbridgedEmbeddedParagraphStyle, Self::LineBreakDash, Self::LineBreakStar, Self::LineBreakPlus, Self::List, Self::Image, Self::CodeBlock, Self::CommentBlock, Self::ExtendedBlockQuote, Self::FocusBlock, Self::MathBlock, Self::CommonParagraph]
    }

    /// The pattern of the modifier between two runs of at least two line
    /// feeds; a list is list items in a row, a quote quote lines in a row.
    pub open spec fn spec_search_pattern(self) -> Seq<char> {
        match self {
            Self::List => "\\n{2,}(\\n{2,}(?m:^([\\t ]*)(-\\[\\]|-\\[ \\]|-\\[x\\]|-\\[X\\]|-|->|\\||\\*|\\+|--|\\d[\\.)]?|[a-zA-Z]{1,8}[\\.)]|&[^;]+;) (.*))\\n{2,}\\n)(?:(?m:^([\\t ]*)(-\\[\\]|-\\[ \\]|-\\[x\\]|-\\[X\\]|-|->|\\||\\*|\\+|--|\\d[\\.)]?|[a-zA-Z]{1,8}[\\.)]|&[^;]+;) (.*)\\n))+(\\n{2,}(?m:^([\\t ]*)(-\\[\\]|-\\[ \\]|-\\[x\\]|-\\[X\\]|-|->|\\||\\*|\\+|--|\\d[\\.)]?|[a-zA-Z]{1,8}[\\.)]|&[^;]+;) (.*))\\n{2,})?\\n{2,}"@,
            Self::ListItem => "\\n{2,}(?m:^([\\t ]*)(-\\[\\]|-\\[ \\]|-\\[x\\]|-\\[X\\]|-|->|\\||\\*|\\+|--|\\d[\\.)]?|[a-zA-Z]{1,8}[\\.)]|&[^;]+;) (.*))\\n{2,}"@,
            Self::Image => "\\n{2,}!\\[([^\\]]+)\\]\\(([^)]+)\\)\\n{2,}"@,
            Self::CodeBlock => "\\n{2,}```(\\w+)\\n+(.*?)\\n+```\\n{2,}"@,
            Self::CommentBlock => "\\n{2,}CommentBlock\\n{2,}"@,
            Self::ExtendedBlockQuote => "\\n{2,}(\\n{2,}(?m:^> (.*))\\n{2,})\\n(?:(?mx:^> .*\\n)*)(\\n{2,}(?m:^> (.*))\\n{2,})?\\n{2,}"@,
            Self::ExtendedBlockQuoteLine => "\\n{2,}(?m:^> (.*))\\n{2,}"@,
            Self::FocusBlock => "\\n{2,}:::\\s(\\w+)\\n(?s:(.*?))\\n:::\\n{2,}"@,
            Self::MathBlock => "\\n{2,}\\$\\$((?s:.+?))\\$\\$\\n{2,}"@,
            Self::LineBreakDash => "\\n{2,}(?m:^-{3,})\\n{2,}"@,
            Self::LineBreakStar => "\\n{2,}(?m:^\\*{3,})\\n{2,}"@,
            Self::LineBreakPlus => "\\n{2,}(?m:^\\+{3,})\\n{2,}"@,
            Self::CommonParagraph => "\\n{2,}(?s:(?m:^(.+?)(?:\\n\\n|\\n$)))\\n{2,}"@,
            Self::AbridgedEmbeddedParagraphStyleWithId => "\\n{2,}\\[\\[(?sx:(.*?))\\]\\]\\n?#([\\w-]*)\\n?\\{(.*?)(?s:;(.*?)(?:;(.*?))?)?\\}\\n{2,}"@,
            Self::AbridgedEmbeddedParagraphStyle => "\\n{2,}\\[\\[(?sx:(.*?))\\]\\]\\{(.*?)(?s:;(.*?)(?:;(.*?))?)?\\}\\n{2,}"@,
            Self::EmbeddedParagraphStyleWithId => "\\n{2,}\\[\\[(?sx:(.*?))\\]\\]\\n?#([\\w-]*)\\n?\\{\\{(?xs:((?:.*?:.*?;?)))\\}\\}\\n{2,}"@,
            Self::EmbeddedParagraphStyle => "\\n{2,}\\[\\[(?sx:(.*?))\\]\\]\\{\\{(?xs:((?:.*?:.*?;?)))\\}\\}\\n{2,}"@,
            Self::ParagraphIdentifier => "\\n{2,}\\[\\[(?sx:(.*?))\\]\\]\\n?#([\\w-]*)\\n{2,}"@,
            Self::PageBreak => "\\n{2,}(?m:^#{3,}$)\\n{2,}"@,
            Self::AbridgedTodo => "\\n{2,}(?m:^(?i:TODO):\\s(?:(.*?))$)\\n{2,}"@,
        }
    }

    /// The modifiers that cannot occur inside this one: every one inside
    /// images, code blocks and math blocks; none elsewhere.
    pub open spec fn spec_incompatible_modifiers(self) -> BucketView {
        match self {
            Self::Image | Self::CodeBlock | Self::MathBlock => BucketView::All,
            _ => BucketView::Nothing,
        }
    }

    pub fn ordered_paragraph_modifiers() -> (r: Vec<Self>)
        ensures
            r@ == Self::spec_ordered_paragraph_modifiers(),
    {
        vec![Self::AbridgedTodo, Self::PageBreak, Self::ParagraphIdentifier, Self::EmbeddedParagraphStyleWithId, Self::EmbeddedParagraphStyle, Self::AbridgedEmbeddedParagraphStyleWithId, Self::AbridgedEmbeddedParagraphStyle, Self::LineBreakDash, Self::LineBreakStar, Self::LineBreakPlus, Self::List, Self::Image, Self::CodeBlock, Self::CommentBlock, Self::ExtendedBlockQuote, Self::FocusBlock, Self::MathBlock, Self::CommonParagraph]
    }

    pub fn search_pattern(&self) -> (r: ModifierPattern)
        ensures
            r@ == self.spec_search_pattern(),
    {
        match self {
            Self::List => String::from_str("\\n{2,}(\\n{2,}(?m:^([\\t ]*)(-\\[\\]|-\\[ \\]|-\\[x\\]|-\\[X\\]|-|->|\\||\\*|\\+|--|\\d[\\.)]?|[a-zA-Z]{1,8}[\\.)]|&[^;]+;) (.*))\\n{2,}\\n)(?:(?m:^([\\t ]*)(-\\[\\]|-\\[ \\]|-\\[x\\]|-\\[X\\]|-|->|\\||\\*|\\+|--|\\d[\\.)]?|[a-zA-Z]{1,8}[\\.)]|&[^;]+;) (.*)\\n))+(\\n{2,}(?m:^([\\t ]*)(-\\[\\]|-\\[ \\]|-\\[x\\]|-\\[X\\]|-|->|\\||\\*|\\+|--|\\d[\\.)]?|[a-zA-Z]{1,8}[\\.)]|&[^;]+;) (.*))\\n{2,})?\\n{2,}"),
            Self::ListItem => String::from_str("\\n{2,}(?m:^([\\t ]*)(-\\[\\]|-\\[ \\]|-\\[x\\]|-\\[X\\]|-|->|\\||\\*|\\+|--|\\d[\\.)]?|[a-zA-Z]{1,8}[\\.)]|&[^;]+;) (.*))\\n{2,}"),
            Self::Image => String::from_str("\\n{2,}!\\[([^\\]]+)\\]\\(([^)]+)\\)\\n{2,}"),
            Self::CodeBlock => String::from_str("\\n{2,}```(\\w+)\\n+(.*?)\\n+```\\n{2,}"),
            Self::CommentBlock => String::from_str("\\n{2,}CommentBlock\\n{2,}"),
            Self::ExtendedBlockQuote => String::from_str("\\n{2,}(\\n{2,}(?m:^> (.*))\\n{2,})\\n(?:(?mx:^> .*\\n)*)(\\n{2,}(?m:^> (.*))\\n{2,})?\\n{2,}"),
            Self::ExtendedBlockQuoteLine => String::from_str("\\n{2,}(?m:^> (.*))\\n{2,}"),
            Self::FocusBlock => String::from_str("\\n{2,}:::\\s(\\w+)\\n(?s:(.*?))\\n:::\\n{2,}"),
            Self::MathBlock => String::from_str("\\n{2,}\\$\\$((?s:.+?))\\$\\$\\n{2,}"),
            Self::LineBreakDash => String::from_str("\\n{2,}(?m:^-{3,})\\n{2,}"),
            Self::LineBreakStar => String::from_str("\\n{2,}(?m:^\\*{3,})\\n{2,}"),
            Self::LineBreakPlus => String::from_str("\\n{2,}(?m:^\\+{3,})\\n{2,}"),
            Self::CommonParagraph => String::from_str("\\n{2,}(?s:(?m:^(.+?)(?:\\n\\n|\\n$)))\\n{2,}"),
            Self::AbridgedEmbeddedParagraphStyleWithId => String::from_str("\\n{2,}\\[\\[(?sx:(.*?))\\]\\]\\n?#([\\w-]*)\\n?\\{(.*?)(?s:;(.*?)(?:;(.*?))?)?\\}\\n{2,}"),
            Self::AbridgedEmbeddedParagraphStyle => String::from_str("\\n{2,}\\[\\[(?sx:(.*?))\\]\\]\\{(.*?)(?s:;(.*?)(?:;(.*?))?)?\\}\\n{2,}"),
            Self::EmbeddedParagraphStyleWithId => String::from_str("\\n{2,}\\[\\[(?sx:(.*?))\\]\\]\\n?#([\\w-]*)\\n?\\{\\{(?xs:((?:.*?:.*?;?)))\\}\\}\\n{2,}"),
            Self::EmbeddedParagraphStyle => String::from_str("\\n{2,}\\[\\[(?sx:(.*?))\\]\\]\\{\\{(?xs:((?:.*?:.*?;?)))\\}\\}\\n{2,}"),
            Self::ParagraphIdentifier => String::from_str("\\n{2,}\\[\\[(?sx:(.*?))\\]\\]\\n?#([\\w-]*)\\n{2,}"),
            Self::PageBreak => String::from_str("\\n{2,}(?m:^#{3,}$)\\n{2,}"),
            Self::AbridgedTodo => String::from_str("\\n{2,}(?m:^(?i:TODO):\\s(?:(.*?))$)\\n{2,}"),
        }
    }

    pub fn incompatible_modifiers(&self) -> (r: ModifiersBucket)
        ensures
            r@ == self.spec_incompatible_modifiers(),
    {
        match self {
            Self::Image | Self::CodeBlock | Self::MathBlock => ModifiersBucket::All,
            _ => ModifiersBucket::Nothing,
        }
    }
}

} // verus!
