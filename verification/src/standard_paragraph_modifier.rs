//! The modifiers that shape whole paragraphs.
use vstd::prelude::*;

use crate::modifier::{BaseModifier, BucketView, ModifierIdentifier, ModifierPattern, ModifiersBucket};

verus! {

/// What precedes a paragraph: one or more blank lines.
pub const PARAGRAPH_SEPARATOR_START: &'static str = "(?m:^[ \\t]*\\r?\\n)+";

/// What follows a paragraph: two line ends.
pub const PARAGRAPH_SEPARATOR_END: &'static str = "(?m:[ \\t]*\\r?\\n){2}";

/// The paragraph modifiers of NMD.
#[derive(Debug, Clone, Copy, PartialEq, Eq, Structural)]
pub enum StandardParagraphModifier {
    List,
    ListItem,
    Table,
    Image,
    AbridgedImage,
    MultiImage,
    CodeBlock,
    CommentBlock,
    ExtendedBlockQuote,
    ExtendedBlockQuoteLine,
    FocusBlock,
    MathBlock,
    LineBreakDash,
    LineBreakStar,
    LineBreakPlus,
    CommonParagraph,
    AbridgedEmbeddedParagraphStyleWithId,
    AbridgedEmbeddedParagraphStyle,
    EmbeddedParagraphStyleWithId,
    EmbeddedParagraphStyle,
    ParagraphIdentifier,
    PageBreak,
    AbridgedTodo,
    MultilineTodo,
}

impl StandardParagraphModifier {
    /// The modifiers in the order in which they are tried (compatibility order).
    pub open spec fn spec_ordered() -> Seq<Self> {
        seq![Self::Table, Self::MultilineTodo, Self::AbridgedTodo, Self::PageBreak, Self::ParagraphIdentifier, Self::EmbeddedParagraphStyleWithId, Self::EmbeddedParagraphStyle, Self::AbridgedEmbeddedParagraphStyleWithId, Self::AbridgedEmbeddedParagraphStyle, Self::LineBreakDash, Self::LineBreakStar, Self::LineBreakPlus, Self::List, Self::MultiImage, Self::AbridgedImage, Self::Image, Self::CodeBlock, Self::CommentBlock, Self::ExtendedBlockQuote, Self::FocusBlock, Self::MathBlock, Self::CommonParagraph]
    }

    /// The identifier of the modifier.
    pub open spec fn spec_identifier(self) -> Seq<char> {
        match self {
            Self::List => "list"@,
            Self::ListItem => "list-item"@,
            Self::Table => "table"@,
            Self::Image => "image"@,
            Self::AbridgedImage => "abridged-image"@,
            Self::MultiImage => "multi-image"@,
            Self::CodeBlock => "code-block"@,
            Self::CommentBlock => "#@§rule-todo#@§"@,
            Self::ExtendedBlockQuote => "extended-block-quote"@,
            Self::ExtendedBlockQuoteLine => "extended-block-quote-line"@,
            Self::FocusBlock => "focus-block"@,
            Self::MathBlock => "math-block"@,
            Self::LineBreakDash => "line-break-dash"@,
            Self::LineBreakStar => "line-break-star"@,
            Self::LineBreakPlus => "line-break-plus"@,
            Self::CommonParagraph => "common-paragraph"@,
            Self::AbridgedEmbeddedParagraphStyleWithId => "abridged-embedded-paragraph-style-with-id"@,
            Self::AbridgedEmbeddedParagraphStyle => "abridged-embedded-paragraph-style"@,
            Self::EmbeddedParagraphStyleWithId => "embedded-paragraph-style-with-id"@,
            Self::EmbeddedParagraphStyle => "embedded-paragraph-style"@,
            Self::ParagraphIdentifier => "paragraph-identifier"@,
            Self::PageBreak => "page-break"@,
            Self::AbridgedTodo => "abridged-todo"@,
            Self::MultilineTodo => "multiline-todo"@,
        }
    }

    /// The search pattern of the modifier.
    pub open spec fn spec_modifier_pattern(self) -> Seq<char> {
        match self {
            Self::List => "((?:(?m:^([\\t ]*)(-\\[\\]|-\\[ \\]|-\\[x\\]|-\\[X\\]|-|->|\\||\\*|\\+|--|\\d[\\.)]?|[a-zA-Z]{1,8}[\\.)]|&[^;]+;) (.*)\n?)+)+)"@,
            Self::ListItem => "(?m:^([\\t ]*)(-\\[\\]|-\\[ \\]|-\\[x\\]|-\\[X\\]|-|->|\\||\\*|\\+|--|\\d[\\.)]?|[a-zA-Z]{1,8}[\\.)]|&[^;]+;) (.*)\n?)"@,
            Self::Table => "(\\|(.*)\\|\n?)+(?:\\|(.*)\\|)(?U:\n?(?:\\[(.*)\\])?(?:#([\\w-]+))?(?:\\{(.*)\\})?)?"@,
            Self::Image => "!\\[([^\\]]*)\\](?:#([\\w-]+))?\\(([^)]+)\\)(?:\\{(.*)\\})?"@,
            Self::AbridgedImage => "!\\[\\((.*)\\)\\](?:#([\\w-]+))?(?:\\{(.*)\\})?"@,
            Self::MultiImage => "!!(?::([\\w-]+):)?\\[\\[(?s:(.*?))\\]\\]"@,
            Self::CodeBlock => "```\\s?(\\w+)\n+(?s:(.*?))\n+```"@,
            Self::CommentBlock => "RULE TODO"@,
            Self::ExtendedBlockQuote => "(?ms:^> .*?)"@,
            Self::ExtendedBlockQuoteLine => "(?m:^> (.*))"@,
            Self::FocusBlock => ":::\\s?(\\w+)\n(?s:(.*?))\n:::"@,
            Self::MathBlock => "\\$\\$((?s:.+?))\\$\\$"@,
            Self::LineBreakDash => "(?m:^-{3,})"@,
            Self::LineBreakStar => "(?m:^\\*{3,})"@,
            Self::LineBreakPlus => "(?m:^\\+{3,})"@,
            Self::CommonParagraph => "(?s:(.*?))"@,
            Self::AbridgedEmbeddedParagraphStyleWithId => "\\[\\[(?sx:(.*?))\\]\\]\n?#([\\w-]+)\n?\\{(.*?)(?s:;(.*?)(?:;(.*?))?)?\\}"@,
            Self::AbridgedEmbeddedParagraphStyle => "\\[\\[(?sx:(.*?))\\]\\]\\{(.*?)(?s:;(.*?)(?:;(.*?))?)?\\}"@,
            Self::EmbeddedParagraphStyleWithId => "\\[\\[(?sx:(.*?))\\]\\]\n?#([\\w-]+)\n?\\{\\{(?xs:((?:.*?:.*?;?)))\\}\\}"@,
            Self::EmbeddedParagraphStyle => "\\[\\[(?sx:(.*?))\\]\\]\\{\\{(?xs:((?:.*?:.*?;?)))\\}\\}"@,
            Self::ParagraphIdentifier => "\\[\\[(?sx:(.*?))\\]\\]\n?#([\\w-]+)"@,
            Self::PageBreak => "(?m:^#{3,}$)"@,
            Self::AbridgedTodo => "(?m:^(?i:TODO):?\\s(?:(.*?))$)"@,
            Self::MultilineTodo => "(?i:TODO):(?s:(.*?)):(?i:TODO)"@,
        }
    }

    /// Whether the modifier excludes every other modifier inside its match.
    pub open spec fn spec_excludes_all(self) -> bool {
        match self {
            Self::Image => true,
            Self::AbridgedImage => true,
            Self::MultiImage => true,
            Self::CodeBlock => true,
            Self::MathBlock => true,
            _ => false,
        }
    }

    /// The modifiers in the order in which they are tried.
    pub fn ordered() -> (r: Vec<Self>)
        ensures
            r@ == Self::spec_ordered(),
    {
        vec![Self::Table, Self::MultilineTodo, Self::AbridgedTodo, Self::PageBreak, Self::ParagraphIdentifier, Self::EmbeddedParagraphStyleWithId, Self::EmbeddedParagraphStyle, Self::AbridgedEmbeddedParagraphStyleWithId, Self::AbridgedEmbeddedParagraphStyle, Self::LineBreakDash, Self::LineBreakStar, Self::LineBreakPlus, Self::List, Self::MultiImage, Self::AbridgedImage, Self::Image, Self::CodeBlock, Self::CommentBlock, Self::ExtendedBlockQuote, Self::FocusBlock, Self::MathBlock, Self::CommonParagraph]
    }

    pub fn identifier(&self) -> (r: ModifierIdentifier)
        ensures
            r@ == self.spec_identifier(),
    {
        match self {
            Self::List => String::from_str("list"),
            Self::ListItem => String::from_str("list-item"),
            Self::Table => String::from_str("table"),
            Self::Image => String::from_str("image"),
            Self::AbridgedImage => String::from_str("abridged-image"),
            Self::MultiImage => String::from_str("multi-image"),
            Self::CodeBlock => String::from_str("code-block"),
            Self::CommentBlock => String::from_str("#@§rule-todo#@§"),
            Self::ExtendedBlockQuote => String::from_str("extended-block-quote"),
            Self::ExtendedBlockQuoteLine => String::from_str("extended-block-quote-line"),
            Self::FocusBlock => String::from_str("focus-block"),
            Self::MathBlock => String::from_str("math-block"),
            Self::LineBreakDash => String::from_str("line-break-dash"),
            Self::LineBreakStar => String::from_str("line-break-star"),
            Self::LineBreakPlus => String::from_str("line-break-plus"),
            Self::CommonParagraph => String::from_str("common-paragraph"),
            Self::AbridgedEmbeddedParagraphStyleWithId => String::from_str("abridged-embedded-paragraph-style-with-id"),
            Self::AbridgedEmbeddedParagraphStyle => String::from_str("abridged-embedded-paragraph-style"),
            Self::EmbeddedParagraphStyleWithId => String::from_str("embedded-paragraph-style-with-id"),
            Self::EmbeddedParagraphStyle => String::from_str("embedded-paragraph-style"),
            Self::ParagraphIdentifier => String::from_str("paragraph-identifier"),
            Self::PageBreak => String::from_str("page-break"),
            Self::AbridgedTodo => String::from_str("abridged-todo"),
            Self::MultilineTodo => String::from_str("multiline-todo"),
        }
    }

    pub fn modifier_pattern(&self) -> (r: ModifierPattern)
        ensures
            r@ == self.spec_modifier_pattern(),
    {
        match self {
            Self::List => String::from_str("((?:(?m:^([\\t ]*)(-\\[\\]|-\\[ \\]|-\\[x\\]|-\\[X\\]|-|->|\\||\\*|\\+|--|\\d[\\.)]?|[a-zA-Z]{1,8}[\\.)]|&[^;]+;) (.*)\n?)+)+)"),
            Self::ListItem => String::from_str("(?m:^([\\t ]*)(-\\[\\]|-\\[ \\]|-\\[x\\]|-\\[X\\]|-|->|\\||\\*|\\+|--|\\d[\\.)]?|[a-zA-Z]{1,8}[\\.)]|&[^;]+;) (.*)\n?)"),
            Self::Table => String::from_str("(\\|(.*)\\|\n?)+(?:\\|(.*)\\|)(?U:\n?(?:\\[(.*)\\])?(?:#([\\w-]+))?(?:\\{(.*)\\})?)?"),
            Self::Image => String::from_str("!\\[([^\\]]*)\\](?:#([\\w-]+))?\\(([^)]+)\\)(?:\\{(.*)\\})?"),
            Self::AbridgedImage => String::from_str("!\\[\\((.*)\\)\\](?:#([\\w-]+))?(?:\\{(.*)\\})?"),
            Self::MultiImage => String::from_str("!!(?::([\\w-]+):)?\\[\\[(?s:(.*?))\\]\\]"),
            Self::CodeBlock => String::from_str("```\\s?(\\w+)\n+(?s:(.*?))\n+```"),
            Self::CommentBlock => String::from_str("RULE TODO"),
            Self::ExtendedBlockQuote => String::from_str("(?ms:^> .*?)"),
            Self::ExtendedBlockQuoteLine => String::from_str("(?m:^> (.*))"),
            Self::FocusBlock => String::from_str(":::\\s?(\\w+)\n(?s:(.*?))\n:::"),
            Self::MathBlock => String::from_str("\\$\\$((?s:.+?))\\$\\$"),
            Self::LineBreakDash => String::from_str("(?m:^-{3,})"),
            Self::LineBreakStar => String::from_str("(?m:^\\*{3,})"),
            Self::LineBreakPlus => String::from_str("(?m:^\\+{3,})"),
            Self::CommonParagraph => String::from_str("(?s:(.*?))"),
            Self::AbridgedEmbeddedParagraphStyleWithId => String::from_str("\\[\\[(?sx:(.*?))\\]\\]\n?#([\\w-]+)\n?\\{(.*?)(?s:;(.*?)(?:;(.*?))?)?\\}"),
            Self::AbridgedEmbeddedParagraphStyle => String::from_str("\\[\\[(?sx:(.*?))\\]\\]\\{(.*?)(?s:;(.*?)(?:;(.*?))?)?\\}"),
            Self::EmbeddedParagraphStyleWithId => String::from_str("\\[\\[(?sx:(.*?))\\]\\]\n?#([\\w-]+)\n?\\{\\{(?xs:((?:.*?:.*?;?)))\\}\\}"),
            Self::EmbeddedParagraphStyle => String::from_str("\\[\\[(?sx:(.*?))\\]\\]\\{\\{(?xs:((?:.*?:.*?;?)))\\}\\}"),
            Self::ParagraphIdentifier => String::from_str("\\[\\[(?sx:(.*?))\\]\\]\n?#([\\w-]+)"),
            Self::PageBreak => String::from_str("(?m:^#{3,}$)"),
            Self::AbridgedTodo => String::from_str("(?m:^(?i:TODO):?\\s(?:(.*?))$)"),
            Self::MultilineTodo => String::from_str("(?i:TODO):(?s:(.*?)):(?i:TODO)"),
        }
    }

    pub fn incompatible_modifiers(&self) -> (r: ModifiersBucket)
        ensures
            r@ == (if self.spec_excludes_all() { BucketView::All } else { BucketView::Nothing }),
    {
        match self {
            Self::Image => ModifiersBucket::All,
            Self::AbridgedImage => ModifiersBucket::All,
            Self::MultiImage => ModifiersBucket::All,
            Self::CodeBlock => ModifiersBucket::All,
            Self::MathBlock => ModifiersBucket::All,
            _ => ModifiersBucket::Nothing,
        }
    }

    /// The pattern framed by the paragraph separators.
    pub open spec fn spec_pattern_with_separator(self) -> Seq<char> {
        PARAGRAPH_SEPARATOR_START@ + self.spec_modifier_pattern() + PARAGRAPH_SEPARATOR_END@
    }

    /// The modifier pattern between a paragraph-start separator and a
    /// paragraph-end separator.
    pub fn modifier_pattern_with_paragraph_separator(&self) -> (r: String)
        ensures
            r@ == self.spec_pattern_with_separator(),
    {
        let mp = self.modifier_pattern();
        let mut r = String::from_str(PARAGRAPH_SEPARATOR_START);
        r.append(mp.as_str());
        r.append(PARAGRAPH_SEPARATOR_END);
        r
    }

    /// The base modifier used to find paragraphs: the identifier, the pattern
    /// framed by separators, and the incompatible modifiers.
    pub fn into_base(self) -> (r: BaseModifier)
        ensures
            r@ == (self.spec_identifier(), self.spec_pattern_with_separator(), if self.spec_excludes_all() { BucketView::All } else { BucketView::Nothing }),
    {
        BaseModifier::new(self.identifier(), self.modifier_pattern_with_paragraph_separator(), self.incompatible_modifiers())
    }

}

} // verus!
