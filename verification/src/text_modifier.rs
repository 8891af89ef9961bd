//! The text modifiers of the first NMD syntax, in their compatibility
//! order, each with its search pattern.
use vstd::prelude::*;

use crate::modifier::{BucketView, ModifierPattern, ModifiersBucket};

verus! {

/// A text modifier of the first NMD syntax. Those without a rule of their
/// own (colored text, abridged to-dos, headings) have a pattern that only
/// matches its own placeholder text.
#[derive(Debug, Clone, Copy, PartialEq, Eq, Structural)]
pub enum TextModifier {
    BoldStarVersion,
    BoldUnderscoreVersion,
    ItalicStarVersion,
    ItalicUnderscoreVersion,
    Strikethrough,
    Underlined,
    Link,
    AbridgedEmbeddedStyleWithId,
    AbridgedEmbeddedStyle,
    EmbeddedStyleWithId,
    EmbeddedStyle,
    Identifier,
    Highlight,
    ColoredText,
    Emoji,
    Superscript,
    Subscript,
    InlineCode,
    InlineMath,
    Comment,
    AbridgedBookmark,
    Bookmark,
    AbridgedBookmarkWithId,
    BookmarkWithId,
    Todo,
    AbridgedTodo,
    Checkbox,
    CheckboxChecked,
    HeadingGeneralCompactVersion(u32),
    HeadingGeneralExtendedVersion(u32),
}

impl TextModifier {
    /// The modifiers in their compatibility order.
    pub open spec fn spec_ordered() -> Seq<Self> {
        seq![Self::Todo, Self::AbridgedTodo, Self::BookmarkWithId, Self::Bookmark, Self::AbridgedBookmarkWithId, Self::AbridgedBookmark, Self::EmbeddedStyleWithId, Self::EmbeddedStyle, Self::AbridgedEmbeddedStyleWithId, Self::AbridgedEmbeddedStyle, Self::Identifier, Self::Highlight, Self::InlineMath, Self::InlineCode, Self::BoldStarVersion, Self::BoldUnderscoreVersion, Self::ItalicStarVersion, Self::ItalicUnderscoreVersion, Self::Strikethrough, Self::Underlined, Self::Superscript, Self::Subscript, Self::Link, Self::Comment, Self::Checkbox, Self::CheckboxChecked, Self::Emoji]
    }

    pub open spec fn spec_search_pattern(self) -> Seq<char> {
        match self {
            Self::BoldStarVersion => "\\*\\*(.*?)\\*\\*"@,
            Self::BoldUnderscoreVersion => "__(.*?)__"@,
            Self::ItalicStarVersion => "\\*(.*?)\\*"@,
            Self::ItalicUnderscoreVersion => "_(.*?)_"@,
            Self::Strikethrough => "~~(.*?)~~"@,
            Self::Underlined => "\\+\\+(.*?)\\+\\+"@,
            Self::Link => "\\[([^\\]]+)\\]\\(([^)]+)\\)"@,
            Self::AbridgedEmbeddedStyleWithId => "\\[([^\\]]*?)\\]\\n?#([\\w-]*)\\n?\\{(.*?)(?s:;(.*?)(?:;(.*?))?)?\\}"@,
            Self::AbridgedEmbeddedStyle => "\\[([^\\]]*?)\\]\\{(.*?)(?s:;(.*?)(?:;(.*?))?)?\\}"@,
            Self::EmbeddedStyleWithId => "\\[([^\\]]*?)\\]\\n?#([\\w-]*)\\n?\\{\\{(?xs:((?:.*?:.*?;?)))\\}\\}"@,
            Self::EmbeddedStyle => "\\[([^\\]]*?)\\]\\{\\{(?xs:((?:.*?:.*?;?)))\\}\\}"@,
            Self::Identifier => "\\[(.*?)\\]\\n?#([\\w-]*)"@,
            Self::Highlight => "==(.*)=="@,
            Self::ColoredText => "RULE TODO"@,
            Self::Emoji => ":(\\w*):"@,
            Self::Superscript => "\\^(.*)\\^"@,
            Self::Subscript => "~(.*)~"@,
            Self::InlineCode => "`(.*?)`"@,
            Self::InlineMath => "\\$([^$\\n]+)\\$"@,
            Self::Comment => "^//(.*)"@,
            Self::AbridgedBookmark => "@\\[([^\\]]*?)\\]"@,
            Self::Bookmark => "@\\[([^\\]]*?)\\]\\((?s:(.*?))\\)"@,
            Self::AbridgedBookmarkWithId => "@\\[([^\\]]*?)\\]#([\\w-]*)"@,
            Self::BookmarkWithId => "@\\[([^\\]]*?)\\]#([\\w-]*)\\((?s:(.*?))\\)"@,
            Self::Todo => "@\\[(?i:TODO)\\]\\((?s:(.*?))\\)"@,
            Self::AbridgedTodo => "RULE TODO"@,
            Self::Checkbox => "(\\[\\]|\\[ \\])"@,
            Self::CheckboxChecked => "(\\[x\\]|\\[X\\])"@,
            Self::HeadingGeneralCompactVersion(_) => "RULE TODO"@,
            Self::HeadingGeneralExtendedVersion(_) => "RULE TODO"@,
        }
    }

    /// The modifiers that cannot occur inside this one: every one inside
    /// inline code, inline math and emojis; none elsewhere.
    pub open spec fn spec_incompatible_modifiers(self) -> BucketView {
        match self {
            Self::InlineCode | Self::InlineMath | Self::Emoji => BucketView::All,
            _ => BucketView::Nothing,
        }
    }

    pub fn ordered() -> (r: Vec<Self>)
        ensures
            r@ == Self::spec_ordered(),
    {
        vec![Self::Todo, Self::AbridgedTodo, Self::BookmarkWithId, Self::Bookmark, Self::AbridgedBookmarkWithId, Self::AbridgedBookmark, Self::EmbeddedStyleWithId, Self::EmbeddedStyle, Self::AbridgedEmbeddedStyleWithId, Self::AbridgedEmbeddedStyle, Self::Identifier, Self::Highlight, Self::InlineMath, Self::InlineCode, Self::BoldStarVersion, Self::BoldUnderscoreVersion, Self::ItalicStarVersion, Self::ItalicUnderscoreVersion, Self::Strikethrough, Self::Underlined, Self::Superscript, Self::Subscript, Self::Link, Self::Comment, Self::Checkbox, Self::CheckboxChecked, Self::Emoji]
    }

    pub fn search_pattern(&self) -> (r: ModifierPattern)
        ensures
            r@ == self.spec_search_pattern(),
    {
        match self {
            Self::BoldStarVersion => String::from_str("\\*\\*(.*?)\\*\\*"),
            Self::BoldUnderscoreVersion => String::from_str("__(.*?)__"),
            Self::ItalicStarVersion => String::from_str("\\*(.*?)\\*"),
            Self::ItalicUnderscoreVersion => String::from_str("_(.*?)_"),
            Self::Strikethrough => String::from_str("~~(.*?)~~"),
            Self::Underlined => String::from_str("\\+\\+(.*?)\\+\\+"),
            Self::Link => String::from_str("\\[([^\\]]+)\\]\\(([^)]+)\\)"),
            Self::AbridgedEmbeddedStyleWithId => String::from_str("\\[([^\\]]*?)\\]\\n?#([\\w-]*)\\n?\\{(.*?)(?s:;(.*?)(?:;(.*?))?)?\\}"),
            Self::AbridgedEmbeddedStyle => String::from_str("\\[([^\\]]*?)\\]\\{(.*?)(?s:;(.*?)(?:;(.*?))?)?\\}"),
            Self::EmbeddedStyleWithId => String::from_str("\\[([^\\]]*?)\\]\\n?#([\\w-]*)\\n?\\{\\{(?xs:((?:.*?:.*?;?)))\\}\\}"),
            Self::EmbeddedStyle => String::from_str("\\[([^\\]]*?)\\]\\{\\{(?xs:((?:.*?:.*?;?)))\\}\\}"),
            Self::Identifier => String::from_str("\\[(.*?)\\]\\n?#([\\w-]*)"),
            Self::Highlight => String::from_str("==(.*)=="),
            Self::ColoredText => String::from_str("RULE TODO"),
            Self::Emoji => String::from_str(":(\\w*):"),
            Self::Superscript => String::from_str("\\^(.*)\\^"),
            Self::Subscript => String::from_str("~(.*)~"),
            Self::InlineCode => String::from_str("`(.*?)`"),
            Self::InlineMath => String::from_str("\\$([^$\\n]+)\\$"),
            Self::Comment => String::from_str("^//(.*)"),
            Self::AbridgedBookmark => String::from_str("@\\[([^\\]]*?)\\]"),
            Self::Bookmark => String::from_str("@\\[([^\\]]*?)\\]\\((?s:(.*?))\\)"),
            Self::AbridgedBookmarkWithId => String::from_str("@\\[([^\\]]*?)\\]#([\\w-]*)"),
            Self::BookmarkWithId => String::from_str("@\\[([^\\]]*?)\\]#([\\w-]*)\\((?s:(.*?))\\)"),
            Self::Todo => String::from_str("@\\[(?i:TODO)\\]\\((?s:(.*?))\\)"),
            Self::AbridgedTodo => String::from_str("RULE TODO"),
            Self::Checkbox => String::from_str("(\\[\\]|\\[ \\])"),
            Self::CheckboxChecked => String::from_str("(\\[x\\]|\\[X\\])"),
            Self::HeadingGeneralCompactVersion(_) => String::from_str("RULE TODO"),
            Self::HeadingGeneralExtendedVersion(_) => String::from_str("RULE TODO"),
        }
    }

    pub fn incompatible_modifiers(&self) -> (r: ModifiersBucket)
        ensures
            r@ == self.spec_incompatible_modifiers(),
    {
        match self {
            Self::InlineCode | Self::InlineMath | Self::Emoji => ModifiersBucket::All,
            _ => ModifiersBucket::Nothing,
        }
    }
}

} // verus!
