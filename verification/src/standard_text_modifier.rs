//! The modifiers that act inside a piece of text.
use vstd::prelude::*;

use crate::modifier::{BaseModifier, BucketView, ModifierIdentifier, ModifierPattern, ModifiersBucket};

verus! {

/// The text (inline) modifiers of NMD.
#[derive(Debug, Clone, Copy, PartialEq, Eq, Structural)]
pub enum StandardTextModifier {
    BoldStarVersion,
    BoldUnderscoreVersion,
    ItalicStarVersion,
    ItalicUnderscoreVersion,
    Strikethrough,
    Underlined,
    Link,
    AbridgedEmbeddedStyleWithId,
    AbridgedEmbeddedStyle,
    EmbeddedStyleWithId,
    EmbeddedStyle,
    Identifier,
    Highlight,
    ColoredText,
    Emoji,
    Superscript,
    Subscript,
    InlineCode,
    InlineMath,
    Comment,
    AbridgedBookmark,
    Bookmark,
    AbridgedBookmarkWithId,
    BookmarkWithId,
    Todo,
    Checkbox,
    CheckboxChecked,
    GreekLetter,
    Escape,
    Reference,
    Cite,
}

impl StandardTextModifier {
    /// The modifiers in the order in which they are tried (compatibility order).
    pub open spec fn spec_ordered() -> Seq<Self> {
        seq![Self::InlineMath, Self::InlineCode, Self::Comment, Self::Escape, Self::GreekLetter, Self::Todo, Self::BookmarkWithId, Self::Bookmark, Self::AbridgedBookmarkWithId, Self::AbridgedBookmark, Self::EmbeddedStyleWithId, Self::EmbeddedStyle, Self::AbridgedEmbeddedStyleWithId, Self::AbridgedEmbeddedStyle, Self::Identifier, Self::Highlight, Self::BoldStarVersion, Self::BoldUnderscoreVersion, Self::ItalicStarVersion, Self::ItalicUnderscoreVersion, Self::Strikethrough, Self::Underlined, Self::Superscript, Self::Subscript, Self::Link, Self::Checkbox, Self::CheckboxChecked, Self::Emoji, Self::Reference, Self::Cite]
    }

    /// The identifier of the modifier.
    pub open spec fn spec_identifier(self) -> Seq<char> {
        match self {
            Self::BoldStarVersion => "bold-star-version"@,
            Self::BoldUnderscoreVersion => "bold-underscore-version"@,
            Self::ItalicStarVersion => "italic-star-version"@,
            Self::ItalicUnderscoreVersion => "italic-underscore-version"@,
            Self::Strikethrough => "strikethrough"@,
            Self::Underlined => "underlined"@,
            Self::Link => "link"@,
            Self::AbridgedEmbeddedStyleWithId => "abridged-embedded-style-with-id"@,
            Self::AbridgedEmbeddedStyle => "abridged-embedded-style"@,
            Self::EmbeddedStyleWithId => "embedded-style-with-id"@,
            Self::EmbeddedStyle => "embedded-style"@,
            Self::Identifier => "identifier"@,
            Self::Highlight => "highlight"@,
            Self::ColoredText => "#@§rule-todo#@§"@,
            Self::Emoji => "emoji"@,
            Self::Superscript => "superscript"@,
            Self::Subscript => "subscript"@,
            Self::InlineCode => "inline-code"@,
            Self::InlineMath => "inline-math"@,
            Self::Comment => "comment"@,
            Self::AbridgedBookmark => "abridged-bookmark"@,
            Self::Bookmark => "bookmark"@,
            Self::AbridgedBookmarkWithId => "abridged-bookmark-with-id"@,
            Self::BookmarkWithId => "bookmark-with-id"@,
            Self::Todo => "todo"@,
            Self::Checkbox => "checkbox"@,
            Self::CheckboxChecked => "checkbox-checked"@,
            Self::GreekLetter => "greek-letter"@,
            Self::Escape => "escape"@,
            Self::Reference => "reference"@,
            Self::Cite => "cite"@,
        }
    }

    /// The search pattern of the modifier.
    pub open spec fn spec_modifier_pattern(self) -> Seq<char> {
        match self {
            Self::BoldStarVersion => "\\*\\*(.*?)\\*\\*"@,
            Self::BoldUnderscoreVersion => "__(.*?)__"@,
            Self::ItalicStarVersion => "\\*(.*?)\\*"@,
            Self::ItalicUnderscoreVersion => "_(.*?)_"@,
            Self::Strikethrough => "~~(.*?)~~"@,
            Self::Underlined => "\\+\\+(.*?)\\+\\+"@,
            Self::Link => "\\[([^\\]]+)\\]\\(([^)]+)\\)"@,
            Self::AbridgedEmbeddedStyleWithId => "\\[([^\\]]*?)\\]\n?#([\\w-]*)\n?\\{(.*?)(?s:;(.*?)(?:;(.*?))?)?\\}"@,
            Self::AbridgedEmbeddedStyle => "\\[([^\\]]*?)\\]\\{(.*?)(?s:;(.*?)(?:;(.*?))?)?\\}"@,
            Self::EmbeddedStyleWithId => "\\[([^\\]]*?)\\]\n?#([\\w-]*)\n?\\{\\{(?xs:((?:.*?:.*?;?)))\\}\\}"@,
            Self::EmbeddedStyle => "\\[([^\\]]*?)\\]\\{\\{(?xs:((?:.*?:.*?;?)))\\}\\}"@,
            Self::Identifier => "\\[(.*?)\\]\n?#([\\w-]*)"@,
            Self::Highlight => "==(.*)=="@,
            Self::ColoredText => "RULE TODO"@,
            Self::Emoji => ":(\\w*):"@,
            Self::Superscript => "\\^(.*)\\^"@,
            Self::Subscript => "~(.*)~"@,
            Self::InlineCode => "`(.*?)`"@,
            Self::InlineMath => "\\$([^$\n]+)\\$"@,
            Self::Comment => "^//(.*)"@,
            Self::AbridgedBookmark => "@\\[([^\\]]*?)\\]"@,
            Self::Bookmark => "@\\[([^\\]]*?)\\]\\((?s:(.*?))\\)"@,
            Self::AbridgedBookmarkWithId => "@\\[([^\\]]*?)\\]#([\\w-]*)"@,
            Self::BookmarkWithId => "@\\[([^\\]]*?)\\]#([\\w-]*)\\((?s:(.*?))\\)"@,
            Self::Todo => "@\\[(?i:TODO)\\]\\((?s:(.*?))\\)"@,
            Self::Checkbox => "(\\[\\]|\\[ \\])"@,
            Self::CheckboxChecked => "(\\[x\\]|\\[X\\])"@,
            Self::GreekLetter => "%(.*?)%"@,
            Self::Escape => "\\\\([\\*\\+\\\\~%\\^\\$@=\\[\\]!<>\\{\\}\\(\\)#-_\\|\\?&]+)"@,
            Self::Reference => "&([\\w-]+)&"@,
            Self::Cite => "\\^\\[([\\w_]+)\\]"@,
        }
    }

    /// Whether the modifier excludes every other modifier inside its match.
    pub open spec fn spec_excludes_all(self) -> bool {
        match self {
            Self::InlineCode => true,
            Self::InlineMath => true,
            Self::Emoji => true,
            Self::GreekLetter => true,
            Self::Escape => true,
            Self::Reference => true,
            Self::Cite => true,
            _ => false,
        }
    }

    /// The modifiers in the order in which they are tried.
    pub fn ordered() -> (r: Vec<Self>)
        ensures
            r@ == Self::spec_ordered(),
    {
        vec![Self::InlineMath, Self::InlineCode, Self::Comment, Self::Escape, Self::GreekLetter, Self::Todo, Self::BookmarkWithId, Self::Bookmark, Self::AbridgedBookmarkWithId, Self::AbridgedBookmark, Self::EmbeddedStyleWithId, Self::EmbeddedStyle, Self::AbridgedEmbeddedStyleWithId, Self::AbridgedEmbeddedStyle, Self::Identifier, Self::Highlight, Self::BoldStarVersion, Self::BoldUnderscoreVersion, Self::ItalicStarVersion, Self::ItalicUnderscoreVersion, Self::Strikethrough, Self::Underlined, Self::Superscript, Self::Subscript, Self::Link, Self::Checkbox, Self::CheckboxChecked, Self::Emoji, Self::Reference, Self::Cite]
    }

    pub fn identifier(&self) -> (r: ModifierIdentifier)
        ensures
            r@ == self.spec_identifier(),
    {
        match self {
            Self::BoldStarVersion => String::from_str("bold-star-version"),
            Self::BoldUnderscoreVersion => String::from_str("bold-underscore-version"),
            Self::ItalicStarVersion => String::from_str("italic-star-version"),
            Self::ItalicUnderscoreVersion => String::from_str("italic-underscore-version"),
            Self::Strikethrough => String::from_str("strikethrough"),
            Self::Underlined => String::from_str("underlined"),
            Self::Link => String::from_str("link"),
            Self::AbridgedEmbeddedStyleWithId => String::from_str("abridged-embedded-style-with-id"),
            Self::AbridgedEmbeddedStyle => String::from_str("abridged-embedded-style"),
            Self::EmbeddedStyleWithId => String::from_str("embedded-style-with-id"),
            Self::EmbeddedStyle => String::from_str("embedded-style"),
            Self::Identifier => String::from_str("identifier"),
            Self::Highlight => String::from_str("highlight"),
            Self::ColoredText => String::from_str("#@§rule-todo#@§"),
            Self::Emoji => String::from_str("emoji"),
            Self::Superscript => String::from_str("superscript"),
            Self::Subscript => String::from_str("subscript"),
            Self::InlineCode => String::from_str("inline-code"),
            Self::InlineMath => String::from_str("inline-math"),
            Self::Comment => String::from_str("comment"),
            Self::AbridgedBookmark => String::from_str("abridged-bookmark"),
            Self::Bookmark => String::from_str("bookmark"),
            Self::AbridgedBookmarkWithId => String::from_str("abridged-bookmark-with-id"),
            Self::BookmarkWithId => String::from_str("bookmark-with-id"),
            Self::Todo => String::from_str("todo"),
            Self::Checkbox => String::from_str("checkbox"),
            Self::CheckboxChecked => String::from_str("checkbox-checked"),
            Self::GreekLetter => String::from_str("greek-letter"),
            Self::Escape => String::from_str("escape"),
            Self::Reference => String::from_str("reference"),
            Self::Cite => String::from_str("cite"),
        }
    }

    pub fn modifier_pattern(&self) -> (r: ModifierPattern)
        ensures
            r@ == self.spec_modifier_pattern(),
    {
        match self {
            Self::BoldStarVersion => String::from_str("\\*\\*(.*?)\\*\\*"),
            Self::BoldUnderscoreVersion => String::from_str("__(.*?)__"),
            Self::ItalicStarVersion => String::from_str("\\*(.*?)\\*"),
            Self::ItalicUnderscoreVersion => String::from_str("_(.*?)_"),
            Self::Strikethrough => String::from_str("~~(.*?)~~"),
            Self::Underlined => String::from_str("\\+\\+(.*?)\\+\\+"),
            Self::Link => String::from_str("\\[([^\\]]+)\\]\\(([^)]+)\\)"),
            Self::AbridgedEmbeddedStyleWithId => String::from_str("\\[([^\\]]*?)\\]\n?#([\\w-]*)\n?\\{(.*?)(?s:;(.*?)(?:;(.*?))?)?\\}"),
            Self::AbridgedEmbeddedStyle => String::from_str("\\[([^\\]]*?)\\]\\{(.*?)(?s:;(.*?)(?:;(.*?))?)?\\}"),
            Self::EmbeddedStyleWithId => String::from_str("\\[([^\\]]*?)\\]\n?#([\\w-]*)\n?\\{\\{(?xs:((?:.*?:.*?;?)))\\}\\}"),
            Self::EmbeddedStyle => String::from_str("\\[([^\\]]*?)\\]\\{\\{(?xs:((?:.*?:.*?;?)))\\}\\}"),
            Self::Identifier => String::from_str("\\[(.*?)\\]\n?#([\\w-]*)"),
            Self::Highlight => String::from_str("==(.*)=="),
            Self::ColoredText => String::from_str("RULE TODO"),
            Self::Emoji => String::from_str(":(\\w*):"),
            Self::Superscript => String::from_str("\\^(.*)\\^"),
            Self::Subscript => String::from_str("~(.*)~"),
            Self::InlineCode => String::from_str("`(.*?)`"),
            Self::InlineMath => String::from_str("\\$([^$\n]+)\\$"),
            Self::Comment => String::from_str("^//(.*)"),
            Self::AbridgedBookmark => String::from_str("@\\[([^\\]]*?)\\]"),
            Self::Bookmark => String::from_str("@\\[([^\\]]*?)\\]\\((?s:(.*?))\\)"),
            Self::AbridgedBookmarkWithId => String::from_str("@\\[([^\\]]*?)\\]#([\\w-]*)"),
            Self::BookmarkWithId => String::from_str("@\\[([^\\]]*?)\\]#([\\w-]*)\\((?s:(.*?))\\)"),
            Self::Todo => String::from_str("@\\[(?i:TODO)\\]\\((?s:(.*?))\\)"),
            Self::Checkbox => String::from_str("(\\[\\]|\\[ \\])"),
            Self::CheckboxChecked => String::from_str("(\\[x\\]|\\[X\\])"),
            Self::GreekLetter => String::from_str("%(.*?)%"),
            Self::Escape => String::from_str("\\\\([\\*\\+\\\\~%\\^\\$@=\\[\\]!<>\\{\\}\\(\\)#-_\\|\\?&]+)"),
            Self::Reference => String::from_str("&([\\w-]+)&"),
            Self::Cite => String::from_str("\\^\\[([\\w_]+)\\]"),
        }
    }

    pub fn incompatible_modifiers(&self) -> (r: ModifiersBucket)
        ensures
            r@ == (if self.spec_excludes_all() { BucketView::All } else { BucketView::Nothing }),
    {
        match self {
            Self::InlineCode => ModifiersBucket::All,
            Self::InlineMath => ModifiersBucket::All,
            Self::Emoji => ModifiersBucket::All,
            Self::GreekLetter => ModifiersBucket::All,
            Self::Escape => ModifiersBucket::All,
            Self::Reference => ModifiersBucket::All,
            Self::Cite => ModifiersBucket::All,
            _ => ModifiersBucket::Nothing,
        }
    }

    /// The base modifier made of the identifier, the pattern and the
    /// incompatible modifiers of this one.
    pub fn into_base(self) -> (r: BaseModifier)
        ensures
            r@ == (self.spec_identifier(), self.spec_modifier_pattern(), if self.spec_excludes_all() { BucketView::All } else { BucketView::Nothing }),
    {
        BaseModifier::new(self.identifier(), self.modifier_pattern(), self.incompatible_modifiers())
    }

}

} // verus!
