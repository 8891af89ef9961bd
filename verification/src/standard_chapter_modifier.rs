//! The modifiers that open chapters: headings.
use vstd::prelude::*;

use crate::modifier::{
    BaseModifier,
    BucketView,
    HEADING_ANNOTATIONS_PATTERN,
    MAX_HEADING_LEVEL,
    ModifierIdentifier,
    ModifierPattern,
    ModifiersBucket,
};
use crate::pattern::{is_match, regex_compiles, regex_is_match};

verus! {

/// The decimal digit of a heading level (`1..=6`).
pub open spec fn level_digit(level: u32) -> Seq<char> {
    if level == 1 {
        "1"@
    } else if level == 2 {
        "2"@
    } else if level == 3 {
        "3"@
    } else if level == 4 {
        "4"@
    } else if level == 5 {
        "5"@
    } else {
        "6"@
    }
}

/// A heading level that NMD accepts.
pub open spec fn valid_level(level: u32) -> bool {
    1 <= level <= MAX_HEADING_LEVEL
}

pub fn level_digit_str(level: u32) -> (r: &'static str)
    requires
        valid_level(level),
    ensures
        r@ == level_digit(level),
{
    if level == 1 {
        "1"
    } else if level == 2 {
        "2"
    } else if level == 3 {
        "3"
    } else if level == 4 {
        "4"
    } else if level == 5 {
        "5"
    } else {
        "6"
    }
}

/// Heading modifiers: numbered headings in two spellings (`###` and `#3`),
/// and headings relative to the previous one (one level deeper, one level up,
/// same level).
#[derive(Debug, Clone, Copy, PartialEq, Eq, Structural)]
pub enum StandardChapterModifier {
    HeadingGeneralCompactVersion(u32),
    HeadingGeneralExtendedVersion(u32),
    MinorHeading,
    MajorHeading,
    SameHeading,
}

impl StandardChapterModifier {
    /// Every level occurs in a numbered heading.
    pub open spec fn well_formed(self) -> bool {
        match self {
            Self::HeadingGeneralCompactVersion(l) => valid_level(l),
            Self::HeadingGeneralExtendedVersion(l) => valid_level(l),
            _ => true,
        }
    }

    /// The numbered headings from level `level` down to level 1, extended
    /// spelling first.
    pub open spec fn numbered_from(level: u32) -> Seq<Self>
        decreases level,
    {
        if level == 0 {
            seq![]
        } else {
            seq![Self::HeadingGeneralExtendedVersion(level), Self::HeadingGeneralCompactVersion(level)]
                + Self::numbered_from((level - 1) as u32)
        }
    }

    /// Relative headings first, then numbered headings from level 6 to 1.
    pub open spec fn spec_ordered() -> Seq<Self> {
        seq![Self::MinorHeading, Self::MajorHeading, Self::SameHeading] + Self::numbered_from(
            MAX_HEADING_LEVEL,
        )
    }

    pub open spec fn spec_identifier(self) -> Seq<char> {
        match self {
            Self::HeadingGeneralExtendedVersion(l) => "heading-"@ + level_digit(l)
                + "-extended-version"@,
            Self::HeadingGeneralCompactVersion(l) => "heading-"@ + level_digit(l)
                + "-compact-version"@,
            Self::MinorHeading => "minor-heading"@,
            Self::MajorHeading => "major-heading"@,
            Self::SameHeading => "same-heading"@,
        }
    }

    /// The pattern of the heading line itself.
    pub open spec fn spec_specific_pattern(self) -> Seq<char> {
        match self {
            Self::HeadingGeneralExtendedVersion(l) => "(?m:^#{"@ + level_digit(l) + "}\\s+(.*))"@,
            Self::HeadingGeneralCompactVersion(l) => "(?m:^#("@ + level_digit(l) + ")\\s+(.*))"@,
            Self::MinorHeading => "(?m:^#-\\s+(.*))"@,
            Self::MajorHeading => "(?m:^#\\+\\s+(.*))"@,
            Self::SameHeading => "(?m:^#=\\s+(.*))"@,
        }
    }

    /// The heading line followed by its optional annotations.
    pub open spec fn spec_modifier_pattern(self) -> Seq<char> {
        self.spec_specific_pattern() + HEADING_ANNOTATIONS_PATTERN@
    }

    pub fn ordered() -> (r: Vec<Self>)
        ensures
            r@ == Self::spec_ordered(),
            forall|i: int| 0 <= i < r@.len() ==> (#[trigger] r@[i]).well_formed(),
    {
        let mut heading_modifiers: Vec<Self> = vec![
            Self::MinorHeading,
            Self::MajorHeading,
            Self::SameHeading,
        ];
        let mut i: u32 = MAX_HEADING_LEVEL;
        proof {
            assert(heading_modifiers@ =~= seq![Self::MinorHeading, Self::MajorHeading, Self::SameHeading]);
        }
        while i >= 1
            invariant
                i <= MAX_HEADING_LEVEL,
                heading_modifiers@ + Self::numbered_from(i) == Self::spec_ordered(),
                forall|j: int|
                    0 <= j < heading_modifiers@.len() ==> (#[trigger] heading_modifiers@[j]).well_formed(),
            decreases i,
        {
            let ghost before = heading_modifiers@;
            heading_modifiers.push(Self::HeadingGeneralExtendedVersion(i));
            heading_modifiers.push(Self::HeadingGeneralCompactVersion(i));
            proof {
                assert(heading_modifiers@ =~= before + seq![
                    Self::HeadingGeneralExtendedVersion(i),
                    Self::HeadingGeneralCompactVersion(i),
                ]);
                assert(Self::numbered_from(i) == seq![
                    Self::HeadingGeneralExtendedVersion(i),
                    Self::HeadingGeneralCompactVersion(i),
                ] + Self::numbered_from((i - 1) as u32));
                assert(heading_modifiers@ + Self::numbered_from((i - 1) as u32) =~= before
                    + Self::numbered_from(i));
            }
            i = i - 1;
        }
        proof {
            assert(Self::numbered_from(0) =~= Seq::<Self>::empty());
            assert(heading_modifiers@ + Self::numbered_from(0) =~= heading_modifiers@);
        }
        heading_modifiers
    }

    pub fn identifier(&self) -> (r: ModifierIdentifier)
        requires
            self.well_formed(),
        ensures
            r@ == self.spec_identifier(),
    {
        match *self {
            Self::HeadingGeneralExtendedVersion(level) => {
                let mut s = String::from_str("heading-");
                s.append(level_digit_str(level));
                s.append("-extended-version");
                s
            },
            Self::HeadingGeneralCompactVersion(level) => {
                let mut s = String::from_str("heading-");
                s.append(level_digit_str(level));
                s.append("-compact-version");
                s
            },
            Self::MinorHeading => String::from_str("minor-heading"),
            Self::MajorHeading => String::from_str("major-heading"),
            Self::SameHeading => String::from_str("same-heading"),
        }
    }

    pub fn modifier_pattern(&self) -> (r: ModifierPattern)
        requires
            self.well_formed(),
        ensures
            r@ == self.spec_modifier_pattern(),
    {
        let mut s = match *self {
            Self::HeadingGeneralExtendedVersion(level) => {
                let mut s = String::from_str("(?m:^#{");
                s.append(level_digit_str(level));
                s.append("}\\s+(.*))");
                s
            },
            Self::HeadingGeneralCompactVersion(level) => {
                let mut s = String::from_str("(?m:^#(");
                s.append(level_digit_str(level));
                s.append(")\\s+(.*))");
                s
            },
            Self::MinorHeading => String::from_str("(?m:^#-\\s+(.*))"),
            Self::MajorHeading => String::from_str("(?m:^#\\+\\s+(.*))"),
            Self::SameHeading => String::from_str("(?m:^#=\\s+(.*))"),
        };
        s.append(HEADING_ANNOTATIONS_PATTERN);
        s
    }

    pub fn incompatible_modifiers(&self) -> (r: ModifiersBucket)
        ensures
            r@ == BucketView::Nothing,
    {
        ModifiersBucket::Nothing
    }

    /// The base modifier used to find chapters.
    pub fn into_base(self) -> (r: BaseModifier)
        requires
            self.well_formed(),
        ensures
            r@ == (self.spec_identifier(), self.spec_modifier_pattern(), BucketView::Nothing),
    {
        BaseModifier::new(self.identifier(), self.modifier_pattern(), self.incompatible_modifiers())
    }

    /// The first modifier of `mods` whose pattern compiles and matches
    /// `content`.
    pub open spec fn first_match(mods: Seq<Self>, content: Seq<char>) -> Option<Self>
        decreases mods.len(),
    {
        if mods.len() == 0 {
            None
        } else if regex_compiles(mods[0].spec_modifier_pattern()) && regex_is_match(
            mods[0].spec_modifier_pattern(),
            content,
        ) {
            Some(mods[0])
        } else {
            Self::first_match(mods.drop_first(), content)
        }
    }

    /// The level of the first heading modifier, in order, that matches:
    /// `Some(Some(level))` for a numbered heading, `Some(None)` when no
    /// heading matches, `None` when a relative heading matches first (which
    /// has no level of its own).
    pub open spec fn spec_heading_level(content: Seq<char>) -> Option<Option<u32>> {
        match Self::first_match(Self::spec_ordered(), content) {
            Some(Self::HeadingGeneralExtendedVersion(l)) => Some(Some(l)),
            Some(Self::HeadingGeneralCompactVersion(l)) => Some(Some(l)),
            Some(_) => None,
            None => Some(None),
        }
    }

    /// The heading level of `content` where the first matching heading
    /// modifier is numbered; `None` where a relative heading matches first.
    pub fn heading_level_checked(content: &str) -> (r: Option<Option<u32>>)
        ensures
            r == Self::spec_heading_level(content@),
    {
        let heading_modifiers = Self::ordered();
        let mut i: usize = 0;
        proof {
            assert(heading_modifiers@.skip(0) =~= heading_modifiers@);
        }
        while i < heading_modifiers.len()
            invariant
                i <= heading_modifiers.len(),
                heading_modifiers@ == Self::spec_ordered(),
                forall|j: int| 0 <= j < heading_modifiers@.len() ==> (#[trigger] heading_modifiers@[j]).well_formed(),
                Self::first_match(Self::spec_ordered(), content@) == Self::first_match(
                    heading_modifiers@.skip(i as int),
                    content@,
                ),
            decreases heading_modifiers.len() - i,
        {
            let heading_modifier = heading_modifiers[i];
            let pattern = heading_modifier.modifier_pattern();
            let matched = match is_match(pattern.as_str(), content) {
                Some(b) => b,
                None => false,
            };
            proof {
                let rest = heading_modifiers@.skip(i as int);
                assert(rest[0] == heading_modifier);
                assert(rest.drop_first() =~= heading_modifiers@.skip(i + 1));
            }
            if matched {
                return match heading_modifier {
                    Self::HeadingGeneralExtendedVersion(level) => Some(Some(level)),
                    Self::HeadingGeneralCompactVersion(level) => Some(Some(level)),
                    _ => None,
                };
            }
            i = i + 1;
        }
        Some(None)
    }

    /// The level of the first heading modifier that matches, or `None`.
    pub fn heading_level(content: &str) -> (r: Option<u32>)
        requires
            Self::spec_heading_level(content@) is Some,
        ensures
            Some(r) == Self::spec_heading_level(content@),
    {
        match Self::heading_level_checked(content) {
            Some(l) => l,
            None => None,
        }
    }

    /// Whether `content` holds a heading.
    pub fn str_is_heading(content: &str) -> (r: bool)
        requires
            Self::spec_heading_level(content@) is Some,
        ensures
            r == (Self::spec_heading_level(content@) != Some(None::<u32>)),
    {
        Self::heading_level(content).is_some()
    }

    /// Whether `content` holds a heading, or `None` where a relative heading
    /// matches first.
    pub fn try_str_is_heading(content: &str) -> (r: Option<bool>)
        ensures
            r is Some <==> Self::spec_heading_level(content@) is Some,
            r matches Some(b) ==> b == (Self::spec_heading_level(content@) != Some(None::<u32>)),
    {
        match Self::heading_level_checked(content) {
            Some(_) => Some(Self::str_is_heading(content)),
            None => None,
        }
    }
}

} // verus!
