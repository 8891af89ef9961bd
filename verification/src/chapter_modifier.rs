//! Numbered headings on their own: `###` and `#3`, without annotations.
use vstd::prelude::*;

use crate::modifier::MAX_HEADING_LEVEL;
use crate::pattern::{is_match, regex_compiles, regex_is_match};
use crate::standard_chapter_modifier::{level_digit, level_digit_str, valid_level};

verus! {

/// A numbered heading, in its compact (`#3`) or extended (`###`) spelling.
#[derive(Debug, Clone, Copy, PartialEq, Eq, Structural)]
pub enum ChapterModifier {
    HeadingGeneralCompactVersion(u32),
    HeadingGeneralExtendedVersion(u32),
}

impl ChapterModifier {
    /// Its level is one NMD accepts.
    pub open spec fn well_formed(self) -> bool {
        match self {
            Self::HeadingGeneralCompactVersion(l) => valid_level(l),
            Self::HeadingGeneralExtendedVersion(l) => valid_level(l),
        }
    }

    /// The level of the heading.
    pub open spec fn level(self) -> u32 {
        match self {
            Self::HeadingGeneralCompactVersion(l) => l,
            Self::HeadingGeneralExtendedVersion(l) => l,
        }
    }

    /// The headings from level `level` down to level 1, extended spelling
    /// first.
    pub open spec fn numbered_from(level: u32) -> Seq<Self>
        decreases level,
    {
        if level == 0 {
            seq![]
        } else {
            seq![Self::HeadingGeneralExtendedVersion(level), Self::HeadingGeneralCompactVersion(level)]
                + Self::numbered_from((level - 1) as u32)
        }
    }

    /// The headings from level 6 down to level 1.
    pub open spec fn spec_ordered() -> Seq<Self> {
        Self::numbered_from(MAX_HEADING_LEVEL)
    }

    /// The pattern of a heading line.
    pub open spec fn spec_search_pattern(self) -> Seq<char> {
        match self {
            Self::HeadingGeneralExtendedVersion(l) => "(?m:^#{"@ + level_digit(l) + "}\\s+(.*))"@,
            Self::HeadingGeneralCompactVersion(l) => "(?m:^#("@ + level_digit(l) + ")\\s+(.*))"@,
        }
    }

    /// The level of the first heading of `mods` whose pattern compiles and
    /// matches `content`.
    pub open spec fn first_level(mods: Seq<Self>, content: Seq<char>) -> Option<u32>
        decreases mods.len(),
    {
        if mods.len() == 0 {
            None
        } else if regex_compiles(mods[0].spec_search_pattern()) && regex_is_match(
            mods[0].spec_search_pattern(),
            content,
        ) {
            Some(mods[0].level())
        } else {
            Self::first_level(mods.drop_first(), content)
        }
    }

    pub fn ordered() -> (r: Vec<Self>)
        ensures
            r@ == Self::spec_ordered(),
            forall|i: int| 0 <= i < r@.len() ==> (#[trigger] r@[i]).well_formed(),
    {
        let mut heading_modifiers: Vec<Self> = Vec::new();
        let mut i: u32 = MAX_HEADING_LEVEL;
        proof {
            assert(heading_modifiers@ + Self::numbered_from(i) =~= Self::spec_ordered());
        }
        while i >= 1
            invariant
                i <= MAX_HEADING_LEVEL,
                heading_modifiers@ + Self::numbered_from(i) == Self::spec_ordered(),
                forall|j: int|
                    0 <= j < heading_modifiers@.len() ==> (#[trigger] heading_modifiers@[j]).well_formed(),
            decreases i,
        {
            let ghost before = heading_modifiers@;
            heading_modifiers.push(Self::HeadingGeneralExtendedVersion(i));
            heading_modifiers.push(Self::HeadingGeneralCompactVersion(i));
            proof {
                assert(heading_modifiers@ =~= before + seq![
                    Self::HeadingGeneralExtendedVersion(i),
                    Self::HeadingGeneralCompactVersion(i),
                ]);
                assert(Self::numbered_from(i) == seq![
                    Self::HeadingGeneralExtendedVersion(i),
                    Self::HeadingGeneralCompactVersion(i),
                ] + Self::numbered_from((i - 1) as u32));
                assert(heading_modifiers@ + Self::numbered_from((i - 1) as u32) =~= before
                    + Self::numbered_from(i));
            }
            i = i - 1;
        }
        proof {
            assert(Self::numbered_from(0) =~= Seq::<Self>::empty());
            assert(heading_modifiers@ + Self::numbered_from(0) =~= heading_modifiers@);
        }
        heading_modifiers
    }

    pub fn search_pattern(&self) -> (r: String)
        requires
            self.well_formed(),
        ensures
            r@ == self.spec_search_pattern(),
    {
        match *self {
            Self::HeadingGeneralExtendedVersion(level) => {
                let mut s = String::from_str("(?m:^#{");
                s.append(level_digit_str(level));
                s.append("}\\s+(.*))");
                s
            },
            Self::HeadingGeneralCompactVersion(level) => {
                let mut s = String::from_str("(?m:^#(");
                s.append(level_digit_str(level));
                s.append(")\\s+(.*))");
                s
            },
        }
    }

    /// The level of the first heading, from level 6 down, that matches
    /// `content` (a pattern that does not compile matches nothing).
    pub fn heading_level(content: &str) -> (r: Option<u32>)
        ensures
            r == Self::first_level(Self::spec_ordered(), content@),
    {
        let heading_modifiers = Self::ordered();
        let mut i: usize = 0;
        proof {
            assert(heading_modifiers@.skip(0) =~= heading_modifiers@);
        }
        while i < heading_modifiers.len()
            invariant
                i <= heading_modifiers.len(),
                heading_modifiers@ == Self::spec_ordered(),
                forall|j: int| 0 <= j < heading_modifiers@.len() ==> (#[trigger] heading_modifiers@[j]).well_formed(),
                Self::first_level(Self::spec_ordered(), content@) == Self::first_level(
                    heading_modifiers@.skip(i as int),
                    content@,
                ),
            decreases heading_modifiers.len() - i,
        {
            let heading_modifier = heading_modifiers[i];
            let pattern = heading_modifier.search_pattern();
            let matched = match is_match(pattern.as_str(), content) {
                Some(b) => b,
                None => false,
            };
            proof {
                let rest = heading_modifiers@.skip(i as int);
                assert(rest[0] == heading_modifier);
                assert(rest.drop_first() =~= heading_modifiers@.skip(i + 1));
            }
            if matched {
                return match heading_modifier {
                    Self::HeadingGeneralExtendedVersion(level) => Some(level),
                    Self::HeadingGeneralCompactVersion(level) => Some(level),
                };
            }
            i = i + 1;
        }
        None
    }

    /// Whether `content` holds a heading.
    pub fn str_is_heading(content: &str) -> (r: bool)
        ensures
            r == (Self::first_level(Self::spec_ordered(), content@) is Some),
    {
        Self::heading_level(content).is_some()
    }
}

} // verus!
