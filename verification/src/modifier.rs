//! Modifiers: the markers NMD recognises in a text, and sets of them.
use vstd::prelude::*;

verus! {

pub type ModifierIdentifier = String;

pub type ModifierPattern = String;

/// Patterns that chapter headings may carry after the heading line: tags
/// (`@key value` lines) and a style block.
pub const CHAPTER_TAGS_PATTERN: &'static str = "(?:\\r?\\n@(.*))*";

pub const CHAPTER_STYLE_PATTERN: &'static str = "(\\r?\\n\\{(?s:(.*))\\})?";

/// Tags followed by style: what may follow a heading line.
pub const HEADING_ANNOTATIONS_PATTERN: &'static str = "(?:\\r?\\n@(.*))*(\\r?\\n\\{(?s:(.*))\\})?";

pub const IDENTIFIER_PATTERN: &'static str = "#([\\w-]+)";

pub const MAX_HEADING_LEVEL: u32 = 6;

pub const NEW_LINE: &'static str = "\n";

/// A set of modifiers, as excluded by another modifier: all of them, a list
/// of them, or none.
#[derive(Debug)]
pub enum ModifiersBucket {
    All,
    /// The listed modifiers, each known by its pattern (two modifiers are the
    /// same modifier when their patterns are equal).
    List(Vec<ModifierPattern>),
    Nothing,
}

/// The character views of a list of strings.
pub open spec fn strings_view(l: Seq<String>) -> Seq<Seq<char>> {
    l.map_values(|p: String| p@)
}

/// The mathematical value of a bucket.
pub enum BucketView {
    All,
    List(Seq<Seq<char>>),
    Nothing,
}

impl View for ModifiersBucket {
    type V = BucketView;

    open spec fn view(&self) -> BucketView {
        match self {
            ModifiersBucket::All => BucketView::All,
            ModifiersBucket::List(l) => BucketView::List(strings_view(l@)),
            ModifiersBucket::Nothing => BucketView::Nothing,
        }
    }
}

/// Whether a bucket holds the modifier with the given pattern.
pub open spec fn bucket_contains(b: BucketView, pattern: Seq<char>) -> bool {
    match b {
        BucketView::All => true,
        BucketView::List(l) => l.contains(pattern),
        BucketView::Nothing => false,
    }
}

/// The union of two buckets, as `ModifiersBucket::add` builds it.
pub open spec fn bucket_union(a: BucketView, b: BucketView) -> BucketView {
    match b {
        BucketView::All => BucketView::All,
        BucketView::List(l2) => match a {
            BucketView::All => BucketView::All,
            BucketView::List(l1) => BucketView::List(l1 + l2),
            BucketView::Nothing => b,
        },
        BucketView::Nothing => a,
    }
}

fn clone_patterns(l: &Vec<ModifierPattern>) -> (r: Vec<ModifierPattern>)
    ensures
        strings_view(r@) == strings_view(l@),
{
    let mut r: Vec<ModifierPattern> = Vec::new();
    let mut i: usize = 0;
    while i < l.len()
        invariant
            i <= l.len(),
            r@.len() == i,
            strings_view(r@) == strings_view(l@.take(i as int)),
        decreases l.len() - i,
    {
        let c = l[i].clone();
        let ghost old_r = r@;
        r.push(c);
        proof {
            assert(c@ == l@[i as int]@);
            assert forall|j: int| 0 <= j < i + 1 implies #[trigger] r@[j]@ == l@.take(i + 1)[j]@ by {
                if j < i {
                    assert(r@[j] == old_r[j]);
                    assert(strings_view(old_r)[j] == strings_view(l@.take(i as int))[j]);
                }
            }
            assert(strings_view(r@) =~= strings_view(l@.take(i + 1)));
        }
        i = i + 1;
    }
    proof {
        assert(l@.take(l@.len() as int) =~= l@);
    }
    r
}

impl ModifiersBucket {
    /// Whether the bucket holds the modifier (compared by pattern).
    pub fn contains(&self, searched_modifier: &BaseModifier) -> (r: bool)
        ensures
            r == bucket_contains(self@, searched_modifier@.1),
    {
        match self {
            ModifiersBucket::All => true,
            ModifiersBucket::List(modifiers_list) => {
                let mut i: usize = 0;
                while i < modifiers_list.len()
                    invariant
                        i <= modifiers_list.len(),
                        self@ == BucketView::List(strings_view(modifiers_list@)),
                        forall|j: int|
                            0 <= j < i ==> modifiers_list@[j]@ != searched_modifier@.1,
                    decreases modifiers_list.len() - i,
                {
                    if modifiers_list[i].eq(&searched_modifier.modifier_pattern) {
                        proof {
                            let l = strings_view(modifiers_list@);
                            assert(l[i as int] == searched_modifier@.1);
                            assert(l.contains(searched_modifier@.1));
                            assert(self@ == BucketView::List(l));
                        }
                        return true;
                    }
                    i = i + 1;
                }
                proof {
                    let l = strings_view(modifiers_list@);
                    assert forall|j: int| 0 <= j < l.len() implies l[j] != searched_modifier@.1 by {
                        assert(l[j] == modifiers_list@[j]@);
                    }
                }
                false
            },
            ModifiersBucket::Nothing => false,
        }
    }

    /// Whether the bucket is `All`.
    pub fn is_all(&self) -> (r: bool)
        ensures
            r == (self@ is All),
    {
        match self {
            ModifiersBucket::All => true,
            _ => false,
        }
    }

    /// A copy of the bucket.
    pub fn duplicate(&self) -> (r: ModifiersBucket)
        ensures
            r@ == self@,
    {
        match self {
            ModifiersBucket::All => ModifiersBucket::All,
            ModifiersBucket::List(l) => ModifiersBucket::List(clone_patterns(l)),
            ModifiersBucket::Nothing => ModifiersBucket::Nothing,
        }
    }

    /// The union of two buckets: `All` absorbs, `None` is neutral, two lists
    /// are concatenated.
    pub fn add(self, new_modifiers_excluded: ModifiersBucket) -> (r: ModifiersBucket)
        ensures
            r@ == bucket_union(self@, new_modifiers_excluded@),
    {
        match new_modifiers_excluded {
            ModifiersBucket::All => ModifiersBucket::All,
            ModifiersBucket::List(mut modifiers_to_add) => {
                match self {
                    ModifiersBucket::All => ModifiersBucket::All,
                    ModifiersBucket::List(mut modifiers_already_excluded) => {
                        let ghost a = modifiers_already_excluded@;
                        let ghost b = modifiers_to_add@;
                        modifiers_already_excluded.append(&mut modifiers_to_add);
                        proof {
                            assert(strings_view(modifiers_already_excluded@) =~= strings_view(a) + strings_view(b));
                        }
                        ModifiersBucket::List(modifiers_already_excluded)
                    },
                    ModifiersBucket::Nothing => ModifiersBucket::List(modifiers_to_add),
                }
            },
            ModifiersBucket::Nothing => self,
        }
    }
}

/// A bucket holds a modifier after a union exactly when one of the two
/// buckets held it.
pub proof fn lemma_union_contains(a: BucketView, b: BucketView, pattern: Seq<char>)
    ensures
        bucket_contains(bucket_union(a, b), pattern) == (bucket_contains(a, pattern)
            || bucket_contains(b, pattern)),
{
    match (a, b) {
        (BucketView::List(l1), BucketView::List(l2)) => {
            if (l1 + l2).contains(pattern) {
                let i = choose|i: int| 0 <= i < (l1 + l2).len() && (l1 + l2)[i] == pattern;
                if i < l1.len() {
                    assert(l1[i] == pattern);
                } else {
                    assert(l2[i - l1.len()] == pattern);
                }
            }
            if l1.contains(pattern) {
                let i = choose|i: int| 0 <= i < l1.len() && l1[i] == pattern;
                assert((l1 + l2)[i] == pattern);
            }
            if l2.contains(pattern) {
                let i = choose|i: int| 0 <= i < l2.len() && l2[i] == pattern;
                assert((l1 + l2)[l1.len() + i] == pattern);
            }
        },
        _ => {},
    }
}

/// `None` is neutral on both sides of a union, and `All` absorbs on both
/// sides.
pub proof fn lemma_union_identity_and_absorption(a: BucketView)
    ensures
        bucket_union(a, BucketView::Nothing) == a,
        bucket_union(BucketView::Nothing, a) == a,
        bucket_union(a, BucketView::All) == BucketView::All,
        bucket_union(BucketView::All, a) == BucketView::All,
{
}

/// A modifier: an identifier, the pattern that finds it, and the modifiers
/// that may not act inside what it matches.
#[derive(Debug)]
pub struct BaseModifier {
    pub identifier: ModifierIdentifier,
    pub modifier_pattern: ModifierPattern,
    pub incompatible_modifiers: ModifiersBucket,
}

impl View for BaseModifier {
    type V = (Seq<char>, Seq<char>, BucketView);

    open spec fn view(&self) -> (Seq<char>, Seq<char>, BucketView) {
        (self.identifier@, self.modifier_pattern@, self.incompatible_modifiers@)
    }
}

impl BaseModifier {
    pub fn new(
        identifier: ModifierIdentifier,
        modifier_pattern: ModifierPattern,
        incompatible_modifiers: ModifiersBucket,
    ) -> (r: Self)
        ensures
            r@ == (identifier@, modifier_pattern@, incompatible_modifiers@),
    {
        Self { identifier, modifier_pattern, incompatible_modifiers }
    }

    pub fn identifier(&self) -> (r: &ModifierIdentifier)
        ensures
            r@ == self@.0,
    {
        &self.identifier
    }

    pub fn modifier_pattern(&self) -> (r: &ModifierPattern)
        ensures
            r@ == self@.1,
    {
        &self.modifier_pattern
    }

    pub fn incompatible_modifiers(&self) -> (r: &ModifiersBucket)
        ensures
            r@ == self@.2,
    {
        &self.incompatible_modifiers
    }

    /// A copy of the modifier.
    pub fn duplicate(&self) -> (r: BaseModifier)
        ensures
            r@ == self@,
    {
        BaseModifier {
            identifier: self.identifier.clone(),
            modifier_pattern: self.modifier_pattern.clone(),
            incompatible_modifiers: self.incompatible_modifiers.duplicate(),
        }
    }
}

} // verus!
