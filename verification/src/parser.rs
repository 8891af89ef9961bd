//! Parsing texts and paragraphs with the rules of a codex.
//!
//! A text is parsed as a sequence of parts, each with the modifiers that may
//! no longer act on it. Text modifiers are tried in the codex's order: each
//! splits every part it may act on at the matches of its rule; a match
//! becomes what the rule makes of it, and from then on also excludes the
//! modifiers that this modifier is incompatible with. The parsed text is the
//! parts joined.
use vstd::prelude::*;
use vstd::utf8::{
    encode_utf8,
    encode_utf8_decode_utf8,
};

use crate::chapter::Paragraph;
use crate::codex::{lookup_rule, rule_for, rules_view, Codex};
use crate::codex_configuration::{modifier_named, modifiers_view, ModifierView};
use crate::loader::{byte_range, Found};
use crate::modifier::{bucket_contains, bucket_union, BaseModifier, BucketView, ModifiersBucket};
use crate::parsing::{
    OptionsView,outcome_view, ParsingConfiguration, ParsingError, ParsingErrorView, ParsingOutcome};
use crate::parsing_rule::{rule_accepts, rule_matches, rule_output, ParsingRule, RuleView};
use crate::pattern::{match_within, well_formed_matches, RegexMatch};
use crate::text::{append_str, byte_len, byte_slice};

verus! {

/// A part of a text being parsed, with the modifiers that may no longer act
/// on it.
pub type Part = (Seq<char>, BucketView);

pub open spec fn parts_view(v: Seq<(String, ModifiersBucket)>) -> Seq<Part> {
    v.map_values(|p: (String, ModifiersBucket)| (p.0@, p.1@))
}

/// `a` in front of a successful result.
pub open spec fn prefix_ok(a: Seq<Part>, r: Result<Seq<Part>, ParsingErrorView>) -> Result<
    Seq<Part>,
    ParsingErrorView,
> {
    match r {
        Ok(x) => Ok(a + x),
        Err(e) => Err(e),
    }
}

/// The parts that a text splits into at the matches `ms[j..]` of a rule, the
/// previous match having ended at `last_end`: the text between matches keeps
/// the bucket; each match becomes what the rule makes of it, its bucket
/// extended by `incompatible`. The first failure of the rule is the result.
pub open spec fn split_from(
    text: Seq<char>,
    bucket: BucketView,
    ms: Seq<Found>,
    j: int,
    last_end: int,
    rule: RuleView,
    incompatible: BucketView,
    c: OptionsView,
) -> Result<Seq<Part>, ParsingErrorView>
    decreases ms.len() - j,
{
    if j < 0 || j >= ms.len() {
        if last_end < encode_utf8(text).len() {
            Ok(seq![(byte_range(text, last_end, encode_utf8(text).len() as int), bucket)])
        } else {
            Ok(Seq::empty())
        }
    } else {
        let m = ms[j];
        let before = if m.0 > last_end {
            seq![(byte_range(text, last_end, m.0 as int), bucket)]
        } else {
            Seq::empty()
        };
        match rule_output(rule, m.2, c) {
            Err(e) => Err(e),
            Ok(out) => prefix_ok(
                before + seq![(out, bucket_union(bucket, incompatible))],
                split_from(text, bucket, ms, j + 1, m.1 as int, rule, incompatible, c),
            ),
        }
    }
}

/// One part under a modifier and its rule: kept as it is when the modifier
/// may not act on it or its rule finds nothing in it, split otherwise.
pub open spec fn apply_to_part(p: Part, m: ModifierView, rule: RuleView, c: OptionsView) -> Result<
    Seq<Part>,
    ParsingErrorView,
> {
    if bucket_contains(p.1, m.1) {
        Ok(seq![p])
    } else {
        let ms = rule_matches(rule, p.0);
        if ms.len() == 0 {
            Ok(seq![p])
        } else {
            split_from(p.0, p.1, ms, 0, 0, rule, m.2, c)
        }
    }
}

/// Every part under a modifier and its rule, in order.
pub open spec fn apply_modifier(
    parts: Seq<Part>,
    m: ModifierView,
    rule: RuleView,
    c: OptionsView,
) -> Result<Seq<Part>, ParsingErrorView>
    decreases parts.len(),
{
    if parts.len() == 0 {
        Ok(Seq::empty())
    } else {
        match apply_to_part(parts[0], m, rule, c) {
            Err(e) => Err(e),
            Ok(h) => prefix_ok(h, apply_modifier(parts.drop_first(), m, rule, c)),
        }
    }
}

/// The parts after the modifiers `mods`, in order: a modifier that is
/// excluded, or that has no rule, leaves them as they are.
pub open spec fn parse_parts(
    mods: Seq<ModifierView>,
    rules: Seq<(Seq<char>, RuleView)>,
    excluded: BucketView,
    parts: Seq<Part>,
    c: OptionsView,
) -> Result<Seq<Part>, ParsingErrorView>
    decreases mods.len(),
{
    if mods.len() == 0 {
        Ok(parts)
    } else {
        let m = mods[0];
        let next = if bucket_contains(excluded, m.1) {
            Ok(parts)
        } else {
            match lookup_rule(rules, m.0) {
                None => Ok(parts),
                Some(rule) => apply_modifier(parts, m, rule, c),
            }
        };
        match next {
            Ok(ps) => parse_parts(mods.drop_first(), rules, excluded, ps, c),
            Err(e) => Err(e),
        }
    }
}

/// The texts of the parts, joined.
pub open spec fn joined(parts: Seq<Part>) -> Seq<char>
    decreases parts.len(),
{
    if parts.len() == 0 {
        Seq::empty()
    } else {
        joined(parts.drop_last()) + parts.last().0
    }
}

/// The parsed text: the text itself when every modifier is excluded;
/// otherwise its parts after the text modifiers, joined.
pub open spec fn parsed_text(
    mods: Seq<ModifierView>,
    rules: Seq<(Seq<char>, RuleView)>,
    content: Seq<char>,
    excluded: BucketView,
    c: OptionsView,
) -> Result<Seq<char>, ParsingErrorView> {
    if excluded is All {
        Ok(content)
    } else {
        match parse_parts(mods, rules, excluded, seq![(content, BucketView::Nothing)], c) {
            Ok(ps) => Ok(joined(ps)),
            Err(e) => Err(e),
        }
    }
}

/// Law: with every modifier excluded, a text is parsed into itself, and so
/// is a paragraph's content, whatever the codex and the options.
pub proof fn law_excluding_every_modifier_keeps_the_text(
    tmods: Seq<ModifierView>,
    trules: Seq<(Seq<char>, RuleView)>,
    pmods: Seq<ModifierView>,
    prules: Seq<(Seq<char>, RuleView)>,
    content: Seq<char>,
    paragraph: (Seq<char>, Option<Seq<char>>, Seq<char>),
    c: OptionsView,
)
    ensures
        parsed_text(tmods, trules, content, BucketView::All, c) == Ok::<
            Seq<char>,
            ParsingErrorView,
        >(content),
        parsed_paragraph(tmods, trules, pmods, prules, paragraph, BucketView::All, c) == Ok::<
            Seq<char>,
            ParsingErrorView,
        >(paragraph.0),
{
}

/// A rule found among rules is one of them.
proof fn lemma_lookup_rule_member(rules: Seq<(Seq<char>, RuleView)>, id: Seq<char>)
    ensures
        lookup_rule(rules, id) matches Some(r) ==> exists|i: int|
            0 <= i < rules.len() && (#[trigger] rules[i]).1 == r,
    decreases rules.len(),
{
    if rules.len() > 0 && rules[0].0 != id {
        lemma_lookup_rule_member(rules.drop_first(), id);
        if let Some(r) = lookup_rule(rules, id) {
            let i = choose|i: int| 0 <= i < rules.drop_first().len() && (#[trigger] rules.drop_first()[i]).1 == r;
            assert(rules[i + 1] == rules.drop_first()[i]);
        }
    } else if rules.len() > 0 {
        assert(rules[0].1 == lookup_rule(rules, id)->0);
    }
}

proof fn lemma_unmatched_text_stays(
    mods: Seq<ModifierView>,
    rules: Seq<(Seq<char>, RuleView)>,
    excluded: BucketView,
    content: Seq<char>,
    c: OptionsView,
)
    requires
        forall|i: int| 0 <= i < rules.len() ==> rule_matches(#[trigger] rules[i].1, content).len() == 0,
    ensures
        parse_parts(mods, rules, excluded, seq![(content, BucketView::Nothing)], c) == Ok::<
            Seq<Part>,
            ParsingErrorView,
        >(seq![(content, BucketView::Nothing)]),
    decreases mods.len(),
{
    let p: Part = (content, BucketView::Nothing);
    if mods.len() > 0 {
        let m = mods[0];
        if !bucket_contains(excluded, m.1) {
            lemma_lookup_rule_member(rules, m.0);
            if let Some(rule) = lookup_rule(rules, m.0) {
                let i = choose|i: int| 0 <= i < rules.len() && (#[trigger] rules[i]).1 == rule;
                assert(rule_matches(rules[i].1, content).len() == 0);
                assert(apply_to_part(p, m, rule, c) == Ok::<Seq<Part>, ParsingErrorView>(seq![p]));
                assert(seq![p].drop_first() =~= Seq::<Part>::empty());
                assert(apply_modifier(seq![p].drop_first(), m, rule, c) == Ok::<
                    Seq<Part>,
                    ParsingErrorView,
                >(Seq::<Part>::empty()));
                assert(seq![p] + Seq::<Part>::empty() =~= seq![p]);
                assert(apply_modifier(seq![p], m, rule, c) == Ok::<Seq<Part>, ParsingErrorView>(
                    seq![p],
                ));
            }
        }
        lemma_unmatched_text_stays(mods.drop_first(), rules, excluded, content, c);
    }
}

/// Law: a text in which no rule of the codex finds anything is parsed into
/// itself, whatever modifiers are excluded.
pub proof fn law_text_without_markup_is_kept(
    mods: Seq<ModifierView>,
    rules: Seq<(Seq<char>, RuleView)>,
    content: Seq<char>,
    excluded: BucketView,
    c: OptionsView,
)
    requires
        forall|i: int| 0 <= i < rules.len() ==> rule_matches(#[trigger] rules[i].1, content).len() == 0,
    ensures
        parsed_text(mods, rules, content, excluded, c) == Ok::<Seq<char>, ParsingErrorView>(
            content,
        ),
{
    if !(excluded is All) {
        lemma_unmatched_text_stays(mods, rules, excluded, content, c);
        let ps = seq![(content, BucketView::Nothing)];
        assert(ps.drop_last() =~= Seq::<Part>::empty());
        assert(joined(ps.drop_last()) == Seq::<char>::empty());
        assert(ps.last().0 == content);
        assert(Seq::<char>::empty() + content =~= content);
        assert(joined(ps) == content);
    }
}

/// Every rule accepts every content: a quote rule only with strict focus
/// block checks.
pub open spec fn rules_total(rules: Seq<(Seq<char>, RuleView)>, c: OptionsView) -> bool {
    forall|i: int|
        0 <= i < rules.len() ==> (#[trigger] rules[i]).1 is ExtendedBlockQuote
            ==> c.3
}

/// The parsed paragraph: its content when every modifier is excluded;
/// otherwise the rule of its modifier (if the codex has one) applied to its
/// content, then the text modifiers, the ones the paragraph modifier is
/// incompatible with excluded too.
pub open spec fn parsed_paragraph(
    tmods: Seq<ModifierView>,
    trules: Seq<(Seq<char>, RuleView)>,
    pmods: Seq<ModifierView>,
    prules: Seq<(Seq<char>, RuleView)>,
    paragraph: (Seq<char>, Option<Seq<char>>, Seq<char>),
    excluded: BucketView,
    c: OptionsView,
) -> Result<Seq<char>, ParsingErrorView> {
    if excluded is All {
        Ok(paragraph.0)
    } else {
        let m = modifier_named(pmods, paragraph.2)->0;
        match lookup_rule(prules, m.0) {
            Some(rule) => match rule_output(rule, paragraph.0, c) {
                Err(e) => Err(e),
                Ok(out) => parsed_text(tmods, trules, out, bucket_union(excluded, m.2), c),
            },
            None => parsed_text(tmods, trules, paragraph.0, excluded, c),
        }
    }
}

proof fn lemma_lookup_member(rules: Seq<(Seq<char>, RuleView)>, id: Seq<char>)
    ensures
        lookup_rule(rules, id) matches Some(r) ==> exists|i: int|
            0 <= i < rules.len() && #[trigger] rules[i] == (id, r),
    decreases rules.len(),
{
    if rules.len() > 0 && rules[0].0 != id {
        lemma_lookup_member(rules.drop_first(), id);
        if lookup_rule(rules, id) is Some {
            let r = lookup_rule(rules, id)->0;
            let i = choose|i: int| 0 <= i < rules.len() - 1 && #[trigger] rules.drop_first()[i] == (id, r);
            assert(rules[i + 1] == (id, r));
        }
    } else if rules.len() > 0 {
        assert(rules[0] == (id, rules[0].1));
    }
}

pub open spec fn parts_result_view(r: Result<Vec<(String, ModifiersBucket)>, ParsingError>) -> Result<
    Seq<Part>,
    ParsingErrorView,
> {
    match r {
        Ok(v) => Ok(parts_view(v@)),
        Err(e) => Err(e@),
    }
}

fn copy_part(p: &(String, ModifiersBucket)) -> (r: (String, ModifiersBucket))
    ensures
        r.0@ == p.0@,
        r.1@ == p.1@,
{
    (p.0.clone(), p.1.duplicate())
}

/// The parts a text splits into at the matches of a rule.
#[verifier::spinoff_prover]
fn split_part(
    text: &str,
    bucket: &ModifiersBucket,
    ms: &Vec<RegexMatch>,
    rule: &ParsingRule,
    incompatible: &ModifiersBucket,
    config: &ParsingConfiguration,
) -> (r: Result<Vec<(String, ModifiersBucket)>, ParsingError>)
    requires
        well_formed_matches(text@, ms@.map_values(|m: RegexMatch| m@)),
        forall|s: Seq<char>| rule_accepts(rule@, s, config.options()),
    ensures
        parts_result_view(r) == split_from(
            text@,
            bucket@,
            ms@.map_values(|m: RegexMatch| m@),
            0,
            0,
            rule@,
            incompatible@,
            config.options(),
        ),
{
    let ghost mv = ms@.map_values(|m: RegexMatch| m@);
    let ghost target = split_from(text@, bucket@, mv, 0, 0, rule@, incompatible@, config.options());
    let mut out: Vec<(String, ModifiersBucket)> = Vec::new();
    let mut last_end: usize = 0;
    let mut j: usize = 0;
    proof {
        encode_utf8_valid_utf8_of(text@);
        vstd::utf8::is_char_boundary_start_end_of_seq(encode_utf8(text@));
        assert(prefix_ok(parts_view(out@), split_from(text@, bucket@, mv, 0, 0, rule@, incompatible@, config.options())) =~= target) by {
            match target {
                Ok(x) => {
                    assert(parts_view(out@) + x =~= x);
                },
                Err(_) => {},
            }
        }
    }
    while j < ms.len()
        invariant
            j <= ms@.len(),
            mv == ms@.map_values(|m: RegexMatch| m@),
            well_formed_matches(text@, mv),
            forall|s: Seq<char>| rule_accepts(rule@, s, config.options()),
            target == split_from(text@, bucket@, mv, 0, 0, rule@, incompatible@, config.options()),
            last_end <= encode_utf8(text@).len(),
            vstd::utf8::is_char_boundary(encode_utf8(text@), last_end as int),
            j > 0 ==> last_end == mv[j - 1].1,
            j == 0 ==> last_end == 0,
            target == prefix_ok(
                parts_view(out@),
                split_from(text@, bucket@, mv, j as int, last_end as int, rule@, incompatible@, config.options()),
            ),
        decreases ms@.len() - j,
    {
        let m = &ms[j];
        proof {
            assert(mv[j as int] == m@);
            assert(match_within(text@, mv[j as int]));
            if j > 0 {
                assert(mv[j - 1].1 <= mv[j as int].0);
            }
        }
        let ghost before_out = parts_view(out@);
        let ghost before = if m.start > last_end {
            seq![(byte_range(text@, last_end as int, m.start as int), bucket@)]
        } else {
            Seq::<Part>::empty()
        };
        if m.start > last_end {
            let s = byte_slice(text, last_end, m.start);
            proof {
                encode_utf8_decode_utf8(s@);
            }
            out.push((s, bucket.duplicate()));
        }
        proof {
            assert(parts_view(out@) =~= before_out + before);
        }
        let parsed = match rule.parse(m.text.as_str(), config) {
            Ok(o) => o,
            Err(e) => {
                return Err(e);
            },
        };
        let nb = bucket.duplicate().add(incompatible.duplicate());
        let ghost mid = parts_view(out@);
        out.push((parsed.parsed_content, nb));
        proof {
            assert(parts_view(out@) =~= mid.push((parsed.parsed_content@, bucket_union(bucket@, incompatible@))));
            let rest = split_from(text@, bucket@, mv, j + 1, m.end as int, rule@, incompatible@, config.options());
            match rest {
                Ok(x) => {
                    assert(before_out + (before + seq![(parsed.parsed_content@, bucket_union(bucket@, incompatible@))] + x)
                        =~= parts_view(out@) + x);
                },
                Err(_) => {},
            }
        }
        last_end = m.end;
        j = j + 1;
    }
    let len = byte_len(text);
    if last_end < len {
        let s = byte_slice(text, last_end, len);
        proof {
            encode_utf8_decode_utf8(s@);
        }
        let ghost before_out = parts_view(out@);
        out.push((s, bucket.duplicate()));
        proof {
            assert(parts_view(out@) =~= before_out + seq![(s@, bucket@)]);
        }
    } else {
        proof {
            assert(parts_view(out@) + Seq::<Part>::empty() =~= parts_view(out@));
        }
    }
    Ok(out)
}

proof fn encode_utf8_valid_utf8_of(s: Seq<char>)
    ensures
        vstd::utf8::valid_utf8(encode_utf8(s)),
{
    vstd::utf8::encode_utf8_valid_utf8(s);
}

/// Every part under a modifier and its rule.
#[verifier::spinoff_prover]
fn apply_modifier_exec(
    parts: &Vec<(String, ModifiersBucket)>,
    m: &BaseModifier,
    rule: &ParsingRule,
    config: &ParsingConfiguration,
) -> (r: Result<Vec<(String, ModifiersBucket)>, ParsingError>)
    requires
        forall|s: Seq<char>| rule_accepts(rule@, s, config.options()),
    ensures
        parts_result_view(r) == apply_modifier(parts_view(parts@), m@, rule@, config.options()),
{
    let ghost pv = parts_view(parts@);
    let ghost target = apply_modifier(pv, m@, rule@, config.options());
    let mut out: Vec<(String, ModifiersBucket)> = Vec::new();
    let mut i: usize = 0;
    proof {
        assert(pv.skip(0) =~= pv);
        match target {
            Ok(x) => {
                assert(parts_view(out@) + x =~= x);
            },
            Err(_) => {},
        }
    }
    while i < parts.len()
        invariant
            i <= parts@.len(),
            pv == parts_view(parts@),
            forall|s: Seq<char>| rule_accepts(rule@, s, config.options()),
            target == apply_modifier(pv, m@, rule@, config.options()),
            target == prefix_ok(parts_view(out@), apply_modifier(pv.skip(i as int), m@, rule@, config.options())),
        decreases parts@.len() - i,
    {
        let p = &parts[i];
        let ghost rest_parts = pv.skip(i as int);
        proof {
            assert(rest_parts[0] == (p.0@, p.1@));
            assert(rest_parts.drop_first() =~= pv.skip(i + 1));
        }
        let ghost before_out = parts_view(out@);
        let mut here: Vec<(String, ModifiersBucket)> = if p.1.contains(m) {
            let v = vec![copy_part(p)];
            proof {
                assert(parts_view(v@) =~= seq![(p.0@, p.1@)]);
                assert(apply_to_part(rest_parts[0], m@, rule@, config.options()) == Ok::<Seq<Part>, ParsingErrorView>(
                    parts_view(v@),
                ));
            }
            v
        } else {
            let ms = rule.find_iter(p.0.as_str());
            if ms.len() == 0 {
                let v = vec![copy_part(p)];
                proof {
                    assert(parts_view(v@) =~= seq![(p.0@, p.1@)]);
                    assert(rule_matches(rule@, p.0@).len() == 0);
                    assert(apply_to_part(rest_parts[0], m@, rule@, config.options()) == Ok::<Seq<Part>, ParsingErrorView>(
                        parts_view(v@),
                    ));
                }
                v
            } else {
                match split_part(p.0.as_str(), &p.1, &ms, rule, &m.incompatible_modifiers, config) {
                    Ok(v) => {
                        proof {
                            assert(apply_to_part(rest_parts[0], m@, rule@, config.options()) == Ok::<Seq<Part>, ParsingErrorView>(
                                parts_view(v@),
                            ));
                        }
                        v
                    },
                    Err(e) => {
                        proof {
                            assert(apply_to_part(rest_parts[0], m@, rule@, config.options()) == Err::<Seq<Part>, ParsingErrorView>(e@));
                            assert(apply_modifier(rest_parts, m@, rule@, config.options()) == Err::<Seq<Part>, ParsingErrorView>(e@));
                        }
                        return Err(e);
                    },
                }
            }
        };
        let ghost h = parts_view(here@);
        proof {
            assert(apply_modifier(rest_parts, m@, rule@, config.options()) == prefix_ok(h, apply_modifier(pv.skip(i + 1), m@, rule@, config.options())));
        }
        out.append(&mut here);
        proof {
            assert(parts_view(out@) =~= before_out + h);
            match apply_modifier(pv.skip(i + 1), m@, rule@, config.options()) {
                Ok(x) => {
                    assert(before_out + (h + x) =~= (before_out + h) + x);
                },
                Err(_) => {},
            }
        }
        i = i + 1;
    }
    proof {
        assert(pv.skip(i as int) =~= Seq::<Part>::empty());
        assert(parts_view(out@) + Seq::<Part>::empty() =~= parts_view(out@));
    }
    Ok(out)
}

/// Parses texts and paragraphs.
pub struct Parser {}

impl Parser {
    /// Parses a text, excluding the modifiers the configuration excludes.
    pub fn parse_text(codex: &Codex, content: &str, parsing_configuration: &ParsingConfiguration) -> (r:
        Result<ParsingOutcome, ParsingError>)
        requires
            rules_total(rules_view(codex.text_rules@), parsing_configuration.options()),
        ensures
            outcome_view(r) == parsed_text(
                codex.configuration@.0,
                rules_view(codex.text_rules@),
                content@,
                parsing_configuration.excluded_modifiers@,
                parsing_configuration.options(),
            ),
    {
        let excluded_modifiers = parsing_configuration.modifiers_excluded().duplicate();
        Parser::parse_text_excluding_modifiers(codex, content, excluded_modifiers, parsing_configuration)
    }

    /// Parses a text with the codex's text modifiers, in order, except the
    /// excluded ones; see the module documentation.
    #[verifier::spinoff_prover]
    pub fn parse_text_excluding_modifiers(
        codex: &Codex,
        content: &str,
        excluded_modifiers: ModifiersBucket,
        parsing_configuration: &ParsingConfiguration,
    ) -> (r: Result<ParsingOutcome, ParsingError>)
        requires
            rules_total(rules_view(codex.text_rules@), parsing_configuration.options()),
        ensures
            outcome_view(r) == parsed_text(
                codex.configuration@.0,
                rules_view(codex.text_rules@),
                content@,
                excluded_modifiers@,
                parsing_configuration.options(),
            ),
    {
        if excluded_modifiers.is_all() {
            return Ok(ParsingOutcome::new(crate::text::owned(content)));
        }
        let mods = codex.configuration().ordered_text_modifiers();
        let ghost mv = modifiers_view(mods@);
        let ghost rules = rules_view(codex.text_rules@);
        let mut parts: Vec<(String, ModifiersBucket)> = vec![(crate::text::owned(content), ModifiersBucket::Nothing)];
        let ghost target = parse_parts(mv, rules, excluded_modifiers@, parts_view(parts@), parsing_configuration.options());
        proof {
            assert(parts_view(parts@) =~= seq![(content@, BucketView::Nothing)]);
            assert(mv.skip(0) =~= mv);
        }
        let mut k: usize = 0;
        while k < mods.len()
            invariant
                k <= mods@.len(),
                mv == modifiers_view(mods@),
                mv == codex.configuration@.0,
                rules == rules_view(codex.text_rules@),
                rules_total(rules, parsing_configuration.options()),
                !(excluded_modifiers@ is All),
                target == parse_parts(
                    mv,
                    rules,
                    excluded_modifiers@,
                    seq![(content@, BucketView::Nothing)],
                    parsing_configuration.options(),
                ),
                target == parse_parts(mv.skip(k as int), rules, excluded_modifiers@, parts_view(parts@), parsing_configuration.options()),
            decreases mods@.len() - k,
        {
            let m = &mods[k];
            proof {
                let t = mv.skip(k as int);
                assert(t[0] == m@);
                assert(t.drop_first() =~= mv.skip(k + 1));
            }
            if !excluded_modifiers.contains(m) {
                match rule_for(&codex.text_rules, &m.identifier) {
                    Some(rule) => {
                        proof {
                            lemma_lookup_member(rules, m@.0);
                            let i = choose|i: int| 0 <= i < rules.len() && #[trigger] rules[i] == (m@.0, rule@);
                            assert(rule@ is ExtendedBlockQuote ==> parsing_configuration.strict_focus_block_check);
                        }
                        match apply_modifier_exec(&parts, m, rule, parsing_configuration) {
                            Ok(next) => {
                                parts = next;
                            },
                            Err(e) => {
                                proof {
                                    let t = mv.skip(k as int);
                                    assert(t.len() > 0);
                                    assert(!bucket_contains(excluded_modifiers@, t[0].1));
                                    assert(lookup_rule(rules, t[0].0) == Some(rule@));
                                    assert(target == Err::<Seq<Part>, ParsingErrorView>(e@));
                                }
                                return Err(e);
                            },
                        }
                    },
                    None => {},
                }
            }
            k = k + 1;
        }
        proof {
            assert(mv.skip(k as int) =~= Seq::<ModifierView>::empty());
        }
        let ghost pv = parts_view(parts@);
        let mut out = String::new();
        let mut i: usize = 0;
        proof {
            assert(pv.take(0) =~= Seq::<Part>::empty());
        }
        while i < parts.len()
            invariant
                i <= parts@.len(),
                pv == parts_view(parts@),
                out@ == joined(pv.take(i as int)),
            decreases parts@.len() - i,
        {
            append_str(&mut out, parts[i].0.as_str());
            proof {
                let t = pv.take(i + 1);
                assert(t.drop_last() =~= pv.take(i as int));
                assert(t.last().0 == parts@[i as int].0@);
            }
            i = i + 1;
        }
        proof {
            assert(pv.take(i as int) =~= pv);
        }
        Ok(ParsingOutcome::new(out))
    }

    /// Parses a paragraph, nothing excluded.
    pub fn parse_paragraph(
        codex: &Codex,
        paragraph: &Paragraph,
        parsing_configuration: &ParsingConfiguration,
    ) -> (r: Result<ParsingOutcome, ParsingError>)
        requires
            modifier_named(codex.configuration@.1, paragraph@.2) is Some,
            rules_total(rules_view(codex.text_rules@), parsing_configuration.options()),
            match lookup_rule(
                rules_view(codex.paragraph_rules@),
                (modifier_named(codex.configuration@.1, paragraph@.2)->0).0,
            ) {
                Some(rule) => rule_accepts(rule, paragraph@.0, parsing_configuration.options()),
                None => true,
            },
        ensures
            outcome_view(r) == parsed_paragraph(
                codex.configuration@.0,
                rules_view(codex.text_rules@),
                codex.configuration@.1,
                rules_view(codex.paragraph_rules@),
                paragraph@,
                BucketView::Nothing,
                parsing_configuration.options(),
            ),
    {
        Parser::parse_paragraph_excluding_modifiers(
            codex,
            paragraph,
            ModifiersBucket::Nothing,
            parsing_configuration,
        )
    }

    /// Parses a paragraph: the rule of its modifier, then the text
    /// modifiers (only one paragraph rule applies to a paragraph).
    pub fn parse_paragraph_excluding_modifiers(
        codex: &Codex,
        paragraph: &Paragraph,
        excluded_modifiers: ModifiersBucket,
        parsing_configuration: &ParsingConfiguration,
    ) -> (r: Result<ParsingOutcome, ParsingError>)
        requires
            modifier_named(codex.configuration@.1, paragraph@.2) is Some,
            rules_total(rules_view(codex.text_rules@), parsing_configuration.options()),
            match lookup_rule(
                rules_view(codex.paragraph_rules@),
                (modifier_named(codex.configuration@.1, paragraph@.2)->0).0,
            ) {
                Some(rule) => rule_accepts(rule, paragraph@.0, parsing_configuration.options()),
                None => true,
            },
        ensures
            outcome_view(r) == parsed_paragraph(
                codex.configuration@.0,
                rules_view(codex.text_rules@),
                codex.configuration@.1,
                rules_view(codex.paragraph_rules@),
                paragraph@,
                excluded_modifiers@,
                parsing_configuration.options(),
            ),
    {
        if excluded_modifiers.is_all() {
            return Ok(ParsingOutcome::new(paragraph.content.clone()));
        }
        let paragraph_modifier = match codex.configuration().paragraph_modifier(&paragraph.paragraph_type) {
            Some(m) => m,
            None => {
                return Err(ParsingError::Unknown);
            },
        };
        match rule_for(&codex.paragraph_rules, &paragraph_modifier.identifier) {
            Some(rule) => {
                let outcome = match rule.parse(paragraph.content.as_str(), parsing_configuration) {
                    Ok(o) => o,
                    Err(e) => {
                        return Err(e);
                    },
                };
                let excluded = excluded_modifiers.add(paragraph_modifier.incompatible_modifiers.duplicate());
                Parser::parse_text_excluding_modifiers(
                    codex,
                    outcome.parsed_content.as_str(),
                    excluded,
                    parsing_configuration,
                )
            },
            None => Parser::parse_text_excluding_modifiers(
                codex,
                paragraph.content.as_str(),
                excluded_modifiers,
                parsing_configuration,
            ),
        }
    }
}

} // verus!
