//! The rules that turn what a modifier matches into HTML.
use vstd::prelude::*;

use crate::image_rule::{image_output, sources_view, HtmlImageRule, ImageSourcesView, IMAGE_PATTERN};
use crate::loader::{group, names_match};
use crate::parsing::{
    OptionsView,
    bullets_view,
    outcome_view,
    BulletView,
    ListBulletConfigurationRecord,
    ParsingConfiguration,
    ParsingError,
    ParsingErrorView,
    ParsingOutcome,
    CHECKBOX,
    CHECKBOX_CHECKED,
};
use crate::pattern::{
    captures,
    captures_all,
    find_all,
    groups_view,
    is_match,
    regex_captures,
    regex_captures_all,
    regex_compiles,
    regex_find_all,
    regex_replace_all,
    replace_all,
    well_formed_matches,
    RegexMatch,
};
use crate::standard_paragraph_modifier::StandardParagraphModifier;
use crate::text::{
    append_str,
    lines,
    lines_of,
    lowercased,
    owned,
    replace_all_occurrences,
    replaced,
    skip_whitespace,
    string_from_range,
    to_chars,
    to_lowercase,
    trim_start,
};

verus! {

/// Two line feeds: a blank line.
pub open spec fn blank_line() -> Seq<char> {
    seq!['\n', '\n']
}

// ---------------------------------------------------------------------------
// Replacement
// ---------------------------------------------------------------------------

/// Replaces every match of a pattern by a template (`$n` for capture group
/// `n`); with a newline fix, blank lines in the result are then replaced too.
#[derive(Debug)]
pub struct ReplacementRule {
    pub search_pattern: String,
    pub replacer: String,
    pub newline_fix_pattern: Option<String>,
}

/// Search pattern, template, newline fix.
pub type ReplacementView = (Seq<char>, Seq<char>, Option<Seq<char>>);

impl View for ReplacementRule {
    type V = ReplacementView;

    open spec fn view(&self) -> ReplacementView {
        (self.search_pattern@, self.replacer@, crate::chapter::opt_view(self.newline_fix_pattern))
    }
}

/// What a replacement rule makes of `content`: every match of the pattern
/// replaced by the template, then, with a newline fix, every blank line
/// replaced by the fix. A pattern that does not compile is an error.
pub open spec fn replacement_output(r: ReplacementView, content: Seq<char>) -> Result<
    Seq<char>,
    ParsingErrorView,
> {
    if !regex_compiles(r.0) {
        Err(ParsingErrorView::InvalidPattern(r.0))
    } else {
        let replaced_content = regex_replace_all(r.0, content, r.1);
        match r.2 {
            None => Ok(replaced_content),
            Some(fix) => if regex_compiles(blank_line()) {
                Ok(regex_replace_all(blank_line(), replaced_content, fix))
            } else {
                Err(ParsingErrorView::InvalidPattern(blank_line()))
            },
        }
    }
}

impl ReplacementRule {
    pub fn new(search_pattern: String, replacer: String) -> (r: Self)
        ensures
            r@ == (search_pattern@, replacer@, None::<Seq<char>>),
    {
        Self { search_pattern, replacer, newline_fix_pattern: None }
    }

    /// The same rule, with blank lines of its output replaced by `pattern`.
    pub fn with_newline_fix(self, pattern: String) -> (r: Self)
        ensures
            r@ == (self@.0, self@.1, Some(pattern@)),
    {
        Self {
            search_pattern: self.search_pattern,
            replacer: self.replacer,
            newline_fix_pattern: Some(pattern),
        }
    }

    pub fn search_pattern(&self) -> (r: &String)
        ensures
            r@ == self@.0,
    {
        &self.search_pattern
    }

    #[verifier::spinoff_prover]
    pub fn parse(&self, content: &str, parsing_configuration: &ParsingConfiguration) -> (r: Result<
        ParsingOutcome,
        ParsingError,
    >)
        ensures
            outcome_view(r) == replacement_output(self@, content@),
    {
        let parsed = match replace_all(self.search_pattern.as_str(), content, self.replacer.as_str()) {
            Some(p) => p,
            None => {
                return Err(ParsingError::InvalidPattern(self.search_pattern.clone()));
            },
        };
        match &self.newline_fix_pattern {
            None => Ok(ParsingOutcome::new(parsed)),
            Some(fix) => {
                let nl = "\n\n";
                proof {
                    reveal_strlit("\n\n");
                    assert(nl@ =~= blank_line());
                }
                match replace_all(nl, parsed.as_str(), fix.as_str()) {
                    Some(p) => Ok(ParsingOutcome::new(p)),
                    None => Err(ParsingError::InvalidPattern(owned(nl))),
                }
            },
        }
    }
}

// ---------------------------------------------------------------------------
// Lists
// ---------------------------------------------------------------------------

/// The markup that indents a list item by one level.
pub const INDENTATION: &'static str = "<span class=\"list-item-indentation\"></span>";

/// What a tab counts for in the indentation of a list item.
pub const SPACE_TAB_EQUIVALENCE: &'static str = "   ";

pub const LIST_ITEM_OPEN: &'static str = "<li class=\"list-item\">\n                            ";

pub const LIST_ITEM_BULLET: &'static str = "\n                            <span class=\"list-item-bullet\">\n                                ";

pub const LIST_ITEM_CONTENT: &'static str = "\n                            </span>\n                            <span class=\"list-item-content\">\n                                ";

pub const LIST_ITEM_CLOSE: &'static str = "\n                            </span>\n                        </li>";

pub const LIST_OPEN: &'static str = "<ul class=\"list\">";

pub const LIST_CLOSE: &'static str = "</ul>";

/// The markup of a bullet: checkboxes become boxes, other bullets stay.
pub open spec fn field_for(to: Seq<char>) -> Seq<char> {
    if to == CHECKBOX@ {
        "<div class=\"checkbox checkbox-unchecked\"></div>"@
    } else if to == CHECKBOX_CHECKED@ {
        "<div class=\"checkbox checkbox-checked\"></div>"@
    } else {
        to
    }
}

/// How a bullet at an indentation level is rendered: by the first record
/// for it that applies at that level (exactly that level when strict, that
/// level or deeper otherwise); unchanged when none does.
pub open spec fn bullet_for(b: Seq<char>, level: nat, configs: Seq<BulletView>) -> Seq<char>
    decreases configs.len(),
{
    if configs.len() == 0 {
        b
    } else {
        let c = configs[0];
        if c.0 == b && ((c.3 && level == c.2) || (!c.3 && level >= c.2)) {
            field_for(c.1)
        } else {
            bullet_for(b, level, configs.drop_first())
        }
    }
}

/// Law: a bullet record applies to items with its bullet at exactly its
/// indentation level when its indentation is strict, at that level or
/// deeper otherwise; where it applies it gives the item its mark, where it
/// does not the records after it decide; a record for another bullet never
/// applies.
pub proof fn law_bullet_record_applies_at_its_levels(
    b: Seq<char>,
    level: nat,
    record: BulletView,
    rest: Seq<BulletView>,
)
    ensures
        record.0 == b && record.3 && level == record.2 ==> bullet_for(b, level, seq![record] + rest)
            == field_for(record.1),
        record.0 == b && record.3 && level != record.2 ==> bullet_for(b, level, seq![record] + rest)
            == bullet_for(b, level, rest),
        record.0 == b && !record.3 && level >= record.2 ==> bullet_for(b, level, seq![record] + rest)
            == field_for(record.1),
        record.0 == b && !record.3 && level < record.2 ==> bullet_for(b, level, seq![record] + rest)
            == bullet_for(b, level, rest),
        record.0 != b ==> bullet_for(b, level, seq![record] + rest) == bullet_for(b, level, rest),
{
    let all = seq![record] + rest;
    assert(all[0] == record);
    assert(all.drop_first() =~= rest);
}

/// The number of whole tab-equivalents at the start of an indentation.
pub open spec fn indentation_units(s: Seq<char>) -> nat
    decreases s.len(),
{
    if s.len() >= 3 && s.take(3) == SPACE_TAB_EQUIVALENCE@ {
        1 + indentation_units(s.skip(3))
    } else {
        0
    }
}

/// The indentation level of a list item: its tabs count as three spaces.
pub open spec fn indentation_level(indentation: Seq<char>) -> nat {
    indentation_units(replaced(indentation, seq!['\t'], SPACE_TAB_EQUIVALENCE@))
}

/// `s` repeated `n` times.
pub open spec fn repeated(s: Seq<char>, n: nat) -> Seq<char>
    decreases n,
{
    if n == 0 {
        Seq::empty()
    } else {
        repeated(s, (n - 1) as nat) + s
    }
}

/// The markup of one list item.
pub open spec fn list_item_html(level: nat, b: Seq<char>, content: Seq<char>) -> Seq<char> {
    LIST_ITEM_OPEN@ + repeated(INDENTATION@, level) + LIST_ITEM_BULLET@ + b + LIST_ITEM_CONTENT@
        + content + LIST_ITEM_CLOSE@
}

/// The markup of the items whose indentation, bullet and content were all
/// captured, and how many there are.
pub open spec fn list_items(caps: Seq<Seq<Option<Seq<char>>>>, configs: Seq<BulletView>) -> (
    Seq<char>,
    nat,
)
    decreases caps.len(),
{
    if caps.len() == 0 {
        (Seq::empty(), 0)
    } else {
        let (html, n) = list_items(caps.drop_last(), configs);
        let g = caps.last();
        match (group(g, 1), group(g, 2), group(g, 3)) {
            (Some(ind), Some(b), Some(c)) => {
                let level = indentation_level(ind);
                (html + list_item_html(level, bullet_for(b, level, configs), c), n + 1)
            },
            _ => (html, n),
        }
    }
}

/// The lines of a list that should each be an item.
pub open spec fn valid_list_lines(content: Seq<char>) -> nat {
    lines(content).filter(|l: Seq<char>| l.len() > 0 && l != seq!['\n']).len()
}

/// The captures of every list item of a list.
pub open spec fn list_item_captures(content: Seq<char>) -> Seq<Seq<Option<Seq<char>>>> {
    let p = StandardParagraphModifier::ListItem.spec_modifier_pattern();
    if regex_compiles(p) {
        regex_captures_all(p, content)
    } else {
        Seq::empty()
    }
}

/// What the list rule makes of a list: its items in a `ul`; with strict list
/// checks, a list with a line that is no item is refused.
pub open spec fn list_output(content: Seq<char>, configs: Seq<BulletView>, strict: bool) -> Result<
    Seq<char>,
    ParsingErrorView,
> {
    let (html, n) = list_items(list_item_captures(content), configs);
    if strict && n != valid_list_lines(content) {
        Err(ParsingErrorView::InvalidSource(content))
    } else {
        Ok(LIST_OPEN@ + html + LIST_CLOSE@)
    }
}

/// Renders lists.
#[derive(Debug)]
pub struct HtmlListRule {}

impl HtmlListRule {
    pub fn new() -> (r: Self) {
        Self {  }
    }

    /// The markup of a bullet: checkboxes become boxes, other bullets stay.
    pub fn transform_to_field(to: String) -> (r: String)
        ensures
            r@ == field_for(to@),
    {
        let unchecked = owned(CHECKBOX);
        let checked = owned(CHECKBOX_CHECKED);
        if to.eq(&unchecked) {
            return owned("<div class=\"checkbox checkbox-unchecked\"></div>");
        }
        if to.eq(&checked) {
            return owned("<div class=\"checkbox checkbox-checked\"></div>");
        }
        to
    }

    /// How a bullet is rendered at an indentation level.
    pub fn bullet_transform(
        bullet: &str,
        indentation_level: usize,
        list_bullets_configurations: &Vec<ListBulletConfigurationRecord>,
    ) -> (r: String)
        ensures
            r@ == bullet_for(
                bullet@,
                indentation_level as nat,
                bullets_view(list_bullets_configurations@),
            ),
    {
        let ghost cv = bullets_view(list_bullets_configurations@);
        let b = owned(bullet);
        let mut i: usize = 0;
        proof {
            assert(cv.skip(0) =~= cv);
        }
        while i < list_bullets_configurations.len()
            invariant
                i <= list_bullets_configurations@.len(),
                cv == bullets_view(list_bullets_configurations@),
                b@ == bullet@,
                bullet_for(bullet@, indentation_level as nat, cv) == bullet_for(
                    bullet@,
                    indentation_level as nat,
                    cv.skip(i as int),
                ),
            decreases list_bullets_configurations@.len() - i,
        {
            let c = &list_bullets_configurations[i];
            proof {
                let t = cv.skip(i as int);
                assert(t[0] == c@);
                assert(t.drop_first() =~= cv.skip(i + 1));
            }
            if c.from.eq(&b) {
                if c.strict_indentation && indentation_level == c.indentation_level {
                    return Self::transform_to_field(c.to.clone());
                } else if !c.strict_indentation && indentation_level >= c.indentation_level {
                    return Self::transform_to_field(c.to.clone());
                }
            }
            i = i + 1;
        }
        proof {
            assert(cv.skip(i as int) =~= Seq::<BulletView>::empty());
        }
        b
    }

    /// The indentation level of a list item.
    pub fn indentation_level_of(indentation: &str) -> (r: usize)
        ensures
            r == indentation_level(indentation@),
    {
        let tab = "\t";
        proof {
            reveal_strlit("\t");
            reveal_strlit("   ");
            assert(tab@ =~= seq!['\t']);
        }
        let expanded = replace_all_occurrences(indentation, tab, SPACE_TAB_EQUIVALENCE);
        let v = to_chars(expanded.as_str());
        let mut i: usize = 0;
        let mut level: usize = 0;
        proof {
            assert(v@.skip(0) =~= v@);
        }
        while 3 <= v.len() - i && v[i] == ' ' && v[i + 1] == ' ' && v[i + 2] == ' '
            invariant
                i <= v@.len(),
                level * 3 == i,
                indentation_units(v@) == level + indentation_units(v@.skip(i as int)),
                SPACE_TAB_EQUIVALENCE@ == seq![' ', ' ', ' '],
            decreases v@.len() - i,
        {
            proof {
                let t = v@.skip(i as int);
                assert(t.take(3) =~= SPACE_TAB_EQUIVALENCE@);
                assert(t.skip(3) =~= v@.skip(i + 3));
            }
            i = i + 3;
            level = level + 1;
        }
        proof {
            let t = v@.skip(i as int);
            if t.len() >= 3 && t.take(3) == SPACE_TAB_EQUIVALENCE@ {
                assert(t.take(3)[0] == v@[i as int]);
                assert(t.take(3)[1] == v@[i + 1]);
                assert(t.take(3)[2] == v@[i + 2]);
            }
        }
        level
    }

    /// Renders a list: each item whose indentation, bullet and content are
    /// all captured becomes an `li`, indented by its level and with its
    /// bullet rendered as configured.
    #[verifier::spinoff_prover]
    pub fn parse(&self, content: &str, parsing_configuration: &ParsingConfiguration) -> (r: Result<
        ParsingOutcome,
        ParsingError,
    >)
        ensures
            outcome_view(r) == list_output(
                content@,
                bullets_view(parsing_configuration.list_bullets_configuration@),
                parsing_configuration.strict_list_check,
            ),
    {
        let ghost configs = bullets_view(parsing_configuration.list_bullets_configuration@);
        let item_pattern = StandardParagraphModifier::ListItem.modifier_pattern();
        let caps = match captures_all(item_pattern.as_str(), content) {
            Some(c) => c,
            None => Vec::new(),
        };
        let ghost cv = caps@.map_values(|g: Vec<Option<String>>| groups_view(g@));
        proof {
            assert(cv == list_item_captures(content@));
        }
        let mut html = String::new();
        let mut items: usize = 0;
        let mut i: usize = 0;
        proof {
            assert(cv.take(0) =~= Seq::<Seq<Option<Seq<char>>>>::empty());
        }
        while i < caps.len()
            invariant
                i <= caps@.len(),
                cv == caps@.map_values(|g: Vec<Option<String>>| groups_view(g@)),
                configs == bullets_view(parsing_configuration.list_bullets_configuration@),
                list_items(cv.take(i as int), configs) == (html@, items as nat),
                items <= i,
            decreases caps@.len() - i,
        {
            let g = &caps[i];
            proof {
                let t = cv.take(i + 1);
                assert(t.drop_last() =~= cv.take(i as int));
                assert(t.last() == groups_view(g@));
            }
            let ind = if g.len() > 1 { &g[1] } else { &None };
            let bul = if g.len() > 2 { &g[2] } else { &None };
            let con = if g.len() > 3 { &g[3] } else { &None };
            proof {
                let gv = groups_view(g@);
                assert(crate::chapter::opt_view(*ind) == group(gv, 1));
                assert(crate::chapter::opt_view(*bul) == group(gv, 2));
                assert(crate::chapter::opt_view(*con) == group(gv, 3));
            }
            match (ind, bul, con) {
                (Some(ind), Some(bul), Some(con)) => {
                    let level = Self::indentation_level_of(ind.as_str());
                    let b = Self::bullet_transform(
                        bul.as_str(),
                        level,
                        &parsing_configuration.list_bullets_configuration,
                    );
                    let ghost before = html@;
                    append_str(&mut html, LIST_ITEM_OPEN);
                    let mut k: usize = 0;
                    while k < level
                        invariant
                            k <= level,
                            html@ == before + LIST_ITEM_OPEN@ + repeated(INDENTATION@, k as nat),
                        decreases level - k,
                    {
                        append_str(&mut html, INDENTATION);
                        k = k + 1;
                    }
                    append_str(&mut html, LIST_ITEM_BULLET);
                    append_str(&mut html, b.as_str());
                    append_str(&mut html, LIST_ITEM_CONTENT);
                    append_str(&mut html, con.as_str());
                    append_str(&mut html, LIST_ITEM_CLOSE);
                    proof {
                        assert(html@ =~= before + list_item_html(level as nat, b@, con@));
                    }
                    items = items + 1;
                },
                _ => {},
            }
            i = i + 1;
        }
        proof {
            assert(cv.take(caps@.len() as int) =~= cv);
        }
        let ls = lines_of(content);
        let mut valid: usize = 0;
        let mut j: usize = 0;
        let ghost lv = lines(content@);
        let ghost pred = |l: Seq<char>| l.len() > 0 && l != seq!['\n'];
        proof {
            assert(lv.take(0).filter(pred) =~= Seq::<Seq<char>>::empty());
        }
        while j < ls.len()
            invariant
                j <= ls@.len() == lv.len(),
                lv == lines(content@),
                forall|q: int| 0 <= q < ls@.len() ==> #[trigger] ls@[q]@ == lv[q],
                pred == (|l: Seq<char>| l.len() > 0 && l != seq!['\n']),
                valid == lv.take(j as int).filter(pred).len(),
                valid <= j,
            decreases ls@.len() - j,
        {
            let l = &ls[j];
            let nl = "\n";
            proof {
                reveal_strlit("\n");
                assert(nl@ =~= seq!['\n']);
                let t = lv.take(j + 1);
                assert(t.drop_last() =~= lv.take(j as int));
                lv.take(j as int).lemma_filter_push(lv[j as int], pred);
                assert(t =~= lv.take(j as int).push(lv[j as int]));
            }
            let nl_string = owned(nl);
            if !l.as_str().is_empty() && !l.eq(&nl_string) {
                valid = valid + 1;
            }
            j = j + 1;
        }
        proof {
            assert(lv.take(lv.len() as int) =~= lv);
        }
        if parsing_configuration.strict_list_check && items != valid {
            return Err(ParsingError::InvalidSource(owned(content)));
        }
        let mut out = owned(LIST_OPEN);
        append_str(&mut out, html.as_str());
        append_str(&mut out, LIST_CLOSE);
        Ok(ParsingOutcome::new(out))
    }
}

// ---------------------------------------------------------------------------
// Extended block quotes
// ---------------------------------------------------------------------------

/// The first line of a typed quote: `> [!type]`.
pub const EXTENDED_BLOCK_QUOTE_TYPE_PATTERN: &'static str = "(?:^(?m:^> \\[!(.*)\\]))";

pub const QUOTE_OPEN: &'static str = "\n        <div class=\"focus-quote-block focus-quote-block-";

pub const QUOTE_TITLE: &'static str = "\">\n        <div class=\"focus-quote-block-title focus-quote-block-";

pub const QUOTE_DESCRIPTION: &'static str = "-title\"></div>\n        <div class=\"focus-quote-block-description focus-quote-block-";

pub const QUOTE_BODY: &'static str = "-description\">\n            ";

pub const QUOTE_CLOSE: &'static str = "\n        </div>\n        </div>";

/// Whether a quote starts with a `> [!type]` line.
pub open spec fn quote_typed(content: Seq<char>) -> bool {
    names_match(EXTENDED_BLOCK_QUOTE_TYPE_PATTERN@, content)
}

/// The type of a quote: the one written on its first line, in lower case, or
/// `quote`.
pub open spec fn quote_type(content: Seq<char>) -> Seq<char> {
    if quote_typed(content) {
        match regex_captures(EXTENDED_BLOCK_QUOTE_TYPE_PATTERN@, content) {
            Some(g) => match group(g, 1) {
                Some(t) => lowercased(t),
                None => "quote"@,
            },
            None => "quote"@,
        }
    } else {
        "quote"@
    }
}

/// The lines of a quote after its type line, if it has one.
pub open spec fn quote_lines(content: Seq<char>) -> Seq<Seq<char>> {
    if quote_typed(content) && lines(content).len() > 0 {
        lines(content).drop_first()
    } else {
        lines(content)
    }
}

/// Law: the `> [!type]` line of a typed quote is not part of its body: two
/// typed quotes of the same type whose lines after the first are the same
/// render the same, whatever their first lines say.
pub proof fn law_quote_type_line_left_out_of_body(c1: Seq<char>, c2: Seq<char>)
    requires
        quote_typed(c1),
        quote_typed(c2),
        lines(c1).len() > 0,
        lines(c2).len() > 0,
        lines(c1).drop_first() == lines(c2).drop_first(),
        quote_type(c1) == quote_type(c2),
    ensures
        quote_output(c1) == quote_output(c2),
{
}

/// Whether a line belongs to a quote: it starts with `>`.
pub open spec fn quote_line(l: Seq<char>) -> bool {
    l.len() > 0 && l[0] == '>'
}

/// What a quote line contributes: its text after `>` and the spaces that
/// follow, or a blank line for an empty one.
pub open spec fn quote_piece(l: Seq<char>) -> Seq<char> {
    let c = trim_start(l.drop_first());
    if c.len() == 0 {
        blank_line()
    } else {
        c
    }
}

/// The text of the quote lines, joined.
pub open spec fn quote_text(ls: Seq<Seq<char>>) -> Seq<char>
    decreases ls.len(),
{
    if ls.len() == 0 {
        Seq::empty()
    } else {
        let rest = quote_text(ls.drop_last());
        if quote_line(ls.last()) {
            rest + quote_piece(ls.last())
        } else {
            rest
        }
    }
}

/// Whether the quote rule accepts a quote: with strict focus block checks
/// lines that are not quote lines are skipped; otherwise every line must be
/// one.
pub open spec fn quote_accepted(content: Seq<char>, strict: bool) -> bool {
    strict || forall|i: int| 0 <= i < lines(content).len() ==> quote_line(#[trigger] lines(content)[i])
}

/// What the quote rule makes of a quote: a focus block of its type holding
/// its text, blank lines made line breaks.
pub open spec fn quote_output(content: Seq<char>) -> Result<Seq<char>, ParsingErrorView> {
    if !regex_compiles(blank_line()) {
        Err(ParsingErrorView::InvalidPattern(blank_line()))
    } else {
        let body = regex_replace_all(blank_line(), quote_text(quote_lines(content)), "<br>"@);
        let t = quote_type(content);
        Ok(QUOTE_OPEN@ + t + QUOTE_TITLE@ + t + QUOTE_DESCRIPTION@ + t + QUOTE_BODY@ + body
            + QUOTE_CLOSE@)
    }
}

/// Renders extended block quotes.
#[derive(Debug)]
pub struct HtmlExtendedBlockQuoteRule {}

impl HtmlExtendedBlockQuoteRule {
    pub fn new() -> (r: Self) {
        Self {  }
    }

    pub fn search_pattern(&self) -> (r: String)
        ensures
            r@ == StandardParagraphModifier::ExtendedBlockQuote.spec_modifier_pattern(),
    {
        StandardParagraphModifier::ExtendedBlockQuote.modifier_pattern()
    }

    /// Renders a quote (the lines that are not quote lines are skipped).
    #[verifier::spinoff_prover]
    pub fn parse(&self, content: &str, parsing_configuration: &ParsingConfiguration) -> (r: Result<
        ParsingOutcome,
        ParsingError,
    >)
        requires
            quote_accepted(content@, parsing_configuration.strict_focus_block_check),
        ensures
            outcome_view(r) == quote_output(content@),
    {
        let ls = lines_of(content);
        let typed = match is_match(EXTENDED_BLOCK_QUOTE_TYPE_PATTERN, content) {
            Some(b) => b,
            None => false,
        };
        let mut quote_type = owned("quote");
        let mut first: usize = 0;
        if typed {
            match captures(EXTENDED_BLOCK_QUOTE_TYPE_PATTERN, content) {
                Some(Some(g)) => {
                    if g.len() > 1 {
                        match &g[1] {
                            Some(t) => {
                                quote_type = to_lowercase(t.as_str());
                            },
                            None => {},
                        }
                    }
                },
                _ => {},
            }
            if ls.len() > 0 {
                first = 1;
            }
        }
        proof {
            reveal_strlit("quote");
            assert(quote_type@ == crate::parsing_rule::quote_type(content@));
        }
        let ghost ql = quote_lines(content@);
        let ghost lv = lines(content@);
        proof {
            assert(ql =~= lv.skip(first as int));
        }
        let mut body = String::new();
        let mut i: usize = first;
        proof {
            assert(ql.take(0) =~= Seq::<Seq<char>>::empty());
        }
        while i < ls.len()
            invariant
                first <= i <= ls@.len() == lv.len(),
                lv == lines(content@),
                ql =~= lv.skip(first as int),
                forall|q: int| 0 <= q < ls@.len() ==> #[trigger] ls@[q]@ == lv[q],
                body@ == quote_text(ql.take(i - first)),
            decreases ls@.len() - i,
        {
            let v = to_chars(ls[i].as_str());
            proof {
                let t = ql.take(i - first + 1);
                assert(t.drop_last() =~= ql.take(i - first));
                assert(t.last() == lv[i as int]);
                assert(v@ == lv[i as int]);
            }
            if v.len() > 0 && v[0] == '>' {
                let k = skip_whitespace(&v, 1);
                proof {
                    assert(v@.skip(1) =~= v@.drop_first());
                    assert(v@.subrange(k as int, v@.len() as int) =~= trim_start(v@.drop_first()));
                }
                if k == v.len() {
                    let nl = "\n\n";
                    proof {
                        reveal_strlit("\n\n");
                        assert(nl@ =~= blank_line());
                    }
                    append_str(&mut body, nl);
                } else {
                    let c = string_from_range(&v, k, v.len());
                    append_str(&mut body, c.as_str());
                }
            }
            i = i + 1;
        }
        proof {
            assert(ql.take(i - first) =~= ql);
        }
        let nl = "\n\n";
        let br = "<br>";
        proof {
            reveal_strlit("\n\n");
            reveal_strlit("<br>");
            assert(nl@ =~= blank_line());
        }
        let body = match replace_all(nl, body.as_str(), br) {
            Some(b) => b,
            None => {
                return Err(ParsingError::InvalidPattern(owned(nl)));
            },
        };
        let mut out = owned(QUOTE_OPEN);
        append_str(&mut out, quote_type.as_str());
        append_str(&mut out, QUOTE_TITLE);
        append_str(&mut out, quote_type.as_str());
        append_str(&mut out, QUOTE_DESCRIPTION);
        append_str(&mut out, quote_type.as_str());
        append_str(&mut out, QUOTE_BODY);
        append_str(&mut out, body.as_str());
        append_str(&mut out, QUOTE_CLOSE);
        proof {
            assert(out@ =~= QUOTE_OPEN@ + quote_type@ + QUOTE_TITLE@ + quote_type@ + QUOTE_DESCRIPTION@
                + quote_type@ + QUOTE_BODY@ + body@ + QUOTE_CLOSE@);
        }
        Ok(ParsingOutcome::new(out))
    }
}

// ---------------------------------------------------------------------------
// Rules
// ---------------------------------------------------------------------------

/// A parsing rule of the codex.
#[derive(Debug)]
pub enum ParsingRule {
    Replacement(ReplacementRule),
    List(HtmlListRule),
    ExtendedBlockQuote(HtmlExtendedBlockQuoteRule),
    Image(HtmlImageRule),
}

pub enum RuleView {
    Replacement(ReplacementView),
    List,
    ExtendedBlockQuote,
    /// The image rule, with what was found of the image files.
    Image(ImageSourcesView),
}

impl View for ParsingRule {
    type V = RuleView;

    open spec fn view(&self) -> RuleView {
        match self {
            ParsingRule::Replacement(r) => RuleView::Replacement(r@),
            ParsingRule::List(_) => RuleView::List,
            ParsingRule::ExtendedBlockQuote(_) => RuleView::ExtendedBlockQuote,
            ParsingRule::Image(r) => RuleView::Image(sources_view(r.sources@)),
        }
    }
}

/// The pattern that finds what a rule transforms.
pub open spec fn rule_pattern(r: RuleView) -> Seq<char> {
    match r {
        RuleView::Replacement(v) => v.0,
        RuleView::List => StandardParagraphModifier::List.spec_modifier_pattern(),
        RuleView::ExtendedBlockQuote => StandardParagraphModifier::ExtendedBlockQuote.spec_modifier_pattern(),
        RuleView::Image(_) => IMAGE_PATTERN@,
    }
}

/// Whether a rule accepts a content (only the quote rule refuses some).
pub open spec fn rule_accepts(r: RuleView, content: Seq<char>, c: OptionsView) -> bool {
    match r {
        RuleView::ExtendedBlockQuote => quote_accepted(content, c.3),
        _ => true,
    }
}

/// What a rule makes of a content.
pub open spec fn rule_output(r: RuleView, content: Seq<char>, c: OptionsView) -> Result<
    Seq<char>,
    ParsingErrorView,
> {
    match r {
        RuleView::Replacement(v) => replacement_output(v, content),
        RuleView::List => list_output(
            content,
            c.1,
            c.2,
        ),
        RuleView::ExtendedBlockQuote => quote_output(content),
        RuleView::Image(sources) => image_output(content, sources, c.4, c.5),
    }
}

/// The matches of a rule's pattern in a content; none when it does not
/// compile.
pub open spec fn rule_matches(r: RuleView, content: Seq<char>) -> Seq<(usize, usize, Seq<char>)> {
    if regex_compiles(rule_pattern(r)) {
        regex_find_all(rule_pattern(r), content)
    } else {
        Seq::empty()
    }
}

impl ParsingRule {
    pub fn search_pattern(&self) -> (r: String)
        ensures
            r@ == rule_pattern(self@),
    {
        match self {
            ParsingRule::Replacement(r) => r.search_pattern.clone(),
            ParsingRule::List(_) => StandardParagraphModifier::List.modifier_pattern(),
            ParsingRule::ExtendedBlockQuote(r) => r.search_pattern(),
            ParsingRule::Image(r) => r.search_pattern(),
        }
    }

    /// Whether the rule's pattern finds a match in `content`.
    pub fn is_match(&self, content: &str) -> (r: bool)
        ensures
            r == names_match(rule_pattern(self@), content@),
    {
        let p = self.search_pattern();
        match is_match(p.as_str(), content) {
            Some(b) => b,
            None => false,
        }
    }

    /// The matches of the rule's pattern in `content`.
    pub fn find_iter(&self, content: &str) -> (r: Vec<RegexMatch>)
        ensures
            r@.map_values(|m: RegexMatch| m@) == rule_matches(self@, content@),
            well_formed_matches(content@, rule_matches(self@, content@)),
    {
        let p = self.search_pattern();
        match find_all(p.as_str(), content) {
            Some(ms) => ms,
            None => {
                let r: Vec<RegexMatch> = Vec::new();
                proof {
                    assert(r@.map_values(|m: RegexMatch| m@) =~= Seq::<(usize, usize, Seq<char>)>::empty());
                }
                r
            },
        }
    }

    #[verifier::spinoff_prover]
    pub fn parse(&self, content: &str, parsing_configuration: &ParsingConfiguration) -> (r: Result<
        ParsingOutcome,
        ParsingError,
    >)
        requires
            rule_accepts(self@, content@, parsing_configuration.options()),
        ensures
            outcome_view(r) == rule_output(self@, content@, parsing_configuration.options()),
    {
        match self {
            ParsingRule::Replacement(r) => r.parse(content, parsing_configuration),
            ParsingRule::List(r) => r.parse(content, parsing_configuration),
            ParsingRule::ExtendedBlockQuote(r) => r.parse(content, parsing_configuration),
            ParsingRule::Image(r) => r.parse(content, parsing_configuration),
        }
    }
}

} // verus!
