//! Loading: splitting the text of a document into a preamble and chapters, and
//! a text into paragraphs.
//!
//! Positions are byte offsets into the searched text, as the pattern matcher
//! reports them. Every search is named (see `pattern`); the functions that
//! take the search results as arguments state exactly what is built from
//! them.
use vstd::prelude::*;
use vstd::utf8::{decode_utf8, encode_utf8, encode_utf8_decode_utf8};

use crate::chapter::{
    is_newline_char,
    only_newlines,
    opt_view,
    paragraphs_view,
    spec_tag_of,
    tags_view,
    Chapter,
    ChapterTag,
    ChapterTagKey,
    Heading,
    HeadingLevel,
    Paragraph,
};
use crate::document::{chapters_view, ChapterView, Document};
use crate::modifier::CHAPTER_STYLE_PATTERN;
use crate::standard_chapter_modifier::StandardChapterModifier;
use crate::standard_paragraph_modifier::StandardParagraphModifier;
use crate::codex::Codex;
use crate::codex_configuration::{modifiers_view, ModifierView};
use crate::modifier::BaseModifier;
use crate::ordering::{
    indices,
    lemma_ordered_follow,
    lemma_selection_members,
    order_by_key,
    ordered_by_start,
    selection_order,
};
use crate::pattern::{
    captures,
    find_all,
    groups_view,
    is_match,
    match_within,
    regex_captures,
    regex_compiles,
    regex_find_all,
    regex_is_match,
    well_formed_matches,
    RegexMatch,
};
use crate::resource::ResourceError;
use crate::text::{
    all_whitespace,
    append_str,
    byte_len,
    byte_slice,
    count_leading_char,
    count_newlines_at_end,
    count_newlines_at_start,
    is_blank,
    leading_count,
    lemma_encode_len,
    lemma_leading_count_bounded,
    lemma_trailing_count_bounded,
    lines,
    lines_of,
    owned,
    parse_u32,
    parsed_u32,
    push_char,
    replace_all_occurrences,
    replaced,
    starts_with,
    trailing_count,
};

verus! {

/// Why a document or a dossier could not be loaded.
#[derive(Debug)]
pub enum LoadError {
    ResourceError(ResourceError),
    ElaborationError(String),
    IoError(String),
}

/// A match: start and end byte offsets, matched text.
pub type Found = (usize, usize, Seq<char>);

/// The mathematical value of a paragraph: content, parsed content, type.
pub type ParagraphView = (Seq<char>, Option<Seq<char>>, Seq<char>);

/// A paragraph with the byte offsets of its first and last line.
pub type Placed = (usize, usize, ParagraphView);

pub open spec fn matches_view(v: Seq<RegexMatch>) -> Seq<Found> {
    v.map_values(|m: RegexMatch| m@)
}

pub open spec fn found_view(v: Seq<Vec<RegexMatch>>) -> Seq<Seq<Found>> {
    v.map_values(|ms: Vec<RegexMatch>| matches_view(ms@))
}

pub open spec fn placed_view(v: Seq<(usize, usize, Paragraph)>) -> Seq<Placed> {
    v.map_values(|e: (usize, usize, Paragraph)| (e.0, e.1, e.2@))
}

/// The matches of a pattern in a text; a pattern that does not compile finds
/// nothing.
pub open spec fn found_matches(pattern: Seq<char>, haystack: Seq<char>) -> Seq<Found> {
    if regex_compiles(pattern) {
        regex_find_all(pattern, haystack)
    } else {
        Seq::empty()
    }
}

/// `n` line feeds.
pub open spec fn newlines(n: nat) -> Seq<char> {
    Seq::new(n, |i: int| '\n')
}

/// How many line feeds bring a run of `n` up to two.
pub open spec fn pad_count(n: nat) -> nat {
    if n >= 2 {
        0
    } else {
        (2 - n) as nat
    }
}

/// The text in which paragraphs are searched: every blank line doubled, and
/// line feeds added so that the text starts and ends with a blank line.
pub open spec fn padded_content(content: Seq<char>) -> Seq<char> {
    let r = replaced(content, newlines(2), newlines(3));
    let front = newlines(pad_count(leading_count(r, '\n'))) + r;
    front + newlines(pad_count(trailing_count(front, '\n')))
}

/// Whether an item placed at `a..=b` overlaps the span `start..=end`: it lies
/// inside it, contains it, or overlaps its left or its right end.
pub open spec fn overlaps(a: usize, b: usize, start: int, end: int) -> bool {
    ||| (a >= start && b <= end)
    ||| (a <= start && b >= end)
    ||| (a <= start && b >= start && b <= end)
    ||| (a >= start && a <= end && b >= end)
}

/// Whether one of the items overlaps `start..=end`.
pub open spec fn overlaps_any<T>(items: Seq<(usize, usize, T)>, start: int, end: int) -> bool {
    exists|i: int| 0 <= i < items.len() && #[trigger] overlaps(items[i].0, items[i].1, start, end)
}

/// Items that each span a non-empty range, no two of which share an offset.
pub open spec fn well_placed<T>(items: Seq<(usize, usize, T)>) -> bool {
    &&& forall|i: int| 0 <= i < items.len() ==> (#[trigger] items[i]).0 <= items[i].1
    &&& forall|i: int, j: int|
        #![trigger items[i], items[j]]
        0 <= i < j < items.len() ==> items[i].1 < items[j].0 || items[j].1 < items[i].0
}

/// Byte offset of the first line of a matched paragraph (leading line feeds
/// skipped).
pub open spec fn paragraph_start(m: Found) -> int {
    m.0 + leading_count(m.2, '\n')
}

/// Byte offset of the last byte of a matched paragraph, trailing line feeds
/// dropped when the match ends further in than their number.
pub open spec fn paragraph_end(m: Found) -> int {
    let e = m.1 - 1;
    let t = trailing_count(m.2, '\n');
    if e > t {
        e - t
    } else {
        e
    }
}

/// The content of a matched paragraph: doubled blank lines made single again.
pub open spec fn paragraph_content(m: Found) -> Seq<char> {
    replaced(m.2, newlines(3), newlines(2))
}

/// One match of a paragraph modifier, against the paragraphs found so far: it
/// is kept unless it is empty, overlaps a paragraph already found, or holds
/// only line feeds.
pub open spec fn accept_paragraph(acc: Seq<Placed>, m: Found, id: Seq<char>) -> Seq<Placed> {
    let s = paragraph_start(m);
    let e = paragraph_end(m);
    let content = paragraph_content(m);
    if m.2.len() == 0 || overlaps_any(acc, s, e) || only_newlines(content) {
        acc
    } else {
        acc.push((s as usize, e as usize, (content, None, id)))
    }
}

/// The matches of one modifier, in order, against the paragraphs found so
/// far.
pub open spec fn accept_paragraphs(acc: Seq<Placed>, ms: Seq<Found>, id: Seq<char>) -> Seq<Placed>
    decreases ms.len(),
{
    if ms.len() == 0 {
        acc
    } else {
        accept_paragraph(accept_paragraphs(acc, ms.drop_last(), id), ms.last(), id)
    }
}

/// The paragraphs that the matches of the modifiers, tried in order, find
/// (`found[k]` being the matches of `mods[k]`), in the order they are found.
pub open spec fn selected_paragraphs(mods: Seq<ModifierView>, found: Seq<Seq<Found>>) -> Seq<Placed>
    decreases found.len(),
{
    if found.len() == 0 {
        Seq::empty()
    } else {
        accept_paragraphs(
            selected_paragraphs(mods, found.drop_last()),
            found.last(),
            mods[found.len() - 1].0,
        )
    }
}

/// The paragraphs of `text` that the paragraph modifiers find.
pub open spec fn found_paragraphs(mods: Seq<ModifierView>, text: Seq<char>) -> Seq<Placed> {
    selected_paragraphs(mods, mods.map_values(|m: ModifierView| found_matches(m.1, text)))
}

/// The paragraphs of a text, in order of position; none in a blank text.
pub open spec fn paragraphs_of(mods: Seq<ModifierView>, content: Seq<char>) -> Seq<ParagraphView> {
    if all_whitespace(content) {
        Seq::empty()
    } else {
        ordered_by_start(found_paragraphs(mods, padded_content(content))).map_values(
            |e: Placed| e.2,
        )
    }
}

// ---------------------------------------------------------------------------
// Lemmas
// ---------------------------------------------------------------------------

/// Replacing runs of line feeds by runs of line feeds keeps a text made only
/// of line feeds so.
proof fn lemma_replaced_line_feeds(t: Seq<char>, from: Seq<char>, to: Seq<char>)
    requires
        from.len() > 0,
        forall|i: int| 0 <= i < t.len() ==> t[i] == '\n',
        forall|i: int| 0 <= i < to.len() ==> to[i] == '\n',
    ensures
        only_newlines(replaced(t, from, to)),
    decreases t.len(),
{
    if t.len() == 0 {
    } else if starts_with(t, from) {
        let rest = t.skip(from.len() as int);
        assert forall|i: int| 0 <= i < rest.len() implies rest[i] == '\n' by {
            assert(rest[i] == t[i + from.len()]);
        }
        lemma_replaced_line_feeds(rest, from, to);
        let r = replaced(t, from, to);
        assert forall|i: int| 0 <= i < r.len() implies is_newline_char(#[trigger] r[i]) by {
            if i < to.len() {
                assert(r[i] == to[i]);
            } else {
                assert(r[i] == replaced(rest, from, to)[i - to.len()]);
            }
        }
    } else {
        let rest = t.drop_first();
        lemma_replaced_line_feeds(rest, from, to);
        let r = replaced(t, from, to);
        assert forall|i: int| 0 <= i < r.len() implies is_newline_char(#[trigger] r[i]) by {
            if i > 0 {
                assert(r[i] == replaced(rest, from, to)[i - 1]);
            }
        }
    }
}

/// A kept paragraph starts no later than it ends, within its match.
proof fn lemma_kept_span(m: Found)
    requires
        m.0 <= m.1,
        encode_utf8(m.2).len() == m.1 - m.0,
        !only_newlines(paragraph_content(m)),
    ensures
        m.0 <= paragraph_start(m) <= paragraph_end(m) < m.1,
{
    let t = m.2;
    if forall|i: int| 0 <= i < t.len() ==> t[i] == '\n' {
        lemma_replaced_line_feeds(t, newlines(3), newlines(2));
    }
    let i = choose|i: int| 0 <= i < t.len() && t[i] != '\n';
    lemma_leading_count_bounded(t, '\n');
    lemma_trailing_count_bounded(t, '\n');
    lemma_encode_len(t);
    assert(leading_count(t, '\n') <= i);
    assert(trailing_count(t, '\n') <= t.len() - 1 - i);
}

// ---------------------------------------------------------------------------
// Paragraphs
// ---------------------------------------------------------------------------

/// A string of `n` line feeds.
fn line_feeds(n: usize) -> (r: String)
    ensures
        r@ == newlines(n as nat),
{
    let mut r = String::new();
    let mut i: usize = 0;
    while i < n
        invariant
            i <= n,
            r@ == newlines(i as nat),
        decreases n - i,
    {
        push_char(&mut r, '\n');
        i = i + 1;
        proof {
            assert(r@ =~= newlines(i as nat));
        }
    }
    r
}

fn pad_count_exec(n: usize) -> (r: usize)
    ensures
        r == pad_count(n as nat),
{
    if n >= 2 {
        0
    } else {
        2 - n
    }
}

/// The text in which the paragraphs of `content` are searched.
pub fn pad_for_paragraphs(content: &str) -> (r: String)
    ensures
        r@ == padded_content(content@),
{
    let double = "\n\n";
    let triple = "\n\n\n";
    proof {
        reveal_strlit("\n\n");
        reveal_strlit("\n\n\n");
        assert(double@ =~= newlines(2));
        assert(triple@ =~= newlines(3));
    }
    let doubled = replace_all_occurrences(content, double, triple);
    let lead = count_newlines_at_start(doubled.as_str());
    let mut front = line_feeds(pad_count_exec(lead));
    append_str(&mut front, doubled.as_str());
    let trail = count_newlines_at_end(front.as_str());
    let back = line_feeds(pad_count_exec(trail));
    append_str(&mut front, back.as_str());
    front
}

/// Whether the placed paragraph at `a..=b` overlaps `start..=end`.
fn overlaps_exec(a: usize, b: usize, start: usize, end: usize) -> (r: bool)
    ensures
        r == overlaps(a, b, start as int, end as int),
{
    (a >= start && b <= end) || (a <= start && b >= end) || (a <= start && b >= start && b <= end)
        || (a >= start && a <= end && b >= end)
}

/// Whether one of the paragraphs found so far overlaps `start..=end`.
fn overlaps_placed(acc: &Vec<(usize, usize, Paragraph)>, start: usize, end: usize) -> (r: bool)
    ensures
        r == overlaps_any(placed_view(acc@), start as int, end as int),
{
    let ghost v = placed_view(acc@);
    let mut i: usize = 0;
    while i < acc.len()
        invariant
            i <= acc@.len(),
            v == placed_view(acc@),
            forall|j: int| 0 <= j < i ==> !#[trigger] overlaps(v[j].0, v[j].1, start as int, end as int),
        decreases acc@.len() - i,
    {
        assert(v[i as int].0 == acc@[i as int].0 && v[i as int].1 == acc@[i as int].1);
        if overlaps_exec(acc[i].0, acc[i].1, start, end) {
            return true;
        }
        i = i + 1;
    }
    false
}

/// Keeping a new paragraph that overlaps none keeps the paragraphs well
/// placed.
proof fn lemma_push_well_placed<T>(acc: Seq<(usize, usize, T)>, x: (usize, usize, T))
    requires
        well_placed(acc),
        x.0 <= x.1,
        !overlaps_any(acc, x.0 as int, x.1 as int),
    ensures
        well_placed(acc.push(x)),
{
    let r = acc.push(x);
    assert forall|i: int, j: int|
        #![trigger r[i], r[j]]
        0 <= i < j < r.len() implies r[i].1 < r[j].0 || r[j].1 < r[i].0 by {
        if j == acc.len() {
            assert(r[i] == acc[i]);
            assert(!overlaps(acc[i].0, acc[i].1, x.0 as int, x.1 as int));
        } else {
            assert(r[i] == acc[i] && r[j] == acc[j]);
        }
    }
    assert forall|i: int| 0 <= i < r.len() implies (#[trigger] r[i]).0 <= r[i].1 by {
        if i < acc.len() {
            assert(r[i] == acc[i]);
        }
    }
}

/// The paragraphs that the matches `found[k]` of each modifier `mods[k]` find
/// in `text`, tried in order, in the order they are found; no two of them
/// overlap.
#[verifier::spinoff_prover]
pub fn select_paragraphs(
    text: &str,
    mods: &Vec<BaseModifier>,
    found: &Vec<Vec<RegexMatch>>,
) -> (r: Vec<(usize, usize, Paragraph)>)
    requires
        found@.len() == mods@.len(),
        forall|k: int|
            0 <= k < found@.len() ==> well_formed_matches(text@, #[trigger] found_view(found@)[k]),
    ensures
        placed_view(r@) == selected_paragraphs(modifiers_view(mods@), found_view(found@)),
        well_placed(placed_view(r@)),
{
    let ghost mv = modifiers_view(mods@);
    let ghost fv = found_view(found@);
    let triple = "\n\n\n";
    let double = "\n\n";
    proof {
        reveal_strlit("\n\n");
        reveal_strlit("\n\n\n");
        assert(double@ =~= newlines(2));
        assert(triple@ =~= newlines(3));
    }
    let mut acc: Vec<(usize, usize, Paragraph)> = Vec::new();
    let mut k: usize = 0;
    proof {
        assert(fv.take(0) =~= Seq::<Seq<Found>>::empty());
    }
    while k < found.len()
        invariant
            k <= found@.len() == mods@.len(),
            mv == modifiers_view(mods@),
            fv == found_view(found@),
            double@ == newlines(2),
            triple@ == newlines(3),
            forall|q: int| 0 <= q < found@.len() ==> well_formed_matches(text@, #[trigger] fv[q]),
            placed_view(acc@) == selected_paragraphs(mv, fv.take(k as int)),
            well_placed(placed_view(acc@)),
        decreases found@.len() - k,
    {
        let ms = &found[k];
        let id = &mods[k].identifier;
        let ghost before = placed_view(acc@);
        proof {
            assert(fv[k as int] == matches_view(ms@));
            assert(mv[k as int].0 == id@);
            assert(matches_view(ms@).take(0) =~= Seq::<Found>::empty());
        }
        let mut j: usize = 0;
        while j < ms.len()
            invariant
                j <= ms@.len(),
                fv[k as int] == matches_view(ms@),
                well_formed_matches(text@, matches_view(ms@)),
                double@ == newlines(2),
                triple@ == newlines(3),
                placed_view(acc@) == accept_paragraphs(before, matches_view(ms@).take(j as int), id@),
                well_placed(placed_view(acc@)),
            decreases ms@.len() - j,
        {
            let m = &ms[j];
            let ghost mview = m@;
            proof {
                assert(matches_view(ms@)[j as int] == mview);
                let t = matches_view(ms@).take(j + 1);
                assert(t.drop_last() =~= matches_view(ms@).take(j as int));
                assert(t.last() == mview);
            }
            let ghost cur = placed_view(acc@);
            if !m.text.as_str().is_empty() {
                let lead = count_newlines_at_start(m.text.as_str());
                let trail = count_newlines_at_end(m.text.as_str());
                proof {
                    lemma_leading_count_bounded(m.text@, '\n');
                    lemma_encode_len(m.text@);
                    vstd::utf8::encode_utf8_valid_utf8(text@);
                }
                let start = m.start + lead;
                let mut end = m.end - 1;
                if end > trail {
                    end = end - trail;
                }
                if !overlaps_placed(&acc, start, end) {
                    let content = replace_all_occurrences(m.text.as_str(), triple, double);
                    let paragraph = Paragraph::new(content, id.clone());
                    if !paragraph.contains_only_newlines() {
                        proof {
                            lemma_kept_span(mview);
                            lemma_push_well_placed(cur, (start, end, paragraph@));
                        }
                        acc.push((start, end, paragraph));
                        proof {
                            assert(placed_view(acc@) =~= cur.push((start, end, paragraph@)));
                        }
                    }
                }
            }
            j = j + 1;
        }
        proof {
            assert(matches_view(ms@).take(ms@.len() as int) =~= matches_view(ms@));
            let t = fv.take(k + 1);
            assert(t.drop_last() =~= fv.take(k as int));
            assert(t.last() == fv[k as int]);
        }
        k = k + 1;
    }
    proof {
        assert(fv.take(found@.len() as int) =~= fv);
    }
    acc
}

/// The paragraphs, in order of their start offset.
pub fn in_order_of_start(placed: &Vec<(usize, usize, Paragraph)>) -> (r: Vec<Paragraph>)
    ensures
        paragraphs_view(r@) == ordered_by_start(placed_view(placed@)).map_values(|e: Placed| e.2),
{
    let ghost pv = placed_view(placed@);
    let mut keys: Vec<usize> = Vec::new();
    let mut i: usize = 0;
    while i < placed.len()
        invariant
            i <= placed@.len(),
            pv == placed_view(placed@),
            keys@ == pv.take(i as int).map_values(|e: Placed| e.0),
        decreases placed@.len() - i,
    {
        keys.push(placed[i].0);
        proof {
            assert(keys@ =~= pv.take(i + 1).map_values(|e: Placed| e.0));
        }
        i = i + 1;
    }
    proof {
        assert(pv.take(pv.len() as int) =~= pv);
    }
    let order = order_by_key(&keys);
    proof {
        lemma_selection_members(keys@, indices(keys@.len()));
    }
    let ghost target = ordered_by_start(pv).map_values(|e: Placed| e.2);
    let mut out: Vec<Paragraph> = Vec::new();
    let mut k: usize = 0;
    while k < order.len()
        invariant
            k <= order@.len() == placed@.len(),
            pv == placed_view(placed@),
            order@ == selection_order(keys@, indices(keys@.len())),
            keys@ == pv.map_values(|e: Placed| e.0),
            forall|q: int|
                0 <= q < order@.len() ==> indices(keys@.len()).contains(#[trigger] order@[q]),
            target == ordered_by_start(pv).map_values(|e: Placed| e.2),
            paragraphs_view(out@) == target.take(k as int),
        decreases order@.len() - k,
    {
        let idx = order[k];
        proof {
            let w = choose|w: int| 0 <= w < keys@.len() && indices(keys@.len())[w] == idx;
            assert(idx < placed@.len());
        }
        let p = placed[idx].2.duplicate();
        proof {
            assert(selection_order(pv.map_values(|e: Placed| e.0), indices(pv.len()))[k as int] == idx);
            assert(ordered_by_start(pv)[k as int] == pv[idx as int]);
            assert(target[k as int] == pv[idx as int].2);
            assert(pv[idx as int].2 == placed@[idx as int].2@);
        }
        let ghost before = out@;
        out.push(p);
        proof {
            assert(out@ == before.push(p));
            assert(paragraphs_view(out@) =~= paragraphs_view(before).push(p@));
            assert(paragraphs_view(out@) =~= target.take(k + 1));
        }
        k = k + 1;
    }
    proof {
        assert(target.take(k as int) =~= target);
    }
    out
}

/// A match within the text, once accepted, leaves the paragraphs apart from
/// one another.
proof fn lemma_accept_well_placed(acc: Seq<Placed>, m: Found, id: Seq<char>, text: Seq<char>)
    requires
        well_placed(acc),
        match_within(text, m),
    ensures
        well_placed(accept_paragraph(acc, m, id)),
{
    let s = paragraph_start(m);
    let e = paragraph_end(m);
    let content = paragraph_content(m);
    if !(m.2.len() == 0 || overlaps_any(acc, s, e) || only_newlines(content)) {
        assert(encode_utf8(m.2).len() == m.1 - m.0);
        lemma_kept_span(m);
        lemma_push_well_placed(acc, (s as usize, e as usize, (content, None, id)));
    }
}

proof fn lemma_accept_all_well_placed(acc: Seq<Placed>, ms: Seq<Found>, id: Seq<char>, text: Seq<char>)
    requires
        well_placed(acc),
        well_formed_matches(text, ms),
    ensures
        well_placed(accept_paragraphs(acc, ms, id)),
    decreases ms.len(),
{
    if ms.len() > 0 {
        let init = ms.drop_last();
        assert(well_formed_matches(text, init)) by {
            assert forall|i: int| 0 <= i < init.len() implies match_within(text, #[trigger] init[i]) by {
                assert(init[i] == ms[i]);
            }
            assert forall|i: int, j: int|
                #![trigger init[i], init[j]]
                0 <= i < j < init.len() implies init[i].1 <= init[j].0 by {
                assert(init[i] == ms[i] && init[j] == ms[j]);
            }
        }
        lemma_accept_all_well_placed(acc, init, id, text);
        assert(match_within(text, ms[ms.len() - 1]));
        lemma_accept_well_placed(accept_paragraphs(acc, init, id), ms.last(), id, text);
    }
}

proof fn lemma_selected_well_placed(mods: Seq<ModifierView>, found: Seq<Seq<Found>>, text: Seq<char>)
    requires
        forall|k: int| 0 <= k < found.len() ==> well_formed_matches(text, #[trigger] found[k]),
    ensures
        well_placed(selected_paragraphs(mods, found)),
    decreases found.len(),
{
    if found.len() > 0 {
        let init = found.drop_last();
        assert forall|k: int| 0 <= k < init.len() implies well_formed_matches(text, #[trigger] init[k]) by {
            assert(init[k] == found[k]);
        }
        lemma_selected_well_placed(mods, init, text);
        assert(well_formed_matches(text, found[found.len() - 1]));
        lemma_accept_all_well_placed(
            selected_paragraphs(mods, init),
            found.last(),
            mods[found.len() - 1].0,
            text,
        );
    }
}

/// Law: the paragraphs that the modifiers find in a text, once put in order
/// of position, follow one another, each ending before the next one starts;
/// so no two paragraphs share a character. This holds of every text, given
/// what `regex` documents of the matches of a search.
pub proof fn law_found_paragraphs_follow_one_another(mods: Seq<ModifierView>, text: Seq<char>)
    requires
        forall|k: int|
            0 <= k < mods.len() && regex_compiles(mods[k].1) ==> well_formed_matches(
                text,
                #[trigger] regex_find_all(mods[k].1, text),
            ),
        found_paragraphs(mods, text).len() <= usize::MAX,
    ensures
        ordered_by_start(found_paragraphs(mods, text)).len() == found_paragraphs(mods, text).len(),
        forall|i: int, j: int|
            #![trigger ordered_by_start(found_paragraphs(mods, text))[i], ordered_by_start(found_paragraphs(mods, text))[j]]
            0 <= i < j < found_paragraphs(mods, text).len() ==> ordered_by_start(
                found_paragraphs(mods, text),
            )[i].1 < ordered_by_start(found_paragraphs(mods, text))[j].0,
{
    let found = mods.map_values(|m: ModifierView| found_matches(m.1, text));
    assert forall|k: int| 0 <= k < found.len() implies well_formed_matches(text, #[trigger] found[k]) by {
        assert(found[k] == found_matches(mods[k].1, text));
        if regex_compiles(mods[k].1) {
            assert(well_formed_matches(text, regex_find_all(mods[k].1, text)));
        } else {
            assert(found[k] =~= Seq::<Found>::empty());
        }
    }
    lemma_selected_well_placed(mods, found, text);
    lemma_ordered_follow(found_paragraphs(mods, text));
}

/// What the headings accepted so far keep: they are apart from one another
/// and none touches a block.
pub open spec fn borders_apart(acc: Seq<Found>, spans: Seq<Found>) -> bool {
    &&& well_placed(acc)
    &&& forall|i: int| 0 <= i < acc.len() ==> !touches_any(spans, (#[trigger] acc[i]).0 as int, acc[i].1 as int)
}

proof fn lemma_accept_borders_apart(acc: Seq<Found>, spans: Seq<Found>, ms: Seq<Found>, text: Seq<char>)
    requires
        borders_apart(acc, spans),
        well_formed_matches(text, ms),
    ensures
        borders_apart(accept_borders(acc, spans, ms), spans),
    decreases ms.len(),
{
    if ms.len() > 0 {
        let init = ms.drop_last();
        assert(well_formed_matches(text, init)) by {
            assert forall|i: int| 0 <= i < init.len() implies match_within(text, #[trigger] init[i]) by {
                assert(init[i] == ms[i]);
            }
            assert forall|i: int, j: int|
                #![trigger init[i], init[j]]
                0 <= i < j < init.len() implies init[i].1 <= init[j].0 by {
                assert(init[i] == ms[i] && init[j] == ms[j]);
            }
        }
        lemma_accept_borders_apart(acc, spans, init, text);
        let before = accept_borders(acc, spans, init);
        let m = ms.last();
        assert(match_within(text, ms[ms.len() - 1]));
        if !(overlaps_any(before, m.0 as int, m.1 as int) || touches_any(spans, m.0 as int, m.1 as int)) {
            lemma_push_well_placed(before, m);
            let after = before.push(m);
            assert forall|i: int| 0 <= i < after.len() implies !touches_any(
                spans,
                (#[trigger] after[i]).0 as int,
                after[i].1 as int,
            ) by {
                if i < before.len() {
                    assert(after[i] == before[i]);
                }
            }
        }
    }
}

proof fn lemma_selected_borders_apart(spans: Seq<Found>, found: Seq<Seq<Found>>, text: Seq<char>)
    requires
        forall|k: int| 0 <= k < found.len() ==> well_formed_matches(text, #[trigger] found[k]),
    ensures
        borders_apart(selected_borders(spans, found), spans),
    decreases found.len(),
{
    if found.len() > 0 {
        let init = found.drop_last();
        assert forall|k: int| 0 <= k < init.len() implies well_formed_matches(text, #[trigger] init[k]) by {
            assert(init[k] == found[k]);
        }
        lemma_selected_borders_apart(spans, init, text);
        assert(well_formed_matches(text, found[found.len() - 1]));
        lemma_accept_borders_apart(selected_borders(spans, init), spans, found.last(), text);
    }
}

/// Law: the chapter headings found in a text begin and end outside every
/// code, math, focus and quote block, and, once put in order of position,
/// follow one another, each ending before the next one starts. This holds of
/// every text, given what `regex` documents of the matches of a search.
pub proof fn law_chapter_headings_follow_one_another(mods: Seq<ModifierView>, content: Seq<char>)
    requires
        forall|k: int|
            0 <= k < mods.len() && regex_compiles(mods[k].1) ==> well_formed_matches(
                content,
                #[trigger] regex_find_all(mods[k].1, content),
            ),
        found_borders(mods, content).len() <= usize::MAX,
    ensures
        forall|i: int|
            0 <= i < found_borders(mods, content).len() ==> !touches_any(
                spans_of(incompatible_patterns(), content),
                (#[trigger] found_borders(mods, content)[i]).0 as int,
                found_borders(mods, content)[i].1 as int,
            ),
        ordered_by_start(found_borders(mods, content)).len() == found_borders(mods, content).len(),
        forall|i: int, j: int|
            #![trigger ordered_by_start(found_borders(mods, content))[i], ordered_by_start(found_borders(mods, content))[j]]
            0 <= i < j < found_borders(mods, content).len() ==> ordered_by_start(
                found_borders(mods, content),
            )[i].1 < ordered_by_start(found_borders(mods, content))[j].0,
{
    let found = mods.map_values(|m: ModifierView| found_matches(m.1, content));
    assert forall|k: int| 0 <= k < found.len() implies well_formed_matches(content, #[trigger] found[k]) by {
        assert(found[k] == found_matches(mods[k].1, content));
        if regex_compiles(mods[k].1) {
            assert(well_formed_matches(content, regex_find_all(mods[k].1, content)));
        } else {
            assert(found[k] =~= Seq::<Found>::empty());
        }
    }
    lemma_selected_borders_apart(spans_of(incompatible_patterns(), content), found, content);
    lemma_ordered_follow(found_borders(mods, content));
}

/// Law: a blank text (nothing but whitespace) has no paragraphs.
pub proof fn law_blank_text_has_no_paragraphs(mods: Seq<ModifierView>, content: Seq<char>)
    requires
        all_whitespace(content),
    ensures
        paragraphs_of(mods, content) == Seq::<ParagraphView>::empty(),
{
}

// ---------------------------------------------------------------------------
// Chapter metadata
// ---------------------------------------------------------------------------

/// The identifiers of numbered headings in the `###` spelling.
pub const EXTENDED_HEADING_IDENTIFIER_PATTERN: &'static str = "heading-[[:digit:]]+-extended-version";

/// The identifiers of numbered headings in the `#3` spelling.
pub const COMPACT_HEADING_IDENTIFIER_PATTERN: &'static str = "heading-[[:digit:]]+-compact-version";

/// How a chapter modifier gives the level of its heading.
#[derive(Debug, Clone, Copy, PartialEq, Eq, Structural)]
pub enum HeadingForm {
    /// One level deeper than the previous heading.
    Minor,
    /// One level up from the previous heading.
    Major,
    /// The level of the previous heading.
    Same,
    /// As many levels as leading `#`.
    Extended,
    /// The level written after `#`.
    Compact,
    /// Not a heading modifier.
    Other,
}

/// Whether a pattern compiles and finds a match in `s`.
pub open spec fn names_match(pattern: Seq<char>, s: Seq<char>) -> bool {
    regex_compiles(pattern) && regex_is_match(pattern, s)
}

/// The form of the heading of a chapter modifier, told by its identifier.
pub open spec fn heading_form(id: Seq<char>) -> HeadingForm {
    if id == StandardChapterModifier::MinorHeading.spec_identifier() {
        HeadingForm::Minor
    } else if id == StandardChapterModifier::MajorHeading.spec_identifier() {
        HeadingForm::Major
    } else if id == StandardChapterModifier::SameHeading.spec_identifier() {
        HeadingForm::Same
    } else if names_match(EXTENDED_HEADING_IDENTIFIER_PATTERN@, id) {
        HeadingForm::Extended
    } else if names_match(COMPACT_HEADING_IDENTIFIER_PATTERN@, id) {
        HeadingForm::Compact
    } else {
        HeadingForm::Other
    }
}

/// Capture group `i`, if it took part in the match.
pub open spec fn group(g: Seq<Option<Seq<char>>>, i: int) -> Option<Seq<char>> {
    if 0 <= i < g.len() {
        g[i]
    } else {
        None
    }
}

/// Level and title of a heading, from the groups of its match and the level
/// of the previous heading (0 before the first). There is none when a group
/// it needs did not take part in the match, when the written level is not a
/// `u32`, or when the level one up from the previous one would not be one.
pub open spec fn heading_from_groups(
    form: HeadingForm,
    g: Seq<Option<Seq<char>>>,
    content: Seq<char>,
    last: u32,
) -> Option<(u32, Seq<char>)> {
    match form {
        HeadingForm::Minor => match group(g, 1) {
            Some(t) => Some(
                (
                    if last < 1 {
                        1u32
                    } else {
                        (last - 1) as u32
                    },
                    t,
                ),
            ),
            None => None,
        },
        HeadingForm::Major => if last == u32::MAX {
            None
        } else {
            match group(g, 1) {
                Some(t) => Some(((last + 1) as u32, t)),
                None => None,
            }
        },
        HeadingForm::Same => match group(g, 1) {
            Some(t) => Some(
                (
                    if last < 1 {
                        1u32
                    } else {
                        last
                    },
                    t,
                ),
            ),
            None => None,
        },
        HeadingForm::Extended => match group(g, 1) {
            Some(t) => Some((leading_count(content, '#') as u32, t)),
            None => None,
        },
        HeadingForm::Compact => match (group(g, 1), group(g, 2)) {
            (Some(d), Some(t)) => match parsed_u32(d) {
                Some(l) => Some((l, t)),
                None => None,
            },
            _ => None,
        },
        HeadingForm::Other => None,
    }
}

/// Law: relative headings are placed against the previous heading: a major
/// heading (`#+`) is one level deeper than it, a same heading (`#=`) at its
/// level, and a minor heading (`#-`) one level up; before any heading, both
/// of the last two are at level 1. Each keeps its written title. Consequently a major
/// heading is one level deeper than a same heading after the same heading.
pub proof fn law_relative_headings_follow_previous_level(
    g: Seq<Option<Seq<char>>>,
    content: Seq<char>,
    last: u32,
    t: Seq<char>,
)
    requires
        group(g, 1) == Some(t),
    ensures
        last < u32::MAX ==> heading_from_groups(HeadingForm::Major, g, content, last) == Some(
            ((last + 1) as u32, t),
        ),
        last >= 1 ==> heading_from_groups(HeadingForm::Same, g, content, last) == Some((last, t)),
        last == 0 ==> heading_from_groups(HeadingForm::Same, g, content, last) == Some((1u32, t)),
        last >= 1 ==> heading_from_groups(HeadingForm::Minor, g, content, last) == Some(
            ((last - 1) as u32, t),
        ),
        last == 0 ==> heading_from_groups(HeadingForm::Minor, g, content, last) == Some((1u32, t)),
        1 <= last < u32::MAX ==> (heading_from_groups(HeadingForm::Major, g, content, last)->0).0
            == (heading_from_groups(HeadingForm::Same, g, content, last)->0).0 + 1,
{
}

/// Whether a chapter modifier gives the heading of `content`: it matches,
/// and it is a heading modifier.
pub open spec fn heading_applies(m: ModifierView, content: Seq<char>) -> bool {
    names_match(m.1, content) && heading_form(m.0) != HeadingForm::Other
}

/// The heading of a chapter: given by the first chapter modifier that
/// applies, if any.
pub open spec fn chapter_heading(mods: Seq<ModifierView>, content: Seq<char>, last: u32) -> Option<
    (u32, Seq<char>),
>
    decreases mods.len(),
{
    if mods.len() == 0 {
        None
    } else if heading_applies(mods[0], content) {
        match regex_captures(mods[0].1, content) {
            Some(g) => heading_from_groups(heading_form(mods[0].0), g, content, last),
            None => None,
        }
    } else {
        chapter_heading(mods.drop_first(), content, last)
    }
}

pub type TagView = (ChapterTagKey, Option<Seq<char>>);

/// The tags written on the given lines, in order; lines that are no tag are
/// skipped.
pub open spec fn tags_of_lines(ls: Seq<Seq<char>>) -> Seq<TagView>
    decreases ls.len(),
{
    if ls.len() == 0 {
        Seq::empty()
    } else {
        let rest = tags_of_lines(ls.drop_last());
        match spec_tag_of(ls.last()) {
            Ok(t) => rest.push(t),
            Err(_) => rest,
        }
    }
}

/// The tags of a chapter: those on the lines of its heading text.
pub open spec fn chapter_tags(content: Seq<char>) -> Seq<TagView> {
    tags_of_lines(lines(content))
}

/// The style block of a chapter heading, if it has one.
pub open spec fn chapter_style(content: Seq<char>) -> Option<Seq<char>> {
    if regex_compiles(CHAPTER_STYLE_PATTERN@) {
        match regex_captures(CHAPTER_STYLE_PATTERN@, content) {
            Some(g) => group(g, 1),
            None => None,
        }
    } else {
        None
    }
}

/// The form of the heading given by the modifier with identifier `id`.
pub fn heading_form_of(id: &String) -> (r: HeadingForm)
    ensures
        r == heading_form(id@),
{
    if id.eq(&StandardChapterModifier::MinorHeading.identifier()) {
        HeadingForm::Minor
    } else if id.eq(&StandardChapterModifier::MajorHeading.identifier()) {
        HeadingForm::Major
    } else if id.eq(&StandardChapterModifier::SameHeading.identifier()) {
        HeadingForm::Same
    } else {
        match is_match(EXTENDED_HEADING_IDENTIFIER_PATTERN, id.as_str()) {
            Some(true) => HeadingForm::Extended,
            _ => match is_match(COMPACT_HEADING_IDENTIFIER_PATTERN, id.as_str()) {
                Some(true) => HeadingForm::Compact,
                _ => HeadingForm::Other,
            },
        }
    }
}

/// Capture group `i` of a match, copied.
fn group_at(groups: &Vec<Option<String>>, i: usize) -> (r: Option<String>)
    ensures
        opt_view(r) == group(groups_view(groups@), i as int),
{
    if i < groups.len() {
        match &groups[i] {
            Some(s) => Some(s.clone()),
            None => None,
        }
    } else {
        None
    }
}

/// The heading that the groups of a heading modifier's match give.
#[verifier::spinoff_prover]
pub fn heading_from(form: HeadingForm, groups: &Vec<Option<String>>, content: &str, last: u32) -> (r:
    Option<Heading>)
    ensures
        match heading_from_groups(form, groups_view(groups@), content@, last) {
            Some((l, t)) => r matches Some(h) && h@ == (l, t, None::<Seq<char>>),
            None => r is None,
        },
{
    match form {
        HeadingForm::Minor => match group_at(groups, 1) {
            Some(t) => {
                let level: u32 = if last < 1 {
                    1
                } else {
                    last - 1
                };
                Some(Heading::new(level, t))
            },
            None => None,
        },
        HeadingForm::Major => {
            if last == u32::MAX {
                None
            } else {
                match group_at(groups, 1) {
                    Some(t) => Some(Heading::new(last + 1, t)),
                    None => None,
                }
            }
        },
        HeadingForm::Same => match group_at(groups, 1) {
            Some(t) => {
                let level: u32 = if last < 1 {
                    1
                } else {
                    last
                };
                Some(Heading::new(level, t))
            },
            None => None,
        },
        HeadingForm::Extended => match group_at(groups, 1) {
            Some(t) => {
                let n = count_leading_char(content, '#');
                Some(Heading::new(n as u32, t))
            },
            None => None,
        },
        HeadingForm::Compact => match (group_at(groups, 1), group_at(groups, 2)) {
            (Some(d), Some(t)) => match parse_u32(d.as_str()) {
                Some(l) => Some(Heading::new(l, t)),
                None => None,
            },
            _ => None,
        },
        HeadingForm::Other => None,
    }
}

// ---------------------------------------------------------------------------
// Chapter borders
// ---------------------------------------------------------------------------

/// Whether the span `b` holds the offset `start` or the offset `end`.
pub open spec fn touches(b: Found, start: int, end: int) -> bool {
    (b.0 <= start && b.1 >= start) || (b.0 <= end && b.1 >= end)
}

pub open spec fn touches_any(spans: Seq<Found>, start: int, end: int) -> bool {
    exists|i: int| 0 <= i < spans.len() && #[trigger] touches(spans[i], start, end)
}

/// One heading match, against the headings found so far and the blocks in
/// which no heading is recognised: kept unless it overlaps a heading already
/// found or begins or ends inside such a block.
pub open spec fn accept_border(acc: Seq<Found>, spans: Seq<Found>, m: Found) -> Seq<Found> {
    if overlaps_any(acc, m.0 as int, m.1 as int) || touches_any(spans, m.0 as int, m.1 as int) {
        acc
    } else {
        acc.push(m)
    }
}

pub open spec fn accept_borders(acc: Seq<Found>, spans: Seq<Found>, ms: Seq<Found>) -> Seq<Found>
    decreases ms.len(),
{
    if ms.len() == 0 {
        acc
    } else {
        accept_border(accept_borders(acc, spans, ms.drop_last()), spans, ms.last())
    }
}

/// The headings that the matches of the chapter modifiers, tried in order,
/// find, in the order they are found.
pub open spec fn selected_borders(spans: Seq<Found>, found: Seq<Seq<Found>>) -> Seq<Found>
    decreases found.len(),
{
    if found.len() == 0 {
        Seq::empty()
    } else {
        accept_borders(selected_borders(spans, found.drop_last()), spans, found.last())
    }
}

/// The blocks inside which no heading is recognised: code, math, focus and
/// extended quote blocks.
pub open spec fn incompatible_patterns() -> Seq<Seq<char>> {
    seq![
        StandardParagraphModifier::CodeBlock.spec_modifier_pattern(),
        StandardParagraphModifier::MathBlock.spec_modifier_pattern(),
        StandardParagraphModifier::FocusBlock.spec_modifier_pattern(),
        StandardParagraphModifier::ExtendedBlockQuote.spec_modifier_pattern(),
    ]
}

/// The matches of each pattern in turn.
pub open spec fn spans_of(patterns: Seq<Seq<char>>, content: Seq<char>) -> Seq<Found>
    decreases patterns.len(),
{
    if patterns.len() == 0 {
        Seq::empty()
    } else {
        spans_of(patterns.drop_last(), content) + found_matches(patterns.last(), content)
    }
}

/// The chapter headings of a document's text, in the order they are found.
pub open spec fn found_borders(mods: Seq<ModifierView>, content: Seq<char>) -> Seq<Found> {
    selected_borders(
        spans_of(incompatible_patterns(), content),
        mods.map_values(|m: ModifierView| found_matches(m.1, content)),
    )
}

/// The text between two byte offsets.
pub open spec fn byte_range(content: Seq<char>, from: int, to: int) -> Seq<char> {
    decode_utf8(encode_utf8(content).subrange(from, to))
}

/// Prepends `d` to a sequence of chapters, if there is one.
pub open spec fn prefix_then(d: Seq<ChapterView>, o: Option<Seq<ChapterView>>) -> Option<
    Seq<ChapterView>,
> {
    match o {
        Some(r) => Some(d + r),
        None => None,
    }
}

/// The chapters opened by the headings `borders[k..]` (in order of position),
/// `last` being the level of the heading before them; none if one of them
/// gives no heading. A chapter holds the paragraphs from the end of its
/// heading to the start of the next one (or to the end of the text).
pub open spec fn document_chapters(
    borders: Seq<Found>,
    k: int,
    last: u32,
    content: Seq<char>,
    cmods: Seq<ModifierView>,
    pmods: Seq<ModifierView>,
) -> Option<Seq<ChapterView>>
    decreases borders.len() - k,
{
    if k < 0 || k >= borders.len() {
        Some(Seq::empty())
    } else {
        match chapter_heading(cmods, borders[k].2, last) {
            None => None,
            Some(h) => {
                let next = if k + 1 < borders.len() {
                    borders[k + 1].0 as int
                } else {
                    encode_utf8(content).len() as int
                };
                let ch = (
                    (h.0, h.1, None::<Seq<char>>),
                    chapter_tags(borders[k].2),
                    paragraphs_of(pmods, byte_range(content, borders[k].1 as int, next)),
                );
                prefix_then(seq![ch], document_chapters(borders, k + 1, h.0, content, cmods, pmods))
            },
        }
    }
}

/// The document loaded from a text: the paragraphs before the first heading,
/// then the chapters; none when a heading gives no heading.
pub open spec fn loaded_document(
    name: Seq<char>,
    content: Seq<char>,
    cmods: Seq<ModifierView>,
    pmods: Seq<ModifierView>,
) -> Option<(Seq<char>, Seq<ParagraphView>, Seq<ChapterView>)> {
    let borders = ordered_by_start(found_borders(cmods, content));
    match document_chapters(borders, 0, 0, content, cmods, pmods) {
        None => None,
        Some(chs) => {
            let pre_end = if borders.len() > 0 {
                borders[0].0 as int
            } else {
                encode_utf8(content).len() as int
            };
            let preamble = if pre_end > 0 {
                paragraphs_of(pmods, byte_range(content, 0, pre_end))
            } else {
                Seq::empty()
            };
            Some((name, preamble, chs))
        },
    }
}

fn copy_match(m: &RegexMatch) -> (r: RegexMatch)
    ensures
        r@ == m@,
{
    RegexMatch { start: m.start, end: m.end, text: m.text.clone() }
}

/// Whether one of the headings found so far overlaps `start..=end`.
fn overlaps_found(acc: &Vec<RegexMatch>, start: usize, end: usize) -> (r: bool)
    ensures
        r == overlaps_any(matches_view(acc@), start as int, end as int),
{
    let ghost v = matches_view(acc@);
    let mut i: usize = 0;
    while i < acc.len()
        invariant
            i <= acc@.len(),
            v == matches_view(acc@),
            forall|j: int| 0 <= j < i ==> !#[trigger] overlaps(v[j].0, v[j].1, start as int, end as int),
        decreases acc@.len() - i,
    {
        assert(v[i as int] == acc@[i as int]@);
        if overlaps_exec(acc[i].start, acc[i].end, start, end) {
            assert(overlaps(v[i as int].0, v[i as int].1, start as int, end as int));
            return true;
        }
        i = i + 1;
    }
    false
}

/// Whether one of the spans holds `start` or `end`.
fn touches_found(spans: &Vec<RegexMatch>, start: usize, end: usize) -> (r: bool)
    ensures
        r == touches_any(matches_view(spans@), start as int, end as int),
{
    let ghost v = matches_view(spans@);
    let mut i: usize = 0;
    while i < spans.len()
        invariant
            i <= spans@.len(),
            v == matches_view(spans@),
            forall|j: int| 0 <= j < i ==> !#[trigger] touches(v[j], start as int, end as int),
        decreases spans@.len() - i,
    {
        assert(v[i as int] == spans@[i as int]@);
        let b = &spans[i];
        if (b.start <= start && b.end >= start) || (b.start <= end && b.end >= end) {
            assert(touches(v[i as int], start as int, end as int));
            return true;
        }
        i = i + 1;
    }
    false
}

/// The headings that the matches `found[k]` of each chapter modifier find in
/// `content`, tried in order, in the order they are found: each kept unless
/// it overlaps one already kept or begins or ends inside one of `spans`. No
/// two of them overlap, and each lies within `content`.
pub fn select_chapter_borders(
    content: &str,
    spans: &Vec<RegexMatch>,
    found: &Vec<Vec<RegexMatch>>,
) -> (r: Vec<RegexMatch>)
    requires
        forall|k: int|
            0 <= k < found@.len() ==> well_formed_matches(content@, #[trigger] found_view(found@)[k]),
    ensures
        matches_view(r@) == selected_borders(matches_view(spans@), found_view(found@)),
        well_placed(matches_view(r@)),
        forall|i: int| 0 <= i < r@.len() ==> match_within(content@, #[trigger] matches_view(r@)[i]),
{
    let ghost sv = matches_view(spans@);
    let ghost fv = found_view(found@);
    let mut acc: Vec<RegexMatch> = Vec::new();
    let mut k: usize = 0;
    proof {
        assert(fv.take(0) =~= Seq::<Seq<Found>>::empty());
    }
    while k < found.len()
        invariant
            k <= found@.len(),
            sv == matches_view(spans@),
            fv == found_view(found@),
            forall|q: int| 0 <= q < found@.len() ==> well_formed_matches(content@, #[trigger] fv[q]),
            matches_view(acc@) == selected_borders(sv, fv.take(k as int)),
            well_placed(matches_view(acc@)),
            forall|i: int| 0 <= i < acc@.len() ==> match_within(content@, #[trigger] matches_view(acc@)[i]),
        decreases found@.len() - k,
    {
        let ms = &found[k];
        let ghost before = matches_view(acc@);
        proof {
            assert(fv[k as int] == matches_view(ms@));
            assert(matches_view(ms@).take(0) =~= Seq::<Found>::empty());
        }
        let mut j: usize = 0;
        while j < ms.len()
            invariant
                j <= ms@.len(),
                sv == matches_view(spans@),
                fv[k as int] == matches_view(ms@),
                well_formed_matches(content@, matches_view(ms@)),
                matches_view(acc@) == accept_borders(before, sv, matches_view(ms@).take(j as int)),
                well_placed(matches_view(acc@)),
                forall|i: int| 0 <= i < acc@.len() ==> match_within(content@, #[trigger] matches_view(acc@)[i]),
            decreases ms@.len() - j,
        {
            let m = &ms[j];
            let ghost mview = m@;
            proof {
                assert(matches_view(ms@)[j as int] == mview);
                assert(match_within(content@, mview));
                let t = matches_view(ms@).take(j + 1);
                assert(t.drop_last() =~= matches_view(ms@).take(j as int));
                assert(t.last() == mview);
            }
            let ghost cur = matches_view(acc@);
            if !overlaps_found(&acc, m.start, m.end) && !touches_found(spans, m.start, m.end) {
                let c = copy_match(m);
                proof {
                    lemma_push_well_placed(cur, mview);
                }
                acc.push(c);
                proof {
                    assert(matches_view(acc@) =~= cur.push(mview));
                    assert forall|i: int| 0 <= i < acc@.len() implies match_within(
                        content@,
                        #[trigger] matches_view(acc@)[i],
                    ) by {
                        if i < cur.len() {
                            assert(matches_view(acc@)[i] == cur[i]);
                        }
                    }
                }
            }
            j = j + 1;
        }
        proof {
            assert(matches_view(ms@).take(ms@.len() as int) =~= matches_view(ms@));
            let t = fv.take(k + 1);
            assert(t.drop_last() =~= fv.take(k as int));
            assert(t.last() == fv[k as int]);
        }
        k = k + 1;
    }
    proof {
        assert(fv.take(found@.len() as int) =~= fv);
    }
    acc
}

/// The headings, in order of their start offset.
pub fn borders_in_order(borders: &Vec<RegexMatch>) -> (r: Vec<RegexMatch>)
    ensures
        matches_view(r@) == ordered_by_start(matches_view(borders@)),
{
    let ghost bv = matches_view(borders@);
    let mut keys: Vec<usize> = Vec::new();
    let mut i: usize = 0;
    while i < borders.len()
        invariant
            i <= borders@.len(),
            bv == matches_view(borders@),
            keys@ == bv.take(i as int).map_values(|e: Found| e.0),
        decreases borders@.len() - i,
    {
        keys.push(borders[i].start);
        proof {
            assert(keys@ =~= bv.take(i + 1).map_values(|e: Found| e.0));
        }
        i = i + 1;
    }
    proof {
        assert(bv.take(bv.len() as int) =~= bv);
    }
    let order = order_by_key(&keys);
    proof {
        lemma_selection_members(keys@, indices(keys@.len()));
    }
    let ghost target = ordered_by_start(bv);
    let mut out: Vec<RegexMatch> = Vec::new();
    let mut k: usize = 0;
    while k < order.len()
        invariant
            k <= order@.len() == borders@.len(),
            bv == matches_view(borders@),
            order@ == selection_order(keys@, indices(keys@.len())),
            keys@ == bv.map_values(|e: Found| e.0),
            forall|q: int|
                0 <= q < order@.len() ==> indices(keys@.len()).contains(#[trigger] order@[q]),
            target == ordered_by_start(bv),
            matches_view(out@) == target.take(k as int),
        decreases order@.len() - k,
    {
        let idx = order[k];
        proof {
            let w = choose|w: int| 0 <= w < keys@.len() && indices(keys@.len())[w] == idx;
            assert(idx < borders@.len());
            assert(selection_order(bv.map_values(|e: Found| e.0), indices(bv.len()))[k as int] == idx);
            assert(target[k as int] == bv[idx as int]);
        }
        let c = copy_match(&borders[idx]);
        let ghost before = out@;
        out.push(c);
        proof {
            assert(matches_view(out@) =~= matches_view(before).push(c@));
            assert(matches_view(out@) =~= target.take(k + 1));
        }
        k = k + 1;
    }
    proof {
        assert(target.take(k as int) =~= target);
    }
    out
}

/// Loads documents and the paragraphs of texts.
pub struct Loader {}

impl Loader {
    pub fn new() -> (r: Self) {
        Self {}
    }

    /// The tags written under a heading, one per line, in order; lines that
    /// are no tag are skipped.
    pub fn load_chapter_tags_from_raw_str(content: &str) -> (r: Vec<ChapterTag>)
        ensures
            tags_view(r@) == chapter_tags(content@),
    {
        let ls = lines_of(content);
        let ghost lv = lines(content@);
        let mut tags: Vec<ChapterTag> = Vec::new();
        let mut i: usize = 0;
        proof {
            assert(lv.take(0) =~= Seq::<Seq<char>>::empty());
        }
        while i < ls.len()
            invariant
                i <= ls@.len() == lv.len(),
                lv == lines(content@),
                forall|q: int| 0 <= q < ls@.len() ==> #[trigger] ls@[q]@ == lv[q],
                tags_view(tags@) == tags_of_lines(lv.take(i as int)),
            decreases ls@.len() - i,
        {
            proof {
                let t = lv.take(i + 1);
                assert(t.drop_last() =~= lv.take(i as int));
                assert(t.last() == ls@[i as int]@);
            }
            match ChapterTag::from_str(ls[i].as_str()) {
                Ok(tag) => {
                    let ghost before = tags@;
                    tags.push(tag);
                    proof {
                        assert(tags_view(tags@) =~= tags_view(before).push(tag@));
                    }
                },
                Err(_) => {},
            }
            i = i + 1;
        }
        proof {
            assert(lv.take(lv.len() as int) =~= lv);
        }
        tags
    }

    /// The style block written under a heading, if any.
    pub fn load_chapter_style_from_raw_str(&self, content: &str) -> (r: Option<String>)
        ensures
            opt_view(r) == chapter_style(content@),
    {
        match captures(CHAPTER_STYLE_PATTERN, content) {
            Some(Some(groups)) => group_at(&groups, 1),
            _ => None,
        }
    }

    /// The heading of a chapter and its tags, from the text that its heading
    /// modifier matched and the level of the previous heading: the first
    /// chapter modifier of the codex that matches and is a heading modifier
    /// gives the heading; without a heading there are no tags.
    pub fn load_chapter_metadata_from_raw_str(
        &self,
        codex: &Codex,
        content: &str,
        last_heading_level: HeadingLevel,
    ) -> (r: (Option<Heading>, Vec<ChapterTag>))
        ensures
            match chapter_heading(codex.configuration@.2, content@, last_heading_level) {
                Some((l, t)) => r.0 matches Some(h) && h@ == (l, t, None::<Seq<char>>) && tags_view(
                    r.1@,
                ) == chapter_tags(content@),
                None => r.0 is None && r.1@.len() == 0,
            },
    {
        let mods = codex.configuration().ordered_chapter_modifier();
        let ghost mv = modifiers_view(mods@);
        let mut k: usize = 0;
        proof {
            assert(mv.skip(0) =~= mv);
        }
        while k < mods.len()
            invariant
                k <= mods@.len(),
                mv == modifiers_view(mods@),
                mv == codex.configuration@.2,
                chapter_heading(mv, content@, last_heading_level) == chapter_heading(
                    mv.skip(k as int),
                    content@,
                    last_heading_level,
                ),
            decreases mods@.len() - k,
        {
            let m = &mods[k];
            proof {
                let t = mv.skip(k as int);
                assert(t[0] == mv[k as int]);
                assert(t.drop_first() =~= mv.skip(k + 1));
                assert(mv[k as int] == m@);
            }
            let matched = match is_match(m.modifier_pattern.as_str(), content) {
                Some(b) => b,
                None => false,
            };
            if matched {
                let form = heading_form_of(&m.identifier);
                if form != HeadingForm::Other {
                    match captures(m.modifier_pattern.as_str(), content) {
                        Some(Some(groups)) => {
                            match heading_from(form, &groups, content, last_heading_level) {
                                Some(h) => {
                                    let tags = Self::load_chapter_tags_from_raw_str(content);
                                    return (Some(h), tags);
                                },
                                None => {
                                    return (None, Vec::new());
                                },
                            }
                        },
                        _ => {
                            return (None, Vec::new());
                        },
                    }
                }
            }
            k = k + 1;
        }
        (None, Vec::new())
    }

    /// Loads a document from its text: the headings that the codex's chapter
    /// modifiers find (outside code, math, focus and quote blocks, and not
    /// overlapping each other) open chapters, in order of position; what
    /// precedes the first heading is the preamble. Fails when a heading gives
    /// no heading.
    #[verifier::spinoff_prover]
    pub fn load_document_from_str(&self, codex: &Codex, document_name: &str, content: &str) -> (r:
        Result<Document, LoadError>)
        ensures
            match loaded_document(
                document_name@,
                content@,
                codex.configuration@.2,
                codex.configuration@.1,
            ) {
                Some(d) => r matches Ok(doc) && doc@ == d,
                None => r matches Err(LoadError::ResourceError(ResourceError::ResourceNotFound(s)))
                    && s@ == "heading"@,
            },
    {
        let ghost cmv = codex.configuration@.2;
        let ghost pmv = codex.configuration@.1;
        // the blocks inside which no heading is recognised
        let patterns: Vec<String> = vec![
            StandardParagraphModifier::CodeBlock.modifier_pattern(),
            StandardParagraphModifier::MathBlock.modifier_pattern(),
            StandardParagraphModifier::FocusBlock.modifier_pattern(),
            StandardParagraphModifier::ExtendedBlockQuote.modifier_pattern(),
        ];
        let ghost pats = incompatible_patterns();
        proof {
            assert(patterns@.map_values(|p: String| p@) =~= pats);
        }
        let mut spans: Vec<RegexMatch> = Vec::new();
        let mut i: usize = 0;
        proof {
            assert(pats.take(0) =~= Seq::<Seq<char>>::empty());
        }
        while i < patterns.len()
            invariant
                i <= patterns@.len() == pats.len(),
                pats == incompatible_patterns(),
                patterns@.map_values(|p: String| p@) == pats,
                matches_view(spans@) == spans_of(pats.take(i as int), content@),
            decreases patterns@.len() - i,
        {
            let mut ms = match find_all(patterns[i].as_str(), content) {
                Some(ms) => ms,
                None => Vec::new(),
            };
            proof {
                assert(patterns@[i as int]@ == pats[i as int]);
                assert(matches_view(ms@) =~= found_matches(pats[i as int], content@));
                let t = pats.take(i + 1);
                assert(t.drop_last() =~= pats.take(i as int));
                assert(t.last() == pats[i as int]);
            }
            let ghost before = spans@;
            let ghost added = ms@;
            spans.append(&mut ms);
            proof {
                assert(spans@ == before + added);
                assert(matches_view(spans@) =~= matches_view(before) + matches_view(added));
            }
            i = i + 1;
        }
        proof {
            assert(pats.take(pats.len() as int) =~= pats);
        }
        // the headings that each chapter modifier finds
        let mods = codex.configuration().ordered_chapter_modifier();
        let ghost mv = modifiers_view(mods@);
        let ghost target = mv.map_values(|m: ModifierView| found_matches(m.1, content@));
        let mut found: Vec<Vec<RegexMatch>> = Vec::new();
        let mut k: usize = 0;
        while k < mods.len()
            invariant
                k <= mods@.len(),
                mv == modifiers_view(mods@),
                target == mv.map_values(|m: ModifierView| found_matches(m.1, content@)),
                found_view(found@) == target.take(k as int),
                forall|q: int|
                    0 <= q < found@.len() ==> well_formed_matches(content@, #[trigger] found_view(found@)[q]),
            decreases mods@.len() - k,
        {
            let ms = match find_all(mods[k].modifier_pattern.as_str(), content) {
                Some(ms) => ms,
                None => Vec::new(),
            };
            proof {
                assert(mv[k as int].1 == mods@[k as int].modifier_pattern@);
                if !regex_compiles(mv[k as int].1) {
                    assert(matches_view(ms@) =~= Seq::<Found>::empty());
                }
            }
            let ghost before = found_view(found@);
            found.push(ms);
            proof {
                assert(found_view(found@) =~= before.push(matches_view(ms@)));
                assert(found_view(found@) =~= target.take(k + 1));
            }
            k = k + 1;
        }
        proof {
            assert(target.take(mods@.len() as int) =~= target);
        }
        let selected = select_chapter_borders(content, &spans, &found);
        let borders = borders_in_order(&selected);
        let ghost sv = matches_view(selected@);
        let ghost bv = matches_view(borders@);
        proof {
            assert(sv.len() == selected@.len());
            lemma_ordered_follow(sv);
            assert forall|q: int| 0 <= q < bv.len() implies match_within(content@, #[trigger] bv[q]) by {
                assert(sv.contains(bv[q]));
                let w = choose|w: int| 0 <= w < sv.len() && sv[w] == bv[q];
                assert(match_within(content@, sv[w]));
            }
            vstd::utf8::encode_utf8_valid_utf8(content@);
        }
        let ghost content_len = encode_utf8(content@).len();
        // the chapters, in order
        let mut chapters: Vec<Chapter> = Vec::new();
        let mut last_heading_level: HeadingLevel = 0;
        let mut index: usize = 0;
        while index < borders.len()
            invariant
                index <= borders@.len() == bv.len(),
                bv == matches_view(borders@),
                bv == ordered_by_start(found_borders(cmv, content@)),
                cmv == codex.configuration@.2,
                pmv == codex.configuration@.1,
                content_len == encode_utf8(content@).len(),
                forall|q: int| 0 <= q < bv.len() ==> match_within(content@, #[trigger] bv[q]),
                forall|a: int, b: int|
                    #![trigger bv[a], bv[b]]
                    0 <= a < b < bv.len() ==> bv[a].1 < bv[b].0,
                document_chapters(bv, 0, 0, content@, cmv, pmv) == prefix_then(
                    chapters_view(chapters@),
                    document_chapters(bv, index as int, last_heading_level, content@, cmv, pmv),
                ),
            decreases borders@.len() - index,
        {
            let border = &borders[index];
            proof {
                assert(bv[index as int] == border@);
            }
            let (heading, tags) = self.load_chapter_metadata_from_raw_str(
                codex,
                border.text.as_str(),
                last_heading_level,
            );
            let heading = match heading {
                Some(h) => h,
                None => {
                    return Err(
                        LoadError::ResourceError(ResourceError::ResourceNotFound(owned("heading"))),
                    );
                },
            };
            let level = heading.level();
            let next_start: usize = if index + 1 < borders.len() {
                proof {
                    assert(bv[index + 1] == borders@[index + 1]@);
                }
                borders[index + 1].start
            } else {
                byte_len(content)
            };
            proof {
                if index + 1 < borders@.len() {
                    assert(bv[index as int].1 < bv[index + 1].0);
                    assert(match_within(content@, bv[index + 1]));
                }
                vstd::utf8::encode_utf8_valid_utf8(content@);
                vstd::utf8::is_char_boundary_start_end_of_seq(encode_utf8(content@));
                assert(match_within(content@, bv[index as int]));
                assert(border.end <= next_start);
            }
            let sub_content = byte_slice(content, border.end, next_start);
            proof {
                encode_utf8_decode_utf8(sub_content@);
                assert(sub_content@ == byte_range(content@, bv[index as int].1 as int, next_start as int));
            }
            let paragraphs = match self.load_paragraphs_from_str(codex, sub_content.as_str()) {
                Ok(ps) => ps,
                Err(e) => {
                    return Err(e);
                },
            };
            let chapter = Chapter::new(heading, tags, paragraphs);
            let ghost before = chapters@;
            chapters.push(chapter);
            proof {
                assert(chapters_view(chapters@) =~= chapters_view(before).push(chapter@));
                assert(chapters_view(before).push(chapter@) =~= chapters_view(before) + seq![chapter@]);
            }
            last_heading_level = level;
            index = index + 1;
        }
        // the preamble
        let preamble_end: usize = if borders.len() > 0 {
            borders[0].start
        } else {
            byte_len(content)
        };
        proof {
            if borders@.len() > 0 {
                assert(bv[0] == borders@[0]@);
                assert(match_within(content@, bv[0]));
            }
            vstd::utf8::is_char_boundary_start_end_of_seq(encode_utf8(content@));
        }
        let preamble: Vec<Paragraph> = if preamble_end > 0 {
            let s = byte_slice(content, 0, preamble_end);
            proof {
                encode_utf8_decode_utf8(s@);
            }
            match self.load_paragraphs_from_str(codex, s.as_str()) {
                Ok(ps) => ps,
                Err(e) => {
                    return Err(e);
                },
            }
        } else {
            Vec::new()
        };
        proof {
            assert(chapters_view(chapters@) + Seq::<ChapterView>::empty() =~= chapters_view(chapters@));
            if preamble_end == 0 {
                assert(paragraphs_view(preamble@) =~= Seq::<ParagraphView>::empty());
            }
        }
        Ok(Document::new(owned(document_name), preamble, chapters))
    }

    /// The paragraphs of a text, in order of position: none in a blank text;
    /// otherwise those that the codex's paragraph modifiers find, tried in
    /// order, each kept unless it overlaps one already found or holds only
    /// line feeds.
    pub fn load_paragraphs_from_str(&self, codex: &Codex, content: &str) -> (r: Result<
        Vec<Paragraph>,
        LoadError,
    >)
        ensures
            r matches Ok(ps) && paragraphs_view(ps@) == paragraphs_of(
                codex.configuration@.1,
                content@,
            ),
    {
        if is_blank(content) {
            let r: Vec<Paragraph> = Vec::new();
            proof {
                assert(paragraphs_view(r@) =~= Seq::<ParagraphView>::empty());
            }
            return Ok(r);
        }
        let text = pad_for_paragraphs(content);
        let mods = codex.configuration().ordered_paragraph_modifiers();
        let ghost mv = modifiers_view(mods@);
        let ghost target = mv.map_values(|m: ModifierView| found_matches(m.1, text@));
        let mut found: Vec<Vec<RegexMatch>> = Vec::new();
        let mut k: usize = 0;
        while k < mods.len()
            invariant
                k <= mods@.len(),
                mv == modifiers_view(mods@),
                target == mv.map_values(|m: ModifierView| found_matches(m.1, text@)),
                found_view(found@) == target.take(k as int),
                forall|q: int|
                    0 <= q < found@.len() ==> well_formed_matches(text@, #[trigger] found_view(found@)[q]),
            decreases mods@.len() - k,
        {
            let ms = match find_all(mods[k].modifier_pattern.as_str(), text.as_str()) {
                Some(ms) => ms,
                None => Vec::new(),
            };
            proof {
                assert(mv[k as int].1 == mods@[k as int].modifier_pattern@);
                assert(matches_view(ms@) == found_matches(mv[k as int].1, text@));
                if !regex_compiles(mv[k as int].1) {
                    assert(matches_view(ms@) =~= Seq::<Found>::empty());
                }
            }
            let ghost before = found_view(found@);
            found.push(ms);
            proof {
                assert(found_view(found@) =~= before.push(matches_view(ms@)));
                assert(found_view(found@) =~= target.take(k + 1));
            }
            k = k + 1;
        }
        proof {
            assert(target.take(mods@.len() as int) =~= target);
        }
        let placed = select_paragraphs(text.as_str(), mods, &found);
        Ok(in_order_of_start(&placed))
    }
}

} // verus!
