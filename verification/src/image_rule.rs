//! The image rule: `![label](src)` becomes a figure holding the image and
//! its caption.
//!
//! A local image is embedded as base64 data. Reading the files is left to
//! the caller: it lists the references with `image_references`, reads them,
//! and gives the rule, for each reference, the data found or that none was
//! found (`ImageSource`).
use vstd::prelude::*;
use vstd::utf8::{encode_utf8, encode_utf8_decode_utf8, is_char_boundary_start_end_of_seq};

use crate::encoding::{base64, to_base64};
use crate::loader::byte_range;
use crate::nmd_id::{id_of, identifier_of};
use crate::parsing::{ParsingConfiguration, ParsingError, ParsingErrorView, ParsingOutcome};
use crate::pattern::{
    captures_all,
    find_all,
    groups_view,
    regex_captures_all,
    regex_compiles,
    regex_find_all,
    well_formed_matches,
    RegexMatch,
};
use crate::resource::{is_remote, is_valid_remote_resource};
use crate::text::{append_str, byte_len, byte_slice, owned};

verus! {

/// An image: `![label](src)`, the label in group 1, the source in group 2.
pub const IMAGE_PATTERN: &'static str = "!\\[([^\\]]+)\\]\\(([^)]+)\\)";

/// What precedes the base64 data of an embedded image.
pub const BASE64_PNG_PREFIX: &'static str = "data:image/png;base64,";

pub const FIGURE_OPEN: &'static str = "<figure class=\"figure\" id=\"";

pub const FIGURE_IMG: &'static str = "\">\n                    <img src=\"";

pub const FIGURE_ALT: &'static str = "\" alt=\"";

pub const FIGURE_CAPTION: &'static str = "\" class=\"image\" />\n                    <figcaption class=\"image-caption\">";

pub const FIGURE_CLOSE: &'static str = "</figcaption>\n                </figure>";

/// What the caller found of a local image: its data, base64-encoded, or
/// nothing.
#[derive(Debug)]
pub enum ImageSource {
    Embedded(String),
    NotFound,
}

/// The data of an image source, if any.
pub open spec fn source_view(s: ImageSource) -> Option<Seq<char>> {
    match s {
        ImageSource::Embedded(d) => Some(d@),
        ImageSource::NotFound => None,
    }
}

/// Image sources by reference: the reference as written and what was found
/// of it.
pub type ImageSourcesView = Seq<(Seq<char>, Option<Seq<char>>)>;

pub open spec fn sources_view(v: Seq<(String, ImageSource)>) -> ImageSourcesView {
    v.map_values(|e: (String, ImageSource)| (e.0@, source_view(e.1)))
}

/// What was found of the reference `src`: the first entry given for it;
/// nothing when none is.
pub open spec fn source_for(sources: ImageSourcesView, src: Seq<char>) -> Option<Seq<char>>
    decreases sources.len(),
{
    if sources.len() == 0 {
        None
    } else if sources[0].0 == src {
        sources[0].1
    } else {
        source_for(sources.drop_first(), src)
    }
}

impl ImageSource {
    /// The source of an image file read: its bytes, base64-encoded.
    pub fn from_bytes(bytes: &Vec<u8>) -> (r: Self)
        ensures
            source_view(r) == Some(base64(bytes@)),
    {
        ImageSource::Embedded(to_base64(bytes))
    }

    fn duplicate(&self) -> (r: Self)
        ensures
            source_view(r) == source_view(*self),
    {
        match self {
            ImageSource::Embedded(d) => ImageSource::Embedded(d.clone()),
            ImageSource::NotFound => ImageSource::NotFound,
        }
    }
}

/// A copy of image sources.
pub fn copy_sources(v: &Vec<(String, ImageSource)>) -> (r: Vec<(String, ImageSource)>)
    ensures
        sources_view(r@) == sources_view(v@),
{
    let mut r: Vec<(String, ImageSource)> = Vec::new();
    let mut i: usize = 0;
    while i < v.len()
        invariant
            i <= v@.len(),
            sources_view(r@) == sources_view(v@).take(i as int),
        decreases v@.len() - i,
    {
        let ghost before = sources_view(r@);
        r.push((v[i].0.clone(), v[i].1.duplicate()));
        proof {
            assert(sources_view(r@) =~= before.push(sources_view(v@)[i as int]));
            assert(sources_view(v@).take(i + 1) =~= sources_view(v@).take(i as int).push(
                sources_view(v@)[i as int],
            ));
        }
        i = i + 1;
    }
    proof {
        assert(sources_view(v@).take(i as int) =~= sources_view(v@));
    }
    r
}

/// What was found of a reference.
fn source_of<'a>(sources: &'a Vec<(String, ImageSource)>, src: &String) -> (r: Option<&'a ImageSource>)
    ensures
        match r {
            Some(s) => source_view(*s),
            None => None,
        } == source_for(sources_view(sources@), src@),
{
    let ghost sv = sources_view(sources@);
    let mut i: usize = 0;
    proof {
        assert(sv.skip(0) =~= sv);
    }
    while i < sources.len()
        invariant
            i <= sources@.len(),
            sv == sources_view(sources@),
            source_for(sv.skip(i as int), src@) == source_for(sv, src@),
        decreases sources@.len() - i,
    {
        let ghost rest = sv.skip(i as int);
        proof {
            assert(rest[0] == sv[i as int]);
            assert(rest.drop_first() =~= sv.skip(i + 1));
        }
        if sources[i].0.eq(src) {
            return Some(&sources[i].1);
        }
        i = i + 1;
    }
    None
}

/// The figure of an image: its identifier made of the label, the image, and
/// the label as caption.
pub open spec fn figure(src: Seq<char>, label: Seq<char>) -> Seq<char> {
    FIGURE_OPEN@ + id_of(label) + FIGURE_IMG@ + src + FIGURE_ALT@ + label + FIGURE_CAPTION@ + label
        + FIGURE_CLOSE@
}

/// What one match becomes. With a label and a source: a remote source is
/// linked (embedding it is refused); a local one is embedded when its data
/// was found, else, with strict checks, refused, or linked. Without them, the
/// match stays.
pub open spec fn image_piece(
    groups: Seq<Option<Seq<char>>>,
    whole: Seq<char>,
    sources: ImageSourcesView,
    embed_remote: bool,
    strict: bool,
) -> Result<Seq<char>, ParsingErrorView> {
    if groups.len() > 2 && groups[1] is Some && groups[2] is Some {
        let label = groups[1]->0;
        let src = groups[2]->0;
        if is_remote(src) {
            if embed_remote {
                Err(ParsingErrorView::InvalidSource(src))
            } else {
                Ok(figure(src, label))
            }
        } else {
            match source_for(sources, src) {
                Some(data) => Ok(figure(BASE64_PNG_PREFIX@ + data, label)),
                None => if strict {
                    Err(ParsingErrorView::InvalidSource(src))
                } else {
                    Ok(figure(src, label))
                },
            }
        }
    } else {
        Ok(whole)
    }
}

/// Where the text before the `j`-th match starts: at the end of the one
/// before it.
pub open spec fn gap_start(ms: Seq<(usize, usize, Seq<char>)>, j: int) -> int {
    if j <= 0 {
        0
    } else {
        ms[j - 1].1 as int
    }
}

/// The output up to the end of the `k`-th match: each match replaced by its
/// piece, the text between matches kept; the first refusal, if any.
pub open spec fn images_before(
    content: Seq<char>,
    ms: Seq<(usize, usize, Seq<char>)>,
    gs: Seq<Seq<Option<Seq<char>>>>,
    sources: ImageSourcesView,
    embed_remote: bool,
    strict: bool,
    k: nat,
) -> Result<Seq<char>, ParsingErrorView>
    decreases k,
{
    if k == 0 {
        Ok(Seq::empty())
    } else {
        let j = k - 1;
        match images_before(content, ms, gs, sources, embed_remote, strict, j as nat) {
            Err(e) => Err(e),
            Ok(out) => match image_piece(gs[j], ms[j].2, sources, embed_remote, strict) {
                Err(e) => Err(e),
                Ok(p) => Ok(out + byte_range(content, gap_start(ms, j), ms[j].0 as int) + p),
            },
        }
    }
}

/// Once a refusal is met, it is what the output up to any later match is.
proof fn lemma_refusal_stays(
    content: Seq<char>,
    ms: Seq<(usize, usize, Seq<char>)>,
    gs: Seq<Seq<Option<Seq<char>>>>,
    sources: ImageSourcesView,
    embed_remote: bool,
    strict: bool,
    k: nat,
    m: nat,
)
    requires
        k <= m,
        images_before(content, ms, gs, sources, embed_remote, strict, k) is Err,
    ensures
        images_before(content, ms, gs, sources, embed_remote, strict, m) == images_before(
            content,
            ms,
            gs,
            sources,
            embed_remote,
            strict,
            k,
        ),
    decreases m - k,
{
    if k < m {
        lemma_refusal_stays(content, ms, gs, sources, embed_remote, strict, k, (m - 1) as nat);
    }
}

/// What the image rule makes of a text: every image replaced by its figure,
/// in order, the rest kept; the first refusal, if any.
pub open spec fn image_output(
    content: Seq<char>,
    sources: ImageSourcesView,
    embed_remote: bool,
    strict: bool,
) -> Result<Seq<char>, ParsingErrorView> {
    if !regex_compiles(IMAGE_PATTERN@) {
        Err(ParsingErrorView::InvalidPattern(IMAGE_PATTERN@))
    } else {
        let ms = regex_find_all(IMAGE_PATTERN@, content);
        let gs = regex_captures_all(IMAGE_PATTERN@, content);
        match images_before(content, ms, gs, sources, embed_remote, strict, ms.len()) {
            Err(e) => Err(e),
            Ok(out) => Ok(out + byte_range(
                content,
                gap_start(ms, ms.len() as int),
                encode_utf8(content).len() as int,
            )),
        }
    }
}

/// The local file an image refers to: its source when the match has a label
/// and a source that is not remote.
pub open spec fn local_reference(groups: Seq<Option<Seq<char>>>) -> Option<Seq<char>> {
    if groups.len() > 2 && groups[1] is Some && groups[2] is Some && !is_remote(groups[2]->0) {
        groups[2]
    } else {
        None
    }
}

/// The figure of an image.
fn figure_of(src: &str, label: &str) -> (r: String)
    ensures
        r@ == figure(src@, label@),
{
    let mut r = owned(FIGURE_OPEN);
    let id = identifier_of(label);
    append_str(&mut r, id.as_str());
    append_str(&mut r, FIGURE_IMG);
    append_str(&mut r, src);
    append_str(&mut r, FIGURE_ALT);
    append_str(&mut r, label);
    append_str(&mut r, FIGURE_CAPTION);
    append_str(&mut r, label);
    append_str(&mut r, FIGURE_CLOSE);
    r
}

/// What one match becomes.
fn piece_of(
    groups: &Vec<Option<String>>,
    whole: &String,
    sources: &Vec<(String, ImageSource)>,
    embed_remote: bool,
    strict: bool,
) -> (r: Result<String, ParsingError>)
    ensures
        match image_piece(
            groups_view(groups@),
            whole@,
            sources_view(sources@),
            embed_remote,
            strict,
        ) {
            Ok(p) => r matches Ok(s) && s@ == p,
            Err(e) => r matches Err(f) && f@ == e,
        },
{
    if groups.len() > 2 {
        match (&groups[1], &groups[2]) {
            (Some(label), Some(src)) => {
                proof {
                    assert(groups_view(groups@)[1] == Some(label@));
                    assert(groups_view(groups@)[2] == Some(src@));
                }
                if is_valid_remote_resource(src.as_str()) {
                    if embed_remote {
                        return Err(ParsingError::InvalidSource(src.clone()));
                    }
                    return Ok(figure_of(src.as_str(), label.as_str()));
                }
                match source_of(sources, src) {
                    Some(ImageSource::Embedded(data)) => {
                        let mut s = owned(BASE64_PNG_PREFIX);
                        append_str(&mut s, data.as_str());
                        Ok(figure_of(s.as_str(), label.as_str()))
                    },
                    _ => {
                        if strict {
                            Err(ParsingError::InvalidSource(src.clone()))
                        } else {
                            Ok(figure_of(src.as_str(), label.as_str()))
                        }
                    },
                }
            },
            _ => {
                proof {
                    assert(groups_view(groups@)[1] is None || groups_view(groups@)[2] is None);
                }
                Ok(whole.clone())
            },
        }
    } else {
        Ok(whole.clone())
    }
}

/// Renders images, with what was found of their files.
#[derive(Debug)]
pub struct HtmlImageRule {
    pub sources: Vec<(String, ImageSource)>,
}

impl HtmlImageRule {
    /// No image file found.
    pub fn new() -> (r: Self)
        ensures
            sources_view(r.sources@).len() == 0,
    {
        Self { sources: Vec::new() }
    }

    /// With what was found of the image files, by reference.
    pub fn with_sources(sources: Vec<(String, ImageSource)>) -> (r: Self)
        ensures
            sources_view(r.sources@) == sources_view(sources@),
    {
        Self { sources }
    }

    pub fn search_pattern(&self) -> (r: String)
        ensures
            r@ == IMAGE_PATTERN@,
    {
        owned(IMAGE_PATTERN)
    }

    /// Replaces every image of the text by its figure. A remote image is
    /// linked, and embedding it is refused; a local image whose file was
    /// found is embedded; one not found is refused under strict source
    /// checks, else linked.
    #[verifier::spinoff_prover]
    pub fn parse(
        &self,
        content: &str,
        parsing_configuration: &ParsingConfiguration,
    ) -> (r: Result<ParsingOutcome, ParsingError>)
        ensures
            match image_output(
                content@,
                sources_view(self.sources@),
                parsing_configuration.embed_remote_image,
                parsing_configuration.strict_image_src_check,
            ) {
                Ok(out) => r matches Ok(o) && o.parsed_content@ == out,
                Err(e) => r matches Err(f) && f@ == e,
            },
    {
        let embed_remote = parsing_configuration.embed_remote_image;
        let strict = parsing_configuration.strict_image_src_check;
        let sources = &self.sources;
        let ghost sv = sources_view(sources@);
        let ms = match find_all(IMAGE_PATTERN, content) {
            Some(ms) => ms,
            None => {
                return Err(ParsingError::InvalidPattern(owned(IMAGE_PATTERN)));
            },
        };
        let gs = match captures_all(IMAGE_PATTERN, content) {
            Some(gs) => gs,
            None => {
                return Err(ParsingError::InvalidPattern(owned(IMAGE_PATTERN)));
            },
        };
        let ghost msv = regex_find_all(IMAGE_PATTERN@, content@);
        let ghost gsv = regex_captures_all(IMAGE_PATTERN@, content@);
        proof {
            assert(ms@.len() == msv.len());
            assert(gs@.len() == gsv.len());
        }
        let mut out = String::new();
        let mut k: usize = 0;
        while k < ms.len()
            invariant
                k <= ms@.len() == gs@.len() == msv.len() == gsv.len(),
                ms@.map_values(|m: RegexMatch| m@) == msv,
                gs@.map_values(|g: Vec<Option<String>>| groups_view(g@)) == gsv,
                well_formed_matches(content@, msv),
                sv == sources_view(sources@),
                sv == sources_view(self.sources@),
                regex_compiles(IMAGE_PATTERN@),
                msv == regex_find_all(IMAGE_PATTERN@, content@),
                gsv == regex_captures_all(IMAGE_PATTERN@, content@),
                embed_remote == parsing_configuration.embed_remote_image,
                strict == parsing_configuration.strict_image_src_check,
                images_before(content@, msv, gsv, sv, embed_remote, strict, k as nat) == Ok::<
                    Seq<char>,
                    ParsingErrorView,
                >(out@),
            decreases ms@.len() - k,
        {
            let from: usize = if k == 0 {
                0
            } else {
                ms[k - 1].end
            };
            proof {
                assert(msv[k as int] == ms@[k as int]@);
                assert(gsv[k as int] == groups_view(gs@[k as int]@));
                if k > 0 {
                    assert(msv[k - 1] == ms@[k - 1]@);
                    assert(from == gap_start(msv, k as int));
                    assert(msv[k - 1].1 <= msv[k as int].0);
                    assert(crate::pattern::match_within(content@, msv[k - 1]));
                } else {
                    vstd::utf8::encode_utf8_valid_utf8(content@);
                    is_char_boundary_start_end_of_seq(encode_utf8(content@));
                }
                assert(crate::pattern::match_within(content@, msv[k as int]));
            }
            let gap = byte_slice(content, from, ms[k].start);
            proof {
                encode_utf8_decode_utf8(gap@);
                assert(gap@ == byte_range(content@, gap_start(msv, k as int), msv[k as int].0 as int));
            }
            let piece = piece_of(&gs[k], &ms[k].text, sources, embed_remote, strict);
            let ghost before = out@;
            match piece {
                Err(e) => {
                    proof {
                        assert(ms@[k as int].text@ == msv[k as int].2);
                        assert(image_piece(
                            gsv[k as int],
                            msv[k as int].2,
                            sv,
                            embed_remote,
                            strict,
                        ) == Err::<Seq<char>, ParsingErrorView>(e@));
                        assert(images_before(content@, msv, gsv, sv, embed_remote, strict, (k + 1) as nat)
                            == Err::<Seq<char>, ParsingErrorView>(e@));
                        lemma_refusal_stays(
                            content@,
                            msv,
                            gsv,
                            sv,
                            embed_remote,
                            strict,
                            (k + 1) as nat,
                            msv.len(),
                        );
                    }
                    return Err(e);
                },
                Ok(p) => {
                    append_str(&mut out, gap.as_str());
                    append_str(&mut out, p.as_str());
                    proof {
                        assert(out@ == before + gap@ + p@);
                    }
                },
            }
            k = k + 1;
        }
        let n = byte_len(content);
        let from: usize = if ms.len() == 0 {
            0
        } else {
            ms[ms.len() - 1].end
        };
        proof {
            vstd::utf8::encode_utf8_valid_utf8(content@);
            is_char_boundary_start_end_of_seq(encode_utf8(content@));
            if ms@.len() > 0 {
                assert(msv[ms@.len() - 1] == ms@[ms@.len() - 1]@);
                assert(crate::pattern::match_within(content@, msv[ms@.len() - 1]));
            }
            assert(from == gap_start(msv, msv.len() as int));
        }
        let tail = byte_slice(content, from, n);
        proof {
            encode_utf8_decode_utf8(tail@);
        }
        append_str(&mut out, tail.as_str());
        Ok(ParsingOutcome::new(out))
    }
}

/// The local files that the images of a text refer to, one entry per image
/// in order: its source when it is a local one, else nothing. The caller
/// reads them and hands their data to `HtmlImageRule::parse`.
pub fn image_references(content: &str) -> (r: Result<Vec<Option<String>>, ParsingError>)
    ensures
        regex_compiles(IMAGE_PATTERN@) ==> (r matches Ok(v) && v@.len() == regex_captures_all(
            IMAGE_PATTERN@,
            content@,
        ).len() && forall|i: int|
            0 <= i < v@.len() ==> match #[trigger] v@[i] {
                Some(s) => local_reference(regex_captures_all(IMAGE_PATTERN@, content@)[i]) == Some(
                    s@,
                ),
                None => local_reference(regex_captures_all(IMAGE_PATTERN@, content@)[i]) is None,
            }),
        !regex_compiles(IMAGE_PATTERN@) ==> (r matches Err(e) && e@ == ParsingErrorView::InvalidPattern(
            IMAGE_PATTERN@,
        )),
{
    let gs = match captures_all(IMAGE_PATTERN, content) {
        Some(gs) => gs,
        None => {
            return Err(ParsingError::InvalidPattern(owned(IMAGE_PATTERN)));
        },
    };
    let ghost gsv = regex_captures_all(IMAGE_PATTERN@, content@);
    let mut v: Vec<Option<String>> = Vec::new();
    let mut i: usize = 0;
    while i < gs.len()
        invariant
            i <= gs@.len() == gsv.len(),
            gs@.map_values(|g: Vec<Option<String>>| groups_view(g@)) == gsv,
            v@.len() == i,
            forall|j: int|
                0 <= j < i ==> match #[trigger] v@[j] {
                    Some(s) => local_reference(gsv[j]) == Some(s@),
                    None => local_reference(gsv[j]) is None,
                },
        decreases gs@.len() - i,
    {
        let g = &gs[i];
        proof {
            assert(gsv[i as int] == groups_view(g@));
        }
        let mut entry: Option<String> = None;
        if g.len() > 2 {
            match (&g[1], &g[2]) {
                (Some(_), Some(src)) => {
                    proof {
                        assert(groups_view(g@)[2] == Some(src@));
                    }
                    if !is_valid_remote_resource(src.as_str()) {
                        entry = Some(src.clone());
                    }
                },
                _ => {
                    proof {
                        assert(groups_view(g@)[1] is None || groups_view(g@)[2] is None);
                    }
                },
            }
        }
        let ghost before = v@;
        v.push(entry);
        proof {
            assert forall|j: int| 0 <= j < i + 1 implies match #[trigger] v@[j] {
                Some(s) => local_reference(gsv[j]) == Some(s@),
                None => local_reference(gsv[j]) is None,
            } by {
                if j < i {
                    assert(v@[j] == before[j]);
                }
            }
        }
        i = i + 1;
    }
    Ok(v)
}

} // verus!
