//! Assembling parsed documents and dossiers into an output artifact.
use vstd::prelude::*;

use crate::chapter::{Chapter, Paragraph};
use crate::configuration::{Artifact, ArtifactError, AssemblerConfiguration, Theme};
use crate::document::{chapters_view, ChapterView, Document};
use crate::loader::ParagraphView;
use crate::parsing::ParsingError;
use crate::resource::ResourceError;
use crate::document_parsing::{documents_view, Dossier};
use crate::html_page::{
    add_container,
    add_script_literal,
    add_style,
    document_html,
    link_html,
    meta_html,
    new_page,
    page_body,
    page_head,
    page_is_html5,
    pairs_view,
    script_html,
    script_link_html,
    section_html,
    section_with_raw,
    style_html,
    title_html,
    to_html_string,
    with_head_link,
    with_head_link_attr,
    with_meta,
    with_script_link_attr,
    with_title,
};
use crate::output_format::OutputFormat;
use crate::text::{append_str, owned};
use build_html::HtmlPage;

verus! {

/// Why an artifact could not be assembled.
#[derive(Debug)]
pub enum AssemblerError {
    /// There is nothing to assemble.
    TooFewElements(String),
    ArtifactError(ArtifactError),
    ParseError(ParsingError),
    /// An element has not been parsed.
    ParsedContentNotFound,
    ResourceError(ResourceError),
}

/// The parsed contents of paragraphs one after the other; `None` when one of
/// them has not been parsed.
pub open spec fn paragraphs_html(ps: Seq<ParagraphView>) -> Option<Seq<char>>
    decreases ps.len(),
{
    if ps.len() == 0 {
        Some(Seq::empty())
    } else {
        match (paragraphs_html(ps.drop_last()), ps.last().1) {
            (Some(a), Some(b)) => Some(a + b),
            _ => None,
        }
    }
}

/// A chapter's parsed heading followed by its parsed paragraphs.
pub open spec fn chapter_html(ch: ChapterView) -> Option<Seq<char>> {
    match (ch.0.2, paragraphs_html(ch.2)) {
        (Some(h), Some(p)) => Some(h + p),
        _ => None,
    }
}

/// Chapters one after the other.
pub open spec fn chapters_html(chs: Seq<ChapterView>) -> Option<Seq<char>>
    decreases chs.len(),
{
    if chs.len() == 0 {
        Some(Seq::empty())
    } else {
        match (chapters_html(chs.drop_last()), chapter_html(chs.last())) {
            (Some(a), Some(b)) => Some(a + b),
            _ => None,
        }
    }
}

/// A document assembled: its preamble, then its chapters; `None` when an
/// element has not been parsed.
pub open spec fn document_body(d: (Seq<char>, Seq<ParagraphView>, Seq<ChapterView>)) -> Option<
    Seq<char>,
> {
    match (paragraphs_html(d.1), chapters_html(d.2)) {
        (Some(a), Some(b)) => Some(a + b),
        _ => None,
    }
}

/// Appends the parsed contents of the paragraphs; false (and the text left
/// as it was or partly extended) when one has none.
fn append_paragraphs(result: &mut String, paragraphs: &Vec<Paragraph>) -> (ok: bool)
    ensures
        ok == (paragraphs_html(crate::chapter::paragraphs_view(paragraphs@)) is Some),
        ok ==> final(result)@ == old(result)@ + paragraphs_html(
            crate::chapter::paragraphs_view(paragraphs@),
        )->0,
{
    let ghost pv = crate::chapter::paragraphs_view(paragraphs@);
    let ghost start = result@;
    let mut i: usize = 0;
    proof {
        assert(pv.take(0) =~= Seq::<ParagraphView>::empty());
    }
    while i < paragraphs.len()
        invariant
            i <= paragraphs@.len() == pv.len(),
            pv == crate::chapter::paragraphs_view(paragraphs@),
            paragraphs_html(pv.take(i as int)) matches Some(h) && result@ == start + h,
        decreases paragraphs@.len() - i,
    {
        let ghost before = result@;
        proof {
            assert(pv.take(i + 1).drop_last() =~= pv.take(i as int));
            assert(pv.take(i + 1).last() == pv[i as int]);
            assert(pv[i as int] == paragraphs@[i as int]@);
        }
        match paragraphs[i].parsed_content() {
            Some(p) => {
                append_str(result, p.as_str());
                proof {
                    let h = paragraphs_html(pv.take(i as int))->0;
                    assert(result@ =~= start + (h + p@));
                }
            },
            None => {
                proof {
                    lemma_paragraphs_html_none(pv, i as int);
                }
                return false;
            },
        }
        i = i + 1;
    }
    proof {
        assert(pv.take(i as int) =~= pv);
    }
    true
}

/// Once a paragraph lacks parsed content, so do the paragraphs up to the end.
proof fn lemma_paragraphs_html_none(ps: Seq<ParagraphView>, i: int)
    requires
        0 <= i < ps.len(),
        ps[i].1 is None,
    ensures
        paragraphs_html(ps) is None,
    decreases ps.len(),
{
    if i < ps.len() - 1 {
        lemma_paragraphs_html_none(ps.drop_last(), i);
    }
}

/// Once a chapter lacks parsed content, so does the sequence.
proof fn lemma_chapters_html_none(chs: Seq<ChapterView>, i: int)
    requires
        0 <= i < chs.len(),
        chapter_html(chs[i]) is None,
    ensures
        chapters_html(chs) is None,
    decreases chs.len(),
{
    if i < chs.len() - 1 {
        lemma_chapters_html_none(chs.drop_last(), i);
    }
}

/// Assembles a document: the parsed contents of its preamble, then, for each
/// chapter, of its heading and its paragraphs; an element not parsed is an
/// error.
pub fn assemble_document(document: &Document) -> (r: Result<Artifact, AssemblerError>)
    ensures
        match document_body(document@) {
            Some(h) => r matches Ok(a) && a.content@ == h,
            None => r matches Err(AssemblerError::ParsedContentNotFound),
        },
{
    let mut result = String::new();
    if !append_paragraphs(&mut result, &document.preamble) {
        return Err(AssemblerError::ParsedContentNotFound);
    }
    let ghost pre = result@;
    let ghost cv = chapters_view(document.chapters@);
    let mut i: usize = 0;
    proof {
        assert(cv.take(0) =~= Seq::<ChapterView>::empty());
        assert(pre =~= Seq::<char>::empty() + paragraphs_html(document@.1)->0);
    }
    while i < document.chapters.len()
        invariant
            i <= document.chapters@.len() == cv.len(),
            cv == chapters_view(document.chapters@),
            cv == document@.2,
            chapters_html(cv.take(i as int)) matches Some(h) && result@ == pre + h,
        decreases document.chapters@.len() - i,
    {
        let chapter: &Chapter = &document.chapters[i];
        proof {
            assert(cv.take(i + 1).drop_last() =~= cv.take(i as int));
            assert(cv.take(i + 1).last() == cv[i as int]);
            assert(cv[i as int] == chapter@);
        }
        let ghost before = result@;
        match chapter.heading.parsed_content() {
            Some(h) => {
                append_str(&mut result, h.as_str());
            },
            None => {
                proof {
                    lemma_chapters_html_none(cv, i as int);
                }
                return Err(AssemblerError::ParsedContentNotFound);
            },
        }
        let ghost after_heading = result@;
        if !append_paragraphs(&mut result, &chapter.paragraphs) {
            proof {
                lemma_chapters_html_none(cv, i as int);
            }
            return Err(AssemblerError::ParsedContentNotFound);
        }
        proof {
            let h = chapters_html(cv.take(i as int))->0;
            let c = chapter_html(cv[i as int])->0;
            assert(result@ =~= pre + (h + c));
        }
        i = i + 1;
    }
    proof {
        assert(cv.take(i as int) =~= cv);
    }
    Ok(Artifact::new(result))
}

// ---------------------------------------------------------------------------
// HTML pages
// ---------------------------------------------------------------------------

pub const PRISM_CORE_JS: &'static str =
    "https://cdnjs.cloudflare.com/ajax/libs/prism/1.29.0/components/prism-core.min.js";

pub const PRISM_AUTOLOADER_JS: &'static str =
    "https://cdnjs.cloudflare.com/ajax/libs/prism/1.29.0/plugins/autoloader/prism-autoloader.min.js";

pub const PRISM_LIGHT_CSS: &'static str =
    "https://cdnjs.cloudflare.com/ajax/libs/prism/1.29.0/themes/prism.css";

pub const PRISM_DARK_CSS: &'static str =
    "https://cdnjs.cloudflare.com/ajax/libs/prism/1.29.0/themes/prism-okaidia.css";

pub const EMOJI_CSS: &'static str = "https://emoji-css.afeld.me/emoji.css";

pub const KATEX_CSS: &'static str = "https://cdn.jsdelivr.net/npm/katex@0.16.9/dist/katex.min.css";

pub const KATEX_CSS_INTEGRITY: &'static str =
    "sha384-n8MVd4RsNIU0tAv4ct0nTaAbDJwPJzDEaqSD1odI+WdtXRGWt2kTvGFasHpSy3SV";

pub const KATEX_JS: &'static str = "https://cdn.jsdelivr.net/npm/katex@0.16.9/dist/katex.min.js";

pub const KATEX_JS_INTEGRITY: &'static str =
    "sha384-XjKyOOlGwcjNTAIQHIpgOno0Hl1YQqzUOEleOLALmuqehneUG+vnGctmUb0ZY0l8";

pub const AUTO_RENDER_JS: &'static str =
    "https://cdn.jsdelivr.net/npm/katex@0.16.9/dist/contrib/auto-render.min.js";

pub const AUTO_RENDER_INTEGRITY: &'static str =
    "sha384-+VBxd3r6XgURycqtZ117nYw44OOcIax56Z4dCRWbxyPt0Koah1uHoK0o4+/RRE05";

/// Renders the math of the page once it is loaded (remote addons).
pub const REMOTE_MATH_RENDERING: &'static str = "\n                document.addEventListener(\"DOMContentLoaded\", function() {\n                    renderMathInElement(document.body, {\n                        \n                        delimiters: [\n                            {left: '$$', right: '$$', display: true},\n                            {left: '$', right: '$', display: false},\n                        ],\n                        \n                        throwOnError : false\n                    });\n                });";

/// Renders the math of the page once it is loaded (embedded addons).
pub const LOCAL_MATH_RENDERING: &'static str = "window.onload = function() {\n            renderMathInElement(document.body, {\n                delimiters: [\n                    {left: '$$', right: '$$', display: true},\n                    {left: '$', right: '$', display: false},\n                ],\n                throwOnError : false\n                });\n        }";

/// The style sheets and scripts that a page embeds when it does not link
/// remote addons, and the default style of each theme.
#[derive(Debug, Clone)]
pub struct HtmlAssets {
    pub emoji_css: String,
    pub katex_css: String,
    pub katex_fonts_css: String,
    pub katex_js: String,
    pub auto_render_js: String,
    pub light_code_css: String,
    pub light_code_js: String,
    pub dark_code_css: String,
    pub dark_code_js: String,
    pub light_theme_css: String,
    pub dark_theme_css: String,
}

/// Whether every asset text is empty.
pub open spec fn no_assets(a: HtmlAssets) -> bool {
    &&& a.emoji_css@.len() == 0
    &&& a.katex_css@.len() == 0
    &&& a.katex_fonts_css@.len() == 0
    &&& a.katex_js@.len() == 0
    &&& a.auto_render_js@.len() == 0
    &&& a.light_code_css@.len() == 0
    &&& a.light_code_js@.len() == 0
    &&& a.dark_code_css@.len() == 0
    &&& a.dark_code_js@.len() == 0
    &&& a.light_theme_css@.len() == 0
    &&& a.dark_theme_css@.len() == 0
}

impl HtmlAssets {
    /// No asset: every text is empty.
    pub fn new() -> (r: Self)
        ensures
            no_assets(r),
    {
        Self {
            emoji_css: String::new(),
            katex_css: String::new(),
            katex_fonts_css: String::new(),
            katex_js: String::new(),
            auto_render_js: String::new(),
            light_code_css: String::new(),
            light_code_js: String::new(),
            dark_code_css: String::new(),
            dark_code_js: String::new(),
            light_theme_css: String::new(),
            dark_theme_css: String::new(),
        }
    }
}

/// A style sheet added to a page: its text, embedded, or the address of a
/// remote one, linked.
#[derive(Debug, Clone)]
pub enum StyleSource {
    Embedded(String),
    Linked(String),
}

pub open spec fn crossorigin_attrs() -> Seq<(Seq<char>, Seq<char>)> {
    seq![("crossorigin"@, "anonymous"@)]
}

pub open spec fn integrity_attrs(hash: Seq<char>) -> Seq<(Seq<char>, Seq<char>)> {
    seq![("integrity"@, hash), ("crossorigin"@, "anonymous"@)]
}

pub open spec fn charset_attrs() -> Seq<(Seq<char>, Seq<char>)> {
    seq![("charset"@, "utf-8"@)]
}

/// Whether a theme has a look of its own for pages.
pub open spec fn page_theme(theme: Theme) -> bool {
    theme == Theme::Light || theme == Theme::Dark
}

/// The links to the remote addons: code highlighting in the style of the
/// theme, emoji, and math rendering.
pub open spec fn remote_addons_html(theme: Theme) -> Seq<char> {
    script_link_html(PRISM_CORE_JS@, crossorigin_attrs()) + script_link_html(
        PRISM_AUTOLOADER_JS@,
        crossorigin_attrs(),
    ) + link_html(
        if theme == Theme::Dark {
            PRISM_DARK_CSS@
        } else {
            PRISM_LIGHT_CSS@
        },
        "stylesheet"@,
        Seq::empty(),
    ) + link_html(EMOJI_CSS@, "stylesheet"@, Seq::empty()) + link_html(
        KATEX_CSS@,
        "stylesheet"@,
        integrity_attrs(KATEX_CSS_INTEGRITY@),
    ) + script_link_html(KATEX_JS@, integrity_attrs(KATEX_JS_INTEGRITY@)) + script_link_html(
        AUTO_RENDER_JS@,
        integrity_attrs(AUTO_RENDER_INTEGRITY@),
    ) + script_html(REMOTE_MATH_RENDERING@)
}

/// The embedded addons: emoji, math rendering, and code highlighting in the
/// style of the theme.
pub open spec fn local_addons_html(theme: Theme, assets: HtmlAssets) -> Seq<char> {
    style_html(assets.emoji_css@) + style_html(assets.katex_css@) + style_html(
        assets.katex_fonts_css@,
    ) + script_html(assets.katex_js@) + script_html(assets.auto_render_js@) + script_html(
        LOCAL_MATH_RENDERING@,
    ) + if theme == Theme::Dark {
        style_html(assets.dark_code_css@) + script_html(assets.dark_code_js@)
    } else {
        style_html(assets.light_code_css@) + script_html(assets.light_code_js@)
    }
}

/// The default style of the theme.
pub open spec fn theme_style_html(theme: Theme, assets: HtmlAssets) -> Seq<char> {
    if theme == Theme::Dark {
        style_html(assets.dark_theme_css@)
    } else {
        style_html(assets.light_theme_css@)
    }
}

/// What a style sheet adds to a page: an embedded one its text; a remote one
/// a script link.
pub open spec fn style_source_html(s: StyleSource) -> Seq<char> {
    match s {
        StyleSource::Embedded(css) => style_html(css@),
        StyleSource::Linked(url) => script_link_html(url@, crossorigin_attrs()),
    }
}

pub open spec fn styles_html(styles: Seq<StyleSource>) -> Seq<char>
    decreases styles.len(),
{
    if styles.len() == 0 {
        Seq::empty()
    } else {
        styles_html(styles.drop_last()) + style_source_html(styles.last())
    }
}

/// The assembled documents, in order; `None` when one cannot be assembled.
pub open spec fn documents_bodies(ds: Seq<(Seq<char>, Seq<ParagraphView>, Seq<ChapterView>)>) -> Option<
    Seq<Seq<char>>,
>
    decreases ds.len(),
{
    if ds.len() == 0 {
        Some(Seq::empty())
    } else {
        match (documents_bodies(ds.drop_last()), document_body(ds.last())) {
            (Some(a), Some(b)) => Some(a.push(b)),
            _ => None,
        }
    }
}

/// One section for each assembled document.
pub open spec fn sections_html(bodies: Seq<Seq<char>>) -> Seq<char>
    decreases bodies.len(),
{
    if bodies.len() == 0 {
        Seq::empty()
    } else {
        sections_html(bodies.drop_last()) + section_html(bodies.last())
    }
}

/// The head of a dossier's page: its title, the character set, the addons
/// (linked or embedded), the theme's style, then the dossier's style sheets.
pub open spec fn dossier_head(
    name: Seq<char>,
    remote_addons: bool,
    theme: Theme,
    assets: HtmlAssets,
    styles: Seq<StyleSource>,
) -> Seq<char> {
    title_html(name) + meta_html(charset_attrs()) + (if remote_addons {
        remote_addons_html(theme)
    } else {
        local_addons_html(theme, assets)
    }) + theme_style_html(theme, assets) + styles_html(styles)
}

/// The page of a dossier: the head above, and one section per document.
pub open spec fn dossier_page(
    name: Seq<char>,
    remote_addons: bool,
    theme: Theme,
    assets: HtmlAssets,
    styles: Seq<StyleSource>,
    bodies: Seq<Seq<char>>,
) -> Seq<char> {
    document_html(dossier_head(name, remote_addons, theme, assets, styles), sections_html(bodies))
}

fn crossorigin() -> (r: Vec<(String, String)>)
    ensures
        pairs_view(r@) == crossorigin_attrs(),
{
    let r = vec![(owned("crossorigin"), owned("anonymous"))];
    proof {
        assert(pairs_view(r@) =~= crossorigin_attrs());
    }
    r
}

fn integrity(hash: &str) -> (r: Vec<(String, String)>)
    ensures
        pairs_view(r@) == integrity_attrs(hash@),
{
    let r = vec![(owned("integrity"), owned(hash)), (owned("crossorigin"), owned("anonymous"))];
    proof {
        assert(pairs_view(r@) =~= integrity_attrs(hash@));
    }
    r
}

/// Assembles dossiers into HTML pages.
#[derive(Debug)]
pub struct HtmlAssembler {
    pub configuration: AssemblerConfiguration,
    pub assets: HtmlAssets,
}

impl HtmlAssembler {
    /// An assembler with the configuration and no assets.
    pub fn new(configuration: AssemblerConfiguration) -> (r: Self)
        ensures
            r.configuration == configuration,
            no_assets(r.assets),
    {
        Self { configuration, assets: HtmlAssets::new() }
    }

    pub fn configuration(&self) -> (r: &AssemblerConfiguration)
        ensures
            r == &self.configuration,
    {
        &self.configuration
    }

    pub fn set_configuration(&mut self, configuration: AssemblerConfiguration)
        ensures
            final(self).configuration == configuration,
            final(self).assets == old(self).assets,
    {
        self.configuration = configuration;
    }

    /// Gives the assembler the texts of the assets it embeds.
    pub fn set_assets(&mut self, assets: HtmlAssets)
        ensures
            final(self).assets == assets,
            final(self).configuration == old(self).configuration,
    {
        self.assets = assets;
    }

    /// Links the remote addons into the head of the page.
    fn apply_remote_addons(&self, page: HtmlPage) -> (r: HtmlPage)
        requires
            page_theme(self.configuration.theme),
        ensures
            page_head(r) == page_head(page) + remote_addons_html(self.configuration.theme),
            page_body(r) == page_body(page),
            page_is_html5(r) == page_is_html5(page),
    {
        let ghost h0 = page_head(page);
        let theme_css = match self.configuration.theme {
            Theme::Dark => PRISM_DARK_CSS,
            _ => PRISM_LIGHT_CSS,
        };
        let crossorigin_attr = crossorigin();
        let mut page = with_script_link_attr(page, PRISM_CORE_JS, &crossorigin_attr);
        page = with_script_link_attr(page, PRISM_AUTOLOADER_JS, &crossorigin_attr);
        page = with_head_link(page, theme_css, "stylesheet");
        page = with_head_link(page, EMOJI_CSS, "stylesheet");
        page = with_head_link_attr(page, KATEX_CSS, "stylesheet", &integrity(KATEX_CSS_INTEGRITY));
        page = with_script_link_attr(page, KATEX_JS, &integrity(KATEX_JS_INTEGRITY));
        page = with_script_link_attr(page, AUTO_RENDER_JS, &integrity(AUTO_RENDER_INTEGRITY));
        add_script_literal(&mut page, REMOTE_MATH_RENDERING);
        proof {
            assert(page_head(page) =~= h0 + remote_addons_html(self.configuration.theme));
        }
        page
    }

    /// Embeds the addons into the head of the page.
    fn apply_local_addons(&self, page: &mut HtmlPage)
        requires
            page_theme(self.configuration.theme),
        ensures
            page_head(*final(page)) == page_head(*old(page)) + local_addons_html(
                self.configuration.theme,
                self.assets,
            ),
            page_body(*final(page)) == page_body(*old(page)),
            page_is_html5(*final(page)) == page_is_html5(*old(page)),
    {
        let ghost h0 = page_head(*page);
        add_style(page, self.assets.emoji_css.as_str());
        add_style(page, self.assets.katex_css.as_str());
        add_style(page, self.assets.katex_fonts_css.as_str());
        add_script_literal(page, self.assets.katex_js.as_str());
        add_script_literal(page, self.assets.auto_render_js.as_str());
        add_script_literal(page, LOCAL_MATH_RENDERING);
        match self.configuration.theme {
            Theme::Dark => {
                add_style(page, self.assets.dark_code_css.as_str());
                add_script_literal(page, self.assets.dark_code_js.as_str());
            },
            _ => {
                add_style(page, self.assets.light_code_css.as_str());
                add_script_literal(page, self.assets.light_code_js.as_str());
            },
        }
        proof {
            assert(page_head(*page) =~= h0 + local_addons_html(self.configuration.theme, self.assets));
        }
    }

    /// Assembles a dossier into one HTML page: titled with the dossier's
    /// name, in UTF-8, with the addons (linked when remote addons are used,
    /// embedded otherwise), the theme's style and the given style sheets,
    /// and one section per document. A dossier without documents, or with
    /// an element not parsed, is an error.
    pub fn assemble_dossier(&self, dossier: &Dossier, styles: &Vec<StyleSource>) -> (r: Result<
        Artifact,
        AssemblerError,
    >)
        requires
            dossier.documents@.len() > 0 ==> page_theme(self.configuration.theme),
        ensures
            dossier.documents@.len() == 0 ==> (r matches Err(AssemblerError::TooFewElements(m))
                && m@ == "there are no documents"@),
            dossier.documents@.len() > 0 ==> match documents_bodies(
                documents_view(dossier.documents@),
            ) {
                Some(bodies) => r matches Ok(a) && a.content@ == dossier_page(
                    dossier.configuration.name@,
                    self.configuration.use_remote_addons,
                    self.configuration.theme,
                    self.assets,
                    styles@,
                    bodies,
                ),
                None => r matches Err(AssemblerError::ParsedContentNotFound),
            },
    {
        if dossier.documents.len() == 0 {
            return Err(AssemblerError::TooFewElements(owned("there are no documents")));
        }
        let ghost theme = self.configuration.theme;
        let ghost name = dossier.configuration.name@;
        let charset = vec![(owned("charset"), owned("utf-8"))];
        proof {
            assert(pairs_view(charset@) =~= charset_attrs());
        }
        let page = with_title(new_page(), dossier.name().as_str());
        let mut page = with_meta(page, &charset);
        if self.configuration.use_remote_addons {
            page = self.apply_remote_addons(page);
        } else {
            self.apply_local_addons(&mut page);
        }
        match self.configuration.theme {
            Theme::Dark => add_style(&mut page, self.assets.dark_theme_css.as_str()),
            _ => add_style(&mut page, self.assets.light_theme_css.as_str()),
        }
        let ghost h1 = page_head(page);
        proof {
            assert(h1 =~= dossier_head(
                name,
                self.configuration.use_remote_addons,
                theme,
                self.assets,
                Seq::empty(),
            ));
        }
        let mut k: usize = 0;
        while k < styles.len()
            invariant
                k <= styles@.len(),
                page_head(page) == h1 + styles_html(styles@.take(k as int)),
                page_body(page) == Seq::<char>::empty(),
                page_is_html5(page),
            decreases styles@.len() - k,
        {
            proof {
                assert(styles@.take(k + 1).drop_last() =~= styles@.take(k as int));
                assert(styles@.take(k + 1).last() == styles@[k as int]);
            }
            match &styles[k] {
                StyleSource::Embedded(css) => add_style(&mut page, css.as_str()),
                StyleSource::Linked(url) => {
                    page = with_script_link_attr(page, url.as_str(), &crossorigin());
                },
            }
            proof {
                assert(page_head(page) =~= h1 + styles_html(styles@.take(k + 1)));
            }
            k = k + 1;
        }
        proof {
            assert(styles@.take(k as int) =~= styles@);
            assert(page_head(page) =~= dossier_head(
                name,
                self.configuration.use_remote_addons,
                theme,
                self.assets,
                styles@,
            ));
        }
        let ghost head = page_head(page);
        let ghost dv = documents_view(dossier.documents@);
        let ghost mut bodies: Seq<Seq<char>> = Seq::empty();
        let mut i: usize = 0;
        proof {
            assert(dv.take(0) =~= Seq::<(Seq<char>, Seq<ParagraphView>, Seq<ChapterView>)>::empty());
        }
        while i < dossier.documents.len()
            invariant
                i <= dossier.documents@.len() == dv.len(),
                dv == documents_view(dossier.documents@),
                documents_bodies(dv.take(i as int)) == Some(bodies),
                page_head(page) == head,
                page_body(page) == sections_html(bodies),
                page_is_html5(page),
            decreases dossier.documents@.len() - i,
        {
            proof {
                assert(dv.take(i + 1).drop_last() =~= dv.take(i as int));
                assert(dv.take(i + 1).last() == dv[i as int]);
                assert(dv[i as int] == dossier.documents@[i as int]@);
            }
            let assembled = match assemble_document(&dossier.documents[i]) {
                Ok(a) => a,
                Err(e) => {
                    proof {
                        lemma_documents_bodies_none(dv, i as int);
                    }
                    return Err(e);
                },
            };
            let section = section_with_raw(assembled.content.as_str());
            add_container(&mut page, section);
            proof {
                let old_bodies = bodies;
                bodies = bodies.push(assembled.content@);
                assert(bodies.drop_last() =~= old_bodies);
                assert(bodies.last() == assembled.content@);
            }
            i = i + 1;
        }
        proof {
            assert(dv.take(i as int) =~= dv);
        }
        Ok(Artifact::new(to_html_string(&page)))
    }

    /// Assembles a document: see [`assemble_document`].
    pub fn assemble_document(&self, document: &Document) -> (r: Result<Artifact, AssemblerError>)
        ensures
            match document_body(document@) {
                Some(h) => r matches Ok(a) && a.content@ == h,
                None => r matches Err(AssemblerError::ParsedContentNotFound),
            },
    {
        assemble_document(document)
    }

    /// Assembles a document on its own: its page title, style sheets, table
    /// of contents and bibliography play no part; it is assembled as
    /// [`assemble_document`] does.
    pub fn assemble_document_standalone(
        &self,
        page_title: &String,
        styles_references: Option<&Vec<String>>,
        document: &Document,
    ) -> (r: Result<Artifact, AssemblerError>)
        ensures
            match document_body(document@) {
                Some(h) => r matches Ok(a) && a.content@ == h,
                None => r matches Err(AssemblerError::ParsedContentNotFound),
            },
    {
        assemble_document(document)
    }
}

/// Once a document cannot be assembled, neither can the sequence.
proof fn lemma_documents_bodies_none(
    ds: Seq<(Seq<char>, Seq<ParagraphView>, Seq<ChapterView>)>,
    i: int,
)
    requires
        0 <= i < ds.len(),
        document_body(ds[i]) is None,
    ensures
        documents_bodies(ds) is None,
    decreases ds.len(),
{
    if i < ds.len() - 1 {
        lemma_documents_bodies_none(ds.drop_last(), i);
    }
}

/// The assembler of an output format.
pub fn from(format: OutputFormat, configuration: AssemblerConfiguration) -> (r: HtmlAssembler)
    ensures
        r.configuration == configuration,
        no_assets(r.assets),
{
    match format {
        OutputFormat::Html => HtmlAssembler::new(configuration),
    }
}

} // verus!
