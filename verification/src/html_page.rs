//! HTML pages, built with the `build_html` crate.
//!
//! A page holds the text of its `<head>` and of its `<body>`; each method of
//! `build_html::HtmlPage` used here appends one element to one of them, and
//! `to_html_string` wraps both in the document skeleton. The two texts are
//! named by uninterpreted spec functions of the page; the contracts below
//! state, from the crate's source, what each call appends.
use build_html::{Container, ContainerType, Html, HtmlContainer, HtmlPage};
use vstd::prelude::*;

verus! {

#[verifier::external_type_specification]
#[verifier::external_body]
pub struct ExHtmlPage(HtmlPage);

#[verifier::external_type_specification]
#[verifier::external_body]
pub struct ExContainer(Container);

/// The text of a page's `<head>`.
pub uninterp spec fn page_head(page: HtmlPage) -> Seq<char>;

/// The text of a page's `<body>`.
pub uninterp spec fn page_body(page: HtmlPage) -> Seq<char>;

/// Whether a page is an HTML5 page (the version `HtmlPage::new` gives).
pub uninterp spec fn page_is_html5(page: HtmlPage) -> bool;

/// The text that a container stands for in the page that holds it.
pub uninterp spec fn container_html(container: Container) -> Seq<char>;

/// Attributes written into a tag: ` key="value"` for each pair, in order.
pub open spec fn attributes_html(attributes: Seq<(Seq<char>, Seq<char>)>) -> Seq<char>
    decreases attributes.len(),
{
    if attributes.len() == 0 {
        Seq::empty()
    } else {
        attributes_html(attributes.drop_last()) + " "@ + attributes.last().0 + "=\""@
            + attributes.last().1 + "\""@
    }
}

pub open spec fn pairs_view(v: Seq<(String, String)>) -> Seq<(Seq<char>, Seq<char>)> {
    v.map_values(|p: (String, String)| (p.0@, p.1@))
}

pub open spec fn title_html(title: Seq<char>) -> Seq<char> {
    "<title>"@ + title + "</title>"@
}

pub open spec fn meta_html(attributes: Seq<(Seq<char>, Seq<char>)>) -> Seq<char> {
    "<meta"@ + attributes_html(attributes) + ">"@
}

pub open spec fn script_link_html(src: Seq<char>, attributes: Seq<(Seq<char>, Seq<char>)>) -> Seq<
    char,
> {
    "<script src=\""@ + src + "\""@ + attributes_html(attributes) + "></script>"@
}

pub open spec fn link_html(
    href: Seq<char>,
    rel: Seq<char>,
    attributes: Seq<(Seq<char>, Seq<char>)>,
) -> Seq<char> {
    "<link href=\""@ + href + "\" rel=\""@ + rel + "\""@ + attributes_html(attributes) + ">"@
}

pub open spec fn script_html(code: Seq<char>) -> Seq<char> {
    "<script>"@ + code + "</script>"@
}

pub open spec fn style_html(css: Seq<char>) -> Seq<char> {
    "<style>"@ + css + "</style>"@
}

pub open spec fn section_html(raw: Seq<char>) -> Seq<char> {
    "<section>"@ + raw + "</section>"@
}

/// An HTML5 document with the given head and body.
pub open spec fn document_html(head: Seq<char>, body: Seq<char>) -> Seq<char> {
    "<!DOCTYPE html><html><head>"@ + head + "</head><body>"@ + body + "</body></html>"@
}

/// `HtmlPage::new`: an empty HTML5 page.
#[verifier::external_body]
pub(crate) fn new_page() -> (r: HtmlPage)
    ensures
        page_head(r) == Seq::<char>::empty(),
        page_body(r) == Seq::<char>::empty(),
        page_is_html5(r),
{
    HtmlPage::new()
}

/// `HtmlPage::with_title`: appends `<title>title</title>` to the head.
#[verifier::external_body]
pub(crate) fn with_title(page: HtmlPage, title: &str) -> (r: HtmlPage)
    ensures
        page_head(r) == page_head(page) + title_html(title@),
        page_body(r) == page_body(page),
        page_is_html5(r) == page_is_html5(page),
{
    page.with_title(title)
}

/// `HtmlPage::with_meta`: appends a `<meta>` element with the attributes to
/// the head.
#[verifier::external_body]
pub(crate) fn with_meta(page: HtmlPage, attributes: &Vec<(String, String)>) -> (r: HtmlPage)
    ensures
        page_head(r) == page_head(page) + meta_html(pairs_view(attributes@)),
        page_body(r) == page_body(page),
        page_is_html5(r) == page_is_html5(page),
{
    page.with_meta(attributes.clone())
}

/// `HtmlPage::with_script_link_attr`: appends
/// `<script src="src" ...></script>` to the head.
#[verifier::external_body]
pub(crate) fn with_script_link_attr(
    page: HtmlPage,
    src: &str,
    attributes: &Vec<(String, String)>,
) -> (r: HtmlPage)
    ensures
        page_head(r) == page_head(page) + script_link_html(src@, pairs_view(attributes@)),
        page_body(r) == page_body(page),
        page_is_html5(r) == page_is_html5(page),
{
    page.with_script_link_attr(src, attributes.clone())
}

/// `HtmlPage::with_head_link`: appends `<link href="href" rel="rel">` to the
/// head.
#[verifier::external_body]
pub(crate) fn with_head_link(page: HtmlPage, href: &str, rel: &str) -> (r: HtmlPage)
    ensures
        page_head(r) == page_head(page) + link_html(href@, rel@, Seq::empty()),
        page_body(r) == page_body(page),
        page_is_html5(r) == page_is_html5(page),
{
    page.with_head_link(href, rel)
}

/// `HtmlPage::with_head_link_attr`: appends a `<link>` element with the
/// attributes to the head.
#[verifier::external_body]
pub(crate) fn with_head_link_attr(
    page: HtmlPage,
    href: &str,
    rel: &str,
    attributes: &Vec<(String, String)>,
) -> (r: HtmlPage)
    ensures
        page_head(r) == page_head(page) + link_html(href@, rel@, pairs_view(attributes@)),
        page_body(r) == page_body(page),
        page_is_html5(r) == page_is_html5(page),
{
    page.with_head_link_attr(href, rel, attributes.clone())
}

/// `HtmlPage::add_script_literal`: appends `<script>code</script>` to the
/// head.
#[verifier::external_body]
pub(crate) fn add_script_literal(page: &mut HtmlPage, code: &str)
    ensures
        page_head(*final(page)) == page_head(*old(page)) + script_html(code@),
        page_body(*final(page)) == page_body(*old(page)),
        page_is_html5(*final(page)) == page_is_html5(*old(page)),
{
    page.add_script_literal(code)
}

/// `HtmlPage::add_style`: appends `<style>css</style>` to the head.
#[verifier::external_body]
pub(crate) fn add_style(page: &mut HtmlPage, css: &str)
    ensures
        page_head(*final(page)) == page_head(*old(page)) + style_html(css@),
        page_body(*final(page)) == page_body(*old(page)),
        page_is_html5(*final(page)) == page_is_html5(*old(page)),
{
    page.add_style(css)
}

/// `Container::new(ContainerType::Section)` then `with_raw(raw)`: a section
/// whose only child is the raw text.
#[verifier::external_body]
pub(crate) fn section_with_raw(raw: &str) -> (r: Container)
    ensures
        container_html(r) == section_html(raw@),
{
    Container::new(ContainerType::Section).with_raw(raw)
}

/// `HtmlContainer::add_container` on a page: appends the container's text
/// to the body.
#[verifier::external_body]
pub(crate) fn add_container(page: &mut HtmlPage, container: Container)
    ensures
        page_body(*final(page)) == page_body(*old(page)) + container_html(container),
        page_head(*final(page)) == page_head(*old(page)),
        page_is_html5(*final(page)) == page_is_html5(*old(page)),
{
    page.add_container(container)
}

/// `Html::to_html_string` of a page: for an HTML5 page, the doctype, then
/// the head and the body in their elements.
#[verifier::external_body]
pub(crate) fn to_html_string(page: &HtmlPage) -> (r: String)
    ensures
        page_is_html5(*page) ==> r@ == document_html(page_head(*page), page_body(*page)),
{
    page.to_html_string()
}

} // verus!
