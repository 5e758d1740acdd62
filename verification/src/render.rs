//! From the markdown of a document to what a page shows of it: the HTML,
//! and the same text with the markup taken out.

use vstd::prelude::*;
use crate::front_matter::HEADER_DELIMITER;

verus! {

/// A rendered document.
#[derive(Debug)]
pub struct Rendered {
    /// The document as HTML; markup that the document holds itself is kept.
    pub html: String,
    /// The HTML without its tags.
    pub plain_text: String,
}

/// How markdown is rendered.
#[derive(Clone, Copy, Debug, PartialEq, Eq, Structural)]
pub struct Markdown {
    /// HTML that the text holds itself is passed through as it is.
    pub raw_html: bool,
    /// Straight quotes, dashes and dots become typographic ones.
    pub smart: bool,
    /// Text between tildes is struck through.
    pub strikethrough: bool,
    /// Tags that could harm a page are made harmless.
    pub tagfilter: bool,
}

/// The HTML that a markdown text renders to under the given options, when
/// a preamble between lines of `delimiter` is passed over.
pub uninterp spec fn markdown_html(source: Seq<char>, delimiter: Seq<char>, how: Markdown) -> Seq<
    char,
>;

/// What is left of an HTML text when its tags are taken out.
pub uninterp spec fn without_tags(html: Seq<char>) -> Seq<char>;

/// `comrak::markdown_to_html`, with the options `render.unsafe_`,
/// `parse.smart`, `extension.strikethrough`, `extension.tagfilter` and
/// `extension.front_matter_delimiter` set as given and all others at
/// their defaults. The contract names the result.
#[verifier::external_body]
pub(crate) fn markdown_to_html(source: &str, delimiter: &str, how: Markdown) -> (r: String)
    ensures
        r@ == markdown_html(source@, delimiter@, how),
{
    let mut options = comrak::ComrakOptions::default();
    options.render.unsafe_ = how.raw_html;
    options.parse.smart = how.smart;
    options.extension.front_matter_delimiter = Some(delimiter.to_string());
    options.extension.strikethrough = how.strikethrough;
    options.extension.tagfilter = how.tagfilter;
    comrak::markdown_to_html(source, &options)
}

/// `voca_rs::strip::strip_tags`: the text without its HTML tags. The
/// contract names the result.
#[verifier::external_body]
pub(crate) fn strip_tags(html: &str) -> (r: String)
    ensures
        r@ == without_tags(html@),
{
    voca_rs::strip::strip_tags(html)
}

/// How the documents of a site are rendered: the author is trusted, so
/// HTML in a document is passed through and no tag is filtered; smart
/// punctuation and strikethrough are on.
pub open spec fn site_markdown() -> Markdown {
    Markdown { raw_html: true, smart: true, strikethrough: true, tagfilter: false }
}

/// The HTML of a document.
pub open spec fn document_html(source: Seq<char>) -> Seq<char> {
    markdown_html(source, HEADER_DELIMITER@, site_markdown())
}

/// Renders a document: its markdown becomes HTML, and the HTML without its
/// tags becomes the plain text. The preamble is passed over.
pub fn render(source: &str) -> (r: Rendered)
    ensures
        r.html@ == document_html(source@),
        r.plain_text@ == without_tags(r.html@),
{
    let how = Markdown { raw_html: true, smart: true, strikethrough: true, tagfilter: false };
    let html = markdown_to_html(source, HEADER_DELIMITER, how);
    let plain_text = strip_tags(html.as_str());
    Rendered { html, plain_text }
}

} // verus!
