//! Pages: the templates, their placeholders, and the rendering of a text file.

use vstd::prelude::*;
use vstd::string::*;
use vstd::utf8::*;
use crate::error::{Failure, SiteError};
use crate::text::{ends_with, substitute, substituted};

verus! {

/// The two templates from which every page is made.
#[derive(Debug, Clone, PartialEq, Eq)]
pub struct Templates {
    /// The outer page, with the slots `{{breadcrumbs}}` and `{{content}}`.
    pub page: String,
    /// The directory listing, with the slots `{{content}}` and `{{name}}`.
    pub listing: String,
}

/// The texts of the two templates.
pub struct TemplateTexts {
    pub page: Seq<char>,
    pub listing: Seq<char>,
}

impl View for Templates {
    type V = TemplateTexts;

    open spec fn view(&self) -> TemplateTexts {
        TemplateTexts { page: self.page@, listing: self.listing@ }
    }
}

/// The outer page with its trail filled in first and its content second.
pub open spec fn filled_page(template: Seq<char>, trail: Seq<char>, content: Seq<char>) -> Seq<
    char,
> {
    substituted(substituted(template, "{{breadcrumbs}}"@, trail), "{{content}}"@, content)
}

/// The listing template with the list items filled in first and the
/// directory's name second.
pub open spec fn filled_listing(template: Seq<char>, items: Seq<char>, name: Seq<char>) -> Seq<
    char,
> {
    substituted(substituted(template, "{{content}}"@, items), "{{name}}"@, name)
}

/// A plain text shown as it is, inside a preformatted block.
pub open spec fn preformatted(text: Seq<char>) -> Seq<char> {
    "<pre class=\"text-file\">"@ + text + "</pre>"@
}

/// The HTML that the markdown converter makes of a text, or `None` where it
/// reports an error.
pub uninterp spec fn markdown_html(text: Seq<char>) -> Option<Seq<char>>;

/// The HTML body of a text file: converted from markdown where the name ends
/// in `.md`, preformatted otherwise.
pub open spec fn text_body(name: Seq<char>, text: Seq<char>) -> Option<Seq<char>> {
    if ".md"@.is_suffix_of(name) {
        markdown_html(text)
    } else {
        Some(preformatted(text))
    }
}

/// The page of a text file, or the failure that stops it: bytes that are not
/// UTF-8 come first, a markdown error second.
pub open spec fn text_file_page(
    name: Seq<char>,
    content: Seq<u8>,
    trail: Seq<char>,
    template: Seq<char>,
) -> Result<Seq<char>, Failure> {
    if !valid_utf8(content) {
        Err(Failure::InvalidEncoding { file: name })
    } else {
        match text_body(name, decode_utf8(content)) {
            Some(body) => Ok(filled_page(template, trail, body)),
            None => Err(Failure::RenderFailure { file: name }),
        }
    }
}

/// `markdown::message::Message`, the converter's error, carried through
/// without a look inside.
#[verifier::external_type_specification]
#[verifier::external_body]
pub struct ExMessage(markdown::message::Message);

/// Calls `markdown::to_html_with_options`, with raw HTML let through and every
/// other option at its default. The result is that of the converter for this
/// text: its HTML, or its error.
#[verifier::external_body]
fn markdown_to_html(text: &str) -> (r: Result<String, markdown::message::Message>)
    ensures
        match r {
            Ok(html) => markdown_html(text@) == Some(html@),
            Err(_) => markdown_html(text@) is None,
        },
{
    markdown::to_html_with_options(
        text,
        &markdown::Options {
            compile: markdown::CompileOptions {
                allow_dangerous_html: true,
                ..markdown::CompileOptions::default()
            },
            ..markdown::Options::default()
        },
    )
}

/// Calls `std::str::from_utf8`. It succeeds exactly on valid UTF-8, and the
/// string it gives then has the bytes it was given.
#[verifier::external_body]
fn utf8_text(bytes: &[u8]) -> (r: Option<&str>)
    ensures
        r is Some <==> valid_utf8(bytes@),
        r matches Some(s) ==> s.spec_bytes() == bytes@,
{
    match std::str::from_utf8(bytes) {
        Ok(s) => Some(s),
        Err(_) => None,
    }
}

/// Reads bytes as UTF-8 text.
pub fn decode_text(bytes: &[u8]) -> (r: Option<&str>)
    ensures
        r is Some <==> valid_utf8(bytes@),
        r matches Some(s) ==> s@ == decode_utf8(bytes@),
{
    let r = utf8_text(bytes);
    proof {
        if let Some(s) = r {
            encode_utf8_decode_utf8(s@);
        }
    }
    r
}

/// Fills the outer page template.
pub fn page_html(template: &str, breadcrumbs: &str, content: &str) -> (html: String)
    ensures
        html@ == filled_page(template@, breadcrumbs@, content@),
{
    let with_trail = substitute(template, "{{breadcrumbs}}", breadcrumbs);
    substitute(with_trail.as_str(), "{{content}}", content)
}

/// Fills the directory listing template.
pub fn listing_html(template: &str, items: &str, name: &str) -> (html: String)
    ensures
        html@ == filled_listing(template@, items@, name@),
{
    let with_items = substitute(template, "{{content}}", items);
    substitute(with_items.as_str(), "{{name}}", name)
}

/// Wraps a plain text in a preformatted block.
pub fn preformatted_html(text: &str) -> (html: String)
    ensures
        html@ == preformatted(text@),
{
    let mut html = "<pre class=\"text-file\">".to_owned();
    html.append(text);
    html.append("</pre>");
    html
}

/// The page of a text file whose body is already made, or the failure to
/// report where the body could not be made.
pub fn finish_text_page(
    name: &str,
    body: Option<String>,
    breadcrumbs: &str,
    template: &str,
) -> (r: Result<String, SiteError>)
    ensures
        match body {
            Some(b) => r matches Ok(html) && html@ == filled_page(template@, breadcrumbs@, b@),
            None => r matches Err(e) && e@ == (Failure::RenderFailure { file: name@ }),
        },
{
    match body {
        Some(b) => Ok(page_html(template, breadcrumbs, b.as_str())),
        None => Err(SiteError::RenderFailure { file: name.to_owned() }),
    }
}

/// Renders a text file as a page: markdown is converted, any other text is
/// shown preformatted, and the result is set into the outer template.
pub fn render_text_file(name: &str, content: &[u8], breadcrumbs: &str, template: &str) -> (r:
    Result<String, SiteError>)
    ensures
        match r {
            Ok(html) => text_file_page(name@, content@, breadcrumbs@, template@) == Ok::<
                Seq<char>,
                Failure,
            >(html@),
            Err(e) => text_file_page(name@, content@, breadcrumbs@, template@) == Err::<
                Seq<char>,
                Failure,
            >(e@),
        },
{
    match decode_text(content) {
        None => Err(SiteError::InvalidEncoding { file: name.to_owned() }),
        Some(text) => {
            let body = if ends_with(name, ".md") {
                match markdown_to_html(text) {
                    Ok(html) => Some(html),
                    Err(_) => None,
                }
            } else {
                Some(preformatted_html(text))
            };
            finish_text_page(name, body, breadcrumbs, template)
        },
    }
}

} // verus!
