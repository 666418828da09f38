//! The HTML document a PDF report is printed from.
use vstd::prelude::*;

use crate::text::{append_str, string_of};

verus! {

/// Print stylesheet of the PDF report; it uses only fonts a PDF engine
/// resolves without extra configuration.
pub const PDF_STYLE: &'static str = "@page { size: A4; margin: 18mm 16mm; }
body { font-family: 'DejaVu Sans', Arial, sans-serif; color: #1e1b2e; line-height: 1.55; font-size: 11pt; }
h1 { font-size: 22pt; color: #6d28d9; border-bottom: 3px solid #8b5cf6; padding-bottom: 6px; }
h2 { font-size: 15pt; color: #5b21b6; border-left: 4px solid #8b5cf6; padding-left: 10px; margin-top: 22px; }
h3 { font-size: 12pt; color: #4c1d95; margin-top: 16px; }
code { background: #f3f0fb; color: #6d28d9; padding: 1px 5px; border-radius: 4px; font-family: 'DejaVu Sans Mono', monospace; font-size: 9.5pt; }
table { border-collapse: collapse; width: 100%; margin: 10px 0; }
th, td { border: 1px solid #ddd6f3; padding: 5px 9px; text-align: left; font-size: 10pt; }
th { background: #f3f0fb; color: #4c1d95; }
ul { padding-left: 20px; }
";

/// The HTML that pulldown-cmark renders from Markdown text with tables and
/// strikethrough enabled.
pub uninterp spec fn markdown_html(markdown: Seq<char>) -> Seq<char>;

/// Calls `pulldown_cmark::html::push_html` on a `Parser::new_ext` of the
/// text with `ENABLE_TABLES | ENABLE_STRIKETHROUGH`; the rendered HTML is the
/// name `markdown_html` of the text. The CommonMark rules behind it are not
/// restated here.
#[verifier::external_body]
fn render_markdown_html(markdown: &str) -> (r: String)
    ensures
        r@ == markdown_html(markdown@),
{
    let mut options = pulldown_cmark::Options::empty();
    options.insert(pulldown_cmark::Options::ENABLE_TABLES);
    options.insert(pulldown_cmark::Options::ENABLE_STRIKETHROUGH);
    let mut body = String::new();
    pulldown_cmark::html::push_html(&mut body, pulldown_cmark::Parser::new_ext(markdown, options));
    body
}

/// The self-contained HTML document of a Markdown report.
pub open spec fn html_document(body: Seq<char>) -> Seq<char> {
    "<!doctype html><html><head><meta charset=\"utf-8\"><style>"@ + PDF_STYLE@
        + "</style></head><body>"@ + body + "</body></html>"@
}

/// Convert report Markdown into a self-contained HTML document with the
/// print stylesheet.
pub fn markdown_to_html_doc(markdown: &str) -> (r: String)
    ensures
        r@ == html_document(markdown_html(markdown@)),
{
    let body = render_markdown_html(markdown);
    let mut out: Vec<char> = Vec::new();
    append_str(&mut out, "<!doctype html><html><head><meta charset=\"utf-8\"><style>");
    append_str(&mut out, PDF_STYLE);
    append_str(&mut out, "</style></head><body>");
    append_str(&mut out, body.as_str());
    append_str(&mut out, "</body></html>");
    string_of(&out)
}

} // verus!
