//! Scrape helper over the external HTML-parsing and CSS-selector-matching
//! capability: parsed documents and compiled selectors stay opaque; what the
//! adapters rely on is named and stated here, at the trusted boundary.

use vstd::prelude::*;

use crate::error::EngineError;
use crate::error::EngineErrorKind;

verus! {

#[verifier::external_type_specification]
#[verifier::external_body]
pub struct ExHtml(scraper::Html);

#[verifier::external_type_specification]
#[verifier::external_body]
pub struct ExSelector(scraper::Selector);

/// The text a parsed document was parsed from.
pub uninterp spec fn doc_source(d: scraper::Html) -> Seq<char>;

/// The selector text a compiled selector was compiled from.
pub uninterp spec fn sel_source(s: scraper::Selector) -> Seq<char>;

/// Whether a selector text compiles as a CSS selector group.
pub uninterp spec fn selector_compiles(text: Seq<char>) -> bool;

/// The serialized inner contents of the elements matching a selector in a
/// document, in document order.
pub uninterp spec fn selected_texts(doc: Seq<char>, sel: Seq<char>) -> Seq<Seq<char>>;

/// The fields of the result cards matching a card selector in a document, in
/// document order: for each card, its first title match's inner content, its
/// first link match's `href` attribute, and its first description match's
/// inner content — each absent when the card has no such element.
pub uninterp spec fn extracted_cards(
    doc: Seq<char>,
    card_sel: Seq<char>,
    title_sel: Seq<char>,
    href_sel: Seq<char>,
    desc_sel: Seq<char>,
) -> Seq<(Option<Seq<char>>, Option<Seq<char>>, Option<Seq<char>>)>;

/// Raw fields of one result card before normalization; a missing field marks
/// a malformed card, which an adapter skips rather than aborting its call.
pub struct CardFields {
    pub title: Option<String>,
    pub href: Option<String>,
    pub description: Option<String>,
}

/// The view of an optional text field.
pub open spec fn opt_text(o: Option<String>) -> Option<Seq<char>> {
    match o {
        Option::Some(s) => Option::Some(s@),
        Option::None => Option::None,
    }
}

impl View for CardFields {
    type V = (Option<Seq<char>>, Option<Seq<char>>, Option<Seq<char>>);

    open spec fn view(&self) -> Self::V {
        (opt_text(self.title), opt_text(self.href), opt_text(self.description))
    }
}

/// The views of a list of scraped texts.
pub open spec fn text_views(s: Seq<String>) -> Seq<Seq<char>> {
    s.map_values(|t: String| t@)
}

/// The views of a list of scraped cards.
pub open spec fn card_views(s: Seq<CardFields>) -> Seq<
    (Option<Seq<char>>, Option<Seq<char>>, Option<Seq<char>>),
> {
    s.map_values(|c: CardFields| c@)
}

/// Relies on scraper's `Html::parse_document`, which does not fail hard (a
/// malformed input still yields a tree): the tree is a function of the
/// source text alone.
#[verifier::external_body]
pub(crate) fn parse_document(body: &str) -> (d: scraper::Html)
    ensures
        doc_source(d) == body@,
{
    scraper::Html::parse_document(body)
}

/// Relies on scraper's `Selector::parse`: whether a selector group compiles,
/// and the compiled value, depend on the selector text alone.
#[verifier::external_body]
fn compile_selector(text: &str) -> (r: Option<scraper::Selector>)
    ensures
        r is Some <==> selector_compiles(text@),
        r is Some ==> sel_source(r->0) == text@,
{
    scraper::Selector::parse(text).ok()
}

/// Relies on scraper's `Html::select` and `ElementRef::inner_html`: the
/// elements matching a selector, and their serialized inner contents, are a
/// function of the document and the selector alone.
#[verifier::external_body]
pub(crate) fn select_inner_texts(d: &scraper::Html, sel: &scraper::Selector) -> (r: Vec<String>)
    ensures
        text_views(r@) == selected_texts(doc_source(*d), sel_source(*sel)),
{
    d.select(sel).map(|e| e.inner_html()).collect()
}

/// Relies on scraper's `Html::select`, `ElementRef::select`,
/// `ElementRef::inner_html` and `ElementRef::attr`: per card matching the
/// card selector, the first title match's inner content, the first link
/// match's `href` attribute and the first description match's inner content,
/// all functions of the document and the selectors alone.
#[verifier::external_body]
pub(crate) fn extract_cards(
    d: &scraper::Html,
    card_sel: &scraper::Selector,
    title_sel: &scraper::Selector,
    href_sel: &scraper::Selector,
    desc_sel: &scraper::Selector,
) -> (r: Vec<CardFields>)
    ensures
        card_views(r@) == extracted_cards(
            doc_source(*d),
            sel_source(*card_sel),
            sel_source(*title_sel),
            sel_source(*href_sel),
            sel_source(*desc_sel),
        ),
{
    d.select(card_sel).map(
        |card| CardFields {
            title: card.select(title_sel).next().map(|e| e.inner_html()),
            href: card.select(href_sel).next().and_then(|e| e.attr("href")).map(
                |a| a.to_string(),
            ),
            description: card.select(desc_sel).next().map(|e| e.inner_html()),
        },
    ).collect()
}

/// Compiles a named selector, or reports the maintenance failure with the
/// offending selector text attached, so operators can diagnose markup drift.
pub fn compile_selector_checked(text: &String) -> (r: Result<scraper::Selector, EngineError>)
    ensures
        r is Ok <==> selector_compiles(text@),
        r matches Ok(s) ==> sel_source(s) == text@,
        r matches Err(e) ==> e.kind == EngineErrorKind::UnexpectedError && e.message@
            == "invalid CSS selector: "@ + text@,
{
    match compile_selector(text.as_str()) {
        Option::Some(s) => Result::Ok(s),
        Option::None => {
            let mut msg = String::from_str("invalid CSS selector: ");
            msg.append(text.as_str());
            Result::Err(EngineError::unexpected(msg))
        },
    }
}

} // verus!
