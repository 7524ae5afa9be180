//! What the HTML parser finds in a page: the elements that a CSS selector
//! matches, read as plain text.
//!
//! Parsing and matching are the work of the `scraper` crate. Their results
//! are named here, as functions of the page and the selector alone, and the
//! rest of the library is stated over those names.

use crate::text::{concat, joined, opt_text, texts};
use vstd::prelude::*;
use vstd::string::*;

verus! {

/// The text nodes below each element of the page `html` that `selector`
/// matches, element by element in the order in which the parser yields
/// them; `None` if `selector` is no valid group of CSS selectors.
pub uninterp spec fn selected_texts(html: Seq<char>, selector: Seq<char>) -> Option<
    Seq<Seq<Seq<char>>>,
>;

/// The value of the attribute `attr` of each element of the page `html` that
/// `selector` matches, in the order in which the parser yields them, `None`
/// for an element without the attribute; `None` in all if `selector` is no
/// valid group of CSS selectors.
pub uninterp spec fn selected_attrs(html: Seq<char>, selector: Seq<char>, attr: Seq<char>) -> Option<
    Seq<Option<Seq<char>>>,
>;

/// The page `html` as the parser writes it back: the serialised root element
/// of the parsed document.
pub uninterp spec fn normalized_markup(html: Seq<char>) -> Seq<char>;

/// The views of the text nodes of each element.
pub open spec fn element_texts(v: Seq<Vec<String>>) -> Seq<Seq<Seq<char>>> {
    Seq::new(v.len(), |i: int| texts(v[i]@))
}

/// The views of the attribute values.
pub open spec fn attr_texts(v: Seq<Option<String>>) -> Seq<Option<Seq<char>>> {
    Seq::new(v.len(), |i: int| opt_text(v[i]))
}

/// Calls `scraper::Selector::parse`, `scraper::Html::parse_document`,
/// `Html::select` and, on each element found, `ElementRef::text`.
///
/// Trusted: the result is `selected_texts` of the two texts.
#[verifier::external_body]
pub(crate) fn select_texts(html: &str, selector: &str) -> (r: Option<Vec<Vec<String>>>)
    ensures
        match r {
            Some(v) => selected_texts(html@, selector@) == Some(element_texts(v@)),
            None => selected_texts(html@, selector@) is None,
        },
{
    let sel = scraper::Selector::parse(selector).ok()?;
    let doc = scraper::Html::parse_document(html);
    Some(doc.select(&sel).map(|e| e.text().map(|t| t.to_string()).collect()).collect())
}

/// Calls `scraper::Selector::parse`, `scraper::Html::parse_document`,
/// `Html::select` and, on each element found, `Element::attr`.
///
/// Trusted: the result is `selected_attrs` of the three texts.
#[verifier::external_body]
pub(crate) fn select_attrs(html: &str, selector: &str, attr: &str) -> (r: Option<
    Vec<Option<String>>,
>)
    ensures
        match r {
            Some(v) => selected_attrs(html@, selector@, attr@) == Some(attr_texts(v@)),
            None => selected_attrs(html@, selector@, attr@) is None,
        },
{
    let sel = scraper::Selector::parse(selector).ok()?;
    let doc = scraper::Html::parse_document(html);
    Some(doc.select(&sel).map(|e| e.value().attr(attr).map(|v| v.to_string())).collect())
}

/// Calls `scraper::Html::parse_document`, `Html::root_element` and
/// `ElementRef::html`.
///
/// Trusted: the result is `normalized_markup` of the text.
#[verifier::external_body]
pub(crate) fn normalize(html: &str) -> (r: String)
    ensures
        r@ == normalized_markup(html@),
{
    scraper::Html::parse_document(html).root_element().html()
}

/// The whole text of the first element that `selector` matches in `html`:
/// its text nodes, joined. `None` if nothing matches or the selector is not
/// valid.
pub open spec fn first_text(html: Seq<char>, selector: Seq<char>) -> Option<Seq<char>> {
    match selected_texts(html, selector) {
        Some(found) => if found.len() > 0 {
            Some(concat(found[0]))
        } else {
            None
        },
        None => None,
    }
}

/// The first text node of the last element that `selector` matches in
/// `html`. `None` if nothing matches, that element holds no text, or the
/// selector is not valid.
pub open spec fn last_label(html: Seq<char>, selector: Seq<char>) -> Option<Seq<char>> {
    match selected_texts(html, selector) {
        Some(found) => if found.len() > 0 && found.last().len() > 0 {
            Some(found.last()[0])
        } else {
            None
        },
        None => None,
    }
}

/// Of the elements found, the whole text of the first.
pub fn first_of(found: &Vec<Vec<String>>) -> (r: Option<String>)
    ensures
        opt_text(r) == if found@.len() > 0 {
            Some(concat(texts(found@[0]@)))
        } else {
            None
        },
{
    if found.len() > 0 {
        Some(joined(&found[0]))
    } else {
        None
    }
}

/// Of the elements found, the first text node of the last.
pub fn label_of_last(found: &Vec<Vec<String>>) -> (r: Option<String>)
    ensures
        opt_text(r) == if found@.len() > 0 && found@.last()@.len() > 0 {
            Some(found@.last()@[0]@)
        } else {
            None
        },
{
    let n: usize = found.len();
    if n > 0 && found[n - 1].len() > 0 {
        Some(found[n - 1][0].clone())
    } else {
        None
    }
}

/// The whole text of the first element of `html` that `selector` matches.
pub fn select_first_text(html: &str, selector: &str) -> (r: Option<String>)
    ensures
        opt_text(r) == first_text(html@, selector@),
{
    match select_texts(html, selector) {
        Some(found) => first_of(&found),
        None => None,
    }
}

/// The first text node of the last element of `html` that `selector`
/// matches.
pub fn select_last_label(html: &str, selector: &str) -> (r: Option<String>)
    ensures
        opt_text(r) == last_label(html@, selector@),
{
    match select_texts(html, selector) {
        Some(found) => label_of_last(&found),
        None => None,
    }
}

} // verus!
