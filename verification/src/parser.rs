//! Pages and what is read from them: the links of a listing, the number of
//! its pages, and the fields of an advertisement.

use crate::date::{date_text, lemma_date_text_nonempty, CalendarDate, DateView};
use crate::markup::{
    attr_texts, element_texts, first_text, normalize, normalized_markup, select_attrs,
    select_first_text, select_texts, selected_attrs, selected_texts,
};
use crate::text::{
    decimal_string, decimal_text, digits_in, digits_only, is_digit, lemma_decimal_round_trip,
    lemma_decimal_text_digits, lemma_digits_of_digits, opt_text, parse_decimal, parse_unsigned,
    text_or_empty, texts, trim, trimmed,
};
use crate::utils::{ad_id, announced_date, extract_number, generate_pages, page_urls, parse_date};
use crate::MAIN_URL;
use vstd::prelude::*;
use vstd::string::*;

verus! {

/// Where the date of an advertisement stands in its page.
pub const DATE_SELECTOR: &'static str = "#body > section > div > article > div > div > span";

/// Where the city of an advertisement stands in its page.
pub const CITY_SELECTOR: &'static str =
    "#body > section > div > article > div > div > span:nth-child(2)";

/// Where the name of the seller stands in the page of an advertisement.
pub const SELLER_SELECTOR: &'static str =
    "#body > section > div > article > div > div > dl.ads_page_inf.first > dd";

/// Where the price of an advertisement stands in its page.
pub const PRICE_SELECTOR: &'static str =
    "#body > section > div > article > div > div > div.ads_page_pr";

/// Where the title of an advertisement stands in its page.
pub const TITLE_SELECTOR: &'static str = "#body > section > div > article > div > div > h1";

/// Where the description of an advertisement stands in its page.
pub const DESCRIPTION_SELECTOR: &'static str =
    "#body > section > div > article > div > div > div.ads_page_c";

/// The links to the categories, in the page of all sales.
pub const CATEGORY_SELECTOR: &'static str = "#pdopage > div > div > a";

/// The links to the pages of a listing, in any page of it.
pub const PAGER_SELECTOR: &'static str = "#pager > ul > li > a";

/// The links to the advertisements, in a page of a listing.
pub const AD_LINK_SELECTOR: &'static str =
    "#pdopage > article > div > div > div > div.ads_page_t > a";

/// The attribute that holds the target of a link.
pub const LINK_ATTR: &'static str = "href";

/// Why a page could not be had.
#[derive(Clone, Copy, Debug, PartialEq, Eq)]
pub enum FetchError {
    /// The request did not come back: no connection, no name, no answer in time.
    Transport,
}

/// Why nothing could be read from a page.
#[derive(Clone, Copy, Debug, PartialEq, Eq)]
pub enum ExtractError {
    /// The selector is no valid group of CSS selectors.
    Selector,
}

/// What came back for a request: the status of the answer and its body.
pub struct Reply {
    pub status: u16,
    pub body: String,
}

/// A page that was fetched: its address and its markup.
#[derive(Clone, Debug)]
pub struct HtmlResponse {
    pub url: String,
    pub html: String,
}

impl HtmlResponse {
    pub fn new(url: String, html: String) -> (r: Self)
        ensures
            r.url == url,
            r.html == html,
    {
        Self { url, html }
    }
}

/// Whether an answer with this status is worth a warning: a client error or
/// a server error.
pub fn status_is_error(status: u16) -> (b: bool)
    ensures
        b == (400 <= status <= 599),
{
    400 <= status && status <= 599
}

/// The page that a request for `url` brought. A request that did not come
/// back is an error; an answer with any status is a page, its markup written
/// back by the parser.
pub fn a_html_response(url: String, reply: Option<Reply>) -> (r: Result<HtmlResponse, FetchError>)
    ensures
        match reply {
            Some(answer) => r matches Ok(page) && page.url@ == url@ && page.html@
                == normalized_markup(answer.body@),
            None => r == Err::<HtmlResponse, FetchError>(FetchError::Transport),
        },
{
    match reply {
        Some(answer) => Ok(HtmlResponse::new(url, normalize(answer.body.as_str()))),
        None => Err(FetchError::Transport),
    }
}

/// The targets that are present, each behind the address of the site.
pub open spec fn absolute_links(attrs: Seq<Option<Seq<char>>>) -> Seq<Seq<char>>
    decreases attrs.len(),
{
    if attrs.len() == 0 {
        Seq::empty()
    } else {
        match attrs.last() {
            Some(target) => absolute_links(attrs.drop_last()).push(MAIN_URL@ + target),
            None => absolute_links(attrs.drop_last()),
        }
    }
}

/// The addresses that the elements matching `selector` in `html` link to.
pub open spec fn links_in(html: Seq<char>, selector: Seq<char>) -> Option<Seq<Seq<char>>> {
    match selected_attrs(html, selector, LINK_ATTR@) {
        Some(attrs) => Some(absolute_links(attrs)),
        None => None,
    }
}

/// Whether `link` is the address that the target `attr` stands for.
pub open spec fn is_link_of(attr: Option<Seq<char>>, link: Seq<char>) -> bool {
    match attr {
        Some(target) => link == MAIN_URL@ + target,
        None => false,
    }
}

/// The links are the addresses of the targets that are present, no more
/// and no fewer.
pub proof fn lemma_absolute_links_sources(attrs: Seq<Option<Seq<char>>>, link: Seq<char>)
    ensures
        absolute_links(attrs).contains(link) <==> exists|i: int|
            0 <= i < attrs.len() && is_link_of(#[trigger] attrs[i], link),
    decreases attrs.len(),
{
    let links = absolute_links(attrs);
    if attrs.len() > 0 {
        let rest = attrs.drop_last();
        let last = attrs.len() - 1;
        lemma_absolute_links_sources(rest, link);
        if links.contains(link) {
            if absolute_links(rest).contains(link) {
                let i = choose|i: int| 0 <= i < rest.len() && is_link_of(#[trigger] rest[i], link);
                assert(attrs[i] == rest[i]);
            } else {
                let k = choose|k: int| 0 <= k < links.len() && links[k] == link;
                if attrs[last] is Some && k < links.len() - 1 {
                    assert(absolute_links(rest)[k] == link);
                }
                assert(is_link_of(attrs[last], link));
            }
        }
        if exists|i: int| 0 <= i < attrs.len() && is_link_of(#[trigger] attrs[i], link) {
            let i = choose|i: int| 0 <= i < attrs.len() && is_link_of(#[trigger] attrs[i], link);
            if i < last {
                assert(rest[i] == attrs[i]);
                let k = choose|k: int|
                    0 <= k < absolute_links(rest).len() && absolute_links(rest)[k] == link;
                assert(links[k] == link);
            } else {
                assert(links.last() == link);
            }
        }
    }
}

/// Puts the address of the site before each target that is present.
pub fn links_from(attrs: &Vec<Option<String>>) -> (r: Vec<String>)
    ensures
        texts(r@) == absolute_links(attr_texts(attrs@)),
{
    let mut links: Vec<String> = Vec::new();
    let mut i: usize = 0;
    let ghost all = attr_texts(attrs@);
    assert(all.take(0) =~= Seq::<Option<Seq<char>>>::empty());
    assert(texts(links@) =~= Seq::<Seq<char>>::empty());
    while i < attrs.len()
        invariant
            i <= attrs.len(),
            all == attr_texts(attrs@),
            texts(links@) == absolute_links(all.take(i as int)),
        decreases attrs.len() - i,
    {
        assert(all.take(i + 1).drop_last() == all.take(i as int));
        assert(all.take(i + 1).last() == opt_text(attrs@[i as int]));
        let ghost before = texts(links@);
        match &attrs[i] {
            Some(target) => {
                let mut link = String::from_str(MAIN_URL);
                link.append(target.as_str());
                links.push(link);
                assert(texts(links@) =~= before.push(MAIN_URL@ + target@));
            },
            None => {},
        }
        i = i + 1;
    }
    assert(all.take(attrs.len() as int) == all);
    links
}

/// The links of `body` that `selector` points at.
pub(crate) fn links_of(body: &str, selector: &str) -> (r: Result<Vec<String>, ExtractError>)
    ensures
        match r {
            Ok(links) => links_in(body@, selector@) == Some(texts(links@)),
            Err(e) => e == ExtractError::Selector && links_in(body@, selector@) is None,
        },
{
    match select_attrs(body, selector, LINK_ATTR) {
        Some(attrs) => Ok(links_from(&attrs)),
        None => Err(ExtractError::Selector),
    }
}

/// The addresses of the categories that the page of all sales links to.
pub fn get_categories(body: String) -> (r: Result<Vec<String>, ExtractError>)
    ensures
        match r {
            Ok(links) => links_in(body@, CATEGORY_SELECTOR@) == Some(texts(links@)),
            Err(e) => e == ExtractError::Selector && links_in(body@, CATEGORY_SELECTOR@) is None,
        },
{
    links_of(body.as_str(), CATEGORY_SELECTOR)
}

/// The addresses of the advertisements that a page of a listing links to.
pub fn get_page_ads(body: String) -> (r: Result<Vec<String>, ExtractError>)
    ensures
        match r {
            Ok(links) => links_in(body@, AD_LINK_SELECTOR@) == Some(texts(links@)),
            Err(e) => e == ExtractError::Selector && links_in(body@, AD_LINK_SELECTOR@) is None,
        },
{
    links_of(body.as_str(), AD_LINK_SELECTOR)
}

/// The number of pages that the links to the pages announce: the number
/// written in the first text of the last of them.
pub open spec fn page_count(found: Seq<Seq<Seq<char>>>) -> Option<nat> {
    if found.len() > 0 && found.last().len() > 0 {
        parse_unsigned(trim(found.last()[0]), usize::MAX as nat)
    } else {
        None
    }
}

/// The pages of the listing at `url`, given the links to its pages: as many
/// pages as the links announce, and the listing itself as its only page
/// where they announce no number.
pub open spec fn pages_of(found: Seq<Seq<Seq<char>>>, url: Seq<char>) -> Seq<Seq<char>> {
    match page_count(found) {
        Some(count) => page_urls(url, count),
        None => seq![url],
    }
}

/// The pages of the listing at `url` whose first page is `html`; `None` if
/// the selector of the links to the pages is not valid.
pub open spec fn listing_pages(html: Seq<char>, url: Seq<char>) -> Option<Seq<Seq<char>>> {
    match selected_texts(html, PAGER_SELECTOR@) {
        Some(found) => Some(pages_of(found, url)),
        None => None,
    }
}

/// The addresses of the pages of the listing at `url`, given the texts of
/// the links to its pages.
pub fn pages_from(found: &Vec<Vec<String>>, url: &str) -> (r: Vec<String>)
    ensures
        texts(r@) == pages_of(element_texts(found@), url@),
        page_count(element_texts(found@)) matches Some(count) ==> r@.len() == count,
        page_count(element_texts(found@)) is None ==> r@.len() == 1 && r@[0]@ == url@,
{
    let n: usize = found.len();
    if n > 0 && found[n - 1].len() > 0 {
        assert(element_texts(found@).last()[0] == found@[n - 1]@[0]@);
        let label = trimmed(found[n - 1][0].as_str());
        match parse_decimal(label.as_str(), usize::MAX as u64) {
            Some(count) => {
                let pages = generate_pages(url, count as usize);
                assert(texts(pages@).len() == count);
                return pages;
            },
            None => {},
        }
    }
    let mut pages: Vec<String> = Vec::new();
    pages.push(String::from_str(url));
    assert(texts(pages@) =~= seq![url@]);
    pages
}

/// The addresses of all pages of the listing at `url`, whose first page is
/// `html`.
pub fn all_pages(html: String, url: &str) -> (r: Result<Vec<String>, ExtractError>)
    ensures
        match r {
            Ok(pages) => listing_pages(html@, url@) == Some(texts(pages@)),
            Err(e) => e == ExtractError::Selector && listing_pages(html@, url@) is None,
        },
{
    match select_texts(html.as_str(), PAGER_SELECTOR) {
        Some(found) => Ok(pages_from(&found, url)),
        None => Err(ExtractError::Selector),
    }
}

/// The price that `text` shows: the number that its ASCII digits spell, if
/// it has any and the number fits in 32 bits.
pub open spec fn price_in(text: Seq<char>) -> Option<u32> {
    match parse_unsigned(digits_in(text), u32::MAX as nat) {
        Some(n) => Some(n as u32),
        None => None,
    }
}

/// Reads a price out of a text such as `35 000 ₽`.
pub fn price_from_text(text: &str) -> (r: Option<u32>)
    ensures
        r == price_in(text@),
{
    let digits = digits_only(text);
    match parse_decimal(digits.as_str(), u32::MAX as u64) {
        Some(n) => Some(n as u32),
        None => None,
    }
}

/// The two contacts that a seller can reveal.
#[derive(Clone, Copy, Debug, PartialEq, Eq)]
pub enum Contact {
    Phone,
    Email,
}

/// Where a contact is asked for.
pub const CONTACT_URL: &'static str = "https://sportingshot.ru/kontaktyi_obyavleniya";

/// The form that asks for a contact of the advertisement `id`.
pub open spec fn contact_form(contact: Contact, id: Seq<char>) -> Seq<char> {
    match contact {
        Contact::Phone => "ajax_take=phone&docid="@ + id,
        Contact::Email => "ajax_take=email&docid="@ + id,
    }
}

/// The body of the request that asks for a contact of the advertisement `id`.
pub fn contact_body(contact: Contact, id: &str) -> (r: String)
    ensures
        r@ == contact_form(contact, id@),
{
    let mut body = match contact {
        Contact::Phone => String::from_str("ajax_take=phone&docid="),
        Contact::Email => String::from_str("ajax_take=email&docid="),
    };
    body.append(id);
    body
}

/// A request for one contact of an advertisement.
#[derive(Debug)]
pub struct ContactRequest {
    pub contact: Contact,
    pub body: String,
}

/// The requests to make for the advertisement at `url`: one for its phone,
/// then one for its e-mail address, and none where the address names no
/// advertisement.
pub open spec fn contact_plan(url: Seq<char>) -> Seq<(Contact, Seq<char>)> {
    match ad_id(url) {
        Some(id) => seq![
            (Contact::Phone, contact_form(Contact::Phone, id)),
            (Contact::Email, contact_form(Contact::Email, id)),
        ],
        None => Seq::empty(),
    }
}

/// What each request asks for, and with what body.
pub open spec fn request_texts(requests: Seq<ContactRequest>) -> Seq<(Contact, Seq<char>)> {
    Seq::new(requests.len(), |i: int| (requests[i].contact, requests[i].body@))
}

/// The contact requests to make for the advertisement at `url`.
pub fn contact_requests(url: &str) -> (r: Vec<ContactRequest>)
    ensures
        request_texts(r@) == contact_plan(url@),
        ad_id(url@) is None <==> r@.len() == 0,
{
    let mut requests: Vec<ContactRequest> = Vec::new();
    if let Some(id) = extract_number(url) {
        requests.push(
            ContactRequest {
                contact: Contact::Phone,
                body: contact_body(Contact::Phone, id.as_str()),
            },
        );
        requests.push(
            ContactRequest {
                contact: Contact::Email,
                body: contact_body(Contact::Email, id.as_str()),
            },
        );
    }
    assert(request_texts(requests@) =~= contact_plan(url@));
    requests
}

/// The header that names the browser in a request for a page.
pub const PAGE_USER_AGENT: &'static str = "Mozilla/5.0";

/// The headers that a request for a contact carries, name and value. The
/// site answers such a request only if it carries them as they stand here.
pub open spec fn contact_header_table() -> Seq<(Seq<char>, Seq<char>)> {
    seq![
        ("accept"@, "text/html, */*; q=0.01"@),
        ("accept-language"@, "ru,en;q=0.9"@),
        ("content-type"@, "application/x-www-form-urlencoded; charset=UTF-8"@),
        ("origin"@, "https://sportingshot.ru"@),
        ("priority"@, "u=1, i"@),
        (
            "sec-ch-ua"@,
            "\"Not/A)Brand\";v=\"8\", \"Chromium\";v=\"126\", \"YaBrowser\";v=\"24.7\", \"Yowser\";v=\"2.5\""@,
        ),
        ("sec-ch-ua-mobile"@, "?0"@),
        ("sec-ch-ua-platform"@, "\"macOS\""@),
        ("sec-fetch-dest"@, "empty"@),
        ("sec-fetch-mode"@, "cors"@),
        ("sec-fetch-site"@, "same-origin"@),
        (
            "user-agent"@,
            "Mozilla/5.0 (Macintosh; Intel Mac OS X 10_15_7) AppleWebKit/537.36 (KHTML, like Gecko) Chrome/126.0.0.0 YaBrowser/24.7.0.0 Safari/537.36"@,
        ),
        ("x-requested-with"@, "XMLHttpRequest"@),
    ]
}

/// The name and the value of each header.
pub open spec fn header_texts(headers: Seq<(String, String)>) -> Seq<(Seq<char>, Seq<char>)> {
    Seq::new(headers.len(), |i: int| (headers[i].0@, headers[i].1@))
}

fn header(name: &str, value: &str) -> (r: (String, String))
    ensures
        r.0@ == name@,
        r.1@ == value@,
{
    (String::from_str(name), String::from_str(value))
}

/// The headers of a request for a contact.
pub fn contact_headers() -> (r: Vec<(String, String)>)
    ensures
        header_texts(r@) == contact_header_table(),
{
    let mut headers: Vec<(String, String)> = Vec::new();
    headers.push(header("accept", "text/html, */*; q=0.01"));
    headers.push(header("accept-language", "ru,en;q=0.9"));
    headers.push(header("content-type", "application/x-www-form-urlencoded; charset=UTF-8"));
    headers.push(header("origin", "https://sportingshot.ru"));
    headers.push(header("priority", "u=1, i"));
    headers.push(
        header(
            "sec-ch-ua",
            "\"Not/A)Brand\";v=\"8\", \"Chromium\";v=\"126\", \"YaBrowser\";v=\"24.7\", \"Yowser\";v=\"2.5\"",
        ),
    );
    headers.push(header("sec-ch-ua-mobile", "?0"));
    headers.push(header("sec-ch-ua-platform", "\"macOS\""));
    headers.push(header("sec-fetch-dest", "empty"));
    headers.push(header("sec-fetch-mode", "cors"));
    headers.push(header("sec-fetch-site", "same-origin"));
    headers.push(
        header(
            "user-agent",
            "Mozilla/5.0 (Macintosh; Intel Mac OS X 10_15_7) AppleWebKit/537.36 (KHTML, like Gecko) Chrome/126.0.0.0 YaBrowser/24.7.0.0 Safari/537.36",
        ),
    );
    headers.push(header("x-requested-with", "XMLHttpRequest"));
    assert(header_texts(headers@) =~= contact_header_table());
    headers
}

/// The contact that a request brought: the text of the answer as it is, an
/// empty text too, and an error for a request that did not come back.
pub fn contact_outcome(reply: Option<String>) -> (r: Result<Option<String>, FetchError>)
    ensures
        match reply {
            Some(text) => r == Ok::<Option<String>, FetchError>(Some(text)),
            None => r == Err::<Option<String>, FetchError>(FetchError::Transport),
        },
{
    match reply {
        Some(text) => Ok(Some(text)),
        None => Err(FetchError::Transport),
    }
}

/// The contact that a lookup brought, if it brought one.
pub open spec fn contact_text(outcome: Result<Option<String>, FetchError>) -> Option<Seq<char>> {
    match outcome {
        Ok(Some(text)) => Some(text@),
        _ => None,
    }
}

/// What an advertisement says, field by field; a field that was not found is
/// `None`.
pub struct AdView {
    pub seller: Option<Seq<char>>,
    pub seller_phone: Option<Seq<char>>,
    pub email: Option<Seq<char>>,
    pub city: Option<Seq<char>>,
    pub announce_date: Option<DateView>,
    pub price: Option<u32>,
    pub title: Option<Seq<char>>,
    pub description: Option<Seq<char>>,
    pub url: Option<Seq<char>>,
}

/// An advertisement with no field found.
pub open spec fn empty_ad() -> AdView {
    AdView {
        seller: None,
        seller_phone: None,
        email: None,
        city: None,
        announce_date: None,
        price: None,
        title: None,
        description: None,
        url: None,
    }
}

/// The trimmed text of the first element that `selector` matches in `html`.
pub open spec fn field_text(html: Seq<char>, selector: Seq<char>) -> Option<Seq<char>> {
    match first_text(html, selector) {
        Some(text) => Some(trim(text)),
        None => None,
    }
}

/// `found` if the page has the field, else what was there before.
pub open spec fn found_or<T>(found: Option<T>, before: Option<T>) -> Option<T> {
    match found {
        Some(_) => found,
        None => before,
    }
}

/// The advertisement that the page at `url` with markup `html` shows, given
/// the phone and the e-mail address that the lookups brought. The contacts
/// count only where the address names an advertisement.
pub open spec fn extracted(
    url: Seq<char>,
    html: Seq<char>,
    phone: Option<Seq<char>>,
    email: Option<Seq<char>>,
) -> AdView {
    AdView {
        seller: field_text(html, SELLER_SELECTOR@),
        seller_phone: match (ad_id(url), phone) {
            (Some(_), Some(p)) => Some(digits_in(p)),
            _ => None,
        },
        email: match ad_id(url) {
            Some(_) => email,
            None => None,
        },
        city: field_text(html, CITY_SELECTOR@),
        announce_date: match first_text(html, DATE_SELECTOR@) {
            Some(text) => announced_date(trim(text)),
            None => None,
        },
        price: match first_text(html, PRICE_SELECTOR@) {
            Some(text) => price_in(text),
            None => None,
        },
        title: field_text(html, TITLE_SELECTOR@),
        description: field_text(html, DESCRIPTION_SELECTOR@),
        url: Some(url),
    }
}

/// The row of an advertisement: its nine fields in their fixed order, a
/// field that was not found as the empty text.
pub open spec fn record_of(ad: AdView) -> Seq<Seq<char>> {
    seq![
        text_or_empty(ad.seller),
        text_or_empty(ad.seller_phone),
        text_or_empty(ad.email),
        text_or_empty(ad.city),
        match ad.announce_date {
            Some(date) => date_text(date),
            None => Seq::empty(),
        },
        match ad.price {
            Some(price) => decimal_text(price as nat),
            None => Seq::empty(),
        },
        text_or_empty(ad.title),
        text_or_empty(ad.description),
        text_or_empty(ad.url),
    ]
}

/// Which fields of an advertisement were found, in the order of its row.
pub open spec fn presence(ad: AdView) -> Seq<bool> {
    seq![
        ad.seller is Some,
        ad.seller_phone is Some,
        ad.email is Some,
        ad.city is Some,
        ad.announce_date is Some,
        ad.price is Some,
        ad.title is Some,
        ad.description is Some,
        ad.url is Some,
    ]
}

/// Which fields a row holds: those that are not the empty text.
pub open spec fn row_presence(row: Seq<Seq<char>>) -> Seq<bool> {
    Seq::new(row.len(), |i: int| row[i].len() > 0)
}

/// A text field that was found holds some text.
pub open spec fn found_text(field: Option<Seq<char>>) -> bool {
    field matches Some(text) ==> text.len() > 0
}

/// No text field of the advertisement was found empty.
pub open spec fn no_blank_field(ad: AdView) -> bool {
    &&& found_text(ad.seller)
    &&& found_text(ad.seller_phone)
    &&& found_text(ad.email)
    &&& found_text(ad.city)
    &&& found_text(ad.title)
    &&& found_text(ad.description)
    &&& found_text(ad.url)
}

/// A row read back shows the fields that the advertisement had: a field of
/// the row is empty exactly where the field was not found, and a price that
/// was found reads back as the same price. This holds of every
/// advertisement of which no text field was found empty; a field found empty
/// is written like one not found.
pub proof fn lemma_record_round_trip(ad: AdView)
    requires
        no_blank_field(ad),
    ensures
        record_of(ad).len() == 9,
        row_presence(record_of(ad)) == presence(ad),
        ad.price is Some ==> price_in(record_of(ad)[5]) == ad.price,
{
    if let Some(date) = ad.announce_date {
        lemma_date_text_nonempty(date);
    }
    if let Some(price) = ad.price {
        let written = decimal_text(price as nat);
        lemma_decimal_text_digits(price as nat);
        lemma_digits_of_digits(written);
        lemma_decimal_round_trip(price as nat);
        assert(is_digit(written[0]));
    }
    assert(row_presence(record_of(ad)) =~= presence(ad));
}

/// Which fields the row holds: `true` for each field that is not empty.
pub fn record_presence(row: &[String; 9]) -> (r: [bool; 9])
    ensures
        r@ == row_presence(texts(row@)),
{
    let r = [
        !row[0].as_str().is_empty(),
        !row[1].as_str().is_empty(),
        !row[2].as_str().is_empty(),
        !row[3].as_str().is_empty(),
        !row[4].as_str().is_empty(),
        !row[5].as_str().is_empty(),
        !row[6].as_str().is_empty(),
        !row[7].as_str().is_empty(),
        !row[8].as_str().is_empty(),
    ];
    assert(r@ =~= row_presence(texts(row@)));
    r
}

/// An advertisement: what its page and the contact lookups told of it.
#[derive(Debug)]
pub struct Ad {
    seller: Option<String>,
    seller_phone: Option<String>,
    email: Option<String>,
    city: Option<String>,
    announce_date: Option<CalendarDate>,
    price: Option<u32>,
    title: Option<String>,
    description: Option<String>,
    url: Option<String>,
}

impl View for Ad {
    type V = AdView;

    closed spec fn view(&self) -> AdView {
        AdView {
            seller: opt_text(self.seller),
            seller_phone: opt_text(self.seller_phone),
            email: opt_text(self.email),
            city: opt_text(self.city),
            announce_date: match self.announce_date {
                Some(date) => Some(date@),
                None => None,
            },
            price: self.price,
            title: opt_text(self.title),
            description: opt_text(self.description),
            url: opt_text(self.url),
        }
    }
}

impl Default for Ad {
    fn default() -> (ad: Ad)
        ensures
            ad@ == empty_ad(),
    {
        Ad {
            seller: None,
            seller_phone: None,
            email: None,
            city: None,
            announce_date: None,
            price: None,
            title: None,
            description: None,
            url: None,
        }
    }
}

fn or_empty(field: Option<String>) -> (r: String)
    ensures
        r@ == text_or_empty(opt_text(field)),
{
    match field {
        Some(text) => text,
        None => String::new(),
    }
}

fn stripped(found: Option<String>) -> (r: Option<String>)
    ensures
        opt_text(r) == match opt_text(found) {
            Some(text) => Some(trim(text)),
            None => None,
        },
{
    match found {
        Some(text) => Some(trimmed(text.as_str())),
        None => None,
    }
}

impl Ad {
    /// Builds the advertisement of a fetched page from its markup and from
    /// what the lookups of the phone and of the e-mail address brought. The
    /// phone keeps its digits only. Where the address of the page names no
    /// advertisement, there was nothing to look up, and both contacts stay
    /// empty.
    pub fn from(
        html_r: HtmlResponse,
        phone: Result<Option<String>, FetchError>,
        email: Result<Option<String>, FetchError>,
    ) -> (ad: Ad)
        ensures
            ad@ == extracted(html_r.url@, html_r.html@, contact_text(phone), contact_text(email)),
    {
        let mut ad = Ad::default();
        if let Some(_id) = extract_number(html_r.url.as_str()) {
            if let Ok(Some(number)) = phone {
                ad.seller_phone = Some(digits_only(number.as_str()));
            }
            if let Ok(address) = email {
                ad.email = address;
            }
        }
        ad.get_announce_date(html_r.html.as_str());
        ad.get_city(html_r.html.as_str());
        ad.get_title(html_r.html.as_str());
        ad.get_description(html_r.html.as_str());
        ad.get_price(html_r.html.as_str());
        ad.get_seller(html_r.html.as_str());
        ad.url = Some(html_r.url);
        ad
    }

    /// The nine fields of the advertisement in their fixed order: seller,
    /// phone, e-mail address, city, date, price, title, description, address
    /// of the page. A field that was not found is the empty text.
    pub fn as_record(self) -> (r: [String; 9])
        ensures
            texts(r@) == record_of(self@),
    {
        let date = match self.announce_date {
            Some(d) => d.to_text(),
            None => String::new(),
        };
        let price = match self.price {
            Some(p) => decimal_string(p as u64),
            None => String::new(),
        };
        let r = [
            or_empty(self.seller),
            or_empty(self.seller_phone),
            or_empty(self.email),
            or_empty(self.city),
            date,
            price,
            or_empty(self.title),
            or_empty(self.description),
            or_empty(self.url),
        ];
        assert(texts(r@) =~= record_of(self@));
        r
    }

    /// Reads the date of the announcement from the page. A page that shows
    /// a date field sets the date to what the field spells, be it no date.
    pub fn get_announce_date(&mut self, html: &str)
        ensures
            final(self)@ == (AdView {
                announce_date: match first_text(html@, DATE_SELECTOR@) {
                    Some(text) => announced_date(trim(text)),
                    None => old(self)@.announce_date,
                },
                ..old(self)@
            }),
    {
        if let Some(text) = select_first_text(html, DATE_SELECTOR) {
            let shown = trimmed(text.as_str());
            self.announce_date = parse_date(shown.as_str());
        }
    }

    /// Reads the city from the page.
    pub fn get_city(&mut self, html: &str)
        ensures
            final(self)@ == (AdView {
                city: found_or(field_text(html@, CITY_SELECTOR@), old(self)@.city),
                ..old(self)@
            }),
    {
        if let Some(text) = stripped(select_first_text(html, CITY_SELECTOR)) {
            self.city = Some(text);
        }
    }

    /// Reads the name of the seller from the page.
    pub fn get_seller(&mut self, html: &str)
        ensures
            final(self)@ == (AdView {
                seller: found_or(field_text(html@, SELLER_SELECTOR@), old(self)@.seller),
                ..old(self)@
            }),
    {
        if let Some(text) = stripped(select_first_text(html, SELLER_SELECTOR)) {
            self.seller = Some(text);
        }
    }

    /// Reads the price from the page. A price field without a number leaves
    /// the price as it was.
    pub fn get_price(&mut self, html: &str)
        ensures
            final(self)@ == (AdView {
                price: match first_text(html@, PRICE_SELECTOR@) {
                    Some(text) => found_or(price_in(text), old(self)@.price),
                    None => old(self)@.price,
                },
                ..old(self)@
            }),
    {
        if let Some(text) = select_first_text(html, PRICE_SELECTOR) {
            if let Some(price) = price_from_text(text.as_str()) {
                self.price = Some(price);
            }
        }
    }

    /// Reads the title from the page.
    pub fn get_title(&mut self, html: &str)
        ensures
            final(self)@ == (AdView {
                title: found_or(field_text(html@, TITLE_SELECTOR@), old(self)@.title),
                ..old(self)@
            }),
    {
        if let Some(text) = stripped(select_first_text(html, TITLE_SELECTOR)) {
            self.title = Some(text);
        }
    }

    /// Reads the description from the page.
    pub fn get_description(&mut self, html: &str)
        ensures
            final(self)@ == (AdView {
                description: found_or(
                    field_text(html@, DESCRIPTION_SELECTOR@),
                    old(self)@.description,
                ),
                ..old(self)@
            }),
    {
        if let Some(text) = stripped(select_first_text(html, DESCRIPTION_SELECTOR)) {
            self.description = Some(text);
        }
    }

    /// Which fields were found, in the order of the row.
    pub fn field_presence(&self) -> (r: [bool; 9])
        ensures
            r@ == presence(self@),
    {
        let r = [
            self.seller.is_some(),
            self.seller_phone.is_some(),
            self.email.is_some(),
            self.city.is_some(),
            self.announce_date.is_some(),
            self.price.is_some(),
            self.title.is_some(),
            self.description.is_some(),
            self.url.is_some(),
        ];
        assert(r@ =~= presence(self@));
        r
    }

    pub fn seller(&self) -> (r: &Option<String>)
        ensures
            opt_text(*r) == self@.seller,
    {
        &self.seller
    }

    pub fn seller_phone(&self) -> (r: &Option<String>)
        ensures
            opt_text(*r) == self@.seller_phone,
    {
        &self.seller_phone
    }

    pub fn email(&self) -> (r: &Option<String>)
        ensures
            opt_text(*r) == self@.email,
    {
        &self.email
    }

    pub fn city(&self) -> (r: &Option<String>)
        ensures
            opt_text(*r) == self@.city,
    {
        &self.city
    }

    pub fn announce_date(&self) -> (r: Option<CalendarDate>)
        ensures
            r is Some == self@.announce_date is Some,
            r matches Some(date) ==> Some(date@) == self@.announce_date,
    {
        self.announce_date
    }

    pub fn price(&self) -> (r: Option<u32>)
        ensures
            r == self@.price,
    {
        self.price
    }

    pub fn title(&self) -> (r: &Option<String>)
        ensures
            opt_text(*r) == self@.title,
    {
        &self.title
    }

    pub fn description(&self) -> (r: &Option<String>)
        ensures
            opt_text(*r) == self@.description,
    {
        &self.description
    }

    pub fn url(&self) -> (r: &Option<String>)
        ensures
            opt_text(*r) == self@.url,
    {
        &self.url
    }
}

} // verus!
