//! Addresses and dates: page addresses of a category, the identifier and the
//! category that an address names, and the date that an announcement spells.

use crate::date::{date_from_captures, date_from_parts, CalendarDate, DateView};
use crate::parser::{record_of, Ad};
use crate::text::{
    decimal_string, decimal_text, find_char, first_index, lemma_first_index, opt_text, split,
    split_on, texts,
};
use vstd::prelude::*;
use vstd::string::*;

verus! {

/// The address of page `page` of the listing at `url`.
pub open spec fn page_url(url: Seq<char>, page: nat) -> Seq<char> {
    url + "?page="@ + decimal_text(page)
}

/// The addresses of pages 1 to `count` of the listing at `url`.
pub open spec fn page_urls(url: Seq<char>, count: nat) -> Seq<Seq<char>> {
    Seq::new(count, |i: int| page_url(url, (i + 1) as nat))
}

/// The addresses of the pages of a listing, from page 1 to the last page.
pub fn generate_pages(url: &str, last_page_num: usize) -> (r: Vec<String>)
    ensures
        texts(r@) == page_urls(url@, last_page_num as nat),
        r@.len() == last_page_num,
{
    let mut pages: Vec<String> = Vec::new();
    let mut i: usize = 0;
    while i < last_page_num
        invariant
            i <= last_page_num,
            pages@.len() == i,
            forall|j: int| 0 <= j < i ==> (#[trigger] pages@[j])@ == page_url(url@, (j + 1) as nat),
        decreases last_page_num - i,
    {
        let mut page = String::from_str(url);
        page.append("?page=");
        let number = decimal_string((i + 1) as u64);
        page.append(number.as_str());
        pages.push(page);
        i = i + 1;
    }
    assert(texts(pages@) =~= page_urls(url@, last_page_num as nat));
    pages
}

/// What stands before the first `_` of `segment`, if it holds one.
pub open spec fn before_underscore(segment: Seq<char>) -> Option<Seq<char>> {
    if first_index(segment, '_') < segment.len() {
        Some(segment.take(first_index(segment, '_')))
    } else {
        None
    }
}

/// The identifier of the advertisement at `url`: what stands before the first
/// `_` in the sixth of the pieces that `/` cuts the address into. `None` when
/// the address has fewer than six pieces or the sixth holds no `_`.
pub open spec fn ad_id(url: Seq<char>) -> Option<Seq<char>> {
    let parts = split(url, '/');
    if parts.len() >= 6 {
        before_underscore(parts[5])
    } else {
        None
    }
}

/// The identifier of the advertisement at `url`.
pub fn extract_number(url: &str) -> (r: Option<String>)
    ensures
        opt_text(r) == ad_id(url@),
{
    let parts = split_on(url, '/');
    if parts.len() < 6 {
        return None;
    }
    let suffix = parts[5].as_str();
    assert(suffix@ == split(url@, '/')[5]);
    proof {
        lemma_first_index(suffix@, '_');
    }
    match find_char(suffix, '_') {
        Some(pos) => Some(String::from_str(suffix.substring_char(0, pos))),
        None => None,
    }
}

/// The name of the category at `url`: the last but one of the pieces that `/`
/// cuts the address into, and `undefined` for an address without `/`.
pub open spec fn category_name(url: Seq<char>) -> Seq<char> {
    let parts = split(url, '/');
    if parts.len() >= 2 {
        parts[parts.len() - 2]
    } else {
        "undefined"@
    }
}

/// The name of the category at `url`.
pub fn parse_category(url: &str) -> (r: String)
    ensures
        r@ == category_name(url@),
{
    let parts = split_on(url, '/');
    let n: usize = parts.len();
    if n >= 2 {
        assert(parts@[n - 2]@ == split(url@, '/')[n - 2]);
        parts[n - 2].clone()
    } else {
        String::from_str("undefined")
    }
}

/// The pattern of an announcement date: a day, a month name and a year,
/// one space between them.
pub const DATE_PATTERN: &'static str = "(\\d+) (\\w+) (\\d+)";

/// The groups of the leftmost match of the regular expression `pattern` in
/// `text`: the whole match first, then each capture group, `None` for a
/// group that took no part. `None` in all if nothing matches or `pattern` is
/// no regular expression.
pub uninterp spec fn regex_captures(pattern: Seq<char>, text: Seq<char>) -> Option<
    Seq<Option<Seq<char>>>,
>;

/// The views of the groups of a match.
pub open spec fn group_texts(v: Seq<Option<String>>) -> Seq<Option<Seq<char>>> {
    Seq::new(v.len(), |i: int| opt_text(v[i]))
}

/// Calls `regex::Regex::new`, `Regex::captures` and `Captures::iter`.
///
/// Trusted: the result is `regex_captures` of the two texts.
#[verifier::external_body]
fn captures(pattern: &str, text: &str) -> (r: Option<Vec<Option<String>>>)
    ensures
        match r {
            Some(groups) => regex_captures(pattern@, text@) == Some(group_texts(groups@)),
            None => regex_captures(pattern@, text@) is None,
        },
{
    let re = regex::Regex::new(pattern).ok()?;
    let found = re.captures(text)?;
    Some(found.iter().map(|g| g.map(|m| m.as_str().to_string())).collect())
}

/// The date that the groups of a match spell: the day in the first capture
/// group, the month name in the second, the year in the third.
pub open spec fn date_in_groups(groups: Seq<Option<Seq<char>>>) -> Option<DateView> {
    if groups.len() == 4 {
        match (groups[1], groups[2], groups[3]) {
            (Some(day), Some(month), Some(year)) => date_from_parts(day, month, year),
            _ => None,
        }
    } else {
        None
    }
}

/// The date that `text` announces: the date of the first place in it that
/// has the shape of `DATE_PATTERN`.
pub open spec fn announced_date(text: Seq<char>) -> Option<DateView> {
    match regex_captures(DATE_PATTERN@, text) {
        Some(groups) => date_in_groups(groups),
        None => None,
    }
}

/// Builds the date from the groups of a match of `DATE_PATTERN`.
pub fn date_from_groups(groups: &Vec<Option<String>>) -> (r: Option<CalendarDate>)
    ensures
        r is Some <==> date_in_groups(group_texts(groups@)) is Some,
        r matches Some(d) ==> d.wf() && Some(d@) == date_in_groups(group_texts(groups@)),
{
    if groups.len() != 4 {
        return None;
    }
    match (&groups[1], &groups[2], &groups[3]) {
        (Some(day), Some(month), Some(year)) => date_from_captures(
            day.as_str(),
            month.as_str(),
            year.as_str(),
        ),
        _ => None,
    }
}

/// Reads an announcement date such as `12 марта 2023`. `None` for a text
/// without such a date, with an unknown month name, or with a day that the
/// calendar does not have.
pub fn parse_date(date_str: &str) -> (r: Option<CalendarDate>)
    ensures
        r is Some <==> announced_date(date_str@) is Some,
        r matches Some(d) ==> d.wf() && Some(d@) == announced_date(date_str@),
{
    match captures(DATE_PATTERN, date_str) {
        Some(groups) => date_from_groups(&groups),
        None => None,
    }
}

/// The name of the table that holds the advertisements of the category at
/// `url`.
pub open spec fn table_name(url: Seq<char>) -> Seq<char> {
    category_name(url) + ".csv"@
}

/// The name of the table of the category at `url`.
pub fn table_of(url: &str) -> (r: String)
    ensures
        r@ == table_name(url@),
{
    let mut name = parse_category(url);
    name.append(".csv");
    name
}

/// Why a row could not be written.
#[derive(Clone, Copy, Debug, PartialEq, Eq)]
pub enum SinkError {
    /// The writer of the table refused the row.
    Encoding,
}

/// The line that the fields of one row make in a comma-separated table, its
/// end of line included; `None` if the writer of the table refuses the row.
pub uninterp spec fn csv_record(fields: Seq<Seq<char>>) -> Option<Seq<u8>>;

/// Calls `csv::Writer::from_writer` on an empty buffer, `Writer::write_record`
/// and `Writer::into_inner`.
///
/// Trusted: the result is `csv_record` of the fields.
#[verifier::external_body]
fn csv_line(fields: &[String; 9]) -> (r: Option<Vec<u8>>)
    ensures
        match r {
            Some(line) => csv_record(texts(fields@)) == Some(line@),
            None => csv_record(texts(fields@)) is None,
        },
{
    let mut writer = csv::Writer::from_writer(Vec::new());
    writer.write_record(fields.iter()).ok()?;
    writer.into_inner().ok()
}

/// Puts `line` at the end of `table`, if there is a line.
pub fn append_line(table: &mut Vec<u8>, line: Option<Vec<u8>>) -> (r: Result<(), SinkError>)
    ensures
        match line {
            Some(bytes) => r is Ok && final(table)@ == old(table)@ + bytes@,
            None => r == Err::<(), SinkError>(SinkError::Encoding) && final(table)@ == old(table)@,
        },
{
    match line {
        Some(bytes) => {
            let mut bytes = bytes;
            table.append(&mut bytes);
            Ok(())
        },
        None => Err(SinkError::Encoding),
    }
}

/// Puts the row of `ad` at the end of `table`, the bytes of a
/// comma-separated table, and leaves what is there as it is. A row that the
/// writer refuses is an error and changes nothing.
pub fn add_to_csv(ad: Ad, table: &mut Vec<u8>) -> (r: Result<(), SinkError>)
    ensures
        match csv_record(record_of(ad@)) {
            Some(line) => r is Ok && final(table)@ == old(table)@ + line,
            None => r == Err::<(), SinkError>(SinkError::Encoding) && final(table)@ == old(
                table,
            )@,
        },
{
    let record = ad.as_record();
    append_line(table, csv_line(&record))
}

} // verus!
