//! The advertisements of a listing: the links of all its pages, each address
//! once.

use crate::markup::selected_attrs;
use crate::parser::{
    is_link_of, lemma_absolute_links_sources, links_in, links_of, HtmlResponse, AD_LINK_SELECTOR,
    LINK_ATTR,
};
use crate::text::texts;
use vstd::prelude::*;
use vstd::string::*;

verus! {

/// `acc`, and behind it those of `items` that are not there yet, each once
/// and in the order in which they come.
pub open spec fn add_new(acc: Seq<Seq<char>>, items: Seq<Seq<char>>) -> Seq<Seq<char>>
    decreases items.len(),
{
    if items.len() == 0 {
        acc
    } else {
        let before = add_new(acc, items.drop_last());
        if before.contains(items.last()) {
            before
        } else {
            before.push(items.last())
        }
    }
}

/// The links to advertisements in the page `html`, none if the page cannot
/// be read.
pub open spec fn page_links(html: Seq<char>) -> Seq<Seq<char>> {
    match links_in(html, AD_LINK_SELECTOR@) {
        Some(links) => links,
        None => Seq::empty(),
    }
}

/// The links to advertisements in all the pages, each address once, in the
/// order in which the pages show them first.
pub open spec fn union_links(pages: Seq<HtmlResponse>) -> Seq<Seq<char>>
    decreases pages.len(),
{
    if pages.len() == 0 {
        Seq::empty()
    } else {
        add_new(union_links(pages.drop_last()), page_links(pages.last().html@))
    }
}

/// A page links to an advertisement exactly when one of the elements that
/// the parser found in its markup has the target of that address: no link
/// is made up, and none that the markup holds is left out.
pub proof fn lemma_page_links_sources(html: Seq<char>, url: Seq<char>)
    ensures
        page_links(html).contains(url) <==> (selected_attrs(
            html,
            AD_LINK_SELECTOR@,
            LINK_ATTR@,
        ) matches Some(attrs) && exists|i: int|
            0 <= i < attrs.len() && is_link_of(#[trigger] attrs[i], url)),
{
    match selected_attrs(html, AD_LINK_SELECTOR@, LINK_ATTR@) {
        Some(attrs) => {
            lemma_absolute_links_sources(attrs, url);
        },
        None => {
            if page_links(html).contains(url) {
                let k = choose|k: int| 0 <= k < page_links(html).len() && page_links(html)[k] == url;
            }
        },
    }
}

/// Adding new items adds exactly the items, and repeats nothing.
pub proof fn lemma_add_new(acc: Seq<Seq<char>>, items: Seq<Seq<char>>)
    ensures
        forall|u: Seq<char>| #[trigger]
            add_new(acc, items).contains(u) <==> acc.contains(u) || items.contains(u),
        acc.no_duplicates() ==> add_new(acc, items).no_duplicates(),
        add_new(acc, items).len() >= acc.len(),
        add_new(acc, items).take(acc.len() as int) == acc,
    decreases items.len(),
{
    let all = add_new(acc, items);
    if items.len() == 0 {
        assert(all.take(acc.len() as int) =~= acc);
        assert forall|u: Seq<char>| #[trigger]
            all.contains(u) <==> acc.contains(u) || items.contains(u) by {
            if items.contains(u) {
                let k = choose|k: int| 0 <= k < items.len() && items[k] == u;
            }
        }
    } else {
        let rest = items.drop_last();
        let last = items.last();
        let before = add_new(acc, rest);
        lemma_add_new(acc, rest);
        assert(all.take(acc.len() as int) =~= before.take(acc.len() as int));
        assert forall|u: Seq<char>| #[trigger]
            all.contains(u) <==> acc.contains(u) || items.contains(u) by {
            if all.contains(u) {
                let k = choose|k: int| 0 <= k < all.len() && all[k] == u;
                if k < before.len() {
                    assert(before[k] == u);
                    assert(before.contains(u));
                    if rest.contains(u) {
                        let j = choose|j: int| 0 <= j < rest.len() && rest[j] == u;
                        assert(items[j] == u);
                    }
                } else {
                    assert(u == last);
                    assert(items[items.len() - 1] == u);
                }
            }
            if acc.contains(u) {
                assert(before.contains(u));
                let k = choose|k: int| 0 <= k < before.len() && before[k] == u;
                assert(all[k] == u);
            }
            if items.contains(u) {
                let j = choose|j: int| 0 <= j < items.len() && items[j] == u;
                if j < rest.len() {
                    assert(rest[j] == u);
                    assert(before.contains(u));
                    let k = choose|k: int| 0 <= k < before.len() && before[k] == u;
                    assert(all[k] == u);
                } else {
                    if before.contains(last) {
                    } else {
                        assert(all[all.len() - 1] == u);
                    }
                }
            }
        }
        if acc.no_duplicates() && !before.contains(last) {
            assert forall|i: int, j: int| 0 <= i < all.len() && 0 <= j < all.len() && i != j implies all[i]
                != all[j] by {
                if i < before.len() && j < before.len() {
                } else if i < before.len() {
                    assert(before[i] == all[i]);
                } else {
                    assert(before[j] == all[j]);
                }
            }
        }
    }
}

/// The union holds no address twice, and an address is in it exactly when
/// some page links to it: nothing is lost and nothing is made up.
pub proof fn lemma_union_links(pages: Seq<HtmlResponse>)
    ensures
        union_links(pages).no_duplicates(),
        forall|u: Seq<char>| #[trigger]
            union_links(pages).contains(u) <==> exists|i: int|
                0 <= i < pages.len() && #[trigger] page_links(pages[i].html@).contains(u),
    decreases pages.len(),
{
    let all = union_links(pages);
    if pages.len() > 0 {
        let rest = pages.drop_last();
        let last = pages.len() - 1;
        lemma_union_links(rest);
        lemma_add_new(union_links(rest), page_links(pages.last().html@));
        assert forall|u: Seq<char>| #[trigger]
            all.contains(u) <==> exists|i: int|
                0 <= i < pages.len() && #[trigger] page_links(pages[i].html@).contains(u) by {
            if all.contains(u) {
                if union_links(rest).contains(u) {
                    let i = choose|i: int|
                        0 <= i < rest.len() && #[trigger] page_links(rest[i].html@).contains(u);
                    assert(pages[i] == rest[i]);
                    assert(page_links(pages[i].html@).contains(u));
                } else {
                    assert(page_links(pages[last].html@).contains(u));
                }
            }
            if exists|i: int|
                0 <= i < pages.len() && #[trigger] page_links(pages[i].html@).contains(u) {
                let i = choose|i: int|
                    0 <= i < pages.len() && #[trigger] page_links(pages[i].html@).contains(u);
                if i < last {
                    assert(rest[i] == pages[i]);
                    assert(page_links(rest[i].html@).contains(u));
                }
            }
        }
    } else {
        assert forall|u: Seq<char>| #[trigger]
            all.contains(u) <==> exists|i: int|
                0 <= i < pages.len() && #[trigger] page_links(pages[i].html@).contains(u) by {
            if all.contains(u) {
                let k = choose|k: int| 0 <= k < all.len() && all[k] == u;
            }
        }
    }
}

/// Whether one of the strings holds the text of `item`.
pub fn holds_text(list: &Vec<String>, item: &String) -> (b: bool)
    ensures
        b == texts(list@).contains(item@),
{
    let mut i: usize = 0;
    while i < list.len()
        invariant
            i <= list.len(),
            forall|j: int| 0 <= j < i ==> texts(list@)[j] != item@,
        decreases list.len() - i,
    {
        if list[i] == *item {
            assert(texts(list@)[i as int] == item@);
            return true;
        }
        i = i + 1;
    }
    false
}

/// Puts behind `acc` those of `items` that it does not hold yet.
pub fn add_new_links(acc: &mut Vec<String>, items: Vec<String>)
    ensures
        texts(final(acc)@) == add_new(texts(old(acc)@), texts(items@)),
{
    let ghost start = texts(acc@);
    let ghost all = texts(items@);
    let ghost given = items@;
    assert(all.take(0) =~= Seq::<Seq<char>>::empty());
    for item in it: items.into_iter()
        invariant
            it.seq() == given,
            all == texts(given),
            texts(acc@) == add_new(start, all.take(it.index() as int)),
    {
        assert(all.take(it.index() + 1).drop_last() == all.take(it.index() as int));
        assert(all.take(it.index() + 1).last() == item@);
        let ghost before = texts(acc@);
        if !holds_text(acc, &item) {
            acc.push(item);
            assert(texts(acc@) =~= before.push(item@));
        }
    }
    assert(all.take(all.len() as int) == all);
}

/// The addresses of the advertisements that the pages link to, each once. A
/// page that cannot be read adds nothing.
pub fn collect_page_ads(pages: &Vec<HtmlResponse>) -> (r: Vec<String>)
    ensures
        texts(r@) == union_links(pages@),
        texts(r@).no_duplicates(),
{
    let mut all: Vec<String> = Vec::new();
    let mut i: usize = 0;
    assert(pages@.take(0) =~= Seq::<HtmlResponse>::empty());
    assert(texts(all@) =~= Seq::<Seq<char>>::empty());
    while i < pages.len()
        invariant
            i <= pages.len(),
            texts(all@) == union_links(pages@.take(i as int)),
        decreases pages.len() - i,
    {
        assert(pages@.take(i + 1).drop_last() == pages@.take(i as int));
        match links_of(pages[i].html.as_str(), AD_LINK_SELECTOR) {
            Ok(links) => {
                add_new_links(&mut all, links);
            },
            Err(_) => {
                assert(add_new(texts(all@), Seq::<Seq<char>>::empty()) == texts(all@));
            },
        }
        i = i + 1;
    }
    assert(pages@.take(pages.len() as int) == pages@);
    proof {
        lemma_union_links(pages@);
    }
    all
}

} // verus!
