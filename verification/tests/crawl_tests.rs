use adcrawl::crawl::{Action, Crawl, Event, Stage, CONCURRENCY, COOLDOWN_SECS};
use adcrawl::listing::{add_new_links, collect_page_ads, holds_text};
use adcrawl::parser::{a_html_response, Ad, FetchError, HtmlResponse, Reply};
use adcrawl::utils::{add_to_csv, append_line, table_of, SinkError};

const A: &str = "https://sportingshot.ru/sales/oruzhie/";
const B: &str = "https://sportingshot.ru/sales/optika/";

fn teasers(hrefs: &[String]) -> String {
    let mut all = String::new();
    for href in hrefs {
        all.push_str(&format!(
            "<article><div><div><div><div class=\"ads_page_t\"><a href=\"{}\">ad</a></div></div></div></div></article>",
            href
        ));
    }
    all
}

fn listing(pager: &str, hrefs: &[String]) -> String {
    format!("<html><body>{}<div id=\"pdopage\">{}</div></body></html>", pager, teasers(hrefs))
}

fn pager(last: usize) -> String {
    let mut links = String::new();
    for i in 1..=last {
        links.push_str(&format!("<li><a href=\"?page={}\">{}</a></li>", i, i));
    }
    format!("<div id=\"pager\"><ul>{}</ul></div>", links)
}

fn sales_page(categories: &[&str]) -> String {
    let mut links = String::new();
    for c in categories {
        links.push_str(&format!("<a href=\"{}\">c</a>", c));
    }
    format!("<html><body><div id=\"pdopage\"><div><div>{}</div></div></div></body></html>", links)
}

fn ad_markup(title: &str) -> String {
    format!(
        "<html><body><div id=\"body\"><section><div><article><div><div><span>1 мая 2024</span><span>Тула</span><h1>{}</h1></div></div></article></div></section></div></body></html>",
        title
    )
}

fn hrefs(category: &str, numbers: &[u32]) -> Vec<String> {
    numbers.iter().map(|n| format!("sales/{}/{}-prodam_x", category, n)).collect()
}

fn fetched(url: &str, body: &str) -> HtmlResponse {
    a_html_response(url.to_string(), Some(Reply { status: 200, body: body.to_string() })).unwrap()
}

fn site(url: &str) -> Option<String> {
    if url == "https://sportingshot.ru/sales/" {
        return Some(sales_page(&["sales/oruzhie/", "sales/optika/"]));
    }
    if url == A {
        return Some(listing(&pager(3), &hrefs("oruzhie", &[1, 2, 3])));
    }
    if url == "https://sportingshot.ru/sales/oruzhie/?page=1" {
        return Some(listing(&pager(3), &hrefs("oruzhie", &[1, 2, 3])));
    }
    if url == "https://sportingshot.ru/sales/oruzhie/?page=2" {
        return Some(listing(&pager(3), &hrefs("oruzhie", &[3, 4, 5])));
    }
    if url == "https://sportingshot.ru/sales/oruzhie/?page=3" {
        return Some(listing(&pager(3), &hrefs("oruzhie", &[6, 7])));
    }
    if url == B {
        return Some(listing("", &hrefs("optika", &[8, 9])));
    }
    if url.contains("-prodam_x") {
        return Some(ad_markup(url));
    }
    None
}

fn answer(url: &str) -> Result<HtmlResponse, FetchError> {
    match site(url) {
        Some(body) => Ok(fetched(url, &body)),
        None => Err(FetchError::Transport),
    }
}

fn drive(mut crawl: Crawl, first: Action, log: &mut Vec<String>, tables: &mut Vec<(String, Vec<u8>)>) -> Crawl {
    let mut action = first;
    for _ in 0..1000 {
        let event = match action {
            Action::Fetch(url) => {
                log.push(format!("fetch {}", url));
                Event::Fetched(answer(&url))
            }
            Action::Dispatch { urls, limit } => {
                assert_eq!(limit, 10);
                log.push(format!("dispatch {}", urls.len()));
                Event::Dispatched(urls.iter().map(|u| answer(u).ok()).collect())
            }
            Action::Extract { pages, limit } => {
                assert_eq!(limit, 10);
                log.push(format!("extract {}", pages.len()));
                Event::Extracted(
                    pages
                        .into_iter()
                        .map(|p| Some(Ad::from(p, Ok(Some("8 900".to_string())), Ok(None))))
                        .collect(),
                )
            }
            Action::Emit { table, ads } => {
                log.push(format!("emit {} {}", table, ads.len()));
                let mut bytes = Vec::new();
                for ad in ads {
                    add_to_csv(ad, &mut bytes).unwrap();
                }
                tables.push((table, bytes));
                Event::Emitted
            }
            Action::Sleep(secs) => {
                log.push(format!("sleep {}", secs));
                Event::Slept
            }
            Action::Finish => {
                log.push("finish".to_string());
                return crawl;
            }
            Action::Abort => {
                log.push("abort".to_string());
                return crawl;
            }
        };
        action = crawl.step(event).unwrap();
    }
    panic!("the crawl does not end");
}

fn rows(bytes: &[u8]) -> usize {
    bytes.iter().filter(|b| **b == b'\n').count()
}

#[test]
fn constants_of_the_crawl() {
    assert_eq!(CONCURRENCY, 10);
    assert_eq!(COOLDOWN_SECS, 5);
}

#[test]
fn crawl_of_two_categories_end_to_end() {
    let mut crawl = Crawl::new();
    assert_eq!(crawl.stage(), Stage::Start);
    let first = crawl.step(Event::Begin).unwrap();
    let mut log = Vec::new();
    let mut tables = Vec::new();
    let crawl = drive(crawl, first, &mut log, &mut tables);
    assert_eq!(crawl.stage(), Stage::Done);
    assert_eq!(
        log,
        vec![
            "fetch https://sportingshot.ru/sales/",
            "fetch https://sportingshot.ru/sales/oruzhie/",
            "dispatch 3",
            "dispatch 7",
            "extract 7",
            "emit oruzhie.csv 7",
            "sleep 5",
            "fetch https://sportingshot.ru/sales/optika/",
            "dispatch 1",
            "dispatch 2",
            "extract 2",
            "emit optika.csv 2",
            "sleep 5",
            "finish",
        ]
    );
    assert_eq!(tables.len(), 2);
    assert_eq!(tables[0].0, "oruzhie.csv");
    assert_eq!(rows(&tables[0].1), 7);
    assert_eq!(tables[1].0, "optika.csv");
    assert_eq!(rows(&tables[1].1), 2);
    assert_eq!(crawl.categories(), &vec![A.to_string(), B.to_string()]);
    assert_eq!(crawl.current(), 1);
}

#[test]
fn crawl_without_pagination_fetches_the_listing_itself() {
    let (mut crawl, first) = Crawl::of_category(B);
    assert!(matches!(first, Action::Fetch(ref url) if url == B));
    let action = crawl.step(Event::Fetched(answer(B))).unwrap();
    match action {
        Action::Dispatch { urls, .. } => assert_eq!(urls, vec![B.to_string()]),
        _ => panic!("the pages of the listing were not asked for"),
    }
    assert_eq!(crawl.stage(), Stage::Pages);
}

#[test]
fn crawl_asks_for_as_many_pages_as_the_listing_announces() {
    for n in [1usize, 2, 5, 31] {
        let (mut crawl, _) = Crawl::of_category(A);
        let page = fetched(A, &listing(&pager(n), &[]));
        match crawl.step(Event::Fetched(Ok(page))).unwrap() {
            Action::Dispatch { urls, limit } => {
                assert_eq!(limit, CONCURRENCY);
                assert_eq!(urls.len(), n);
                for (i, url) in urls.iter().enumerate() {
                    assert_eq!(url, &format!("{}?page={}", A, i + 1));
                }
            }
            _ => panic!("the pages of the listing were not asked for"),
        }
    }
}

#[test]
fn crawl_of_one_category_ends_after_its_pause() {
    let (crawl, first) = Crawl::of_category(B);
    let mut log = Vec::new();
    let mut tables = Vec::new();
    let crawl = drive(crawl, first, &mut log, &mut tables);
    assert_eq!(crawl.stage(), Stage::Done);
    assert_eq!(
        log,
        vec![
            "fetch https://sportingshot.ru/sales/optika/",
            "dispatch 1",
            "dispatch 2",
            "extract 2",
            "emit optika.csv 2",
            "sleep 5",
            "finish",
        ]
    );
}

#[test]
fn crawl_aborts_when_the_sales_page_cannot_be_had() {
    let mut crawl = Crawl::new();
    crawl.step(Event::Begin).unwrap();
    assert_eq!(crawl.stage(), Stage::SalesRoot);
    let action = crawl.step(Event::Fetched(Err(FetchError::Transport))).unwrap();
    assert!(matches!(action, Action::Abort));
    assert_eq!(crawl.stage(), Stage::Failed);
    assert!(crawl.step(Event::Begin).is_none());
    assert!(crawl.step(Event::Slept).is_none());
}

#[test]
fn crawl_without_categories_finishes_at_once() {
    let mut crawl = Crawl::new();
    crawl.step(Event::Begin).unwrap();
    let page = fetched("https://sportingshot.ru/sales/", "<p>пусто</p>");
    let action = crawl.step(Event::Fetched(Ok(page))).unwrap();
    assert!(matches!(action, Action::Finish));
    assert_eq!(crawl.stage(), Stage::Done);
}

#[test]
fn crawl_goes_on_after_a_category_that_cannot_be_had() {
    let mut crawl = Crawl::new();
    crawl.step(Event::Begin).unwrap();
    let sales = fetched("s", &sales_page(&["sales/oruzhie/", "sales/optika/"]));
    let action = crawl.step(Event::Fetched(Ok(sales))).unwrap();
    assert!(matches!(action, Action::Fetch(ref url) if url == A));
    let action = crawl.step(Event::Fetched(Err(FetchError::Transport))).unwrap();
    assert!(matches!(action, Action::Sleep(5)));
    assert_eq!(crawl.stage(), Stage::Cooldown);
    let action = crawl.step(Event::Slept).unwrap();
    assert!(matches!(action, Action::Fetch(ref url) if url == B));
    assert_eq!(crawl.stage(), Stage::Listing);
    assert_eq!(crawl.current(), 1);
}

#[test]
fn crawl_goes_on_when_every_page_of_a_category_fails() {
    let (mut crawl, _) = Crawl::of_category(A);
    crawl.step(Event::Fetched(answer(A))).unwrap();
    let action = crawl.step(Event::Dispatched(vec![None, None, None])).unwrap();
    assert!(matches!(action, Action::Dispatch { ref urls, .. } if urls.is_empty()));
    let action = crawl.step(Event::Dispatched(Vec::new())).unwrap();
    assert!(matches!(action, Action::Extract { ref pages, .. } if pages.is_empty()));
    let action = crawl.step(Event::Extracted(Vec::new())).unwrap();
    match action {
        Action::Emit { table, ads } => {
            assert_eq!(table, "oruzhie.csv");
            assert!(ads.is_empty());
        }
        _ => panic!("nothing was handed out"),
    }
    assert!(matches!(crawl.step(Event::Emitted).unwrap(), Action::Sleep(5)));
    assert!(matches!(crawl.step(Event::Slept).unwrap(), Action::Finish));
}

#[test]
fn crawl_drops_the_pages_and_the_advertisements_that_failed() {
    let (mut crawl, _) = Crawl::of_category(A);
    crawl.step(Event::Fetched(answer(A))).unwrap();
    let pages = vec![
        answer("https://sportingshot.ru/sales/oruzhie/?page=1").ok(),
        None,
        answer("https://sportingshot.ru/sales/oruzhie/?page=3").ok(),
    ];
    let urls = match crawl.step(Event::Dispatched(pages)).unwrap() {
        Action::Dispatch { urls, .. } => urls,
        _ => panic!("the advertisements were not asked for"),
    };
    let expected: Vec<String> =
        hrefs("oruzhie", &[1, 2, 3, 6, 7]).iter().map(|h| format!("https://sportingshot.ru/{}", h)).collect();
    assert_eq!(urls, expected);
    let bodies = urls.iter().enumerate().map(|(i, u)| if i % 2 == 0 { answer(u).ok() } else { None }).collect();
    let pages = match crawl.step(Event::Dispatched(bodies)).unwrap() {
        Action::Extract { pages, .. } => pages,
        _ => panic!("the advertisements were not read"),
    };
    assert_eq!(pages.len(), 3);
    assert_eq!(pages[1].url, expected[2]);
    let ads = vec![None, Some(Ad::default()), None];
    match crawl.step(Event::Extracted(ads)).unwrap() {
        Action::Emit { ads, .. } => assert_eq!(ads.len(), 1),
        _ => panic!("nothing was handed out"),
    }
}

#[test]
fn crawl_refuses_an_event_it_does_not_wait_for() {
    let mut crawl = Crawl::new();
    assert!(crawl.step(Event::Slept).is_none());
    assert!(crawl.step(Event::Emitted).is_none());
    assert!(crawl.step(Event::Dispatched(Vec::new())).is_none());
    assert!(crawl.step(Event::Extracted(Vec::new())).is_none());
    assert!(crawl.step(Event::Fetched(Err(FetchError::Transport))).is_none());
    assert_eq!(crawl.stage(), Stage::Start);
    assert!(crawl.step(Event::Begin).is_some());
    assert!(crawl.step(Event::Begin).is_none());
    assert_eq!(crawl.stage(), Stage::SalesRoot);
}

#[test]
fn collect_page_ads_keeps_each_address_once() {
    let pages = vec![
        fetched("first", &listing("", &hrefs("oruzhie", &[1, 2, 2]))),
        fetched("second", "<p>нет</p>"),
        fetched("third", &listing("", &hrefs("oruzhie", &[2, 3, 1, 4]))),
    ];
    let expected: Vec<String> =
        hrefs("oruzhie", &[1, 2, 3, 4]).iter().map(|h| format!("https://sportingshot.ru/{}", h)).collect();
    assert_eq!(collect_page_ads(&pages), expected);
    assert!(collect_page_ads(&Vec::new()).is_empty());
}

#[test]
fn add_new_links_skips_what_is_there() {
    let mut acc = vec!["a".to_string(), "b".to_string()];
    add_new_links(&mut acc, vec!["b".to_string(), "c".to_string(), "c".to_string(), "a".to_string()]);
    assert_eq!(acc, vec!["a", "b", "c"]);
    assert!(holds_text(&acc, &"c".to_string()));
    assert!(!holds_text(&acc, &"d".to_string()));
    assert!(!holds_text(&Vec::new(), &String::new()));
}

#[test]
fn table_of_names_the_table_after_the_category() {
    assert_eq!(table_of(A), "oruzhie.csv");
    assert_eq!(table_of("x"), "undefined.csv");
}

#[test]
fn add_to_csv_appends_one_line() {
    let url = "https://sportingshot.ru/sales/oruzhie/1-prodam_x";
    let html = ad_markup("Нож, \"новый\"");
    let ad = Ad::from(
        HtmlResponse::new(url.to_string(), html.clone()),
        Ok(Some("8 900".to_string())),
        Ok(Some("a@b.c".to_string())),
    );
    let mut table = b"seller,phone\n".to_vec();
    assert_eq!(add_to_csv(ad, &mut table), Ok(()));
    let text = String::from_utf8(table).unwrap();
    assert_eq!(
        text,
        format!("seller,phone\n,8900,a@b.c,Тула,2024-05-01,,\"Нож, \"\"новый\"\"\",,{}\n", url)
    );
}

#[test]
fn add_to_csv_of_an_empty_ad_writes_eight_commas() {
    let mut table = Vec::new();
    assert_eq!(add_to_csv(Ad::default(), &mut table), Ok(()));
    assert_eq!(table, b",,,,,,,,\n".to_vec());
    assert_eq!(add_to_csv(Ad::default(), &mut table), Ok(()));
    assert_eq!(table, b",,,,,,,,\n,,,,,,,,\n".to_vec());
}

#[test]
fn append_line_without_line_is_an_error() {
    let mut table = b"x\n".to_vec();
    assert_eq!(append_line(&mut table, None), Err(SinkError::Encoding));
    assert_eq!(table, b"x\n".to_vec());
    assert_eq!(append_line(&mut table, Some(b"y\n".to_vec())), Ok(()));
    assert_eq!(table, b"x\ny\n".to_vec());
    assert_eq!(append_line(&mut table, Some(Vec::new())), Ok(()));
    assert_eq!(table, b"x\ny\n".to_vec());
}
