//! The logic of a crawler of classified advertisements: what to fetch next,
//! how many requests may run at once, and what a fetched page says.
//!
//! Nothing here touches the network, the clock or a file. The caller fetches,
//! sleeps and writes; this library decides and reads.

use vstd::prelude::*;

pub mod crawl;
pub mod date;
pub mod dispatch;
pub mod listing;
pub mod markup;
pub mod parser;
pub mod text;
pub mod utils;

verus! {

/// The address of the site, which every link of a page is relative to.
pub const MAIN_URL: &'static str = "https://sportingshot.ru/";

/// The address of the page that lists the categories.
pub const SALES: &'static str = "https://sportingshot.ru/sales/";

} // verus!
