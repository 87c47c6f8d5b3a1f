use libbyreads_rs::books::GoodreadsBook;
use libbyreads_rs::catalog::{
    merge_pages, parse_first_page, parse_shelf_rows, plan_catalog_fetch, CatalogError,
};

fn shelf_page(body_rows: &str, pagination: &str) -> String {
    format!(
        "<html><body><table>{}</table>{}</body></html>",
        body_rows, pagination
    )
}

fn book_row(cover: &str, title_html: &str, author: &str) -> String {
    format!(
        "<tr class=\"bookalike review\">\
         <td class=\"field cover\"><img src=\"{}\" /></td>\
         <td class=\"field title\"><a href=\"/t\">{}</a></td>\
         <td class=\"field author\"><a href=\"/a\">{}</a></td>\
         </tr>",
        cover, title_html, author
    )
}

#[test]
fn private_profile_detected() {
    let html = "<html><body><div id=\"privateProfile\">This profile is private</div></body></html>";
    assert_eq!(parse_first_page(html), Err(CatalogError::PrivateProfile));
    assert!(plan_catalog_fetch(html).is_err());
}

#[test]
fn plan_covers_every_page_in_order() {
    let pagination = "<div id=\"reviewPagination\">\
        <a href=\"?page=1\">1</a><a href=\"?page=2\">2</a><a href=\"?page=3\">3</a>\
        <a class=\"next_page\" href=\"?page=2\">next \u{bb}</a></div>";
    let html = shelf_page("", pagination);
    let plan = plan_catalog_fetch(html.as_str()).unwrap();
    assert_eq!(plan.last_page, 3);
    // Page 1 is already in hand when the plan is made; only the remaining
    // pages are listed for fetching.
    assert_eq!(plan.pages, vec![2, 3]);
}

#[test]
fn single_page_plan_fetches_nothing_further() {
    let html = shelf_page("", "");
    let plan = plan_catalog_fetch(html.as_str()).unwrap();
    assert_eq!(plan.last_page, 1);
    assert!(plan.pages.is_empty());
}

#[test]
fn no_pagination_means_one_page() {
    let html = shelf_page("", "");
    assert_eq!(parse_first_page(html.as_str()), Ok(1));
}

#[test]
fn rows_scraped_in_document_order() {
    let rows = format!(
        "{}{}",
        book_row("http://covers/1.jpg", "The Martian", "Weir, Andy"),
        book_row("http://covers/2.jpg", "Dune", "Herbert, Frank")
    );
    let html = shelf_page(rows.as_str(), "");
    let books = parse_shelf_rows(html.as_str());
    assert_eq!(books.len(), 2);
    assert_eq!(books[0].title, "The Martian");
    assert_eq!(books[0].author, "Weir, Andy");
    assert_eq!(books[0].cover, "http://covers/1.jpg");
    assert_eq!(books[1].title, "Dune");
}

#[test]
fn annotation_span_excluded_from_title() {
    let title_html =
        " A Darker Shade of Magic <span class=\"darkGreyText\">(Shades of Magic, #1)</span>";
    let rows = book_row("http://covers/3.jpg", title_html, "Schwab, V.E.");
    let html = shelf_page(rows.as_str(), "");
    let books = parse_shelf_rows(html.as_str());
    assert_eq!(books.len(), 1);
    assert_eq!(books[0].title, "A Darker Shade of Magic");
}

#[test]
fn row_missing_cover_is_skipped_others_kept() {
    let broken_row = "<tr class=\"bookalike review\">\
        <td class=\"field cover\"></td>\
        <td class=\"field title\"><a href=\"/t\">No Cover Book</a></td>\
        <td class=\"field author\"><a href=\"/a\">Nobody</a></td>\
        </tr>";
    let rows = format!(
        "{}{}{}",
        book_row("http://covers/1.jpg", "First", "One, Author"),
        broken_row,
        book_row("http://covers/2.jpg", "Third", "Three, Author")
    );
    let html = shelf_page(rows.as_str(), "");
    let books = parse_shelf_rows(html.as_str());
    assert_eq!(books.len(), 2);
    assert_eq!(books[0].title, "First");
    assert_eq!(books[1].title, "Third");
}

#[test]
fn merged_pages_count_and_order() {
    let page = |titles: &[&str]| -> Vec<GoodreadsBook> {
        titles
            .iter()
            .map(|t| GoodreadsBook {
                cover: String::new(),
                title: t.to_string(),
                author: String::new(),
            })
            .collect()
    };
    let pages = vec![page(&["a", "b"]), page(&[]), page(&["c"]), page(&["d", "e"])];
    let merged = merge_pages(pages);
    assert_eq!(merged.len(), 5);
    let titles: Vec<&str> = merged.iter().map(|b| b.title.as_str()).collect();
    assert_eq!(titles, vec!["a", "b", "c", "d", "e"]);
}
