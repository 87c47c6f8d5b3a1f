//! Scraping one page of the user's shelf: the privacy marker, the page
//! count read from pagination links, and the book rows, with malformed rows
//! skipped.  The CSS selection itself is delegated to the `scraper` crate
//! behind trusted extraction functions; everything downstream of those plain
//! values is verified.

use vstd::prelude::*;
use crate::books::{books_view, GoodreadsBook, GoodreadsBookView};
use crate::text::{join_spaced, join_with_space, parse_u32, parse_u32_spec, trim, trim_spec};
use scraper::{Html, Selector};

verus! {

/// One child node of a title anchor: a text node's content, or a marker for
/// a non-text child such as an annotation span.
pub struct TitleNode {
    pub is_text: bool,
    pub text: String,
}

/// The mathematical value of a title anchor child node.
pub ghost struct TitleNodeView {
    pub is_text: bool,
    pub text: Seq<char>,
}

impl DeepView for TitleNode {
    type V = TitleNodeView;

    open spec fn deep_view(&self) -> TitleNodeView {
        TitleNodeView { is_text: self.is_text, text: self.text@ }
    }
}

/// Whether the page carries the element marking a private profile.
pub uninterp spec fn shelf_private_marker(html: Seq<char>) -> bool;

/// The text of each pagination anchor of the page, in document order.
pub uninterp spec fn shelf_pagination_texts(html: Seq<char>) -> Seq<Seq<char>>;

/// The number of book rows of the page; each of the three per-row
/// extractions yields exactly one entry per row.
pub uninterp spec fn shelf_row_count(html: Seq<char>) -> int;

/// For each book row of the page: the cover image address, if the row has
/// one.
pub uninterp spec fn row_covers_of(html: Seq<char>) -> Seq<Option<Seq<char>>>;

/// For each book row of the page: the children of its title anchor, if the
/// row has one.
pub uninterp spec fn row_title_nodes_of(html: Seq<char>) -> Seq<Option<Seq<TitleNodeView>>>;

/// For each book row of the page: the markup inside its author anchor, if
/// the row has one.
pub uninterp spec fn row_authors_of(html: Seq<char>) -> Seq<Option<Seq<char>>>;

/// Relies on `scraper`'s HTML parsing and CSS selection: whether the page
/// holds an element with id `privateProfile`.
#[verifier::external_body]
fn html_has_private_marker(html: &str) -> (r: bool)
    ensures
        r == shelf_private_marker(html@),
{
    let doc = Html::parse_document(html);
    let sel = match Selector::parse("#privateProfile") {
        Ok(s) => s,
        Err(_) => return false,
    };
    doc.select(&sel).next().is_some()
}

/// Relies on `scraper`'s HTML parsing and CSS selection: the concatenated
/// text of each anchor under the element with id `reviewPagination`.
#[verifier::external_body]
fn html_pagination_texts(html: &str) -> (r: Vec<String>)
    ensures
        r.deep_view() == shelf_pagination_texts(html@),
{
    let doc = Html::parse_document(html);
    let sel = match Selector::parse("#reviewPagination a") {
        Ok(s) => s,
        Err(_) => return Vec::new(),
    };
    doc.select(&sel).map(|el| el.text().collect::<String>()).collect()
}

/// Relies on `scraper`'s HTML parsing and CSS selection: the `src`
/// attribute of the first cover image inside each `tr.bookalike.review`
/// row.
#[verifier::external_body]
fn html_row_covers(html: &str) -> (r: Vec<Option<String>>)
    ensures
        r.deep_view() == row_covers_of(html@),
        r.deep_view().len() == shelf_row_count(html@),
{
    let doc = Html::parse_document(html);
    let rows = match Selector::parse("tr.bookalike.review") {
        Ok(s) => s,
        Err(_) => return Vec::new(),
    };
    let img = match Selector::parse("td.field.cover img") {
        Ok(s) => s,
        Err(_) => return Vec::new(),
    };
    doc.select(&rows).map(
        |row| row.select(&img).next().and_then(|el| el.attr("src")).map(|s| s.to_string()),
    ).collect()
}

/// Relies on `scraper`'s HTML parsing and CSS selection: the child nodes of
/// the first title anchor inside each `tr.bookalike.review` row, each child
/// tagged as text or not.
#[verifier::external_body]
fn html_row_title_nodes(html: &str) -> (r: Vec<Option<Vec<TitleNode>>>)
    ensures
        r.deep_view() == row_title_nodes_of(html@),
        r.deep_view().len() == shelf_row_count(html@),
{
    let doc = Html::parse_document(html);
    let rows = match Selector::parse("tr.bookalike.review") { Ok(s) => s, Err(_) => return Vec::new() };
    let title = match Selector::parse("td.field.title a") { Ok(s) => s, Err(_) => return Vec::new() };
    doc.select(&rows).map(|row| row.select(&title).next().map(|a| a.children().map(
        |n| TitleNode { is_text: n.value().is_text(), text: n.value().as_text().map(|t| t.to_string()).unwrap_or_default() },
    ).collect())).collect()
}

/// Relies on `scraper`'s HTML parsing, CSS selection and serialization: the
/// markup inside the first author anchor of each `tr.bookalike.review` row.
#[verifier::external_body]
fn html_row_authors(html: &str) -> (r: Vec<Option<String>>)
    ensures
        r.deep_view() == row_authors_of(html@),
        r.deep_view().len() == shelf_row_count(html@),
{
    let doc = Html::parse_document(html);
    let rows = match Selector::parse("tr.bookalike.review") {
        Ok(s) => s,
        Err(_) => return Vec::new(),
    };
    let author = match Selector::parse("td.field.author a") {
        Ok(s) => s,
        Err(_) => return Vec::new(),
    };
    doc.select(&rows).map(|row| row.select(&author).next().map(|el| el.inner_html())).collect()
}

/// How a whole-catalog fetch fails: the profile is private, or the first
/// page could not be fetched at all.
#[derive(Clone, Copy, Debug, PartialEq, Eq, Structural)]
pub enum CatalogError {
    PrivateProfile,
    TransientFetch,
}

/// The highest page number among the pagination link texts, when at least
/// one parses as a number.
pub open spec fn max_parsed_page(texts: Seq<Seq<char>>) -> Option<u32>
    decreases texts.len(),
{
    if texts.len() == 0 {
        None
    } else {
        let rest = max_parsed_page(texts.drop_last());
        match parse_u32_spec(texts.last()) {
            Some(v) => match rest {
                Some(m) => if v > m {
                    Some(v)
                } else {
                    Some(m)
                },
                None => Some(v),
            },
            None => rest,
        }
    }
}

/// The page count of the shelf: the highest parsed pagination number, or 1
/// when no pagination link parses.
pub open spec fn last_page_spec(texts: Seq<Seq<char>>) -> u32 {
    match max_parsed_page(texts) {
        Some(v) => v,
        None => 1,
    }
}

/// Computes the page count from the pagination link texts.
pub fn last_page_from_texts(texts: &Vec<String>) -> (r: u32)
    ensures
        r == last_page_spec(texts.deep_view()),
{
    let ghost tv = texts.deep_view();
    let mut best: Option<u32> = None;
    let mut i: usize = 0;
    proof {
        assert(tv.subrange(0, 0) =~= Seq::<Seq<char>>::empty());
    }
    while i < texts.len()
        invariant
            0 <= i <= texts@.len(),
            tv == texts.deep_view(),
            tv.len() == texts@.len(),
            best == max_parsed_page(tv.subrange(0, i as int)),
        decreases texts@.len() - i,
    {
        let p = parse_u32(texts[i].as_str());
        proof {
            assert(tv.subrange(0, i + 1).drop_last() =~= tv.subrange(0, i as int));
            assert(tv.subrange(0, i + 1).last() == tv[i as int]);
            assert(tv[i as int] == texts@[i as int]@);
        }
        if let Some(v) = p {
            best = match best {
                Some(m) => if v > m {
                    Some(v)
                } else {
                    Some(m)
                },
                None => Some(v),
            };
        }
        i = i + 1;
    }
    proof {
        assert(tv.subrange(0, tv.len() as int) =~= tv);
    }
    match best {
        Some(v) => v,
        None => 1,
    }
}

/// The title parts kept from a title anchor: each direct text node,
/// trimmed, in order; annotation elements contribute nothing.
pub open spec fn title_parts(nodes: Seq<TitleNodeView>) -> Seq<Seq<char>>
    decreases nodes.len(),
{
    if nodes.len() == 0 {
        Seq::empty()
    } else {
        let rest = title_parts(nodes.drop_last());
        if nodes.last().is_text {
            rest.push(trim_spec(nodes.last().text))
        } else {
            rest
        }
    }
}

/// The scraped title: the trimmed text parts joined with single spaces.
pub open spec fn scraped_title_spec(nodes: Seq<TitleNodeView>) -> Seq<char> {
    join_spaced(title_parts(nodes))
}

/// Assembles a book title from the children of its title anchor.
pub fn scrape_title(nodes: &Vec<TitleNode>) -> (r: String)
    ensures
        r@ == scraped_title_spec(nodes.deep_view()),
{
    let ghost nv = nodes.deep_view();
    let mut parts: Vec<String> = Vec::new();
    let mut i: usize = 0;
    proof {
        assert(nv.subrange(0, 0) =~= Seq::<TitleNodeView>::empty());
        assert(parts@.map_values(|p: String| p@) =~= title_parts(nv.subrange(0, 0)));
    }
    while i < nodes.len()
        invariant
            0 <= i <= nodes@.len(),
            nv == nodes.deep_view(),
            nv.len() == nodes@.len(),
            parts@.map_values(|p: String| p@) == title_parts(nv.subrange(0, i as int)),
        decreases nodes@.len() - i,
    {
        proof {
            assert(nv.subrange(0, i + 1).drop_last() =~= nv.subrange(0, i as int));
            assert(nv.subrange(0, i + 1).last() == nv[i as int]);
            assert(nv[i as int] == nodes@[i as int].deep_view());
        }
        if nodes[i].is_text {
            let piece = trim(nodes[i].text.as_str());
            parts.push(piece);
            proof {
                assert(parts@.map_values(|p: String| p@) =~= title_parts(
                    nv.subrange(0, i + 1),
                ));
            }
        }
        i = i + 1;
    }
    proof {
        assert(nv.subrange(0, nv.len() as int) =~= nv);
    }
    join_with_space(&parts)
}

/// A row is complete when its cover, title anchor and author were all
/// found.
pub open spec fn complete_row(
    c: Option<Seq<char>>,
    t: Option<Seq<TitleNodeView>>,
    a: Option<Seq<char>>,
) -> bool {
    c is Some && t is Some && a is Some
}

/// The book a complete row yields.
pub open spec fn row_book(
    c: Option<Seq<char>>,
    t: Option<Seq<TitleNodeView>>,
    a: Option<Seq<char>>,
) -> GoodreadsBookView {
    GoodreadsBookView {
        cover: c->0,
        title: scraped_title_spec(t->0),
        author: trim_spec(a->0),
    }
}

pub open spec fn min3(a: int, b: int, c: int) -> int {
    if a <= b && a <= c {
        a
    } else if b <= c {
        b
    } else {
        c
    }
}

/// The books of the first `n` rows, complete rows only, in row order.
pub open spec fn scraped_books_upto(
    cs: Seq<Option<Seq<char>>>,
    ts: Seq<Option<Seq<TitleNodeView>>>,
    aus: Seq<Option<Seq<char>>>,
    n: int,
) -> Seq<GoodreadsBookView>
    decreases n,
{
    if n <= 0 {
        Seq::empty()
    } else {
        let rest = scraped_books_upto(cs, ts, aus, n - 1);
        if complete_row(cs[n - 1], ts[n - 1], aus[n - 1]) {
            rest.push(row_book(cs[n - 1], ts[n - 1], aus[n - 1]))
        } else {
            rest
        }
    }
}

/// All books of a page: every complete row, in document order; rows missing
/// a cover, title or author are skipped.  The three sequences are one
/// entry per row, so they are equally long; `min3` only makes the
/// definition total for arbitrary arguments.
pub open spec fn scraped_books_spec(
    cs: Seq<Option<Seq<char>>>,
    ts: Seq<Option<Seq<TitleNodeView>>>,
    aus: Seq<Option<Seq<char>>>,
) -> Seq<GoodreadsBookView> {
    scraped_books_upto(cs, ts, aus, min3(cs.len() as int, ts.len() as int, aus.len() as int))
}

/// The number of complete rows among the first `n`.
pub open spec fn complete_row_count(
    cs: Seq<Option<Seq<char>>>,
    ts: Seq<Option<Seq<TitleNodeView>>>,
    aus: Seq<Option<Seq<char>>>,
    n: int,
) -> int
    decreases n,
{
    if n <= 0 {
        0
    } else {
        complete_row_count(cs, ts, aus, n - 1) + if complete_row(cs[n - 1], ts[n - 1], aus[n - 1]) {
            1int
        } else {
            0int
        }
    }
}

/// A page yields exactly one book per complete row: rows missing an element
/// are skipped and every other row is kept.
pub proof fn lemma_scraped_books_count(
    cs: Seq<Option<Seq<char>>>,
    ts: Seq<Option<Seq<TitleNodeView>>>,
    aus: Seq<Option<Seq<char>>>,
    n: int,
)
    ensures
        scraped_books_upto(cs, ts, aus, n).len() == complete_row_count(cs, ts, aus, n),
    decreases n,
{
    if n > 0 {
        lemma_scraped_books_count(cs, ts, aus, n - 1);
    }
}

/// Builds the book list of one page from its extracted row parts.
pub fn scrape_books(
    covers: &Vec<Option<String>>,
    title_nodes: &Vec<Option<Vec<TitleNode>>>,
    authors: &Vec<Option<String>>,
) -> (r: Vec<GoodreadsBook>)
    ensures
        books_view(r@) == scraped_books_spec(
            covers.deep_view(),
            title_nodes.deep_view(),
            authors.deep_view(),
        ),
{
    let ghost cd = covers.deep_view();
    let ghost td = title_nodes.deep_view();
    let ghost ad = authors.deep_view();
    let mut n: usize = covers.len();
    if title_nodes.len() < n {
        n = title_nodes.len();
    }
    if authors.len() < n {
        n = authors.len();
    }
    proof {
        assert(n == min3(cd.len() as int, td.len() as int, ad.len() as int));
    }
    let mut out: Vec<GoodreadsBook> = Vec::new();
    let mut i: usize = 0;
    proof {
        assert(books_view(out@) =~= scraped_books_upto(cd, td, ad, 0));
    }
    while i < n
        invariant
            0 <= i <= n,
            cd == covers.deep_view(),
            td == title_nodes.deep_view(),
            ad == authors.deep_view(),
            n <= cd.len() && n <= td.len() && n <= ad.len(),
            n <= covers@.len() && n <= title_nodes@.len() && n <= authors@.len(),
            books_view(out@) == scraped_books_upto(cd, td, ad, i as int),
        decreases n - i,
    {
        proof {
            assert(cd[i as int] == covers@[i as int].deep_view());
            assert(td[i as int] == title_nodes@[i as int].deep_view());
            assert(ad[i as int] == authors@[i as int].deep_view());
        }
        match (&covers[i], &title_nodes[i], &authors[i]) {
            (Some(c), Some(t), Some(a)) => {
                let book = GoodreadsBook {
                    cover: c.clone(),
                    title: scrape_title(t),
                    author: trim(a.as_str()),
                };
                proof {
                    assert(book@ == row_book(cd[i as int], td[i as int], ad[i as int]));
                }
                out.push(book);
                proof {
                    assert(books_view(out@) =~= scraped_books_upto(cd, td, ad, i + 1));
                }
            },
            _ => {
                proof {
                    assert(!complete_row(cd[i as int], td[i as int], ad[i as int]));
                }
            },
        }
        i = i + 1;
    }
    out
}

/// Reads the first page's outcome: the private-profile failure, or the
/// page count.
pub fn parse_first_page(html: &str) -> (r: Result<u32, CatalogError>)
    ensures
        r is Err <==> shelf_private_marker(html@),
        r is Err ==> r->Err_0 == CatalogError::PrivateProfile,
        r is Ok ==> r->Ok_0 == last_page_spec(shelf_pagination_texts(html@)),
{
    if html_has_private_marker(html) {
        return Err(CatalogError::PrivateProfile);
    }
    let texts = html_pagination_texts(html);
    Ok(last_page_from_texts(&texts))
}

/// Scrapes all books of one shelf page.
pub fn parse_shelf_rows(html: &str) -> (r: Vec<GoodreadsBook>)
    ensures
        books_view(r@) == scraped_books_spec(
            row_covers_of(html@),
            row_title_nodes_of(html@),
            row_authors_of(html@),
        ),
        row_covers_of(html@).len() == shelf_row_count(html@),
        row_title_nodes_of(html@).len() == shelf_row_count(html@),
        row_authors_of(html@).len() == shelf_row_count(html@),
{
    let covers = html_row_covers(html);
    let nodes = html_row_title_nodes(html);
    let authors = html_row_authors(html);
    scrape_books(&covers, &nodes, &authors)
}

/// The fetch plan produced from page 1: the page count, and the pages
/// still to retrieve after page 1 — exactly `2..=last_page`, in ascending
/// order.  Page 1 itself is already in hand and is never fetched again.
pub struct CatalogPlan {
    pub last_page: u32,
    pub pages: Vec<u32>,
}

/// Plans the rest of the catalog fetch from page 1's markup, which the
/// caller fetched once, synchronously.  A private profile fails the
/// aggregation outright: the error carries no pages to fetch, so no
/// further page is ever retrieved.
pub fn plan_catalog_fetch(first_page_html: &str) -> (r: Result<CatalogPlan, CatalogError>)
    ensures
        r is Err <==> shelf_private_marker(first_page_html@),
        r is Err ==> r->Err_0 == CatalogError::PrivateProfile,
        r is Ok ==> ({
            let plan = r->Ok_0;
            &&& plan.last_page == last_page_spec(shelf_pagination_texts(first_page_html@))
            &&& plan.pages@.len() == (if plan.last_page >= 1 {
                plan.last_page - 1
            } else {
                0int
            })
            &&& forall|i: int| 0 <= i < plan.pages@.len() ==> plan.pages@[i] == i + 2
        }),
{
    let last = match parse_first_page(first_page_html) {
        Err(e) => {
            return Err(e);
        },
        Ok(last) => last,
    };
    let mut pages: Vec<u32> = Vec::new();
    let mut p: u64 = 2;
    while p <= last as u64
        invariant
            2 <= p,
            p <= last as u64 + 1 || p == 2,
            pages@.len() == p - 2,
            forall|i: int| 0 <= i < pages@.len() ==> pages@[i] == i + 2,
        decreases last as u64 + 2 - p,
    {
        pages.push(p as u32);
        p = p + 1;
    }
    Ok(CatalogPlan { last_page: last, pages })
}

/// The total number of books across pages.
pub open spec fn pages_total_len<A>(pages: Seq<Seq<A>>) -> int
    decreases pages.len(),
{
    if pages.len() == 0 {
        0
    } else {
        pages.first().len() + pages_total_len(pages.drop_first())
    }
}

/// Concatenating pages yields one book per row of every page: the combined
/// count is the sum of the per-page counts.
pub proof fn lemma_flatten_total_len<A>(pages: Seq<Seq<A>>)
    ensures
        pages.flatten().len() == pages_total_len(pages),
    decreases pages.len(),
{
    if pages.len() > 0 {
        lemma_flatten_total_len(pages.drop_first());
    }
}

/// Concatenating pages keeps page-then-document order: the book `j` of page
/// `p` stands at the offset of page `p` plus `j`.
pub proof fn lemma_flatten_order<A>(pages: Seq<Seq<A>>, p: int, j: int)
    requires
        0 <= p < pages.len(),
        0 <= j < pages[p].len(),
    ensures
        0 <= pages_total_len(pages.subrange(0, p)) + j < pages.flatten().len(),
        pages.flatten()[pages_total_len(pages.subrange(0, p)) + j] == pages[p][j],
    decreases p,
{
    lemma_flatten_total_len(pages);
    if p == 0 {
        assert(pages.subrange(0, 0) =~= Seq::<Seq<A>>::empty());
        assert(pages.flatten() == pages.first() + pages.drop_first().flatten());
    } else {
        let rest = pages.drop_first();
        lemma_flatten_order(rest, p - 1, j);
        assert(pages.flatten() == pages.first() + rest.flatten());
        let pre = pages.subrange(0, p);
        assert(pre.first() == pages.first());
        assert(pre.drop_first() =~= rest.subrange(0, p - 1));
        assert(pages_total_len(pre) == pages.first().len() + pages_total_len(
            rest.subrange(0, p - 1),
        ));
        assert(rest[p - 1] == pages[p]);
    }
}

/// Concatenates per-page book lists, page order first, document order
/// within a page.
pub fn merge_pages(pages: Vec<Vec<GoodreadsBook>>) -> (r: Vec<GoodreadsBook>)
    ensures
        r@ == pages@.map_values(|p: Vec<GoodreadsBook>| p@).flatten(),
{
    let ghost orig = pages@.map_values(|p: Vec<GoodreadsBook>| p@);
    let mut rest = pages;
    let mut out: Vec<GoodreadsBook> = Vec::new();
    proof {
        assert(orig.flatten() =~= out@ + orig.flatten());
    }
    while rest.len() > 0
        invariant
            orig.flatten() == out@ + rest@.map_values(|p: Vec<GoodreadsBook>| p@).flatten(),
        decreases rest@.len(),
    {
        let ghost m = rest@.map_values(|p: Vec<GoodreadsBook>| p@);
        let mut first = rest.remove(0);
        proof {
            assert(m.len() > 0);
            assert(m.flatten() == m.first() + m.drop_first().flatten());
            assert(first@ == m.first());
            assert(rest@.map_values(|p: Vec<GoodreadsBook>| p@) =~= m.drop_first());
        }
        out.append(&mut first);
        proof {
            assert(out@ + rest@.map_values(|p: Vec<GoodreadsBook>| p@).flatten()
                =~= orig.flatten());
        }
    }
    proof {
        assert(rest@.map_values(|p: Vec<GoodreadsBook>| p@).flatten()
            =~= Seq::<GoodreadsBook>::empty());
        assert(out@ =~= orig.flatten());
    }
    out
}

} // verus!
