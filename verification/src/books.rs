//! The data model: shelf entries, per-library probe outcomes, and per-book
//! verdicts, together with their mathematical views.

use vstd::prelude::*;

verus! {

/// Classification of a book's lending status, best case first.
#[derive(Clone, Copy, Debug, PartialEq, Eq, Structural)]
pub enum BookAvailability {
    Available,
    Holdable,
    NotOwned,
}

/// One entry scraped from the user's shelf.
#[derive(Clone, Debug)]
pub struct GoodreadsBook {
    pub cover: String,
    pub title: String,
    pub author: String,
}

/// The outcome of probing one library for one book.
#[derive(Clone, Debug)]
pub struct LibbyLibraryBook {
    pub cover: String,
    pub title: String,
    pub author: String,
    pub is_available: bool,
    pub is_holdable: bool,
    pub libby_search_url: String,
}

/// A book's combined verdict across all probed libraries.
#[derive(Clone, Debug)]
pub struct LibbyBook {
    pub cover: String,
    pub title: String,
    pub author: String,
    pub is_available: bool,
    pub is_holdable: bool,
    pub libby_search_url: String,
    pub library_books: Vec<LibbyLibraryBook>,
}

/// One library system as the directory search reports it.
#[derive(Clone, Debug, PartialEq)]
pub struct SearchLibrary {
    pub system_name: String,
    pub website_id: String,
    pub fulfillment_id: String,
    pub name: String,
    pub branch_count: i32,
}

/// A fully resolved library system, with its query endpoints.
#[derive(Clone, Debug, PartialEq)]
pub struct Library {
    pub search_library: SearchLibrary,
    pub system_id: String,
    pub libby_base_url: String,
    pub overdrive_base_url: String,
}

/// The mathematical value of a shelf entry.
pub ghost struct GoodreadsBookView {
    pub cover: Seq<char>,
    pub title: Seq<char>,
    pub author: Seq<char>,
}

impl View for GoodreadsBook {
    type V = GoodreadsBookView;

    open spec fn view(&self) -> GoodreadsBookView {
        GoodreadsBookView { cover: self.cover@, title: self.title@, author: self.author@ }
    }
}

/// The mathematical value of a per-library probe outcome.
pub ghost struct LibbyLibraryBookView {
    pub cover: Seq<char>,
    pub title: Seq<char>,
    pub author: Seq<char>,
    pub is_available: bool,
    pub is_holdable: bool,
    pub libby_search_url: Seq<char>,
}

impl View for LibbyLibraryBook {
    type V = LibbyLibraryBookView;

    open spec fn view(&self) -> LibbyLibraryBookView {
        LibbyLibraryBookView {
            cover: self.cover@,
            title: self.title@,
            author: self.author@,
            is_available: self.is_available,
            is_holdable: self.is_holdable,
            libby_search_url: self.libby_search_url@,
        }
    }
}

/// The mathematical value of a per-book verdict.
pub ghost struct LibbyBookView {
    pub cover: Seq<char>,
    pub title: Seq<char>,
    pub author: Seq<char>,
    pub is_available: bool,
    pub is_holdable: bool,
    pub libby_search_url: Seq<char>,
    pub library_books: Seq<LibbyLibraryBookView>,
}

impl View for LibbyBook {
    type V = LibbyBookView;

    open spec fn view(&self) -> LibbyBookView {
        LibbyBookView {
            cover: self.cover@,
            title: self.title@,
            author: self.author@,
            is_available: self.is_available,
            is_holdable: self.is_holdable,
            libby_search_url: self.libby_search_url@,
            library_books: self.library_books@.map_values(|b: LibbyLibraryBook| b@),
        }
    }
}

/// The mathematical value of a directory search entry.
pub ghost struct SearchLibraryView {
    pub system_name: Seq<char>,
    pub website_id: Seq<char>,
    pub fulfillment_id: Seq<char>,
    pub name: Seq<char>,
    pub branch_count: int,
}

impl View for SearchLibrary {
    type V = SearchLibraryView;

    open spec fn view(&self) -> SearchLibraryView {
        SearchLibraryView {
            system_name: self.system_name@,
            website_id: self.website_id@,
            fulfillment_id: self.fulfillment_id@,
            name: self.name@,
            branch_count: self.branch_count as int,
        }
    }
}

/// The sequence of views of a vector of directory search entries.
pub open spec fn search_libraries_view(v: Seq<SearchLibrary>) -> Seq<SearchLibraryView> {
    v.map_values(|b: SearchLibrary| b@)
}

/// The sequence of views of a vector of shelf entries.
pub open spec fn books_view(v: Seq<GoodreadsBook>) -> Seq<GoodreadsBookView> {
    v.map_values(|b: GoodreadsBook| b@)
}

/// The sequence of views of a vector of probe outcomes.
pub open spec fn probes_view(v: Seq<LibbyLibraryBook>) -> Seq<LibbyLibraryBookView> {
    v.map_values(|b: LibbyLibraryBook| b@)
}

} // verus!
