//! Builders for every URL the pipeline requests, each pinned to the exact
//! character sequence it produces.

use vstd::prelude::*;
use crate::text::{dec_chars, u64_to_dec_string};

verus! {

/// The user's "to-read" shelf, in the print rendering that is simpler to
/// scrape.
pub fn shelf_url(user_id: &str) -> (r: String)
    ensures
        r@ == "https://goodreads.com/review/list/"@ + user_id@ + "?print=true&shelf=to-read"@,
{
    let mut s = String::from_str("https://goodreads.com/review/list/");
    s.append(user_id);
    s.append("?print=true&shelf=to-read");
    s
}

/// One page of the user's shelf.
pub fn shelf_page_url(user_id: &str, page: u32) -> (r: String)
    ensures
        r@ == "https://goodreads.com/review/list/"@ + user_id@ + "?print=true&shelf=to-read"@
            + "&page="@ + dec_chars(page as nat),
{
    let mut s = shelf_url(user_id);
    s.append("&page=");
    let digits = u64_to_dec_string(page as u64);
    s.append(digits.as_str());
    s
}

/// The human-facing search page of one library, for a given encoded query.
pub fn libby_search_url(libby_base_url: &str, encoded_query: &str) -> (r: String)
    ensures
        r@ == libby_base_url@ + "/search/query-"@ + encoded_query@ + "/page-1"@,
{
    let mut s = String::from_str(libby_base_url);
    s.append("/search/query-");
    s.append(encoded_query);
    s.append("/page-1");
    s
}

/// The lending API's media search for one library, restricted to audiobook
/// formats, first page, 24 results.
pub fn overdrive_media_url(overdrive_base_url: &str, encoded_query: &str) -> (r: String)
    ensures
        r@ == overdrive_base_url@ + "/media?query="@ + encoded_query@
            + "&format=audiobook-overdrive,audiobook-overdrive-provisional&perPage=24&page=1&truncateDescription=false&x-client-id=dewey"@,
{
    let mut s = String::from_str(overdrive_base_url);
    s.append("/media?query=");
    s.append(encoded_query);
    s.append(
        "&format=audiobook-overdrive,audiobook-overdrive-provisional&perPage=24&page=1&truncateDescription=false&x-client-id=dewey",
    );
    s
}

/// The human-facing base URL of a library system.
pub fn libby_base_url(system_id: &str) -> (r: String)
    ensures
        r@ == "https://libbyapp.com/library/"@ + system_id@,
{
    let mut s = String::from_str("https://libbyapp.com/library/");
    s.append(system_id);
    s
}

/// The lending API's base URL of a library system.
pub fn overdrive_base_url(system_id: &str) -> (r: String)
    ensures
        r@ == "https://thunder.api.overdrive.com/v2/libraries/"@ + system_id@,
{
    let mut s = String::from_str("https://thunder.api.overdrive.com/v2/libraries/");
    s.append(system_id);
    s
}

/// The directory autocomplete endpoint for a search string.
pub fn autocomplete_url(input: &str) -> (r: String)
    ensures
        r@ == "https://libbyapp.com/api/locate/autocomplete/"@ + input@,
{
    let mut s = String::from_str("https://libbyapp.com/api/locate/autocomplete/");
    s.append(input);
    s
}

/// The lending API's lookup of a library system by website identifier.
pub fn libraries_by_website_id_url(website_id: &str) -> (r: String)
    ensures
        r@ == "https://thunder.api.overdrive.com/v2/libraries/?websiteid="@ + website_id@,
{
    let mut s = String::from_str("https://thunder.api.overdrive.com/v2/libraries/?websiteid=");
    s.append(website_id);
    s
}

/// The search query for a book: its title and author separated by a space.
pub fn book_query(title: &str, author: &str) -> (r: String)
    ensures
        r@ == title@ + seq![' '] + author@,
{
    let mut s = String::from_str(title);
    s.append(" ");
    s.append(author);
    proof {
        reveal_strlit(" ");
        assert(" "@ =~= seq![' ']);
    }
    s
}

} // verus!
