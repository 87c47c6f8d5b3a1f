use libbyreads_rs::urlencode::encode_query;
use libbyreads_rs::urls::{
    autocomplete_url, book_query, libby_base_url, libby_search_url, libraries_by_website_id_url,
    overdrive_base_url, overdrive_media_url, shelf_page_url, shelf_url,
};

#[test]
fn shelf_urls() {
    assert_eq!(
        shelf_url("12345"),
        "https://goodreads.com/review/list/12345?print=true&shelf=to-read"
    );
    assert_eq!(
        shelf_page_url("12345", 7),
        "https://goodreads.com/review/list/12345?print=true&shelf=to-read&page=7"
    );
}

#[test]
fn library_base_urls() {
    assert_eq!(libby_base_url("hawaii"), "https://libbyapp.com/library/hawaii");
    assert_eq!(
        overdrive_base_url("hawaii"),
        "https://thunder.api.overdrive.com/v2/libraries/hawaii"
    );
}

#[test]
fn directory_urls() {
    assert_eq!(
        autocomplete_url("honolulu"),
        "https://libbyapp.com/api/locate/autocomplete/honolulu"
    );
    assert_eq!(
        libraries_by_website_id_url("50"),
        "https://thunder.api.overdrive.com/v2/libraries/?websiteid=50"
    );
}

#[test]
fn query_and_search_urls() {
    let q = book_query("Dune", "Herbert, Frank");
    assert_eq!(q, "Dune Herbert, Frank");
    let encoded = encode_query(q.as_str());
    assert_eq!(encoded, "Dune%20Herbert%2C%20Frank");
    assert_eq!(
        libby_search_url("https://libbyapp.com/library/hawaii", encoded.as_str()),
        "https://libbyapp.com/library/hawaii/search/query-Dune%20Herbert%2C%20Frank/page-1"
    );
    assert_eq!(
        overdrive_media_url(
            "https://thunder.api.overdrive.com/v2/libraries/hawaii",
            encoded.as_str()
        ),
        "https://thunder.api.overdrive.com/v2/libraries/hawaii/media?query=Dune%20Herbert%2C%20Frank&format=audiobook-overdrive,audiobook-overdrive-provisional&perPage=24&page=1&truncateDescription=false&x-client-id=dewey"
    );
}
