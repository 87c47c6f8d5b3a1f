use libbyreads_rs::books::GoodreadsBook;
use libbyreads_rs::probe::{
    evaluate_probe_response, item_matches_book, parse_probe_items, OverdriveItem, ProbeError,
};

fn book(title: &str, author: &str) -> GoodreadsBook {
    GoodreadsBook {
        cover: "http://covers/book.jpg".to_string(),
        title: title.to_string(),
        author: author.to_string(),
    }
}

fn item(title: &str, author: &str, available: bool, holdable: bool) -> String {
    format!(
        "{{\"title\":\"{}\",\"firstCreatorSortName\":\"{}\",\
         \"isAvailable\":{},\"isHoldable\":{},\
         \"covers\":{{\"cover150Wide\":{{\"href\":\"http://img/{}.jpg\"}}}}}}",
        title, author, available, holdable, title
    )
}

fn response(items: &[String]) -> String {
    format!("{{\"items\":[{}]}}", items.join(","))
}

#[test]
fn exact_title_matches() {
    let b = book("The Martian", "Weir, Andy");
    let it = OverdriveItem {
        title: "The Martian".to_string(),
        author: "Weir, Andy".to_string(),
        is_available: true,
        is_holdable: false,
        cover: String::new(),
    };
    assert!(item_matches_book(&b, &it));
}

#[test]
fn prefix_title_matches() {
    let b = book("A Darker Shade of Magic (Shades of Magic, #1)", "Schwab, V.E.");
    let it = OverdriveItem {
        title: "A Darker Shade of Magic".to_string(),
        author: "schwab, v.e.".to_string(),
        is_available: false,
        is_holdable: true,
        cover: String::new(),
    };
    assert!(item_matches_book(&b, &it));
}

#[test]
fn case_folding_is_applied() {
    let b = book("THE MARTIAN", "WEIR, ANDY");
    let it = OverdriveItem {
        title: "the martian".to_string(),
        author: "weir, andy".to_string(),
        is_available: false,
        is_holdable: false,
        cover: String::new(),
    };
    assert!(item_matches_book(&b, &it));
}

#[test]
fn differing_author_rejected() {
    let b = book("The Martian", "Weir, Andy");
    let it = OverdriveItem {
        title: "The Martian".to_string(),
        author: "Clarke, Arthur C.".to_string(),
        is_available: true,
        is_holdable: true,
        cover: String::new(),
    };
    assert!(!item_matches_book(&b, &it));
}

#[test]
fn newlines_in_item_title_ignored() {
    let b = book("The Martian", "Weir, Andy");
    let it = OverdriveItem {
        title: "\nThe Martian \n".to_string(),
        author: "Weir, Andy".to_string(),
        is_available: false,
        is_holdable: false,
        cover: String::new(),
    };
    assert!(item_matches_book(&b, &it));
}

#[test]
fn first_matching_item_wins() {
    let b = book("The Martian", "Weir, Andy");
    let text = response(&[
        item("Unrelated", "Someone Else", true, true),
        item("The Martian", "Weir, Andy", false, true),
        item("The Martian", "Weir, Andy", true, false),
    ]);
    let r = evaluate_probe_response(&b, text.as_str(), "http://search/url".to_string()).unwrap();
    assert_eq!(r.title, "The Martian");
    assert!(!r.is_available);
    assert!(r.is_holdable);
    assert_eq!(r.cover, "http://img/The Martian.jpg");
    assert_eq!(r.libby_search_url, "http://search/url");
}

#[test]
fn no_match_yields_fallback_record() {
    let b = book("The Martian", "Weir, Andy");
    let text = response(&[item("Different Book", "Else, Someone", true, true)]);
    let r = evaluate_probe_response(&b, text.as_str(), "http://search/url".to_string()).unwrap();
    assert_eq!(r.title, "The Martian");
    assert_eq!(r.author, "Weir, Andy");
    assert!(!r.is_available);
    assert!(!r.is_holdable);
    assert_eq!(r.cover, "");
    assert_eq!(r.libby_search_url, "http://search/url");
}

#[test]
fn empty_items_yield_fallback_record() {
    let b = book("The Martian", "Weir, Andy");
    let r = evaluate_probe_response(&b, "{\"items\":[]}", "u".to_string()).unwrap();
    assert!(!r.is_available);
    assert!(!r.is_holdable);
    assert_eq!(r.libby_search_url, "u");
}

#[test]
fn malformed_response_is_shape_error() {
    let b = book("The Martian", "Weir, Andy");
    assert!(matches!(
        evaluate_probe_response(&b, "not json at all", "u".to_string()),
        Err(ProbeError::UpstreamShape)
    ));
    assert!(matches!(
        evaluate_probe_response(&b, "{\"nothing\":1}", "u".to_string()),
        Err(ProbeError::UpstreamShape)
    ));
    let missing_field = "{\"items\":[{\"title\":\"x\"}]}";
    assert!(matches!(
        evaluate_probe_response(&b, missing_field, "u".to_string()),
        Err(ProbeError::UpstreamShape)
    ));
}

#[test]
fn items_parsed_with_all_fields() {
    let text = response(&[item("A", "B", true, false)]);
    let items = parse_probe_items(text.as_str()).unwrap();
    assert_eq!(items.len(), 1);
    assert_eq!(items[0].title, "A");
    assert_eq!(items[0].author, "B");
    assert!(items[0].is_available);
    assert!(!items[0].is_holdable);
    assert_eq!(items[0].cover, "http://img/A.jpg");
}
