use libbyreads_rs::aggregate::{
    accumulate_probe, aggregate_probe_results, availability_rank, classify_verdict,
};
use libbyreads_rs::books::{BookAvailability, GoodreadsBook, LibbyLibraryBook};
use libbyreads_rs::probe::ProbeError;

fn book() -> GoodreadsBook {
    GoodreadsBook {
        cover: "http://covers/b.jpg".to_string(),
        title: "The Martian".to_string(),
        author: "Weir, Andy".to_string(),
    }
}

fn probe(url: &str, available: bool, holdable: bool) -> LibbyLibraryBook {
    LibbyLibraryBook {
        cover: String::new(),
        title: "The Martian".to_string(),
        author: "Weir, Andy".to_string(),
        is_available: available,
        is_holdable: holdable,
        libby_search_url: url.to_string(),
    }
}

#[test]
fn available_wins_over_holdable() {
    let results = vec![
        probe("http://lib/one", false, true),
        probe("http://lib/two", true, false),
        probe("http://lib/three", true, true),
    ];
    let v = aggregate_probe_results(&book(), results).unwrap();
    assert!(v.is_available);
    assert!(!v.is_holdable);
    assert_eq!(v.libby_search_url, "http://lib/two");
    assert_eq!(v.library_books.len(), 3);
    assert_eq!(v.title, "The Martian");
    assert_eq!(v.cover, "http://covers/b.jpg");
}

#[test]
fn holdable_when_none_available() {
    let results = vec![
        probe("http://lib/one", false, false),
        probe("http://lib/two", false, true),
        probe("http://lib/three", false, true),
    ];
    let v = aggregate_probe_results(&book(), results).unwrap();
    assert!(!v.is_available);
    assert!(v.is_holdable);
    assert_eq!(v.libby_search_url, "http://lib/two");
}

#[test]
fn neither_when_all_unowned() {
    let results = vec![
        probe("http://lib/one", false, false),
        probe("http://lib/two", false, false),
    ];
    let v = aggregate_probe_results(&book(), results).unwrap();
    assert!(!v.is_available);
    assert!(!v.is_holdable);
    assert_eq!(v.libby_search_url, "http://lib/one");
}

#[test]
fn single_library_verdict() {
    let results = vec![probe("http://lib/only", true, false)];
    let v = aggregate_probe_results(&book(), results).unwrap();
    assert!(v.is_available);
    assert_eq!(v.libby_search_url, "http://lib/only");
}

#[test]
fn zero_libraries_yield_explicit_absent_verdict() {
    let v = aggregate_probe_results(&book(), Vec::new());
    assert!(v.is_none());
}

#[test]
fn failed_probe_skipped_siblings_kept() {
    let mut results: Vec<LibbyLibraryBook> = Vec::new();
    accumulate_probe(&mut results, Ok(probe("http://lib/one", false, true)));
    accumulate_probe(&mut results, Err(ProbeError::Transient));
    accumulate_probe(&mut results, Ok(probe("http://lib/three", false, false)));
    accumulate_probe(&mut results, Err(ProbeError::UpstreamShape));
    assert_eq!(results.len(), 2);
    assert_eq!(results[0].libby_search_url, "http://lib/one");
    assert_eq!(results[1].libby_search_url, "http://lib/three");
    let v = aggregate_probe_results(&book(), results).unwrap();
    assert!(!v.is_available);
    assert!(v.is_holdable);
    assert_eq!(v.libby_search_url, "http://lib/one");
}

#[test]
fn classification_follows_priority() {
    assert_eq!(classify_verdict(true, true), BookAvailability::Available);
    assert_eq!(classify_verdict(true, false), BookAvailability::Available);
    assert_eq!(classify_verdict(false, true), BookAvailability::Holdable);
    assert_eq!(classify_verdict(false, false), BookAvailability::NotOwned);
}

#[test]
fn rank_orders_best_first() {
    let a = availability_rank(&BookAvailability::Available);
    let h = availability_rank(&BookAvailability::Holdable);
    let n = availability_rank(&BookAvailability::NotOwned);
    assert!(a < h && h < n);
}
