use libbyreads_rs::directory::{
    library_from_parts, parse_library_by_system_response, parse_library_by_website_response,
    parse_library_search_response, summarize_branches, BranchInfo,
};

fn branch_json(branch_name: &str, system_name: &str, fulfillment: &str, website_id: i64) -> String {
    format!(
        "{{\"name\":\"{}\",\"systems\":[{{\"name\":\"{}\",\
         \"fulfillmentId\":\"{}\",\"websiteId\":{}}}]}}",
        branch_name, system_name, fulfillment, website_id
    )
}

#[test]
fn branches_grouped_by_system_in_first_seen_order() {
    let text = format!(
        "{{\"count\":3,\"total\":3,\"branches\":[{},{},{}]}}",
        branch_json("Hawaii Kai Library", "Hawaii State Public Library System", "hawaii", 50),
        branch_json("Kaimuki Library", "Hawaii State Public Library System", "hawaii", 50),
        branch_json("Seattle Central", "Seattle Public Library", "spl", 34550),
    );
    let libs = parse_library_search_response(text.as_str()).unwrap();
    assert_eq!(libs.len(), 2);
    assert_eq!(libs[0].system_name, "Hawaii State Public Library System");
    assert_eq!(libs[0].branch_count, 2);
    assert_eq!(libs[0].website_id, "50");
    assert_eq!(libs[0].fulfillment_id, "hawaii");
    assert_eq!(libs[0].name, "Hawaii Kai Library");
    assert_eq!(libs[1].system_name, "Seattle Public Library");
    assert_eq!(libs[1].branch_count, 1);
    assert_eq!(libs[1].website_id, "34550");
}

#[test]
fn malformed_branch_skipped() {
    let text = format!(
        "{{\"branches\":[{{\"name\":\"No Systems Here\"}},{}]}}",
        branch_json("Seattle Central", "Seattle Public Library", "spl", 34550),
    );
    let libs = parse_library_search_response(text.as_str()).unwrap();
    assert_eq!(libs.len(), 1);
    assert_eq!(libs[0].system_name, "Seattle Public Library");
}

#[test]
fn missing_branches_array_is_empty_result() {
    let libs = parse_library_search_response("{\"count\":0}").unwrap();
    assert!(libs.is_empty());
    assert!(parse_library_search_response("not json").is_none());
}

#[test]
fn summarize_directly() {
    let branches = vec![
        BranchInfo {
            system_name: "S".to_string(),
            fulfillment_id: "s".to_string(),
            website_id: -7,
            name: "Branch".to_string(),
        },
    ];
    let libs = summarize_branches(&branches);
    assert_eq!(libs.len(), 1);
    assert_eq!(libs[0].website_id, "-7");
    assert_eq!(libs[0].branch_count, 1);
}

#[test]
fn library_urls_derived_from_system_id() {
    let lib = library_from_parts("hawaii", "50", "hawaii", "Hawaii State Public Library System");
    assert_eq!(lib.system_id, "hawaii");
    assert_eq!(lib.libby_base_url, "https://libbyapp.com/library/hawaii");
    assert_eq!(
        lib.overdrive_base_url,
        "https://thunder.api.overdrive.com/v2/libraries/hawaii"
    );
    assert_eq!(lib.search_library.website_id, "50");
    assert_eq!(lib.search_library.branch_count, 1);
}

#[test]
fn website_id_lookup_parsed() {
    let text = "{\"items\":[{\"id\":\"hawaii\",\"fulfillmentId\":\"hawaii\",\
                \"name\":\"Hawaii State Public Library System\"}]}";
    let lib = parse_library_by_website_response("50", text).unwrap();
    assert_eq!(lib.system_id, "hawaii");
    assert_eq!(lib.search_library.website_id, "50");
    assert_eq!(lib.search_library.system_name, "Hawaii State Public Library System");
    assert_eq!(lib.libby_base_url, "https://libbyapp.com/library/hawaii");
    assert!(parse_library_by_website_response("50", "{\"items\":[]}").is_none());
}

#[test]
fn system_id_lookup_parsed() {
    let text = "{\"name\":\"Hawaii State Public Library System\",\"websiteId\":\"50\",\
                \"fulfillmentId\":\"hawaii\"}";
    let lib = parse_library_by_system_response("hawaii", text).unwrap();
    assert_eq!(lib.system_id, "hawaii");
    assert_eq!(lib.search_library.website_id, "50");
    assert_eq!(
        lib.overdrive_base_url,
        "https://thunder.api.overdrive.com/v2/libraries/hawaii"
    );
    assert!(parse_library_by_system_response("hawaii", "{}").is_none());
}
