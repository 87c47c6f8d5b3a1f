//! The library directory: grouping autocomplete branches into library
//! systems with branch counts, and resolving a system identifier into a
//! fully equipped `Library` value.

use vstd::prelude::*;
use crate::books::{Library, SearchLibrary, SearchLibraryView, search_libraries_view};
use crate::probe::{
    arr_element, json_as_array, json_element, json_member, json_num_member,
    json_parse, json_str_member, json_view, json_of, obj_member, obj_num, obj_str, JsonView,
};
use crate::text::{i64_to_dec_string, int_dec_chars};
use crate::urls;

verus! {

/// One branch of the directory's autocomplete answer: the branch's own
/// name and its first library system's identity.
pub struct BranchInfo {
    pub system_name: String,
    pub fulfillment_id: String,
    pub website_id: i64,
    pub name: String,
}

/// The mathematical value of a branch.
pub ghost struct BranchInfoView {
    pub system_name: Seq<char>,
    pub fulfillment_id: Seq<char>,
    pub website_id: int,
    pub name: Seq<char>,
}

impl DeepView for BranchInfo {
    type V = BranchInfoView;

    open spec fn deep_view(&self) -> BranchInfoView {
        BranchInfoView {
            system_name: self.system_name@,
            fulfillment_id: self.fulfillment_id@,
            website_id: self.website_id as int,
            name: self.name@,
        }
    }
}

/// The entry a branch opens for a system seen for the first time.
pub open spec fn new_system_entry(b: BranchInfoView) -> SearchLibraryView {
    SearchLibraryView {
        system_name: b.system_name,
        website_id: int_dec_chars(b.website_id),
        fulfillment_id: b.fulfillment_id,
        name: b.name,
        branch_count: 1,
    }
}

/// The index of the first entry for the named system at or after `i`, or
/// the entry count.
pub open spec fn find_system_from(libs: Seq<SearchLibraryView>, name: Seq<char>, i: int) -> int
    decreases libs.len() - i when 0 <= i <= libs.len()
{
    if i >= libs.len() {
        libs.len() as int
    } else if libs[i].system_name == name {
        i
    } else {
        find_system_from(libs, name, i + 1)
    }
}

/// One more branch counted for the entry at `k`.
pub open spec fn bump_branch_count(
    libs: Seq<SearchLibraryView>,
    k: int,
) -> Seq<SearchLibraryView>
    recommends
        0 <= k < libs.len(),
{
    libs.update(
        k,
        SearchLibraryView {
            system_name: libs[k].system_name,
            website_id: libs[k].website_id,
            fulfillment_id: libs[k].fulfillment_id,
            name: libs[k].name,
            branch_count: libs[k].branch_count + 1,
        },
    )
}

/// The systems of the first `n` branches, in first-encounter order: a
/// branch of a known system raises that system's branch count, a branch of
/// a new system appends an entry for it.
pub open spec fn summarize_upto(bs: Seq<BranchInfoView>, n: int) -> Seq<SearchLibraryView>
    decreases n,
{
    if n <= 0 {
        Seq::empty()
    } else {
        let rest = summarize_upto(bs, n - 1);
        let k = find_system_from(rest, bs[n - 1].system_name, 0);
        if k < rest.len() {
            bump_branch_count(rest, k)
        } else {
            rest.push(new_system_entry(bs[n - 1]))
        }
    }
}

/// The library systems of all branches, with their branch counts.
pub open spec fn summarize_spec(bs: Seq<BranchInfoView>) -> Seq<SearchLibraryView> {
    summarize_upto(bs, bs.len() as int)
}

proof fn lemma_find_system_range(libs: Seq<SearchLibraryView>, name: Seq<char>, i: int)
    requires
        0 <= i <= libs.len(),
    ensures
        i <= find_system_from(libs, name, i) <= libs.len(),
    decreases libs.len() - i,
{
    if i < libs.len() && !(libs[i].system_name == name) {
        lemma_find_system_range(libs, name, i + 1);
    }
}

proof fn lemma_find_system_prefix(libs: Seq<SearchLibraryView>, name: Seq<char>, i: int)
    requires
        0 <= i <= libs.len(),
        forall|j: int| 0 <= j < i ==> (#[trigger] libs[j]).system_name != name,
    ensures
        find_system_from(libs, name, 0) == find_system_from(libs, name, i),
    decreases i,
{
    if i > 0 {
        lemma_find_system_prefix(libs, name, i - 1);
    }
}

/// Every branch count among the first `n` branches' systems is at least 1
/// and at most `n`.
proof fn lemma_summarize_counts(bs: Seq<BranchInfoView>, n: int)
    requires
        n >= 0,
    ensures
        forall|k: int|
            0 <= k < summarize_upto(bs, n).len() ==> 1 <= (#[trigger] summarize_upto(bs, n)[k]).branch_count
                <= n,
    decreases n,
{
    if n > 0 {
        lemma_summarize_counts(bs, n - 1);
        let rest = summarize_upto(bs, n - 1);
        let cur = summarize_upto(bs, n);
        let k = find_system_from(rest, bs[n - 1].system_name, 0);
        lemma_find_system_range(rest, bs[n - 1].system_name, 0);
        assert(cur == (if k < rest.len() {
            bump_branch_count(rest, k)
        } else {
            rest.push(new_system_entry(bs[n - 1]))
        }));
        assert forall|j: int| 0 <= j < cur.len() implies 1 <= (#[trigger] cur[j]).branch_count
            <= n by {
            if k < rest.len() {
                assert(cur == bump_branch_count(rest, k));
                if j == k {
                    assert(cur[j].branch_count == rest[k].branch_count + 1);
                } else {
                    assert(cur[j] == rest[j]);
                }
            } else {
                assert(cur == rest.push(new_system_entry(bs[n - 1])));
                if j < rest.len() {
                    assert(cur[j] == rest[j]);
                } else {
                    assert(cur[j] == new_system_entry(bs[n - 1]));
                }
            }
        }
    }
}

/// Groups autocomplete branches by library system, keeping the order in
/// which systems were first seen and counting each system's branches.
pub fn summarize_branches(branches: &Vec<BranchInfo>) -> (r: Vec<SearchLibrary>)
    requires
        branches@.len() < 0x8000_0000,
    ensures
        search_libraries_view(r@) == summarize_spec(branches.deep_view()),
{
    let ghost bv = branches.deep_view();
    let mut libs: Vec<SearchLibrary> = Vec::new();
    let mut i: usize = 0;
    proof {
        assert(search_libraries_view(libs@) =~= summarize_upto(bv, 0));
    }
    while i < branches.len()
        invariant
            0 <= i <= branches@.len(),
            bv == branches.deep_view(),
            bv.len() == branches@.len(),
            branches@.len() < 0x8000_0000,
            search_libraries_view(libs@) == summarize_upto(bv, i as int),
        decreases branches@.len() - i,
    {
        let ghost lv = search_libraries_view(libs@);
        proof {
            assert(bv[i as int] == branches@[i as int].deep_view());
            lemma_summarize_counts(bv, i as int);
        }
        let name = &branches[i].system_name;
        let mut k: usize = 0;
        while k < libs.len() && !(libs[k].system_name == *name)
            invariant
                0 <= k <= libs@.len(),
                lv == search_libraries_view(libs@),
                lv.len() == libs@.len(),
                forall|j: int| 0 <= j < lv.len() ==> lv[j] == libs@[j]@,
                forall|j: int| 0 <= j < k ==> (#[trigger] lv[j]).system_name != name@,
            decreases libs@.len() - k,
        {
            k = k + 1;
        }
        proof {
            lemma_find_system_prefix(lv, name@, k as int);
            assert(find_system_from(lv, name@, 0) == k);
        }
        if k < libs.len() {
            let mut entry = libs.remove(k);
            entry.branch_count = entry.branch_count + 1;
            libs.insert(k, entry);
            proof {
                assert(search_libraries_view(libs@) =~= bump_branch_count(lv, k as int));
                assert(search_libraries_view(libs@) =~= summarize_upto(bv, i + 1));
            }
        } else {
            let entry = SearchLibrary {
                system_name: branches[i].system_name.clone(),
                website_id: i64_to_dec_string(branches[i].website_id),
                fulfillment_id: branches[i].fulfillment_id.clone(),
                name: branches[i].name.clone(),
                branch_count: 1,
            };
            proof {
                assert(entry@ == new_system_entry(bv[i as int]));
            }
            libs.push(entry);
            proof {
                assert(search_libraries_view(libs@) =~= summarize_upto(bv, i + 1));
            }
        }
        i = i + 1;
    }
    libs
}

/// The branch a response element yields, when its first entry under
/// `systems` carries a string `name` and `fulfillmentId` and an integer
/// `websiteId`, and the element itself a string `name`.
pub open spec fn branch_of(v: JsonView) -> Option<BranchInfoView> {
    match obj_member(v, "systems"@) {
        None => None,
        Some(systems) => match arr_element(systems, 0) {
            None => None,
            Some(sys0) => match obj_str(sys0, "name"@) {
                None => None,
                Some(system_name) => match obj_str(sys0, "fulfillmentId"@) {
                    None => None,
                    Some(fulfillment_id) => match obj_num(sys0, "websiteId"@) {
                        None => None,
                        Some(website_id) => match obj_str(v, "name"@) {
                            None => None,
                            Some(name) => Some(
                                BranchInfoView { system_name, fulfillment_id, website_id, name },
                            ),
                        },
                    },
                },
            },
        },
    }
}

/// The well-formed branches of a response array, in order; malformed
/// elements contribute nothing.
pub open spec fn parsed_branches(vs: Seq<JsonView>) -> Seq<BranchInfoView>
    decreases vs.len(),
{
    if vs.len() == 0 {
        Seq::empty()
    } else {
        let rest = parsed_branches(vs.drop_last());
        match branch_of(vs.last()) {
            Some(b) => rest.push(b),
            None => rest,
        }
    }
}

/// The branches of an autocomplete response: `None` when the text is not
/// JSON; a missing or non-array `branches` member yields no branches.
pub open spec fn branches_of(text: Seq<char>) -> Option<Seq<BranchInfoView>> {
    match json_of(text) {
        None => None,
        Some(doc) => match obj_member(doc, "branches"@) {
            None => Some(Seq::empty()),
            Some(b) => if b is Arr {
                Some(parsed_branches(b->Arr_0))
            } else {
                Some(Seq::empty())
            },
        },
    }
}

/// Reads one autocomplete branch: its first system's name, fulfillment
/// and website identifiers, and the branch's own name.
fn branch_from_json(v: &serde_json::Value) -> (r: Option<BranchInfo>)
    ensures
        r is Some <==> branch_of(json_view(*v)) is Some,
        r is Some ==> r->0.deep_view() == branch_of(json_view(*v))->0,
{
    let systems = match json_member(v, "systems") {
        Some(s) => s,
        None => return None,
    };
    let sys0 = match json_element(systems, 0) {
        Some(s) => s,
        None => return None,
    };
    let system_name = match json_str_member(sys0, "name") {
        Some(s) => s,
        None => return None,
    };
    let fulfillment_id = match json_str_member(sys0, "fulfillmentId") {
        Some(s) => s,
        None => return None,
    };
    let website_id = match json_num_member(sys0, "websiteId") {
        Some(n) => n,
        None => return None,
    };
    let name = match json_str_member(v, "name") {
        Some(s) => s,
        None => return None,
    };
    Some(BranchInfo { system_name, fulfillment_id, website_id, name })
}

/// Reads the `branches` array of an autocomplete response.  `None` when
/// the text is not JSON; a missing array yields no branches, and a branch
/// missing a field is skipped.
pub fn parse_branches(text: &str) -> (r: Option<Vec<BranchInfo>>)
    ensures
        r is Some <==> branches_of(text@) is Some,
        r is Some ==> r->0.deep_view() == branches_of(text@)->0,
{
    let v = match json_parse(text) {
        Some(v) => v,
        None => return None,
    };
    let mut out: Vec<BranchInfo> = Vec::new();
    let member = match json_member(&v, "branches") {
        Some(b) => b,
        None => {
            proof {
                assert(out.deep_view() =~= Seq::<BranchInfoView>::empty());
            }
            return Some(out);
        },
    };
    let arr = match json_as_array(member) {
        Some(a) => a,
        None => {
            proof {
                assert(out.deep_view() =~= Seq::<BranchInfoView>::empty());
            }
            return Some(out);
        },
    };
    let ghost av = json_view(*member)->Arr_0;
    let mut i: usize = 0;
    proof {
        assert(av.subrange(0, 0) =~= Seq::<JsonView>::empty());
        assert(out.deep_view() =~= parsed_branches(av.subrange(0, 0)));
    }
    while i < arr.len()
        invariant
            0 <= i <= arr@.len(),
            av == json_view(*member)->Arr_0,
            av.len() == arr@.len(),
            forall|j: int| 0 <= j < arr@.len() ==> json_view(#[trigger] arr@[j]) == av[j],
            branches_of(text@) == Some(parsed_branches(av)),
            out.deep_view() == parsed_branches(av.subrange(0, i as int)),
        decreases arr@.len() - i,
    {
        let ghost pre = av.subrange(0, i as int);
        let ghost pre1 = av.subrange(0, i + 1);
        proof {
            assert(pre1.drop_last() =~= pre);
            assert(pre1.last() == av[i as int]);
        }
        if let Some(b) = branch_from_json(&arr[i]) {
            out.push(b);
            proof {
                assert(out.deep_view() =~= parsed_branches(pre).push(
                    branch_of(av[i as int])->0,
                ));
            }
        }
        i = i + 1;
    }
    proof {
        assert(av.subrange(0, av.len() as int) =~= av);
    }
    Some(out)
}

/// The library systems named by an autocomplete response, grouped and
/// counted.
pub fn parse_library_search_response(text: &str) -> (r: Option<Vec<SearchLibrary>>)
    ensures
        r is Some <==> (branches_of(text@) is Some && branches_of(text@)->0.len() < 0x8000_0000),
        r is Some ==> search_libraries_view(r->0@) == summarize_spec(branches_of(text@)->0),
{
    let branches = match parse_branches(text) {
        Some(b) => b,
        None => return None,
    };
    if branches.len() >= 0x8000_0000 {
        return None;
    }
    let libs = summarize_branches(&branches);
    Some(libs)
}

/// Equips a resolved library system with its two endpoints, keeping each
/// identifier as given.
pub fn library_from_parts(
    system_id: &str,
    website_id: &str,
    fulfillment_id: &str,
    name: &str,
) -> (r: Library)
    ensures
        r.search_library.system_name@ == name@,
        r.search_library.website_id@ == website_id@,
        r.search_library.fulfillment_id@ == fulfillment_id@,
        r.search_library.name@ == name@,
        r.search_library.branch_count == 1,
        r.system_id@ == system_id@,
        r.libby_base_url@ == "https://libbyapp.com/library/"@ + system_id@,
        r.overdrive_base_url@ == "https://thunder.api.overdrive.com/v2/libraries/"@ + system_id@,
{
    let search_library = SearchLibrary {
        system_name: name.to_owned(),
        website_id: website_id.to_owned(),
        fulfillment_id: fulfillment_id.to_owned(),
        name: name.to_owned(),
        branch_count: 1,
    };
    Library {
        search_library,
        system_id: system_id.to_owned(),
        libby_base_url: urls::libby_base_url(system_id),
        overdrive_base_url: urls::overdrive_base_url(system_id),
    }
}

/// What a website-identifier lookup response names: the first item's
/// system identifier, fulfillment identifier and system name, when all
/// three are present as strings.
pub open spec fn website_lookup_of(text: Seq<char>) -> Option<(Seq<char>, Seq<char>, Seq<char>)> {
    match json_of(text) {
        None => None,
        Some(doc) => match obj_member(doc, "items"@) {
            None => None,
            Some(items) => match arr_element(items, 0) {
                None => None,
                Some(item0) => match obj_str(item0, "id"@) {
                    None => None,
                    Some(id) => match obj_str(item0, "fulfillmentId"@) {
                        None => None,
                        Some(fulfillment) => match obj_str(item0, "name"@) {
                            None => None,
                            Some(name) => Some((id, fulfillment, name)),
                        },
                    },
                },
            },
        },
    }
}

/// What a system-identifier lookup response names: its top-level system
/// name, website identifier and fulfillment identifier, when all three are
/// present as strings.
pub open spec fn system_lookup_of(text: Seq<char>) -> Option<(Seq<char>, Seq<char>, Seq<char>)> {
    match json_of(text) {
        None => None,
        Some(doc) => match obj_str(doc, "name"@) {
            None => None,
            Some(name) => match obj_str(doc, "websiteId"@) {
                None => None,
                Some(website_id) => match obj_str(doc, "fulfillmentId"@) {
                    None => None,
                    Some(fulfillment) => Some((name, website_id, fulfillment)),
                },
            },
        },
    }
}

/// Resolves a website identifier's lookup response into a `Library`: the
/// first item's system identifier, fulfillment identifier and name, with
/// both endpoints derived from the system identifier.
pub fn parse_library_by_website_response(website_id: &str, text: &str) -> (r: Option<Library>)
    ensures
        r is Some <==> website_lookup_of(text@) is Some,
        r is Some ==> ({
            let lib = r->0;
            let parts = website_lookup_of(text@)->0;
            &&& lib.system_id@ == parts.0
            &&& lib.search_library.fulfillment_id@ == parts.1
            &&& lib.search_library.system_name@ == parts.2
            &&& lib.search_library.name@ == parts.2
            &&& lib.search_library.website_id@ == website_id@
            &&& lib.search_library.branch_count == 1
            &&& lib.libby_base_url@ == "https://libbyapp.com/library/"@ + parts.0
            &&& lib.overdrive_base_url@ == "https://thunder.api.overdrive.com/v2/libraries/"@
                + parts.0
        }),
{
    let v = match json_parse(text) {
        Some(v) => v,
        None => return None,
    };
    let items = match json_member(&v, "items") {
        Some(x) => x,
        None => return None,
    };
    let item0 = match json_element(items, 0) {
        Some(x) => x,
        None => return None,
    };
    let system_id = match json_str_member(item0, "id") {
        Some(s) => s,
        None => return None,
    };
    let fulfillment_id = match json_str_member(item0, "fulfillmentId") {
        Some(s) => s,
        None => return None,
    };
    let name = match json_str_member(item0, "name") {
        Some(s) => s,
        None => return None,
    };
    Some(library_from_parts(system_id.as_str(), website_id, fulfillment_id.as_str(), name.as_str()))
}

/// Resolves a system identifier's lookup response into a `Library`: the
/// response's name, website and fulfillment identifiers, with both
/// endpoints derived from the given system identifier.
pub fn parse_library_by_system_response(system_id: &str, text: &str) -> (r: Option<Library>)
    ensures
        r is Some <==> system_lookup_of(text@) is Some,
        r is Some ==> ({
            let lib = r->0;
            let parts = system_lookup_of(text@)->0;
            &&& lib.system_id@ == system_id@
            &&& lib.search_library.system_name@ == parts.0
            &&& lib.search_library.name@ == parts.0
            &&& lib.search_library.website_id@ == parts.1
            &&& lib.search_library.fulfillment_id@ == parts.2
            &&& lib.search_library.branch_count == 1
            &&& lib.libby_base_url@ == "https://libbyapp.com/library/"@ + system_id@
            &&& lib.overdrive_base_url@ == "https://thunder.api.overdrive.com/v2/libraries/"@
                + system_id@
        }),
{
    let v = match json_parse(text) {
        Some(v) => v,
        None => return None,
    };
    let name = match json_str_member(&v, "name") {
        Some(s) => s,
        None => return None,
    };
    let website_id = match json_str_member(&v, "websiteId") {
        Some(s) => s,
        None => return None,
    };
    let fulfillment_id = match json_str_member(&v, "fulfillmentId") {
        Some(s) => s,
        None => return None,
    };
    Some(
        library_from_parts(
            system_id,
            website_id.as_str(),
            fulfillment_id.as_str(),
            name.as_str(),
        ),
    )
}

} // verus!
