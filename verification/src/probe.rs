//! Probing one library for one book: reading the lending API's JSON
//! response and deciding, by the case-insensitive prefix rule, which item
//! matches the book.  JSON access goes through `serde_json` behind trusted
//! accessors; the selection logic is verified for every value they return.

use vstd::prelude::*;
use crate::books::{GoodreadsBook, GoodreadsBookView, LibbyLibraryBook, LibbyLibraryBookView};
use crate::text::{remove_newlines, str_starts_with, strip_newlines, trim, trim_spec};

verus! {

#[verifier::external_type_specification]
#[verifier::external_body]
pub struct ExJsonValue(serde_json::Value);

/// Per-(book, library) failure: the response did not have the JSON shape
/// the lending API documents, or it could not be fetched at all.
#[derive(Clone, Copy, Debug, PartialEq, Eq, Structural)]
pub enum ProbeError {
    UpstreamShape,
    Transient,
}

/// The mathematical value of a JSON document.  A number carries the
/// integer it represents when it is an integer that fits `i64`, the only
/// reading the library makes of numbers; an object is the map from keys to
/// member values.
pub ghost enum JsonView {
    Null,
    Bool(bool),
    Num(Option<int>),
    Str(Seq<char>),
    Arr(Seq<JsonView>),
    Obj(Map<Seq<char>, JsonView>),
}

/// What a `serde_json::Value` holds.
pub uninterp spec fn json_view(v: serde_json::Value) -> JsonView;

/// What parsing a text as JSON yields: a function of the text alone,
/// `None` exactly when the parser rejects it.
pub uninterp spec fn json_of(text: Seq<char>) -> Option<JsonView>;

/// The member of an object under a key; `None` for absent keys and
/// non-objects.
pub open spec fn obj_member(v: JsonView, key: Seq<char>) -> Option<JsonView> {
    if v is Obj && v->Obj_0.contains_key(key) {
        Some(v->Obj_0[key])
    } else {
        None
    }
}

/// The string member of an object under a key.
pub open spec fn obj_str(v: JsonView, key: Seq<char>) -> Option<Seq<char>> {
    match obj_member(v, key) {
        Some(JsonView::Str(s)) => Some(s),
        _ => None,
    }
}

/// The boolean member of an object under a key.
pub open spec fn obj_bool(v: JsonView, key: Seq<char>) -> Option<bool> {
    match obj_member(v, key) {
        Some(JsonView::Bool(b)) => Some(b),
        _ => None,
    }
}

/// The integer member of an object under a key, when it fits `i64`.
pub open spec fn obj_num(v: JsonView, key: Seq<char>) -> Option<int> {
    match obj_member(v, key) {
        Some(JsonView::Num(n)) => n,
        _ => None,
    }
}

/// The element of an array at an index; `None` past the end and for
/// non-arrays.
pub open spec fn arr_element(v: JsonView, i: int) -> Option<JsonView> {
    if v is Arr && 0 <= i < v->Arr_0.len() {
        Some(v->Arr_0[i])
    } else {
        None
    }
}

/// Relies on `serde_json::from_str`: parsing is a function of the text
/// alone, succeeding on exactly the documents the parser accepts.
#[verifier::external_body]
pub(crate) fn json_parse(text: &str) -> (r: Option<serde_json::Value>)
    ensures
        r is Some <==> json_of(text@) is Some,
        r is Some ==> json_view(r->0) == json_of(text@)->0,
{
    serde_json::from_str(text).ok()
}

/// Relies on `serde_json::Value::get`: the member of an object under a
/// key, `None` for absent keys and non-objects.
#[verifier::external_body]
pub(crate) fn json_member<'a>(v: &'a serde_json::Value, key: &str) -> (r: Option<&'a serde_json::Value>)
    ensures
        r is Some <==> obj_member(json_view(*v), key@) is Some,
        r is Some ==> json_view(*r->0) == obj_member(json_view(*v), key@)->0,
{
    v.get(key)
}

/// Relies on `serde_json::Value::as_array`: the elements of a JSON array,
/// in order, `None` for other values.
#[verifier::external_body]
pub(crate) fn json_as_array<'a>(v: &'a serde_json::Value) -> (r: Option<&'a Vec<serde_json::Value>>)
    ensures
        r is Some <==> json_view(*v) is Arr,
        r is Some ==> r->0@.len() == json_view(*v)->Arr_0.len(),
        r is Some ==> forall|i: int|
            0 <= i < r->0@.len() ==> json_view(#[trigger] r->0@[i]) == json_view(*v)->Arr_0[i],
{
    v.as_array()
}

/// Relies on `serde_json::Value::as_str`: the content of a JSON string,
/// `None` for other values.
#[verifier::external_body]
pub(crate) fn json_as_str(v: &serde_json::Value) -> (r: Option<String>)
    ensures
        r is Some <==> json_view(*v) is Str,
        r is Some ==> r->0@ == json_view(*v)->Str_0,
{
    v.as_str().map(|s| s.to_string())
}

/// Relies on `serde_json::Value::as_bool`: the value of a JSON boolean,
/// `None` for other values.
#[verifier::external_body]
pub(crate) fn json_as_bool(v: &serde_json::Value) -> (r: Option<bool>)
    ensures
        r is Some <==> json_view(*v) is Bool,
        r is Some ==> r->0 == json_view(*v)->Bool_0,
{
    v.as_bool()
}

/// Relies on `serde_json::Value::as_i64`: the value of a JSON number that
/// is an integer fitting `i64`, `None` for every other value.
#[verifier::external_body]
pub(crate) fn json_as_i64(v: &serde_json::Value) -> (r: Option<i64>)
    ensures
        r is Some <==> (json_view(*v) is Num && json_view(*v)->Num_0 is Some),
        r is Some ==> r->0 as int == json_view(*v)->Num_0->0,
{
    v.as_i64()
}

/// Relies on `serde_json::Value::get`: the element of a JSON array at an
/// index, `None` past the end and for non-arrays.
#[verifier::external_body]
pub(crate) fn json_element<'a>(v: &'a serde_json::Value, idx: usize) -> (r: Option<
    &'a serde_json::Value,
>)
    ensures
        r is Some <==> arr_element(json_view(*v), idx as int) is Some,
        r is Some ==> json_view(*r->0) == arr_element(json_view(*v), idx as int)->0,
{
    v.get(idx)
}

/// The string under a key of a JSON object, when both exist.
pub(crate) fn json_str_member(v: &serde_json::Value, key: &str) -> (r: Option<String>)
    ensures
        r is Some <==> obj_str(json_view(*v), key@) is Some,
        r is Some ==> r->0@ == obj_str(json_view(*v), key@)->0,
{
    match json_member(v, key) {
        Some(x) => json_as_str(x),
        None => None,
    }
}

/// The boolean under a key of a JSON object, when both exist.
fn json_bool_member(v: &serde_json::Value, key: &str) -> (r: Option<bool>)
    ensures
        r is Some <==> obj_bool(json_view(*v), key@) is Some,
        r is Some ==> r->0 == obj_bool(json_view(*v), key@)->0,
{
    match json_member(v, key) {
        Some(x) => json_as_bool(x),
        None => None,
    }
}

/// The `i64` integer under a key of a JSON object, when both exist.
pub(crate) fn json_num_member(v: &serde_json::Value, key: &str) -> (r: Option<i64>)
    ensures
        r is Some <==> obj_num(json_view(*v), key@) is Some,
        r is Some ==> r->0 as int == obj_num(json_view(*v), key@)->0,
{
    match json_member(v, key) {
        Some(x) => json_as_i64(x),
        None => None,
    }
}

/// One item of the lending API's media search response.
pub struct OverdriveItem {
    pub title: String,
    pub author: String,
    pub is_available: bool,
    pub is_holdable: bool,
    pub cover: String,
}

/// The mathematical value of a response item.
pub ghost struct OverdriveItemView {
    pub title: Seq<char>,
    pub author: Seq<char>,
    pub is_available: bool,
    pub is_holdable: bool,
    pub cover: Seq<char>,
}

impl DeepView for OverdriveItem {
    type V = OverdriveItemView;

    open spec fn deep_view(&self) -> OverdriveItemView {
        OverdriveItemView {
            title: self.title@,
            author: self.author@,
            is_available: self.is_available,
            is_holdable: self.is_holdable,
            cover: self.cover@,
        }
    }
}

/// The item a response element yields, when it carries a string `title`
/// and `firstCreatorSortName`, booleans `isAvailable` and `isHoldable`,
/// and a string under `covers.cover150Wide.href`.
pub open spec fn item_of(v: JsonView) -> Option<OverdriveItemView> {
    match obj_str(v, "title"@) {
        None => None,
        Some(title) => match obj_str(v, "firstCreatorSortName"@) {
            None => None,
            Some(author) => match obj_bool(v, "isAvailable"@) {
                None => None,
                Some(is_available) => match obj_bool(v, "isHoldable"@) {
                    None => None,
                    Some(is_holdable) => match obj_member(v, "covers"@) {
                        None => None,
                        Some(covers) => match obj_member(covers, "cover150Wide"@) {
                            None => None,
                            Some(wide) => match obj_str(wide, "href"@) {
                                None => None,
                                Some(cover) => Some(
                                    OverdriveItemView {
                                        title,
                                        author,
                                        is_available,
                                        is_holdable,
                                        cover,
                                    },
                                ),
                            },
                        },
                    },
                },
            },
        },
    }
}

/// All items of a response array, when every element yields one.
pub open spec fn all_items_of(vs: Seq<JsonView>) -> Option<Seq<OverdriveItemView>>
    decreases vs.len(),
{
    if vs.len() == 0 {
        Some(Seq::empty())
    } else {
        match all_items_of(vs.drop_last()) {
            None => None,
            Some(rest) => match item_of(vs.last()) {
                None => None,
                Some(item) => Some(rest.push(item)),
            },
        }
    }
}

/// One malformed element spoils the whole array.
proof fn lemma_all_items_failure(vs: Seq<JsonView>, i: int)
    requires
        0 <= i < vs.len(),
        item_of(vs[i]) is None,
    ensures
        all_items_of(vs) is None,
    decreases vs.len(),
{
    if i < vs.len() - 1 {
        assert(vs.drop_last()[i] == vs[i]);
        lemma_all_items_failure(vs.drop_last(), i);
    }
}

/// The items of a media search response: the parsed text's `items` array,
/// each element read as an item; `None` when the text is not JSON, the
/// array is missing, or any element misses an expected field.
pub open spec fn overdrive_items_of(text: Seq<char>) -> Option<Seq<OverdriveItemView>> {
    match json_of(text) {
        None => None,
        Some(doc) => match obj_member(doc, "items"@) {
            None => None,
            Some(items) => if items is Arr {
                all_items_of(items->Arr_0)
            } else {
                None
            },
        },
    }
}

/// Reads one response item's fields: `title`, `firstCreatorSortName`,
/// `isAvailable`, `isHoldable` and `covers.cover150Wide.href`.
fn item_from_json(v: &serde_json::Value) -> (r: Option<OverdriveItem>)
    ensures
        r is Some <==> item_of(json_view(*v)) is Some,
        r is Some ==> r->0.deep_view() == item_of(json_view(*v))->0,
{
    let title = match json_str_member(v, "title") {
        Some(s) => s,
        None => return None,
    };
    let author = match json_str_member(v, "firstCreatorSortName") {
        Some(s) => s,
        None => return None,
    };
    let is_available = match json_bool_member(v, "isAvailable") {
        Some(b) => b,
        None => return None,
    };
    let is_holdable = match json_bool_member(v, "isHoldable") {
        Some(b) => b,
        None => return None,
    };
    let covers = match json_member(v, "covers") {
        Some(c) => c,
        None => return None,
    };
    let wide = match json_member(covers, "cover150Wide") {
        Some(c) => c,
        None => return None,
    };
    let cover = match json_str_member(wide, "href") {
        Some(s) => s,
        None => return None,
    };
    Some(OverdriveItem { title, author, is_available, is_holdable, cover })
}

/// Reads the `items` array of a media search response; `None` when the
/// text is not JSON, holds no `items` array, or any item misses an
/// expected field.
pub fn parse_probe_items(text: &str) -> (r: Option<Vec<OverdriveItem>>)
    ensures
        r is Some <==> overdrive_items_of(text@) is Some,
        r is Some ==> r->0.deep_view() == overdrive_items_of(text@)->0,
{
    let v = match json_parse(text) {
        Some(v) => v,
        None => return None,
    };
    let items_value = match json_member(&v, "items") {
        Some(x) => x,
        None => return None,
    };
    let arr = match json_as_array(items_value) {
        Some(a) => a,
        None => return None,
    };
    let ghost av = json_view(*items_value)->Arr_0;
    let mut out: Vec<OverdriveItem> = Vec::new();
    let mut i: usize = 0;
    proof {
        assert(av.subrange(0, 0) =~= Seq::<JsonView>::empty());
        assert(all_items_of(av.subrange(0, 0)) == Some(out.deep_view()));
    }
    while i < arr.len()
        invariant
            0 <= i <= arr@.len(),
            av == json_view(*items_value)->Arr_0,
            av.len() == arr@.len(),
            forall|j: int| 0 <= j < arr@.len() ==> json_view(#[trigger] arr@[j]) == av[j],
            overdrive_items_of(text@) == all_items_of(av),
            all_items_of(av.subrange(0, i as int)) == Some(out.deep_view()),
        decreases arr@.len() - i,
    {
        let ghost pre = av.subrange(0, i as int);
        let ghost pre1 = av.subrange(0, i + 1);
        proof {
            assert(pre1.drop_last() =~= pre);
            assert(pre1.last() == av[i as int]);
        }
        match item_from_json(&arr[i]) {
            Some(item) => {
                out.push(item);
                proof {
                    assert(out.deep_view() =~= all_items_of(pre)->0.push(
                        item_of(av[i as int])->0,
                    ));
                }
            },
            None => {
                proof {
                    lemma_all_items_failure(av, i as int);
                }
                return None;
            },
        }
        i = i + 1;
    }
    proof {
        assert(av.subrange(0, av.len() as int) =~= av);
    }
    Some(out)
}

/// The Unicode lowercasing of a character sequence, as `str::to_lowercase`
/// yields it.
pub uninterp spec fn lower_of(s: Seq<char>) -> Seq<char>;

/// Relies on `str::to_lowercase`: the result depends on the characters
/// alone, and an empty string stays empty.
#[verifier::external_body]
fn lowercase(s: &str) -> (r: String)
    ensures
        r@ == lower_of(s@),
        s@.len() == 0 ==> r@.len() == 0,
{
    s.to_lowercase()
}

/// An item's title as compared and reported: newlines removed, then
/// trimmed.
pub open spec fn normalized_title(title: Seq<char>) -> Seq<char> {
    trim_spec(strip_newlines(title))
}

/// The matching rule: the item's normalized title, lowercased, must be a
/// prefix of the book's lowercased title — tolerating a library that
/// truncates subtitles — and the authors must agree exactly, ignoring
/// case.
pub open spec fn item_matches(book: GoodreadsBookView, item: OverdriveItemView) -> bool {
    lower_of(normalized_title(item.title)).is_prefix_of(lower_of(book.title)) && lower_of(
        item.author,
    ) == lower_of(book.author)
}

/// Decides whether a response item matches the book.
pub fn item_matches_book(book: &GoodreadsBook, item: &OverdriveItem) -> (r: bool)
    ensures
        r == item_matches(book@, item.deep_view()),
{
    let stripped = remove_newlines(item.title.as_str());
    let norm = trim(stripped.as_str());
    let norm_lower = lowercase(norm.as_str());
    let title_lower = lowercase(book.title.as_str());
    let author_lower = lowercase(item.author.as_str());
    let book_author_lower = lowercase(book.author.as_str());
    str_starts_with(title_lower.as_str(), norm_lower.as_str()) && author_lower == book_author_lower
}

/// The index of the first matching item at or after `i`, or the item count
/// when none matches.
pub open spec fn first_match_from(
    book: GoodreadsBookView,
    items: Seq<OverdriveItemView>,
    i: int,
) -> int
    decreases items.len() - i when 0 <= i <= items.len()
{
    if i >= items.len() {
        items.len() as int
    } else if item_matches(book, items[i]) {
        i
    } else {
        first_match_from(book, items, i + 1)
    }
}

/// The record emitted for a matching item: its fields, with the title
/// normalized, and the search page of the library that was probed.
pub open spec fn found_result(item: OverdriveItemView, url: Seq<char>) -> LibbyLibraryBookView {
    LibbyLibraryBookView {
        cover: item.cover,
        title: normalized_title(item.title),
        author: item.author,
        is_available: item.is_available,
        is_holdable: item.is_holdable,
        libby_search_url: url,
    }
}

/// The record emitted when no item matches: both flags false, no cover,
/// the book's own title and author, and the search page as a manual
/// fallback.
pub open spec fn not_found_result(book: GoodreadsBookView, url: Seq<char>) -> LibbyLibraryBookView {
    LibbyLibraryBookView {
        cover: Seq::empty(),
        title: book.title,
        author: book.author,
        is_available: false,
        is_holdable: false,
        libby_search_url: url,
    }
}

/// The per-library outcome: the first matching item in response order, or
/// the explicit not-found record.
pub open spec fn probe_result_spec(
    book: GoodreadsBookView,
    items: Seq<OverdriveItemView>,
    url: Seq<char>,
) -> LibbyLibraryBookView {
    let i = first_match_from(book, items, 0);
    if i < items.len() {
        found_result(items[i], url)
    } else {
        not_found_result(book, url)
    }
}

/// With no match among the first `i` items, the search starting at 0 and
/// the search starting at `i` agree.
proof fn lemma_first_match_prefix(
    book: GoodreadsBookView,
    items: Seq<OverdriveItemView>,
    i: int,
)
    requires
        0 <= i <= items.len(),
        forall|j: int| 0 <= j < i ==> !item_matches(book, #[trigger] items[j]),
    ensures
        first_match_from(book, items, 0) == first_match_from(book, items, i),
    decreases i,
{
    if i > 0 {
        lemma_first_match_prefix(book, items, i - 1);
    }
}

/// Picks the per-library outcome from the parsed response items, walking
/// them in response order.
pub fn choose_probe_result(
    book: &GoodreadsBook,
    items: &Vec<OverdriveItem>,
    search_url: String,
) -> (r: LibbyLibraryBook)
    ensures
        r@ == probe_result_spec(book@, items.deep_view(), search_url@),
{
    let ghost iv = items.deep_view();
    let mut i: usize = 0;
    while i < items.len()
        invariant
            0 <= i <= items@.len(),
            iv == items.deep_view(),
            iv.len() == items@.len(),
            forall|j: int| 0 <= j < i ==> !item_matches(book@, #[trigger] iv[j]),
        decreases items@.len() - i,
    {
        proof {
            assert(iv[i as int] == items@[i as int].deep_view());
        }
        if item_matches_book(book, &items[i]) {
            let stripped = remove_newlines(items[i].title.as_str());
            let r = LibbyLibraryBook {
                cover: items[i].cover.clone(),
                title: trim(stripped.as_str()),
                author: items[i].author.clone(),
                is_available: items[i].is_available,
                is_holdable: items[i].is_holdable,
                libby_search_url: search_url,
            };
            proof {
                lemma_first_match_prefix(book@, iv, i as int);
                assert(first_match_from(book@, iv, i as int) == i);
                assert(r@ == found_result(iv[i as int], r.libby_search_url@));
            }
            return r;
        }
        i = i + 1;
    }
    proof {
        lemma_first_match_prefix(book@, iv, iv.len() as int);
    }
    LibbyLibraryBook {
        cover: String::new(),
        title: book.title.clone(),
        author: book.author.clone(),
        is_available: false,
        is_holdable: false,
        libby_search_url: search_url,
    }
}

/// Evaluates one library's raw response for one book: the chosen outcome,
/// or the shape failure that the caller records for this (book, library)
/// pair alone.
pub fn evaluate_probe_response(
    book: &GoodreadsBook,
    response_text: &str,
    search_url: String,
) -> (r: Result<LibbyLibraryBook, ProbeError>)
    ensures
        r is Ok <==> overdrive_items_of(response_text@) is Some,
        r is Err ==> r->Err_0 == ProbeError::UpstreamShape,
        r is Ok ==> r->Ok_0@ == probe_result_spec(
            book@,
            overdrive_items_of(response_text@)->0,
            search_url@,
        ),
{
    match parse_probe_items(response_text) {
        Some(items) => Ok(choose_probe_result(book, &items, search_url)),
        None => Err(ProbeError::UpstreamShape),
    }
}

/// A title that equals the item's normalized title after lowercasing also
/// matches under the prefix rule: the prefix rule accepts every pair the
/// exact rule accepts.
pub proof fn lemma_exact_match_implies_prefix_match(
    book: GoodreadsBookView,
    item: OverdriveItemView,
)
    requires
        lower_of(normalized_title(item.title)) == lower_of(book.title),
        lower_of(item.author) == lower_of(book.author),
    ensures
        item_matches(book, item),
{
    let n = lower_of(normalized_title(item.title));
    assert(n =~= lower_of(book.title).subrange(0, n.len() as int));
}

} // verus!
