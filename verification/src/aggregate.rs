//! Collapsing the per-library probe outcomes of one book into a single
//! verdict, by the priority rule: available beats holdable beats unowned.

use vstd::prelude::*;
use crate::books::{
    BookAvailability, GoodreadsBook, GoodreadsBookView, LibbyBook, LibbyBookView,
    LibbyLibraryBook, LibbyLibraryBookView, probes_view,
};
use crate::probe::ProbeError;

verus! {

/// Whether some probe found the book available.
pub open spec fn any_available(s: Seq<LibbyLibraryBookView>) -> bool {
    exists|i: int| 0 <= i < s.len() && (#[trigger] s[i]).is_available
}

/// Whether some probe found the book holdable.
pub open spec fn any_holdable(s: Seq<LibbyLibraryBookView>) -> bool {
    exists|i: int| 0 <= i < s.len() && (#[trigger] s[i]).is_holdable
}

/// The index of the first available probe at or after `i`, or the count.
pub open spec fn first_available_from(s: Seq<LibbyLibraryBookView>, i: int) -> int
    decreases s.len() - i when 0 <= i <= s.len()
{
    if i >= s.len() {
        s.len() as int
    } else if s[i].is_available {
        i
    } else {
        first_available_from(s, i + 1)
    }
}

/// The index of the first holdable probe at or after `i`, or the count.
pub open spec fn first_holdable_from(s: Seq<LibbyLibraryBookView>, i: int) -> int
    decreases s.len() - i when 0 <= i <= s.len()
{
    if i >= s.len() {
        s.len() as int
    } else if s[i].is_holdable {
        i
    } else {
        first_holdable_from(s, i + 1)
    }
}

/// The verdict's search link: the first available library's, else the
/// first holdable library's, else the first library's.
pub open spec fn chosen_search_url(s: Seq<LibbyLibraryBookView>) -> Seq<char>
    recommends
        s.len() > 0,
{
    let a = first_available_from(s, 0);
    if a < s.len() {
        s[a].libby_search_url
    } else {
        let h = first_holdable_from(s, 0);
        if h < s.len() {
            s[h].libby_search_url
        } else {
            s[0].libby_search_url
        }
    }
}

/// The verdict for one book over its probe outcomes, which must exist.
pub open spec fn aggregate_spec(
    book: GoodreadsBookView,
    s: Seq<LibbyLibraryBookView>,
) -> LibbyBookView
    recommends
        s.len() > 0,
{
    LibbyBookView {
        cover: book.cover,
        title: book.title,
        author: book.author,
        is_available: any_available(s),
        is_holdable: !any_available(s) && any_holdable(s),
        libby_search_url: chosen_search_url(s),
        library_books: s,
    }
}

proof fn lemma_first_available_prefix(s: Seq<LibbyLibraryBookView>, i: int)
    requires
        0 <= i <= s.len(),
        forall|j: int| 0 <= j < i ==> !(#[trigger] s[j]).is_available,
    ensures
        first_available_from(s, 0) == first_available_from(s, i),
    decreases i,
{
    if i > 0 {
        lemma_first_available_prefix(s, i - 1);
    }
}

proof fn lemma_first_holdable_prefix(s: Seq<LibbyLibraryBookView>, i: int)
    requires
        0 <= i <= s.len(),
        forall|j: int| 0 <= j < i ==> !(#[trigger] s[j]).is_holdable,
    ensures
        first_holdable_from(s, 0) == first_holdable_from(s, i),
    decreases i,
{
    if i > 0 {
        lemma_first_holdable_prefix(s, i - 1);
    }
}

/// Builds the verdict of one book from its per-library outcomes, in the
/// order the libraries were probed.  With no library selected there is
/// nothing to scan, and the explicit answer is `None` — never an access
/// into an empty list.
pub fn aggregate_probe_results(book: &GoodreadsBook, results: Vec<LibbyLibraryBook>) -> (r: Option<
    LibbyBook,
>)
    ensures
        r is Some <==> results@.len() > 0,
        r is Some ==> r->0@ == aggregate_spec(book@, probes_view(results@)),
{
    let ghost s = probes_view(results@);
    if results.len() == 0 {
        return None;
    }
    let n = results.len();
    let mut i: usize = 0;
    while i < n && !results[i].is_available
        invariant
            0 <= i <= n,
            s == probes_view(results@),
            s.len() == results@.len() == n,
            forall|j: int| 0 <= j < s.len() ==> s[j] == results@[j]@,
            forall|j: int| 0 <= j < i ==> !(#[trigger] s[j]).is_available,
        decreases n - i,
    {
        i = i + 1;
    }
    proof {
        lemma_first_available_prefix(s, i as int);
        assert(first_available_from(s, 0) == i);
    }
    let is_available: bool;
    let is_holdable: bool;
    let url_idx: usize;
    if i < n {
        is_available = true;
        is_holdable = false;
        url_idx = i;
    } else {
        is_available = false;
        proof {
            assert(!any_available(s));
        }
        let mut h: usize = 0;
        while h < n && !results[h].is_holdable
            invariant
                0 <= h <= n,
                s == probes_view(results@),
                s.len() == results@.len() == n,
                forall|j: int| 0 <= j < s.len() ==> s[j] == results@[j]@,
                forall|j: int| 0 <= j < h ==> !(#[trigger] s[j]).is_holdable,
            decreases n - h,
        {
            h = h + 1;
        }
        proof {
            lemma_first_holdable_prefix(s, h as int);
            assert(first_holdable_from(s, 0) == h);
            if h == n {
                assert(!any_holdable(s));
            }
        }
        if h < n {
            is_holdable = true;
            url_idx = h;
        } else {
            is_holdable = false;
            url_idx = 0;
        }
    }
    let url = results[url_idx].libby_search_url.clone();
    let verdict = LibbyBook {
        cover: book.cover.clone(),
        title: book.title.clone(),
        author: book.author.clone(),
        is_available,
        is_holdable,
        libby_search_url: url,
        library_books: results,
    };
    proof {
        assert(verdict@ == aggregate_spec(book@, s));
    }
    Some(verdict)
}

/// Folds one library's probe into a book's outcome list: a successful
/// probe appends its record, a failed probe contributes nothing, and the
/// siblings already gathered still count.
pub fn accumulate_probe(
    results: &mut Vec<LibbyLibraryBook>,
    outcome: Result<LibbyLibraryBook, ProbeError>,
)
    ensures
        outcome is Ok ==> final(results)@ == old(results)@.push(outcome->Ok_0),
        outcome is Err ==> final(results)@ == old(results)@,
{
    match outcome {
        Ok(record) => {
            results.push(record);
        },
        Err(_) => {},
    }
}

/// The priority rule as one classification: available beats holdable,
/// which beats unowned.
pub open spec fn verdict_class(is_available: bool, is_holdable: bool) -> BookAvailability {
    if is_available {
        BookAvailability::Available
    } else if is_holdable {
        BookAvailability::Holdable
    } else {
        BookAvailability::NotOwned
    }
}

/// Classifies a verdict's flags.
pub fn classify_verdict(is_available: bool, is_holdable: bool) -> (r: BookAvailability)
    ensures
        r == verdict_class(is_available, is_holdable),
{
    if is_available {
        BookAvailability::Available
    } else if is_holdable {
        BookAvailability::Holdable
    } else {
        BookAvailability::NotOwned
    }
}

/// The priority rule as a total order: lower ranks first.  The reducer and
/// any display sort share this single definition.
pub open spec fn availability_rank_spec(a: BookAvailability) -> int {
    match a {
        BookAvailability::Available => 0,
        BookAvailability::Holdable => 1,
        BookAvailability::NotOwned => 2,
    }
}

/// Ranks an availability class for sorting, best first.
pub fn availability_rank(a: &BookAvailability) -> (r: u32)
    ensures
        r == availability_rank_spec(*a),
{
    match a {
        BookAvailability::Available => 0,
        BookAvailability::Holdable => 1,
        BookAvailability::NotOwned => 2,
    }
}

/// The verdict of a book is available exactly when some library reported
/// it available; holdable exactly when none did but some library reported
/// it holdable; and neither exactly when every library reported it
/// neither available nor holdable.
pub proof fn lemma_availability_verdict(book: GoodreadsBookView, s: Seq<LibbyLibraryBookView>)
    requires
        s.len() > 0,
    ensures
        aggregate_spec(book, s).is_available <==> exists|i: int|
            0 <= i < s.len() && (#[trigger] s[i]).is_available,
        aggregate_spec(book, s).is_holdable <==> (!exists|i: int|
            0 <= i < s.len() && (#[trigger] s[i]).is_available) && (exists|i: int|
            0 <= i < s.len() && (#[trigger] s[i]).is_holdable),
        (!aggregate_spec(book, s).is_available && !aggregate_spec(book, s).is_holdable)
            <==> forall|i: int|
            0 <= i < s.len() ==> !(#[trigger] s[i]).is_available && !s[i].is_holdable,
{
}

} // verus!
