//! Following a paginated listing to its end, and merging the listings of several
//! time windows.

use vstd::prelude::*;

use crate::error::FetchError;

verus! {

/// The page size that the service uses when none is asked for.
pub const DEFAULT_PAGE_SIZE: usize = 20;

/// The largest page size that the service accepts.
pub const MAX_PAGE_SIZE: usize = 100;

/// The page size to ask for: the default where none is given, and never more than
/// the service accepts.
pub fn effective_page_size(first: Option<usize>) -> (n: usize)
    ensures
        n == match first {
            None => DEFAULT_PAGE_SIZE,
            Some(v) => if v > MAX_PAGE_SIZE {
                MAX_PAGE_SIZE
            } else {
                v
            },
        },
{
    match first {
        None => DEFAULT_PAGE_SIZE,
        Some(v) => if v > MAX_PAGE_SIZE {
            MAX_PAGE_SIZE
        } else {
            v
        },
    }
}

/// One page of a listing: its records and, unless it is the last page, the
/// cursor that asks for the next one.
pub struct Page<T> {
    pub records: Vec<T>,
    pub cursor: Option<String>,
}

/// A page as values: its records and its cursor, if any.
pub type PageModel<T> = (Seq<T>, Option<Seq<char>>);

pub open spec fn page_model<T>(page: Option<Page<T>>) -> Option<PageModel<T>> {
    match page {
        None => None,
        Some(p) => Some(
            (
                p.records@,
                match p.cursor {
                    None => None,
                    Some(c) => Some(c@),
                },
            ),
        ),
    }
}

/// What the listing does after a page, as values.
pub enum StepModel<T> {
    /// Ask for the page after this cursor, with these records gathered.
    Next(Seq<T>, Seq<char>),
    /// Every page is in: these are the records.
    Complete(Seq<T>),
    /// A page could not be had.
    Failed,
}

/// After `gathered`, a page (or its failure, `None`) leads to the next request, to
/// the complete listing, or to failure.
pub open spec fn next_step<T>(gathered: Seq<T>, page: Option<PageModel<T>>) -> StepModel<T> {
    match page {
        None => StepModel::Failed,
        Some((records, cursor)) => match cursor {
            Some(c) => StepModel::Next(gathered + records, c),
            None => StepModel::Complete(gathered + records),
        },
    }
}

/// Feeding `pages` in turn from `gathered` on: the records and the number of pages
/// taken once a page without a cursor arrives, or none if none does.
pub open spec fn listing_outcome<T>(gathered: Seq<T>, pages: Seq<PageModel<T>>) -> Option<(Seq<T>, nat)>
    decreases pages.len(),
{
    if pages.len() == 0 {
        None
    } else {
        match next_step(gathered, Some(pages[0])) {
            StepModel::Next(more, _) => match listing_outcome(more, pages.drop_first()) {
                Some((all, n)) => Some((all, n + 1)),
                None => None,
            },
            StepModel::Complete(all) => Some((all, 1)),
            StepModel::Failed => None,
        }
    }
}

/// The records of all pages, one page after the other.
pub open spec fn all_records<T>(pages: Seq<PageModel<T>>) -> Seq<T>
    decreases pages.len(),
{
    if pages.len() == 0 {
        seq![]
    } else {
        pages[0].0 + all_records(pages.drop_first())
    }
}

/// Fed pages of which each but the last carries a cursor and the last carries
/// none, a listing ends exactly at the last page, and its records are those of all
/// pages in the order received.
pub proof fn lemma_pagination_collects_all<T>(pages: Seq<PageModel<T>>)
    requires
        pages.len() > 0,
        forall|i: int| 0 <= i < pages.len() - 1 ==> (#[trigger] pages[i]).1 is Some,
        pages.last().1 is None,
    ensures
        listing_outcome(Seq::<T>::empty(), pages) == Some((all_records(pages), pages.len())),
{
    lemma_outcome_from(Seq::<T>::empty(), pages);
    assert(Seq::<T>::empty() + all_records(pages) == all_records(pages));
}

proof fn lemma_outcome_from<T>(gathered: Seq<T>, pages: Seq<PageModel<T>>)
    requires
        pages.len() > 0,
        forall|i: int| 0 <= i < pages.len() - 1 ==> (#[trigger] pages[i]).1 is Some,
        pages.last().1 is None,
    ensures
        listing_outcome(gathered, pages) == Some((gathered + all_records(pages), pages.len())),
    decreases pages.len(),
{
    let rest = pages.drop_first();
    if pages.len() == 1 {
        assert(rest.len() == 0);
        assert(all_records(rest) == Seq::<T>::empty());
        assert(pages[0].0 + Seq::<T>::empty() == pages[0].0);
    } else {
        assert(pages[0].1 is Some);
        assert forall|i: int| 0 <= i < rest.len() - 1 implies (#[trigger] rest[i]).1 is Some by {
            assert(rest[i] == pages[i + 1]);
        }
        assert(rest.last() == pages.last());
        lemma_outcome_from(gathered + pages[0].0, rest);
        assert(gathered + pages[0].0 + all_records(rest) == gathered + all_records(pages));
    }
}

/// The records gathered so far from one window's listing.
pub struct ListingFetch<T> {
    records: Vec<T>,
}

/// What to do after a page has come in.
pub enum ListingStep<T> {
    /// Ask for the page after `cursor`, with the same filters, and hand it to `fetch`.
    Next { fetch: ListingFetch<T>, cursor: String },
    /// The listing is complete: every record, in the order received.
    Complete(Vec<T>),
    /// A page could not be had; the records gathered for this window are dropped.
    Failed(FetchError),
}

impl<T> View for ListingFetch<T> {
    type V = Seq<T>;

    closed spec fn view(&self) -> Seq<T> {
        self.records@
    }
}

impl<T> ListingStep<T> {
    pub open spec fn model(&self) -> StepModel<T> {
        match self {
            ListingStep::Next { fetch, cursor } => StepModel::Next(fetch@, cursor@),
            ListingStep::Complete(records) => StepModel::Complete(records@),
            ListingStep::Failed(_) => StepModel::Failed,
        }
    }
}

impl<T> ListingFetch<T> {
    /// A listing before its first page, which is asked for without a cursor.
    pub fn new() -> (fetch: Self)
        ensures
            fetch@ == Seq::<T>::empty(),
    {
        ListingFetch { records: Vec::new() }
    }

    /// Takes in a page, or `None` where asking for it or decoding it failed.
    pub fn on_page(self, page: Option<Page<T>>) -> (step: ListingStep<T>)
        ensures
            step.model() == next_step(self@, page_model(page)),
            step matches ListingStep::Failed(e) ==> e == FetchError::ListingFetchFailed,
    {
        let mut records = self.records;
        match page {
            None => ListingStep::Failed(FetchError::ListingFetchFailed),
            Some(p) => {
                let mut more = p.records;
                records.append(&mut more);
                match p.cursor {
                    Some(cursor) => ListingStep::Next { fetch: ListingFetch { records }, cursor },
                    None => ListingStep::Complete(records),
                }
            },
        }
    }
}

/// The records of the windows that were listed, and the positions of those that
/// failed.
pub struct MergedListing<T> {
    pub records: Vec<T>,
    pub failed_windows: Vec<usize>,
}

/// The records of one window: none if it failed.
pub open spec fn window_records<T>(result: Result<Vec<T>, FetchError>) -> Seq<T> {
    match result {
        Ok(v) => v@,
        Err(_) => seq![],
    }
}

/// The records of the successful windows, one window after the other.
pub open spec fn ok_records<T>(results: Seq<Result<Vec<T>, FetchError>>) -> Seq<T>
    decreases results.len(),
{
    if results.len() == 0 {
        seq![]
    } else {
        window_records(results[0]) + ok_records(results.drop_first())
    }
}

/// The positions, counted from `first`, of the windows that failed.
pub open spec fn failed_positions<T>(results: Seq<Result<Vec<T>, FetchError>>, first: int) -> Seq<
    int,
>
    decreases results.len(),
{
    if results.len() == 0 {
        seq![]
    } else {
        (if results[0] is Err {
            seq![first]
        } else {
            seq![]
        }) + failed_positions(results.drop_first(), first + 1)
    }
}

/// Merges the outcomes of the windows' listings: the records of each window that
/// succeeded, in window order, and the position of each window that failed. A failed
/// window takes nothing from the others.
pub fn merge_partitions<T>(results: Vec<Result<Vec<T>, FetchError>>) -> (merged: MergedListing<T>)
    ensures
        merged.records@ == ok_records(results@),
        merged.failed_windows@.map_values(|i: usize| i as int) == failed_positions(results@, 0),
{
    let ghost all = results@;
    let count = results.len();
    let mut rest = results;
    let mut records: Vec<T> = Vec::new();
    let mut failed_windows: Vec<usize> = Vec::new();
    let mut index: usize = 0;
    while rest.len() > 0
        invariant
            index + rest@.len() == all.len(),
            all.len() == count,
            records@ + ok_records(rest@) == ok_records(all),
            failed_windows@.map_values(|i: usize| i as int) + failed_positions(rest@, index as int)
                == failed_positions(all, 0),
        decreases rest@.len(),
    {
        let ghost before = rest@;
        let ghost failed_before = failed_windows@.map_values(|i: usize| i as int);
        let first = rest.remove(0);
        assert(rest@ == before.drop_first());
        match first {
            Ok(v) => {
                let mut v = v;
                records.append(&mut v);
                assert(failed_positions(before, index as int) == failed_positions(
                    rest@,
                    index as int + 1,
                ));
            },
            Err(_) => {
                failed_windows.push(index);
                assert(failed_windows@.map_values(|i: usize| i as int) == failed_before.push(
                    index as int,
                ));
                assert(failed_positions(before, index as int) == seq![index as int]
                    + failed_positions(rest@, index as int + 1));
                assert(ok_records(before) == ok_records(rest@));
            },
        }
        index = index + 1;
    }
    proof {
        assert(records@ + Seq::<T>::empty() == records@);
        assert(failed_windows@.map_values(|i: usize| i as int) + Seq::<int>::empty()
            == failed_windows@.map_values(|i: usize| i as int));
    }
    MergedListing { records, failed_windows }
}

} // verus!
