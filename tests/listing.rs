use twdl::{effective_page_size, merge_partitions, FetchError, ListingFetch, ListingStep, Page};

fn page(records: &[u32], cursor: Option<&str>) -> Option<Page<u32>> {
    Some(Page {
        records: records.to_vec(),
        cursor: cursor.map(|c| c.to_string()),
    })
}

/// Drives a listing through `pages`, checking that each request carries the cursor
/// of the page before it.
fn drive(pages: Vec<Option<Page<u32>>>) -> (ListingStep<u32>, usize) {
    let mut fetch = ListingFetch::new();
    let mut expected_cursor: Option<String> = None;
    let mut taken = 0;
    for p in pages {
        let next_cursor = p.as_ref().and_then(|pg| pg.cursor.clone());
        taken += 1;
        match fetch.on_page(p) {
            ListingStep::Next { fetch: f, cursor } => {
                assert_eq!(Some(cursor.clone()), next_cursor);
                expected_cursor = Some(cursor);
                fetch = f;
            }
            done => return (done, taken),
        }
    }
    panic!("listing did not finish; last cursor {:?}", expected_cursor);
}

#[test]
fn pages_are_concatenated_in_order() {
    let (step, taken) = drive(vec![
        page(&[1, 2], Some("c1")),
        page(&[], Some("c2")),
        page(&[3], Some("c3")),
        page(&[4, 5], None),
    ]);
    assert_eq!(taken, 4);
    match step {
        ListingStep::Complete(records) => assert_eq!(records, vec![1, 2, 3, 4, 5]),
        _ => panic!("expected a complete listing"),
    }
}

#[test]
fn single_page_without_cursor_completes_at_once() {
    let (step, taken) = drive(vec![page(&[7, 8], None)]);
    assert_eq!(taken, 1);
    match step {
        ListingStep::Complete(records) => assert_eq!(records, vec![7, 8]),
        _ => panic!("expected a complete listing"),
    }
}

#[test]
fn failed_page_drops_the_window() {
    let (step, taken) = drive(vec![page(&[1, 2], Some("c1")), None, page(&[3], None)]);
    assert_eq!(taken, 2);
    match step {
        ListingStep::Failed(e) => assert_eq!(e, FetchError::ListingFetchFailed),
        _ => panic!("expected a failed listing"),
    }
}

#[test]
fn page_size_defaults_and_is_capped() {
    assert_eq!(effective_page_size(None), 20);
    assert_eq!(effective_page_size(Some(50)), 50);
    assert_eq!(effective_page_size(Some(100)), 100);
    assert_eq!(effective_page_size(Some(101)), 100);
}

#[test]
fn merge_keeps_window_order_and_reports_failures() {
    let merged = merge_partitions(vec![
        Ok(vec![1, 2]),
        Err(FetchError::ListingFetchFailed),
        Ok(vec![]),
        Ok(vec![3]),
        Err(FetchError::ListingFetchFailed),
    ]);
    assert_eq!(merged.records, vec![1, 2, 3]);
    assert_eq!(merged.failed_windows, vec![1, 4]);
}

#[test]
fn merged_count_is_sum_of_window_totals() {
    // Seven one-day windows, each listed over several pages.
    let window_pages: Vec<Vec<usize>> = vec![
        vec![20, 20, 3],
        vec![5],
        vec![0],
        vec![20, 1],
        vec![12],
        vec![20, 20, 20, 7],
        vec![2],
    ];
    let mut results = Vec::new();
    let mut expected_total = 0;
    for (w, sizes) in window_pages.iter().enumerate() {
        let mut pages = Vec::new();
        for (i, size) in sizes.iter().enumerate() {
            let cursor = if i + 1 < sizes.len() { Some(format!("w{w}p{i}")) } else { None };
            let records: Vec<u32> = (0..*size as u32).collect();
            pages.push(Some(Page { records, cursor }));
            expected_total += size;
        }
        let (step, taken) = drive(pages);
        assert_eq!(taken, sizes.len());
        match step {
            ListingStep::Complete(records) => results.push(Ok(records)),
            _ => panic!("window {w} did not complete"),
        }
    }
    let merged = merge_partitions(results);
    assert_eq!(merged.records.len(), expected_total);
    assert!(merged.failed_windows.is_empty());
}

#[test]
fn merge_of_nothing_is_empty() {
    let merged = merge_partitions::<u32>(vec![]);
    assert!(merged.records.is_empty());
    assert!(merged.failed_windows.is_empty());
}
