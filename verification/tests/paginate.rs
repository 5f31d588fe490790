//! Tests of the paginator: chunk boundaries, coverage, and the
//! single-page and boundary-straddling cases.

use m24c64_driver::paginate::page_chunks;

#[test]
fn boundary_split_example() {
    let chunks = page_chunks(30, 10);
    assert_eq!(chunks, vec![(30, 2), (32, 8)]);
}

#[test]
fn single_page_request_is_one_chunk() {
    assert_eq!(page_chunks(40, 24), vec![(40, 24)]);
    assert_eq!(page_chunks(0, 32), vec![(0, 32)]);
    assert_eq!(page_chunks(33, 1), vec![(33, 1)]);
}

#[test]
fn empty_request_has_no_chunks() {
    assert!(page_chunks(7, 0).is_empty());
    assert!(page_chunks(0, 0).is_empty());
}

#[test]
fn chunks_cover_request_exactly() {
    let address: usize = 5;
    let length: usize = 100;
    let chunks = page_chunks(address, length);
    assert_eq!(chunks[0].0, address);
    let mut total = 0;
    for w in chunks.windows(2) {
        assert_eq!(w[1].0, w[0].0 + w[0].1);
    }
    for &(offset, len) in &chunks {
        assert!(len > 0);
        assert!(offset % 32 + len <= 32);
        total += len;
    }
    assert_eq!(total, length);
    let last = chunks.last().unwrap();
    assert_eq!(last.0 + last.1, address + length);
}

#[test]
fn page_aligned_request_splits_in_full_pages() {
    let chunks = page_chunks(64, 96);
    assert_eq!(chunks, vec![(64, 32), (96, 32), (128, 32)]);
}
