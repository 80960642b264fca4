//! The persisted list page-size preference.

use vstd::prelude::*;

verus! {

/// Page size used when nothing valid was persisted.
pub const DEFAULT_PAGE_SIZE: usize = 5;

/// Largest page size accepted from storage.
pub const MAX_PAGE_SIZE: usize = 500;

/// A page size is usable when it lies in `1..=MAX_PAGE_SIZE`.
pub open spec fn valid_page_size(size: int) -> bool {
    1 <= size <= MAX_PAGE_SIZE
}

/// Accept a page size only when it lies in `1..=MAX_PAGE_SIZE`.
pub fn validate_page_size(size: usize) -> (r: Option<usize>)
    ensures
        r == (if valid_page_size(size as int) { Some(size) } else { None::<usize> }),
{
    if 1 <= size && size <= MAX_PAGE_SIZE {
        Some(size)
    } else {
        None
    }
}

/// The page size the app starts with: the given value when valid, the default
/// otherwise.
pub fn initial_page_size(initial: usize) -> (r: usize)
    ensures
        valid_page_size(r as int),
        valid_page_size(initial as int) ==> r == initial,
        !valid_page_size(initial as int) ==> r == DEFAULT_PAGE_SIZE,
{
    match validate_page_size(initial) {
        Some(size) => size,
        None => DEFAULT_PAGE_SIZE,
    }
}


/// The sizes the page-size menu offers.
pub fn page_size_presets() -> (r: Vec<usize>)
    ensures
        r@ == seq![5usize, 10, 20],
{
    let r = vec![5, 10, 20];
    assert(r@ =~= seq![5usize, 10, 20]);
    r
}

} // verus!
