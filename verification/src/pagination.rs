//! Paging of the list screens: page count, the clamped current page, the
//! slice a page shows, and the pager's buttons and "go to page" box.

use vstd::prelude::*;
use vstd::string::*;
use crate::text::{decimal, decimal_string, parse_unsigned, parse_unsigned_chars, replace_all, replace_str, trim, trim_seq};

verus! {

/// Page size as used for paging: at least 1.
pub open spec fn eff_size(size: int) -> int {
    if size < 1 { 1 } else { size }
}

/// Number of pages for `count` items (0 for no items).
pub open spec fn pages(count: int, size: int) -> int {
    let s = eff_size(size);
    count / s + if count % s != 0 { 1int } else { 0int }
}

/// `v` clamped into `lo..=hi` (`lo <= hi`).
pub open spec fn clamp(v: int, lo: int, hi: int) -> int {
    if v < lo { lo } else if v > hi { hi } else { v }
}

/// The page actually shown: the requested page clamped to `1..=max(pages, 1)`.
pub open spec fn shown_page(page: int, page_count: int) -> int {
    clamp(page, 1, if page_count < 1 { 1 } else { page_count })
}

/// Number of pages for `count` items at `size` per page (a size of 0 counts
/// as 1).
pub fn page_count(count: usize, size: usize) -> (r: usize)
    ensures
        r == pages(count as int, size as int),
{
    let s = if size < 1 { 1 } else { size };
    proof {
        let c = count as int;
        let sz = s as int;
        assert(c % sz != 0 ==> c / sz < c) by (nonlinear_arith)
            requires
                sz >= 1,
                c >= 0,
        ;
    }
    count / s + if count % s != 0 { 1 } else { 0 }
}

/// The page shown for a requested page.
pub fn safe_page(page: usize, page_count: usize) -> (r: usize)
    ensures
        r == shown_page(page as int, page_count as int),
        1 <= r,
        page_count >= 1 ==> r <= page_count,
{
    let max = if page_count < 1 { 1 } else { page_count };
    if page < 1 {
        1
    } else if page > max {
        max
    } else {
        page
    }
}

/// Index range `start..end` of the items shown on `page`.
pub fn page_bounds(total: usize, page: usize, size: usize) -> (r: (usize, usize))
    ensures
        ({
            let s = eff_size(size as int);
            let p = shown_page(page as int, pages(total as int, size as int));
            let start = (p - 1) * s;
            &&& r.0 == (if start < total { start } else { total as int })
            &&& r.1 == (if start + s < total { start + s } else { total as int })
            &&& r.0 <= r.1 <= total
        }),
{
    let s = if size < 1 { 1 } else { size };
    let count = page_count(total, size);
    let p = safe_page(page, count);
    proof {
        let c = count as int;
        let t = total as int;
        let sz = s as int;
        let pp = p as int;
        assert((pp - 1) * sz <= t) by (nonlinear_arith)
            requires
                c == t / sz + if t % sz != 0 { 1int } else { 0int },
                1 <= pp,
                c >= 1 ==> pp <= c,
                c < 1 ==> pp == 1,
                sz >= 1,
                t >= 0,
        ;
    }
    let start = (p - 1) * s;
    let end = if total - start > s { start + s } else { total };
    (start, end)
}

/// Every item lands on exactly the page its index divided by the page size
/// names (counting from 1), and that page's bounds contain it.
pub proof fn law_pages_partition(total: int, size: int, i: int)
    requires
        size >= 1,
        0 <= i < total,
    ensures
        1 <= i / size + 1 <= pages(total, size),
        (i / size) * size <= i < (i / size) * size + size,
{
    assert((i / size) * size <= i < (i / size) * size + size) by (nonlinear_arith)
        requires
            size >= 1,
            0 <= i,
    ;
    assert(i / size + 1 <= total / size + if total % size != 0 { 1int } else { 0int }) by (nonlinear_arith)
        requires
            size >= 1,
            0 <= i < total,
    ;
    assert(i / size >= 0) by (nonlinear_arith)
        requires
            size >= 1,
            0 <= i,
    ;
}

/// The page count is the fewest pages that hold every item: that many full
/// pages reach the total, one fewer do not (no items, no pages).
pub proof fn law_page_count_is_least(total: int, size: int)
    requires
        size >= 1,
        total >= 0,
    ensures
        pages(total, size) >= 0,
        pages(total, size) * size >= total,
        total > 0 ==> (pages(total, size) - 1) * size < total,
        total == 0 ==> pages(total, size) == 0,
{
    let q = total / size;
    let r = total % size;
    assert(total == q * size + r && 0 <= r < size && q >= 0) by (nonlinear_arith)
        requires
            size >= 1,
            total >= 0,
            q == total / size,
            r == total % size,
    ;
    if r != 0 {
        assert((q + 1) * size == q * size + size) by (nonlinear_arith);
    }
    if r == 0 && total > 0 {
        assert(q >= 1) by (nonlinear_arith)
            requires
                total == q * size,
                total > 0,
                size >= 1,
        ;
        assert((q - 1) * size == q * size - size) by (nonlinear_arith);
    }
    if total == 0 {
        assert(q == 0) by (nonlinear_arith)
            requires
                0 == q * size,
                size >= 1,
        ;
    }
}

/// The page the "previous" button goes to.
pub fn previous_page(page: usize, page_count: usize) -> (r: usize)
    ensures
        r == shown_page(shown_page(page as int, page_count as int) - 1, page_count as int),
{
    let shown = safe_page(page, page_count);
    let target = if shown > 1 { shown - 1 } else { 1 };
    safe_page(target, page_count)
}

/// The page the "next" button goes to.
pub fn next_page(page: usize, page_count: usize) -> (r: usize)
    ensures
        r == shown_page(shown_page(page as int, page_count as int) + 1, page_count as int),
{
    let shown = safe_page(page, page_count);
    if shown >= (if page_count < 1 { 1 } else { page_count }) {
        return safe_page(shown, page_count);
    }
    safe_page(shown + 1, page_count)
}

/// Whether the "previous" button is disabled (first page shown).
pub fn at_first_page(page: usize, page_count: usize) -> (r: bool)
    ensures
        r == (shown_page(page as int, page_count as int) <= 1),
{
    safe_page(page, page_count) <= 1
}

/// Whether the "next" button is disabled (last page shown).
pub fn at_last_page(page: usize, page_count: usize) -> (r: bool)
    ensures
        r == (shown_page(page as int, page_count as int) >= (if page_count < 1 { 1 } else { page_count as int })),
{
    safe_page(page, page_count) >= (if page_count < 1 { 1 } else { page_count })
}

/// The page the "go to page" box jumps to: the trimmed entry read as a page
/// number and clamped to the existing pages, or nothing when it is not a
/// number (the box is cleared either way).
pub fn goto_page(input: &str, page_count: usize) -> (r: Option<usize>)
    ensures
        parse_unsigned(trim_seq(input@), usize::MAX as int) is Some ==> r == Some(
            shown_page(parse_unsigned(trim_seq(input@), usize::MAX as int)->0, page_count as int) as usize,
        ),
        parse_unsigned(trim_seq(input@), usize::MAX as int) is None ==> r is None,
{
    let t = trim(input);
    match parse_unsigned_chars(&t, usize::MAX as u64) {
        Some(n) => Some(safe_page(n as usize, page_count)),
        None => None,
    }
}


/// The pager's total line: the template with `{}` replaced by the count.
pub fn total_label(template: &str, count: usize) -> (r: String)
    ensures
        r@ == replace_all(template@, "{}"@, decimal(count as nat)),
{
    proof {
        reveal_strlit("{}");
    }
    let n = decimal_string(count as u64);
    replace_str(template, "{}", n.as_str())
}


/// Submitting the go-to box: a number (after trimming) moves to that page,
/// clamped into the pages; other text leaves the page as it is. Either way the
/// box is emptied, which is the second result.
pub fn submit_goto(input: &str, page: usize, page_count: usize) -> (r: (usize, String))
    ensures
        parse_unsigned(trim_seq(input@), usize::MAX as int) is Some ==> r.0 == shown_page(
            parse_unsigned(trim_seq(input@), usize::MAX as int)->0,
            page_count as int,
        ),
        parse_unsigned(trim_seq(input@), usize::MAX as int) is None ==> r.0 == page,
        r.1@.len() == 0,
{
    let next = match goto_page(input, page_count) {
        Some(p) => p,
        None => page,
    };
    (next, String::new())
}

} // verus!
