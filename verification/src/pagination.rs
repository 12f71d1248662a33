//! Page arithmetic for the paginated views (queue, history, playlists) and
//! the decisions of the interactive pager.

use vstd::prelude::*;

use crate::metadata::contains_seq;

verus! {

/// `a / b` rounded up.
pub fn ceil(a: usize, b: usize) -> (r: usize)
    requires
        b >= 1,
        a + b <= usize::MAX,
    ensures
        r == (a + b - 1) / (b as int),
        a > 0 ==> r as int * b >= a && (r - 1) * b < a,
{
    let r = (a + b - 1) / b;
    proof {
        if a > 0 {
            assert(r as int * b >= a && (r - 1) * b < a) by (nonlinear_arith)
                requires
                    b >= 1,
                    a >= 1,
                    r == (a + b - 1) / (b as int),
            ;
        }
    }
    r
}

/// Turns the page number a caller typed (counted from one, absent meaning
/// the first page) into a zero-based page index; a page below one is
/// rejected with the warning the caller shows.
pub fn validate_page(page: Option<i64>) -> (r: Result<usize, String>)
    ensures
        match r {
            Ok(p) => match page {
                None => p == 0,
                Some(v) => v >= 1 && p == (v - 1) as usize,
            },
            Err(msg) => page matches Some(v) && v <= 0 && msg@ == "Page no must be atleast 1"@,
        },
{
    let p: i64 = match page {
        Some(v) => v,
        None => 1,
    };
    if p <= 0 {
        Err(String::from_str("Page no must be atleast 1"))
    } else {
        Ok((p - 1) as usize)
    }
}

/// Which pager buttons to offer: back exists from the second page on, next
/// as long as pages remain.
pub fn pagination_buttons(page: usize, total_pages: usize) -> (r: (bool, bool))
    requires
        total_pages >= 1,
    ensures
        r.0 == (page > 0),
        r.1 == (page < total_pages - 1),
{
    (page > 0, page < total_pages - 1)
}

/// How far one pager interaction moves: back one page, forward one page, or
/// not at all, read off the interaction's identifier.
pub open spec fn pagination_delta_view(custom_id: Seq<char>) -> int {
    if contains_seq(custom_id, "__back"@) {
        -1
    } else if contains_seq(custom_id, "__next"@) {
        1
    } else {
        0
    }
}

/// Reads the page delta out of an interaction identifier.
pub fn pagination_delta(custom_id: &String) -> (d: i64)
    ensures
        d == pagination_delta_view(custom_id@),
{
    if crate::metadata::contains_str(custom_id.as_str(), "__back") {
        -1
    } else if crate::metadata::contains_str(custom_id.as_str(), "__next") {
        1
    } else {
        0
    }
}

} // verus!
