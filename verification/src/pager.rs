//! Moving through a session's saved images one page at a time.

use vstd::prelude::*;
use crate::model::{database_wf, entry_fn, listing, page_size, session_cats, DatabaseView};

verus! {

/// How many images one page shows.
pub const PAGE_SIZE: usize = 20;

/// There is a page before the one at `offset`.
pub open spec fn has_previous(offset: int) -> bool {
    offset >= page_size()
}

/// There is a page behind the one at `offset`, `count` images being saved.
pub open spec fn has_next(offset: int, count: int) -> bool {
    offset + page_size() < count
}

/// Whether the pager can step back from `offset`.
pub fn can_page_left(offset: usize) -> (possible: bool)
    ensures
        possible == has_previous(offset as int),
{
    offset >= PAGE_SIZE
}

/// Whether the pager can step on from `offset`, `count` images being saved.
pub fn can_page_right(offset: usize, count: usize) -> (possible: bool)
    ensures
        possible == has_next(offset as int, count as int),
{
    count >= PAGE_SIZE && offset < count - PAGE_SIZE
}

/// The offset one page back, or `offset` itself on the first page.
pub fn page_left(offset: usize) -> (previous: usize)
    ensures
        previous == if has_previous(offset as int) {
            offset - page_size()
        } else {
            offset as int
        },
{
    if offset >= PAGE_SIZE {
        offset - PAGE_SIZE
    } else {
        offset
    }
}

/// The offset one page on, or `offset` itself on the last page.
pub fn page_right(offset: usize, count: usize) -> (next: usize)
    ensures
        next == if has_next(offset as int, count as int) {
            offset + page_size()
        } else {
            offset as int
        },
{
    if can_page_right(offset, count) {
        offset + PAGE_SIZE
    } else {
        offset
    }
}

/// The number shown for the first image of the page at `offset`: positions
/// are counted from one. `None` where that number does not fit.
pub fn first_shown(offset: usize) -> (position: Option<usize>)
    ensures
        match position {
            Some(p) => p == offset + 1,
            None => offset + 1 > usize::MAX,
        },
{
    offset.checked_add(1)
}

/// A step on and a step back lead to where one was.
pub proof fn lemma_right_then_left(offset: int, count: int)
    requires
        0 <= offset,
        has_next(offset, count),
    ensures
        has_previous(offset + page_size()),
        offset + page_size() - page_size() == offset,
        offset + page_size() < count,
{
}

/// The page that the pager steps on to is not empty, and the page it leaves
/// is full.
pub proof fn lemma_next_page_has_images(v: DatabaseView, bicmid: Seq<char>, offset: int)
    requires
        database_wf(v),
        0 <= offset,
        has_next(offset, session_cats(v, bicmid).len() as int),
    ensures
        listing(v, bicmid, offset).len() == page_size(),
        listing(v, bicmid, offset + page_size()).len() >= 1,
{
}

/// One page and the next show different images: together they are the
/// session's images from `offset` on, without a gap and without a repeat.
pub proof fn lemma_pages_join(v: DatabaseView, bicmid: Seq<char>, offset: int)
    requires
        database_wf(v),
        0 <= offset,
    ensures
        listing(v, bicmid, offset) + listing(v, bicmid, offset + page_size())
            == session_cats(v, bicmid).reverse().map_values(entry_fn(v)).subrange(
            if offset < session_cats(v, bicmid).len() {
                offset
            } else {
                session_cats(v, bicmid).len() as int
            },
            if offset + 2 * page_size() < session_cats(v, bicmid).len() {
                offset + 2 * page_size()
            } else {
                session_cats(v, bicmid).len() as int
            },
        ),
{
    let all = session_cats(v, bicmid).reverse();
    let shown = all.map_values(entry_fn(v));
    assert(listing(v, bicmid, offset) + listing(v, bicmid, offset + page_size()) =~= shown.subrange(
        if offset < all.len() {
            offset
        } else {
            all.len() as int
        },
        if offset + 2 * page_size() < all.len() {
            offset + 2 * page_size()
        } else {
            all.len() as int
        },
    ));
}

} // verus!
