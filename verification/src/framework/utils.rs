use vstd::prelude::*;

verus! {

/// The page shown after the button `button` was pressed on page `page` of
/// `page_count` pages: the first, the previous (staying on the first), the
/// next (staying on the last), or the last page; other buttons change nothing.
pub open spec fn page_for(page: usize, page_count: usize, button: Seq<char>) -> usize {
    if button == "first-page"@ {
        0
    } else if button == "previous-page"@ {
        if page == 0 {
            0
        } else {
            (page - 1) as usize
        }
    } else if button == "next-page"@ {
        if page + 1 < page_count - 1 {
            (page + 1) as usize
        } else {
            (page_count - 1) as usize
        }
    } else if button == "last-page"@ {
        (page_count - 1) as usize
    } else {
        page
    }
}

/// The page shown after the button `button` was pressed on page `page` of
/// `page_count` pages (see [`page_for`]).
pub fn next_page(page: usize, page_count: usize, button: &str) -> (r: usize)
    requires
        page < page_count,
    ensures
        r == page_for(page, page_count, button@),
        r < page_count,
{
    if crate::text::str_eq(button, "first-page") {
        0
    } else if crate::text::str_eq(button, "previous-page") {
        page.saturating_sub(1)
    } else if crate::text::str_eq(button, "next-page") {
        if page + 1 < page_count - 1 {
            page + 1
        } else {
            page_count - 1
        }
    } else if crate::text::str_eq(button, "last-page") {
        page_count - 1
    } else {
        page
    }
}

/// A press of a page button on a paginated message: the page shown after it, and
/// whether the member who pressed is told that only the command's author may move
/// the pages. A press by the author moves the page as [`page_for`] says; a press by
/// anyone else leaves it and is answered with that notice.
pub fn press_page(page: usize, page_count: usize, button: &str, presser: u64, author: u64) -> (r: (usize, bool))
    requires
        page < page_count,
    ensures
        presser == author ==> r == (page_for(page, page_count, button@), false),
        presser != author ==> r == (page, true),
        r.0 < page_count,
{
    if presser == author {
        (next_page(page, page_count, button), false)
    } else {
        (page, true)
    }
}

/// The page shown after the presses `presses` (each a button and the member who
/// pressed it) on a message of `page_count` pages that starts on the first page.
pub open spec fn page_after_presses(page_count: usize, author: u64, presses: Seq<(Seq<char>, u64)>) -> usize
    decreases presses.len(),
{
    if presses.len() == 0 {
        0
    } else {
        let p = page_after_presses(page_count, author, presses.drop_last());
        if presses.last().1 == author {
            page_for(p, page_count, presses.last().0)
        } else {
            p
        }
    }
}

/// Paging starts on the first page and, whatever buttons are pressed by whom, the
/// page shown is always one of the message's pages; presses by anyone but the
/// command's author change nothing.
pub proof fn lemma_pages_stay_in_range(page_count: usize, author: u64, presses: Seq<(Seq<char>, u64)>)
    requires
        page_count > 0,
    ensures
        page_after_presses(page_count, author, presses) < page_count,
        presses.len() > 0 && presses.last().1 != author ==> page_after_presses(page_count, author, presses)
            == page_after_presses(page_count, author, presses.drop_last()),
    decreases presses.len(),
{
    if presses.len() > 0 {
        lemma_pages_stay_in_range(page_count, author, presses.drop_last());
    }
}

} // verus!
