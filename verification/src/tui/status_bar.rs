//! The text of the status bar: paging and selection, then the key help.
use vstd::prelude::*;
use vstd::string::StringExecFns;
use crate::text::{decimal, pad_right, pad_right_in_place, push_decimal};

verus! {

pub struct StatusBar;

/// The key help shown after the page information.
pub open spec fn status_help() -> Seq<char> {
    " ↑/↓: Navigate | PgUp/PgDn: Page | q: Quit"@
}

/// The page information: page, page count, item count and selection
/// (pages and selection counted from 1), or a notice when there are no
/// pages.
pub open spec fn page_info(
    total_pages: nat,
    current_page: nat,
    item_count: nat,
    selected_index: nat,
) -> Seq<char> {
    if total_pages > 0 {
        "Page "@ + decimal(current_page + 1) + "/"@ + decimal(total_pages) + " | "@ + decimal(
            item_count,
        ) + " items | Selection: "@ + decimal(selected_index + 1) + "/"@ + decimal(item_count)
    } else {
        "No items to display"@
    }
}

/// The status line: the page information padded to 60 characters, a space,
/// and the key help.
pub open spec fn status_line(
    total_pages: nat,
    current_page: nat,
    item_count: nat,
    selected_index: nat,
) -> Seq<char> {
    pad_right(page_info(total_pages, current_page, item_count, selected_index), 60) + " "@
        + status_help()
}

impl StatusBar {
    /// The status line for the given paging state.
    pub fn status_text(
        total_pages: usize,
        current_page: usize,
        item_count: usize,
        selected_index: usize,
    ) -> (s: String)
        requires
            total_pages > 0 ==> current_page < usize::MAX && selected_index < usize::MAX,
        ensures
            s@ == status_line(
                total_pages as nat,
                current_page as nat,
                item_count as nat,
                selected_index as nat,
            ),
    {
        let mut info = if total_pages > 0 {
            let mut t = String::from_str("Page ");
            push_decimal(&mut t, (current_page + 1) as u64);
            t.append("/");
            push_decimal(&mut t, total_pages as u64);
            t.append(" | ");
            push_decimal(&mut t, item_count as u64);
            t.append(" items | Selection: ");
            push_decimal(&mut t, (selected_index + 1) as u64);
            t.append("/");
            push_decimal(&mut t, item_count as u64);
            t
        } else {
            String::from_str("No items to display")
        };
        pad_right_in_place(&mut info, 60);
        info.append(" ");
        info.append(" ↑/↓: Navigate | PgUp/PgDn: Page | q: Quit");
        info
    }
}

/// With at least one page, the status line begins with the page number
/// (the zero-based current page plus one), the page count, the item count
/// and the selection (the zero-based selected index plus one); with no
/// pages it begins with the notice. The key help always ends it.
pub proof fn lemma_status_line_shows_one_based_page_and_selection(
    total_pages: nat,
    current_page: nat,
    item_count: nat,
    selected_index: nat,
)
    ensures
        ({
            let line = status_line(total_pages, current_page, item_count, selected_index);
            let info = if total_pages > 0 {
                "Page "@ + decimal(current_page + 1) + "/"@ + decimal(total_pages) + " | "@
                    + decimal(item_count) + " items | Selection: "@ + decimal(selected_index + 1)
                    + "/"@ + decimal(item_count)
            } else {
                "No items to display"@
            };
            &&& line.take(info.len() as int) == info
            &&& line.len() >= 61 + status_help().len()
            &&& line.skip(line.len() - status_help().len()) == status_help()
        }),
{
    let line = status_line(total_pages, current_page, item_count, selected_index);
    let info = page_info(total_pages, current_page, item_count, selected_index);
    let padded = pad_right(info, 60);
    reveal_strlit(" ");
    assert(padded.len() >= 60);
    assert(padded.take(info.len() as int) =~= info);
    assert(line =~= padded + " "@ + status_help());
    assert(line.take(info.len() as int) =~= info);
    assert(line.skip(line.len() - status_help().len()) =~= status_help());
}

} // verus!
