//! The rows of the item table.
use vstd::prelude::*;
use vstd::string::StringExecFns;
use crate::domain::SoftwareItem;
use crate::text::string_views;

verus! {

pub struct TableWidget;

/// What the version column shows: the version, or an em dash when it is
/// unknown.
pub open spec fn version_cell(version: Option<String>) -> Seq<char> {
    match version {
        Some(v) => v@,
        None => "—"@,
    }
}

/// The cells of an item's row: name, category, manager, version.
pub open spec fn row_cells(item: SoftwareItem) -> Seq<Seq<char>> {
    seq![item.display_name@, item.category@, item.package_manager@, version_cell(item.version)]
}

impl TableWidget {
    /// The column titles.
    pub fn header_cells() -> (cells: Vec<String>)
        ensures
            string_views(cells@) == seq!["Name"@, "Category"@, "Manager"@, "Version"@],
    {
        let cells = vec![
            String::from_str("Name"),
            String::from_str("Category"),
            String::from_str("Manager"),
            String::from_str("Version"),
        ];
        proof {
            assert(string_views(cells@) =~= seq!["Name"@, "Category"@, "Manager"@, "Version"@]);
        }
        cells
    }

    /// The cells of `item`'s row.
    pub fn row_cells(item: &SoftwareItem) -> (cells: Vec<String>)
        ensures
            string_views(cells@) == row_cells(*item),
    {
        let version = match &item.version {
            Some(v) => v.clone(),
            None => String::from_str("—"),
        };
        let cells = vec![
            item.display_name.clone(),
            item.category.clone(),
            item.package_manager.clone(),
            version,
        ];
        proof {
            assert(string_views(cells@) =~= row_cells(*item));
        }
        cells
    }

    /// Whether the row at `idx` on the current page is the selected item.
    pub fn is_selected_row(current_page: usize, page_size: usize, idx: usize, selected_index: usize) -> (b: bool)
        requires
            current_page * page_size + idx <= usize::MAX,
        ensures
            b == (current_page * page_size + idx == selected_index),
    {
        proof {
            assert(0 <= current_page * page_size <= current_page * page_size + idx) by (nonlinear_arith)
                requires current_page * page_size + idx <= usize::MAX;
        }
        current_page * page_size + idx == selected_index
    }
}

/// An item's row shows, in order, its display name, category and package
/// manager, then its version, or an em dash when the version is unknown.
pub proof fn lemma_row_shows_item_columns(item: SoftwareItem)
    ensures
        row_cells(item).len() == 4,
        row_cells(item)[0] == item.display_name@,
        row_cells(item)[1] == item.category@,
        row_cells(item)[2] == item.package_manager@,
        row_cells(item)[3] == (match item.version {
            Some(v) => v@,
            None => "—"@,
        }),
{
}

} // verus!
