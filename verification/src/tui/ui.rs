//! Layout decisions of the terminal UI.
use vstd::prelude::*;

verus! {

/// A rectangle of terminal cells.
#[derive(Debug, Clone, Copy, PartialEq, Eq, Structural)]
pub struct Area {
    pub x: u16,
    pub y: u16,
    pub width: u16,
    pub height: u16,
}

pub struct UI;

/// What a frame shows besides the search box, the filter panel, the table
/// and the status bar.
#[derive(Debug, Clone, Copy, PartialEq, Eq, Structural)]
pub struct FramePlan {
    /// The table area is split in two halves, the table on the left and the
    /// selected item's details on the right.
    pub detail_pane: bool,
    /// Where the scan progress box goes, when a scan is running.
    pub scan_box: Option<Area>,
}

/// Where the scan progress box goes inside the table area: two cells in
/// from the left, at half height, four cells narrower (never below zero),
/// three rows high.
pub open spec fn scan_progress_area_of(table: Area) -> Area {
    Area {
        x: (table.x + 2) as u16,
        y: (table.y + table.height / 2) as u16,
        width: if table.width >= 4 { (table.width - 4) as u16 } else { 0 },
        height: 3,
    }
}

impl UI {
    /// The plan of a frame: the detail pane exactly when the detail view is
    /// visible, and the scan progress box, placed inside the table area,
    /// exactly while a scan runs.
    pub fn frame_plan(detail_view_visible: bool, is_scanning: bool, table: Area) -> (p: FramePlan)
        requires
            is_scanning ==> table.x + 2 <= u16::MAX && table.y + table.height / 2 <= u16::MAX,
        ensures
            p.detail_pane == detail_view_visible,
            p.scan_box == (if is_scanning {
                Some(scan_progress_area_of(table))
            } else {
                None
            }),
    {
        let scan_box = if is_scanning {
            Some(Self::scan_progress_area(table))
        } else {
            None
        };
        FramePlan { detail_pane: detail_view_visible, scan_box }
    }

    /// The area of the scan progress box for the given table area.
    pub fn scan_progress_area(table: Area) -> (r: Area)
        requires
            table.x + 2 <= u16::MAX,
            table.y + table.height / 2 <= u16::MAX,
        ensures
            r == scan_progress_area_of(table),
    {
        Area {
            x: table.x + 2,
            y: table.y + table.height / 2,
            width: table.width.saturating_sub(4),
            height: 3,
        }
    }
}

/// The scan progress box lies two cells in from the table's left edge, at
/// half the table's height, four cells narrower than the table (never
/// negative), three rows high.
pub proof fn lemma_scan_box_geometry(table: Area)
    requires
        table.x + 2 <= u16::MAX,
        table.y + table.height / 2 <= u16::MAX,
    ensures
        scan_progress_area_of(table).x == table.x + 2,
        scan_progress_area_of(table).y == table.y + table.height / 2,
        scan_progress_area_of(table).width + 4 >= table.width,
        table.width >= 4 ==> scan_progress_area_of(table).width + 4 == table.width,
        table.width < 4 ==> scan_progress_area_of(table).width == 0,
        scan_progress_area_of(table).height == 3,
{
}

} // verus!
