//! How the terminal window is divided into the pane area and the status bar.
use vstd::prelude::*;

verus! {

/// A rectangle of character cells.
#[derive(Debug, Clone, Copy, PartialEq, Eq, Structural)]
pub struct Rect {
    pub x: u16,
    pub y: u16,
    pub width: u16,
    pub height: u16,
}

/// Whether the cell in column `col` and row `row` lies in the rectangle.
pub open spec fn covers(area: Rect, col: int, row: int) -> bool {
    area.x <= col < area.x + area.width && area.y <= row < area.y + area.height
}

/// The size of the terminal window, and whether it has a status bar.
pub struct Screen {
    total_rows: u16,
    total_cols: u16,
    bar: bool,
}

/// How many rows the status bar takes at the bottom of the window.
pub const STATUS_BAR_HEIGHT: u16 = 1;

/// The rows that are left above the status bar.
pub open spec fn pane_rows(rows: u16) -> u16 {
    if rows >= STATUS_BAR_HEIGHT {
        (rows - STATUS_BAR_HEIGHT) as u16
    } else {
        0
    }
}

/// The pane area of a window of the given size: all of it but the last row.
pub open spec fn pane_area_of(rows: u16, cols: u16) -> Rect {
    Rect { x: 0, y: 0, width: cols, height: pane_rows(rows) }
}

/// The status bar of a window of the given size: its last row.
pub open spec fn status_bar_of(rows: u16, cols: u16) -> Rect {
    Rect { x: 0, y: pane_rows(rows), width: cols, height: STATUS_BAR_HEIGHT }
}

/// The pane area of a window with or without a status bar.
pub open spec fn pane_place(rows: u16, cols: u16, bar: bool) -> Rect {
    if bar {
        pane_area_of(rows, cols)
    } else {
        Rect { x: 0, y: 0, width: cols, height: rows }
    }
}

/// The status bar of a window, which has no rows where there is none.
pub open spec fn bar_place(rows: u16, cols: u16, bar: bool) -> Rect {
    if bar {
        status_bar_of(rows, cols)
    } else {
        Rect { x: 0, y: rows, width: cols, height: 0 }
    }
}

impl Screen {
    /// The number of rows of the window.
    pub closed spec fn rows(&self) -> u16 {
        self.total_rows
    }

    /// The number of columns of the window.
    pub closed spec fn cols(&self) -> u16 {
        self.total_cols
    }

    /// Whether the window has a status bar.
    pub closed spec fn has_bar(&self) -> bool {
        self.bar
    }

    /// A window of the given size with a status bar.
    pub fn new(rows: u16, cols: u16) -> (screen: Self)
        ensures
            screen.rows() == rows,
            screen.cols() == cols,
            screen.has_bar(),
    {
        Self::with_bar(rows, cols, true)
    }

    /// A window of the given size with or without a status bar.
    pub fn with_bar(rows: u16, cols: u16, bar: bool) -> (screen: Self)
        ensures
            screen.rows() == rows,
            screen.cols() == cols,
            screen.has_bar() == bar,
    {
        Self { total_rows: rows, total_cols: cols, bar }
    }

    /// Takes over a new window size.
    pub fn resize(&mut self, rows: u16, cols: u16)
        ensures
            final(self).rows() == rows,
            final(self).cols() == cols,
            final(self).has_bar() == old(self).has_bar(),
    {
        self.total_rows = rows;
        self.total_cols = cols;
    }

    /// The part of the window that shows panes.
    pub fn pane_area(&self) -> (area: Rect)
        ensures
            area == pane_place(self.rows(), self.cols(), self.has_bar()),
    {
        if !self.bar {
            return Rect { x: 0, y: 0, width: self.total_cols, height: self.total_rows };
        }
        Rect {
            x: 0,
            y: 0,
            width: self.total_cols,
            height: self.total_rows.saturating_sub(STATUS_BAR_HEIGHT),
        }
    }

    /// The part of the window that shows the status bar.
    pub fn status_bar_area(&self) -> (area: Rect)
        ensures
            area == bar_place(self.rows(), self.cols(), self.has_bar()),
    {
        if !self.bar {
            return Rect { x: 0, y: self.total_rows, width: self.total_cols, height: 0 };
        }
        let pane_h: u16 = self.total_rows.saturating_sub(STATUS_BAR_HEIGHT);
        Rect { x: 0, y: pane_h, width: self.total_cols, height: STATUS_BAR_HEIGHT }
    }
}

/// The pane area and the status bar together are the window, and no cell
/// belongs to both. One window is left out: without rows and with a status bar,
/// the bar still claims one row.
pub proof fn areas_partition_the_window(rows: u16, cols: u16, bar: bool, col: int, row: int)
    requires
        bar ==> rows >= STATUS_BAR_HEIGHT,
    ensures
        ({
            let pane = pane_place(rows, cols, bar);
            let status = bar_place(rows, cols, bar);
            &&& (0 <= col < cols && 0 <= row < rows) <==> (covers(pane, col, row) || covers(
                status,
                col,
                row,
            ))
            &&& !(covers(pane, col, row) && covers(status, col, row))
            &&& pane.height + status.height == rows
            &&& status.y == pane.height
            &&& !bar ==> pane.height == rows
        }),
{
}

/// Both areas reach from the left edge to the right one, the pane area starts at
/// the top, and the status bar is one row high at the bottom where it is shown.
pub proof fn areas_span_the_window(rows: u16, cols: u16, bar: bool)
    ensures
        ({
            let pane = pane_place(rows, cols, bar);
            let status = bar_place(rows, cols, bar);
            &&& pane.x == 0 && status.x == 0
            &&& pane.width == cols && status.width == cols
            &&& pane.y == 0
            &&& status.height == (if bar {
                1int
            } else {
                0int
            })
            &&& bar && rows > 0 ==> status.y == rows - 1 && pane.height == rows - 1
            &&& bar && rows == 0 ==> status.y == 0 && pane.height == 0
            &&& !bar ==> status.y == rows && pane.height == rows
        }),
{
}

} // verus!
