use vstd::prelude::*;

verus! {

/// Cursor position on the screen.
#[derive(Debug, Clone, Copy, PartialEq, Eq, Structural)]
pub struct Cursor {
    pub row: usize,
    pub col: usize,
    pub visible: bool,
}

/// Smaller of two integers.
pub open spec fn min_int(a: int, b: int) -> int {
    if a <= b { a } else { b }
}

/// `a - b`, or 0 when `b > a`.
pub open spec fn sat_sub(a: int, b: int) -> int {
    if a >= b { a - b } else { 0 }
}

impl Cursor {
    pub fn new() -> (r: Self)
        ensures
            r == (Cursor { row: 0, col: 0, visible: true }),
    {
        Cursor { row: 0, col: 0, visible: true }
    }

    pub fn move_to(&mut self, row: usize, col: usize)
        ensures
            *final(self) == (Cursor { row, col, visible: old(self).visible }),
    {
        self.row = row;
        self.col = col;
    }

    pub fn move_down(&mut self, rows: usize, max_row: usize)
        ensures
            final(self).row == min_int(old(self).row + rows, max_row as int),
            final(self).col == old(self).col,
            final(self).visible == old(self).visible,
    {
        self.row = self.row.saturating_add(rows).min(max_row);
    }

    pub fn move_up(&mut self, rows: usize)
        ensures
            final(self).row == sat_sub(old(self).row as int, rows as int),
            final(self).col == old(self).col,
            final(self).visible == old(self).visible,
    {
        self.row = self.row.saturating_sub(rows);
    }

    pub fn move_right(&mut self, cols: usize, max_col: usize)
        ensures
            final(self).col == min_int(old(self).col + cols, max_col as int),
            final(self).row == old(self).row,
            final(self).visible == old(self).visible,
    {
        self.col = self.col.saturating_add(cols).min(max_col);
    }

    pub fn move_left(&mut self, cols: usize)
        ensures
            final(self).col == sat_sub(old(self).col as int, cols as int),
            final(self).row == old(self).row,
            final(self).visible == old(self).visible,
    {
        self.col = self.col.saturating_sub(cols);
    }

    pub fn carriage_return(&mut self)
        ensures
            *final(self) == (Cursor { col: 0, ..*old(self) }),
    {
        self.col = 0;
    }

    pub fn line_feed(&mut self, max_row: usize)
        ensures
            final(self).row == (if old(self).row < max_row { old(self).row + 1 } else { old(self).row as int }),
            final(self).col == old(self).col,
            final(self).visible == old(self).visible,
    {
        if self.row < max_row {
            self.row += 1;
        }
    }
}

impl Default for Cursor {
    fn default() -> (r: Self)
        ensures
            r == (Cursor { row: 0, col: 0, visible: true }),
    {
        Cursor::new()
    }
}

} // verus!
