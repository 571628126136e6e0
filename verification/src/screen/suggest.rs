//! Inline suggestions from the command history, shown after what the user types.

use vstd::prelude::*;
use super::{Screen, ScreenModel, dirtied, sat_add, model_wf};
use crate::attributes::default_attrs;
use crate::cell::{empty_cell, mk_cell, Cell};
use crate::cursor::Cursor;
use crate::history::{history_add, history_after, suggestion_for};
use crate::text::{str_len, chars_of, is_cc, is_control, string_pop, string_push, string_push_str};

verus! {

/// Column where the suggestion is drawn: after the typed command, counted in bytes.
pub open spec fn suggestion_col(m: ScreenModel) -> int {
    sat_add(m.command_start as int, str_len(m.command))
}

/// `clear_auto_suggestion()`: the suggestion cells drawn after the command are
/// emptied and the suggestion forgotten.
pub open spec fn auto_suggestion_cleared(m: ScreenModel) -> ScreenModel {
    match m.active_suggestion {
        None => m,
        Some(s) => {
            let r = m.cursor.row as int;
            let row = m.grid[r];
            let start = suggestion_col(m);
            let n = str_len(s);
            let cleared = Seq::new(
                row.len(),
                |j: int| if start <= j < start + n && row[j].is_suggestion { empty_cell() } else { row[j] },
            );
            dirtied(ScreenModel { grid: m.grid.update(r, cleared), active_suggestion: None, ..m })
        },
    }
}

/// The suggestion cell for character `c`: dimmed suggestion with the current attributes.
pub open spec fn suggestion_cell(m: ScreenModel, c: char) -> Cell {
    Cell { attrs: m.attrs, ..mk_cell(c, default_attrs(), true) }
}

/// `update_auto_suggestion()`: the old suggestion is cleared; on the main screen, the
/// history's suggestion for the typed command is remembered and drawn after it.
pub open spec fn auto_suggestion_updated(m0: ScreenModel) -> ScreenModel {
    let m = auto_suggestion_cleared(m0);
    if m.alt is Some {
        m
    } else {
        match suggestion_for(m.history, m.command) {
            None => m,
            Some(s) => {
                let r = m.cursor.row as int;
                let row = m.grid[r];
                let start = suggestion_col(m);
                let shown = Seq::new(
                    row.len(),
                    |j: int| if start <= j < start + s.len() { suggestion_cell(m, s[j - start]) } else { row[j] },
                );
                dirtied(ScreenModel { grid: m.grid.update(r, shown), active_suggestion: Some(s), ..m })
            },
        }
    }
}

/// `add_user_input(ch)`: a typed character extends the command (which starts at the
/// cursor when empty) and refreshes the suggestion; control characters are ignored.
pub open spec fn user_input_added(m: ScreenModel, ch: char) -> ScreenModel {
    if is_cc(ch) {
        m
    } else {
        let start = if m.command.len() == 0 { m.cursor.col } else { m.command_start };
        auto_suggestion_updated(ScreenModel { command_start: start, command: m.command.push(ch), ..m })
    }
}

/// `remove_user_input()`: backspace drops the command's last character.
pub open spec fn user_input_removed(m: ScreenModel) -> ScreenModel {
    if m.command.len() == 0 {
        m
    } else {
        auto_suggestion_updated(ScreenModel { command: m.command.drop_last(), ..m })
    }
}

/// `reset_user_input()`: Enter records the command in the history and starts afresh.
pub open spec fn user_input_reset(m: ScreenModel) -> ScreenModel {
    let c = auto_suggestion_cleared(m);
    ScreenModel {
        history: if c.command.len() > 0 { history_add(c.history, c.history_cap, c.command) } else { c.history },
        command: Seq::empty(),
        command_start: 0,
        active_suggestion: None,
        ..c
    }
}

/// `accept_suggestion()`: the suggestion becomes part of the command and is drawn as
/// ordinary text from the cursor, which moves past it (by its length in bytes).
pub open spec fn suggestion_accepted(m: ScreenModel) -> ScreenModel {
    match m.active_suggestion {
        None => m,
        Some(s) => {
            let r = m.cursor.row as int;
            let row = m.grid[r];
            let start = m.cursor.col as int;
            let shown = Seq::new(
                row.len(),
                |j: int| if start <= j < start + s.len() { mk_cell(s[j - start], m.attrs, false) } else { row[j] },
            );
            dirtied(
                ScreenModel {
                    command: m.command + s,
                    grid: m.grid.update(r, shown),
                    cursor: Cursor { col: (start + str_len(s)) as usize, ..m.cursor },
                    active_suggestion: None,
                    ..m
                },
            )
        },
    }
}

/// `accept_suggestion_for_pty()`: the suggestion is cleared from the screen and added
/// to the command; the shell's echo will draw it.
pub open spec fn suggestion_accepted_for_pty(m: ScreenModel) -> ScreenModel {
    match m.active_suggestion {
        None => m,
        Some(s) => {
            let c = auto_suggestion_cleared(m);
            ScreenModel { command: c.command + s, ..c }
        },
    }
}

impl Screen {
    /// Enters suggestion mode: what is written next is drawn as a suggestion.
    pub fn start_suggestion(&mut self)
        requires
            old(self).wf(),
        ensures
            final(self).wf(),
            final(self).model() == (ScreenModel {
                suggestion_mode: true,
                suggestion_start: old(self).model().cursor.col,
                ..old(self).model()
            }),
    {
        self.suggestion_mode = true;
        self.suggestion_start_col = self.cursor.col;
        assert(self.model() =~= ScreenModel {
            suggestion_mode: true,
            suggestion_start: old(self).model().cursor.col,
            ..old(self).model()
        });
    }

    /// Leaves suggestion mode.
    pub fn end_suggestion(&mut self)
        requires
            old(self).wf(),
        ensures
            final(self).wf(),
            final(self).model() == (ScreenModel { suggestion_mode: false, ..old(self).model() }),
    {
        self.suggestion_mode = false;
        assert(self.model() =~= ScreenModel { suggestion_mode: false, ..old(self).model() });
    }

    /// The suggestion currently shown, if any.
    pub fn get_active_suggestion(&self) -> (r: Option<&str>)
        ensures
            match r {
                Some(s) => self.model().active_suggestion == Some(s@),
                None => self.model().active_suggestion is None,
            },
    {
        match &self.active_suggestion {
            Some(s) => Some(s.as_str()),
            None => None,
        }
    }

    /// Column where the suggestion is drawn.
    fn suggestion_column(&self) -> (r: usize)
        ensures
            r == suggestion_col(self.model()),
    {
        self.command_start_col.saturating_add(self.current_command.as_str().len())
    }

    /// Empties the suggestion cells drawn after the command and forgets the suggestion.
    fn clear_auto_suggestion(&mut self)
        requires
            old(self).wf(),
        ensures
            final(self).wf(),
            final(self).model() == auto_suggestion_cleared(old(self).model()),
    {
        let ghost m = self.model();
        let n = match &self.active_suggestion {
            Some(s) => s.as_str().len(),
            None => {
                return;
            },
        };
        let start = self.suggestion_column();
        let r = self.cursor.row;
        let ghost row = m.grid[r as int];
        let ghost target = Seq::new(
            row.len(),
            |j: int| if start <= j < start + n && row[j].is_suggestion { empty_cell() } else { row[j] },
        );
        let mut i: usize = 0;
        assert(Seq::new(
            row.len(),
            |j: int| if start <= j < start + 0 && row[j].is_suggestion { empty_cell() } else { row[j] },
        ) =~= row);
        assert(m.grid.update(r as int, row) =~= m.grid);
        while i < n
            invariant
                self.wf(),
                model_wf(m),
                i <= n,
                r == m.cursor.row,
                row == m.grid[r as int],
                start == suggestion_col(m),
                self.cols == m.cols,
                self.model() == (ScreenModel {
                    grid: m.grid.update(
                        r as int,
                        Seq::new(
                            row.len(),
                            |j: int|
                                if start <= j < start + i && row[j].is_suggestion { empty_cell() } else { row[j] },
                        ),
                    ),
                    ..m
                }),
            decreases n - i,
        {
            let col = start.saturating_add(i);
            if col < self.cols {
                assert(self.grid@[r as int]@ == self.model().grid[r as int]);
                if self.grid[r][col].is_suggestion {
                    let e = Cell::empty();
                    self.set_cell(r, col, e);
                }
            }
            i += 1;
            assert(self.model().grid[r as int] =~= Seq::new(
                row.len(),
                |j: int| if start <= j < start + i && row[j].is_suggestion { empty_cell() } else { row[j] },
            ));
            assert(self.model() =~= ScreenModel {
                grid: m.grid.update(
                    r as int,
                    Seq::new(
                        row.len(),
                        |j: int| if start <= j < start + i && row[j].is_suggestion { empty_cell() } else { row[j] },
                    ),
                ),
                ..m
            });
        }
        self.active_suggestion = None;
        self.mark_dirty();
        assert(self.model() =~= auto_suggestion_cleared(m));
    }

    /// Clears the old suggestion and, on the main screen, draws the history's suggestion
    /// for the typed command after it.
    fn update_auto_suggestion(&mut self)
        requires
            old(self).wf(),
        ensures
            final(self).wf(),
            final(self).model() == auto_suggestion_updated(old(self).model()),
    {
        if self.active_suggestion.is_some() {
            self.clear_auto_suggestion();
        }
        let ghost m = self.model();
        assert(m == auto_suggestion_cleared(old(self).model()));
        if self.alt_screen.is_some() {
            return;
        }
        let found = self.command_history.find_suggestion(self.current_command.as_str());
        if let Some(suggestion) = found {
            let sv = chars_of(suggestion.as_str());
            let start = self.suggestion_column();
            let r = self.cursor.row;
            let ghost row = m.grid[r as int];
            let mut i: usize = 0;
            let mut done = false;
            assert(Seq::new(
                row.len(),
                |j: int| if start <= j < start + 0 { suggestion_cell(m, sv@[j - start]) } else { row[j] },
            ) =~= row);
            assert(m.grid.update(r as int, row) =~= m.grid);
            while i < sv.len() && !done
                invariant
                    self.wf(),
                    model_wf(m),
                    i <= sv@.len(),
                    r == m.cursor.row,
                    row == m.grid[r as int],
                    start == suggestion_col(m),
                    self.cols == m.cols,
                    done ==> start + i >= m.cols,
                    self.model() == (ScreenModel {
                        grid: m.grid.update(
                            r as int,
                            Seq::new(
                                row.len(),
                                |j: int| if start <= j < start + i { suggestion_cell(m, sv@[j - start]) } else { row[j] },
                            ),
                        ),
                        ..m
                    }),
                decreases sv@.len() - i, (if done { 0int } else { 1int }),
            {
                let col = start.saturating_add(i);
                if col < self.cols {
                    let mut cell = Cell::as_suggestion(sv[i]);
                    cell.attrs = self.current_attrs;
                    self.set_cell(r, col, cell);
                    i += 1;
                    assert(self.model().grid[r as int] =~= Seq::new(
                        row.len(),
                        |j: int| if start <= j < start + i { suggestion_cell(m, sv@[j - start]) } else { row[j] },
                    ));
                    assert(self.model() =~= ScreenModel {
                        grid: m.grid.update(
                            r as int,
                            Seq::new(
                                row.len(),
                                |j: int| if start <= j < start + i { suggestion_cell(m, sv@[j - start]) } else { row[j] },
                            ),
                        ),
                        ..m
                    });
                } else {
                    done = true;
                }
            }
            let ghost s = suggestion@;
            assert(Seq::new(
                row.len(),
                |j: int| if start <= j < start + i { suggestion_cell(m, sv@[j - start]) } else { row[j] },
            ) =~= Seq::new(
                row.len(),
                |j: int| if start <= j < start + s.len() { suggestion_cell(m, s[j - start]) } else { row[j] },
            ));
            self.active_suggestion = Some(suggestion);
            self.mark_dirty();
            assert(self.model() =~= auto_suggestion_updated(old(self).model()));
        }
    }

    /// A typed character extends the command and refreshes the suggestion.
    pub fn add_user_input(&mut self, ch: char)
        requires
            old(self).wf(),
        ensures
            final(self).wf(),
            final(self).model() == user_input_added(old(self).model(), ch),
    {
        if !is_control(ch) {
            if self.current_command.as_str().is_empty() {
                self.command_start_col = self.cursor.col;
            }
            string_push(&mut self.current_command, ch);
            assert(self.model() =~= ScreenModel {
                command_start: if old(self).model().command.len() == 0 {
                    old(self).model().cursor.col
                } else {
                    old(self).model().command_start
                },
                command: old(self).model().command.push(ch),
                ..old(self).model()
            });
            self.update_auto_suggestion();
        }
    }

    /// Backspace: drops the command's last character and refreshes the suggestion.
    pub fn remove_user_input(&mut self)
        requires
            old(self).wf(),
        ensures
            final(self).wf(),
            final(self).model() == user_input_removed(old(self).model()),
    {
        if !self.current_command.as_str().is_empty() {
            string_pop(&mut self.current_command);
            assert(self.model() =~= ScreenModel {
                command: old(self).model().command.drop_last(),
                ..old(self).model()
            });
            self.update_auto_suggestion();
        }
    }

    /// Adds the commands of shell history file lines to the history the suggestions
    /// come from, first line first (see `history_after`).
    pub fn load_history(&mut self, lines: &Vec<String>)
        requires
            old(self).wf(),
        ensures
            final(self).wf(),
            final(self).model() == (ScreenModel {
                history: history_after(
                    old(self).model().history,
                    old(self).model().history_cap,
                    lines@.map_values(|s: String| s@),
                ),
                ..old(self).model()
            }),
    {
        self.command_history.add_history_lines(lines);
        assert(self.model() =~= (ScreenModel {
            history: history_after(
                old(self).model().history,
                old(self).model().history_cap,
                lines@.map_values(|s: String| s@),
            ),
            ..old(self).model()
        }));
    }

    /// Enter: records the command in the history and starts a new one.
    pub fn reset_user_input(&mut self)
        requires
            old(self).wf(),
        ensures
            final(self).wf(),
            final(self).model() == user_input_reset(old(self).model()),
    {
        if self.active_suggestion.is_some() {
            self.clear_auto_suggestion();
        }
        let ghost c = self.model();
        if !self.current_command.as_str().is_empty() {
            let cmd = self.current_command.clone();
            self.command_history.add_command(cmd);
            self.current_command = String::new();
        }
        self.command_start_col = 0;
        self.active_suggestion = None;
        assert(self.model() =~= user_input_reset(old(self).model()));
    }

    /// Accepts the suggestion: it joins the command and is drawn as ordinary text.
    pub fn accept_suggestion(&mut self)
        requires
            old(self).wf(),
            old(self).model().active_suggestion matches Some(s) ==> old(self).model().cursor.col
                + str_len(s) <= usize::MAX / 2,
        ensures
            final(self).wf(),
            final(self).model() == suggestion_accepted(old(self).model()),
    {
        let ghost m = self.model();
        let suggestion = match &self.active_suggestion {
            Some(s) => s.clone(),
            None => {
                return;
            },
        };
        string_push_str(&mut self.current_command, suggestion.as_str());
        let sv = chars_of(suggestion.as_str());
        let start = self.cursor.col;
        let r = self.cursor.row;
        let ghost row = m.grid[r as int];
        let ghost m1 = self.model();
        assert(m1 =~= ScreenModel { command: m.command + suggestion@, ..m });
        let mut i: usize = 0;
        assert(Seq::new(
            row.len(),
            |j: int| if start <= j < start + 0 { mk_cell(sv@[j - start], m1.attrs, false) } else { row[j] },
        ) =~= row);
        assert(m1.grid.update(r as int, row) =~= m1.grid);
        while i < sv.len()
            invariant
                self.wf(),
                model_wf(m1),
                i <= sv@.len(),
                r == m1.cursor.row,
                row == m1.grid[r as int],
                start == m1.cursor.col,
                self.cols == m1.cols,
                start <= usize::MAX / 2,
                self.model() == (ScreenModel {
                    grid: m1.grid.update(
                        r as int,
                        Seq::new(
                            row.len(),
                            |j: int| if start <= j < start + i { mk_cell(sv@[j - start], m1.attrs, false) } else { row[j] },
                        ),
                    ),
                    ..m1
                }),
            decreases sv@.len() - i,
        {
            let col = start.saturating_add(i);
            if col < self.cols {
                let cell = Cell::with_attrs(sv[i], self.current_attrs);
                self.set_cell(r, col, cell);
            }
            i += 1;
            assert(self.model().grid[r as int] =~= Seq::new(
                row.len(),
                |j: int| if start <= j < start + i { mk_cell(sv@[j - start], m1.attrs, false) } else { row[j] },
            ));
            assert(self.model() =~= ScreenModel {
                grid: m1.grid.update(
                    r as int,
                    Seq::new(
                        row.len(),
                        |j: int| if start <= j < start + i { mk_cell(sv@[j - start], m1.attrs, false) } else { row[j] },
                    ),
                ),
                ..m1
            });
        }
        self.cursor.col = self.cursor.col + suggestion.as_str().len();
        self.active_suggestion = None;
        self.mark_dirty();
        assert(self.model() =~= suggestion_accepted(m));
    }

    /// Accepts the suggestion without drawing it: the shell's echo will.
    pub fn accept_suggestion_for_pty(&mut self)
        requires
            old(self).wf(),
        ensures
            final(self).wf(),
            final(self).model() == suggestion_accepted_for_pty(old(self).model()),
    {
        let suggestion = match &self.active_suggestion {
            Some(s) => s.clone(),
            None => {
                return;
            },
        };
        self.clear_auto_suggestion();
        let ghost c = self.model();
        string_push_str(&mut self.current_command, suggestion.as_str());
        assert(self.model() =~= ScreenModel { command: c.command + suggestion@, ..c });
    }
}

} // verus!
