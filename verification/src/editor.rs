//! The editor state: the buffer of rows, the cursor, the viewport, and the
//! operations that keys trigger on them.

use vstd::prelude::*;
use std::rc::Rc;
use crate::escape::{cursor_goto, style_bold, style_invert, style_no_invert, style_reset};
use crate::input::{Key, Mode};
use crate::model::{contains, lemma_first_hit, quit_warning_text, saved_text, scan_row};
use crate::model::{EditorView, PromptStep, Snapshot, Step, LABEL_OVERHEAD, MESSAGE_SECONDS, QUIT_TIMES};
use crate::row::{deleted, inserted, render_column, share, Row, TAB_SPACES};
use crate::syntax::{words, Syntax, SyntaxRe};
use crate::text::{append_decimal, append_range, append_repeat, append_str, chars_of, decimal, find_in};
use crate::text::{first_index, lemma_first_index, occurs_at, repeat, string_of};

verus! {

/// The editor.
pub struct Editor {
    cx: usize,
    cy: usize,
    rx: usize,
    rowoff: usize,
    coloff: usize,
    screenrows: u16,
    screencols: u16,
    rows: Vec<Row>,
    mode: Mode,
    dirty: bool,
    quit_times: u16,
    filename: Option<String>,
    syntax: Syntax,
    syntax_re: Rc<SyntaxRe>,
    status_message: Option<(String, u64)>,
}

impl View for Editor {
    type V = EditorView;

    closed spec fn view(&self) -> EditorView {
        EditorView {
            cx: self.cx as nat,
            cy: self.cy as nat,
            rx: self.rx as nat,
            rowoff: self.rowoff as nat,
            coloff: self.coloff as nat,
            screenrows: self.screenrows as nat,
            screencols: self.screencols as nat,
            rows: Seq::new(self.rows@.len(), |i: int| self.rows@[i]@),
            profile: *self.syntax_re,
            mode: self.mode,
            dirty: self.dirty,
            quit_times: self.quit_times as nat,
            filename: match self.filename {
                Some(name) => Some(name@),
                None => None,
            },
            filetype: self.syntax.filetype@,
            message: match self.status_message {
                Some((text, at)) => Some((text@, at as nat)),
                None => None,
            },
        }
    }
}

impl Editor {
    /// Every row is consistent and classified under the editor's profile.
    spec fn rows_ok(&self) -> bool {
        forall|i: int|
            0 <= i < self.rows@.len() ==> (#[trigger] self.rows@[i]).wf() && self.rows@[i].profile()
                == *self.syntax_re
    }

    /// The editor is consistent: its rows are, the screen has at least one
    /// row and one column, the cursor addresses a position of the buffer,
    /// and the quit counter is within its range.
    pub closed spec fn wf(&self) -> bool {
        &&& self.rows_ok()
        &&& self.screenrows >= 1
        &&& self.screencols >= 1
        &&& self@.cursor_ok()
        &&& 1 <= self.quit_times <= QUIT_TIMES
    }

    /// What consistency means for a caller: the cursor addresses a position
    /// of the buffer, the screen is not empty, and the quit counter is
    /// within its range.
    pub proof fn lemma_wf(&self)
        requires
            self.wf(),
        ensures
            self@.cursor_ok(),
            self@.screenrows >= 1,
            self@.screencols >= 1,
            1 <= self@.quit_times <= QUIT_TIMES,
    {
    }

    /// An empty editor for a terminal of `columns` by `lines`, of which the
    /// last two lines are kept for the status and message lines. `profile`
    /// is the profile that rows are classified under until a file is
    /// loaded.
    pub fn new(columns: u16, lines: u16, profile: SyntaxRe) -> (editor: Editor)
        requires
            columns >= 1,
            lines >= 3,
        ensures
            editor.wf(),
            editor@ == (EditorView {
                cx: 0,
                cy: 0,
                rx: 0,
                rowoff: 0,
                coloff: 0,
                screenrows: (lines - 2) as nat,
                screencols: columns as nat,
                rows: Seq::empty(),
                profile,
                mode: Mode::Insert,
                dirty: false,
                quit_times: QUIT_TIMES as nat,
                filename: None,
                filetype: Seq::empty(),
                message: None,
            }),
    {
        let editor = Editor {
            cx: 0,
            cy: 0,
            rx: 0,
            rowoff: 0,
            coloff: 0,
            screenrows: lines - 2,
            screencols: columns,
            rows: Vec::new(),
            mode: Mode::Insert,
            dirty: false,
            quit_times: QUIT_TIMES,
            filename: None,
            syntax: Syntax::new(),
            syntax_re: Rc::new(profile),
            status_message: None,
        };
        proof {
            assert(editor@.rows =~= Seq::empty());
            assert(editor@.filetype =~= Seq::empty());
        }
        editor
    }

    /// The render column of raw column `cx` in row `row`.
    pub fn row_cx_to_rx(&self, row: usize, cx: usize) -> (rx: usize)
        requires
            self.wf(),
            row < self@.rows.len(),
        ensures
            rx == render_column(self@.rows[row as int], cx as nat),
    {
        self.rows[row].cx_to_rx(cx)
    }

    /// Brings the viewport to the cursor.
    pub fn scroll_cursor(&mut self)
        requires
            old(self).wf(),
        ensures
            final(self).wf(),
            final(self)@ == old(self)@.scrolled(),
            final(self)@.cursor_visible(),
    {
        self.rx = 0;
        if self.cy < self.rows.len() {
            self.rx = self.rows[self.cy].cx_to_rx(self.cx);
        }
        if self.cy < self.rowoff {
            self.rowoff = self.cy;
        }
        if self.cy - self.rowoff >= self.screenrows as usize {
            self.rowoff = self.cy - self.screenrows as usize + 1;
        }
        if self.rx < self.coloff {
            self.coloff = self.rx;
        }
        if self.rx - self.coloff >= self.screencols as usize {
            self.coloff = self.rx - self.screencols as usize + 1;
        }
        proof {
            assert(self@.rows =~= old(self)@.rows);
        }
    }

    /// Moves the cursor by one directional key.
    pub fn move_cursor(&mut self, key: Key)
        requires
            old(self).wf(),
            key.is_arrow(),
        ensures
            final(self).wf(),
            final(self)@ == old(self)@.moved(key),
    {
        let row_length: usize = if self.cy >= self.rows.len() {
            0
        } else {
            self.rows[self.cy].len()
        };
        match key {
            Key::Down => {
                if self.cy < self.rows.len() {
                    self.cy += 1;
                }
            },
            Key::Up => {
                if self.cy > 0 {
                    self.cy -= 1;
                }
            },
            Key::Right => {
                if self.cx < row_length {
                    self.cx += 1;
                }
            },
            Key::Left => {
                if self.cx > 0 {
                    self.cx -= 1;
                }
            },
            _ => {},
        }
        if self.cy < self.rows.len() {
            let row_length: usize = self.rows[self.cy].len();
            if self.cx > row_length {
                self.cx = row_length;
            }
        }
        proof {
            assert(self@.rows =~= old(self)@.rows);
        }
    }

    /// Types `c` at the cursor.
    pub fn insert_char(&mut self, c: char)
        requires
            old(self).wf(),
        ensures
            final(self).wf(),
            final(self)@ == old(self)@.typed(c),
    {
        self.dirty = true;
        if self.cy == self.rows.len() {
            let row = Row::from_chars(Vec::new(), share(&self.syntax_re));
            self.rows.push(row);
        }
        let ghost rows = self@.rows;
        proof {
            assert(rows =~= if old(self)@.cy == old(self)@.rows.len() {
                old(self)@.rows.push(Seq::empty())
            } else {
                old(self)@.rows
            });
        }
        let position: usize = if self.cx > self.rows[self.cy].len() {
            self.rows[self.cy].len()
        } else {
            self.cx
        };
        self.rows[self.cy].insert_char(self.cx, c);
        let length: usize = self.rows[self.cy].len();
        assert(length == rows[self.cy as int].len() + 1);
        self.cx = position + 1;
        proof {
            assert(self@.rows =~= rows.update(self.cy as int, inserted(rows[self.cy as int], old(self)@.cx, c)));
        }
    }

    /// Erases before the cursor.
    pub fn delete_char(&mut self)
        requires
            old(self).wf(),
        ensures
            final(self).wf(),
            final(self)@ == old(self)@.erased(),
    {
        if self.cy == self.rows.len() {
            return ;
        }
        if self.cx == 0 && self.cy == 0 {
            return ;
        }
        self.dirty = true;
        let ghost rows = old(self)@.rows;
        if self.cx > 0 {
            let removed = self.rows[self.cy].delete_char(self.cx - 1);
            self.cx -= removed;
            proof {
                let row = rows[self.cy as int];
                let at = (old(self)@.cx - 1) as nat;
                assert(self@.rows =~= rows.update(self.cy as int, deleted(row, at)));
            }
        } else {
            self.cx = self.rows[self.cy - 1].len();
            let row = self.rows.remove(self.cy);
            self.rows[self.cy - 1].append_chars(row.raw_chars());
            self.cy -= 1;
            proof {
                let y = old(self)@.cy as int;
                assert(self@.rows =~= rows.update(y - 1, rows[y - 1] + rows[y]).remove(y));
            }
        }
    }

    /// Puts a row holding `chars` in at row `at`; does nothing where `at`
    /// lies past the line after the last row.
    fn insert_row(&mut self, at: usize, chars: Vec<char>)
        requires
            old(self).rows_ok(),
        ensures
            final(self).rows_ok(),
            final(self)@.rows == if at <= old(self)@.rows.len() {
                old(self)@.rows.insert(at as int, chars@)
            } else {
                old(self)@.rows
            },
            final(self)@ == (EditorView { rows: final(self)@.rows, ..old(self)@ }),
    {
        if at > self.rows.len() {
            proof {
                assert(self@.rows =~= old(self)@.rows);
            }
            return ;
        }
        let row = Row::from_chars(chars, share(&self.syntax_re));
        self.rows.insert(at, row);
        proof {
            assert(self@.rows =~= old(self)@.rows.insert(at as int, chars@));
        }
    }

    /// Breaks the line at the cursor.
    pub fn insert_newline(&mut self)
        requires
            old(self).wf(),
        ensures
            final(self).wf(),
            final(self)@ == old(self)@.broken(),
    {
        self.dirty = true;
        let ghost rows = old(self)@.rows;
        assert(self.rows@.len() == rows.len());
        if self.cx == 0 || self.cy >= self.rows.len() {
            let cy = self.cy;
            self.insert_row(cy, Vec::new());
            assert(self@.rows.len() == rows.len() + 1);
        } else {
            let (cx, cy) = (self.cx, self.cy);
            let next_row = self.rows[cy].split_off(cx);
            proof {
                assert(self@.rows =~= rows.update(cy as int, rows[cy as int].take(cx as int)));
            }
            self.insert_row(cy + 1, next_row);
            assert(self@.rows.len() == rows.len() + 1);
        }
        let count: usize = self.rows.len();
        assert(count == self@.rows.len());
        self.cy += 1;
        self.cx = 0;
    }

    /// The buffer as one text: every row followed by a line feed.
    pub fn rows_to_string(&self) -> (text: String)
        ensures
            text@ == saved_text(self@.rows),
    {
        let mut buffer: Vec<char> = Vec::new();
        let mut i: usize = 0;
        while i < self.rows.len()
            invariant
                i <= self.rows.len(),
                buffer@ == saved_text(self@.rows.take(i as int)),
            decreases self.rows.len() - i,
        {
            let ghost before = buffer@;
            let chars = self.rows[i].raw_chars();
            append_range(&mut buffer, chars, 0, chars.len());
            buffer.push('\n');
            proof {
                let seen = self@.rows.take(i + 1);
                assert(seen.drop_last() =~= self@.rows.take(i as int));
                assert(seen.last() == chars@);
                assert(chars@.subrange(0, chars.len() as int) =~= chars@);
                assert(buffer@ =~= before + chars@.push('\n'));
            }
            i += 1;
        }
        proof {
            assert(self@.rows.take(self.rows.len() as int) =~= self@.rows);
        }
        string_of(&buffer)
    }

    /// Sets the status message, as of time `now`.
    pub fn set_status_message(&mut self, message: String, now: u64)
        ensures
            final(self)@ == old(self)@.with_message(message@, now as nat),
            old(self).wf() ==> final(self).wf(),
    {
        self.status_message = Some((message, now));
        proof {
            assert(self@.rows =~= old(self)@.rows);
        }
    }

    /// Takes up a file: its name, the rule table and the compiled profile
    /// of its type, and its lines where the file exists. Rows already in
    /// the buffer stay and are classified under the new profile; the lines
    /// follow them, and the cursor's column is clamped to its row. A
    /// missing file leaves the buffer as it is and is reported in the
    /// status message.
    pub fn read_file(
        &mut self,
        filename: &str,
        syntax: Syntax,
        profile: SyntaxRe,
        lines: Option<Vec<String>>,
        now: u64,
    )
        requires
            old(self).wf(),
        ensures
            final(self).wf(),
            final(self)@ == old(self)@.loaded(filename@, syntax.filetype@, profile, match lines {
                Some(lines) => Some(words(lines@)),
                None => None,
            }, now as nat),
    {
        self.filename = Some(filename.to_owned());
        self.syntax = syntax;
        self.syntax_re = Rc::new(profile);
        let mut i: usize = 0;
        while i < self.rows.len()
            invariant
                i <= self.rows.len(),
                self.rows@.len() == old(self).rows@.len(),
                self@ == (EditorView {
                    filename: Some(filename@),
                    filetype: syntax.filetype@,
                    profile,
                    ..old(self)@
                }),
                *self.syntax_re == profile,
                self.screenrows >= 1,
                self.screencols >= 1,
                1 <= self.quit_times <= QUIT_TIMES,
                forall|j: int| 0 <= j < i ==> (#[trigger] self.rows@[j]).wf() && self.rows@[j].profile() == profile,
            decreases self.rows.len() - i,
        {
            let ghost before = self@.rows;
            let handle = share(&self.syntax_re);
            self.rows[i].add_syntax(handle);
            proof {
                assert(self@.rows =~= before);
            }
            i += 1;
        }
        assert(self.wf());
        match lines {
            None => {
                let mut text = chars_of(filename);
                append_str(&mut text, " [New file]");
                self.set_status_message(string_of(&text), now);
                assert(self.wf());
            },
            Some(lines) => {
                let mut k: usize = 0;
                while k < lines.len()
                    invariant
                        k <= lines.len(),
                        self.rows_ok(),
                        *self.syntax_re == profile,
                        self.screenrows >= 1,
                        self.screencols >= 1,
                        1 <= self.quit_times <= QUIT_TIMES,
                        self@ == (EditorView {
                            filename: Some(filename@),
                            filetype: syntax.filetype@,
                            profile,
                            rows: old(self)@.rows + words(lines@).take(k as int),
                            ..old(self)@
                        }),
                    decreases lines.len() - k,
                {
                    let ghost before = self@.rows;
                    let row = Row::new(lines[k].as_str(), share(&self.syntax_re));
                    self.rows.push(row);
                    proof {
                        assert(self@.rows =~= before.push(lines@[k as int]@));
                        assert(words(lines@).take(k + 1) =~= words(lines@).take(k as int).push(lines@[k as int]@));
                        assert(self@.rows =~= old(self)@.rows + words(lines@).take(k + 1));
                    }
                    k += 1;
                }
                proof {
                    assert(words(lines@).take(lines.len() as int) =~= words(lines@));
                }
                if self.cy < self.rows.len() {
                    let length: usize = self.rows[self.cy].len();
                    if self.cx > length {
                        self.cx = length;
                    }
                }
                proof {
                    assert(self@.rows =~= old(self)@.rows + words(lines@));
                }
            },
        }
    }

    /// Whether a save has to ask for a file name first: there is none yet,
    /// or another one is wanted.
    pub fn needs_filename(&self, save_as: bool) -> (b: bool)
        ensures
            b == (save_as || self@.filename is None),
    {
        save_as || self.filename.is_none()
    }

    /// Takes the answer of the prompt for a file name; an abandoned prompt
    /// leaves the buffer without a name.
    pub fn set_filename(&mut self, name: Option<String>)
        ensures
            final(self)@ == (EditorView {
                filename: match name {
                    Some(text) => Some(text@),
                    None => None,
                },
                ..old(self)@
            }),
            old(self).wf() ==> final(self).wf(),
    {
        self.filename = name;
        proof {
            assert(self@.rows =~= old(self)@.rows);
        }
    }

    /// Records how a save went: `written` is the number of bytes written,
    /// or `None` where the file could not be written. Without a file name
    /// nothing was saved. Only a successful save clears the mark for
    /// unsaved changes.
    pub fn save(&mut self, written: Option<usize>, now: u64)
        ensures
            final(self)@ == old(self)@.save_recorded(written, now as nat),
            old(self).wf() ==> final(self).wf(),
    {
        let mut text: Vec<char> = Vec::new();
        match &self.filename {
            None => {
                append_str(&mut text, "Not saved :(");
            },
            Some(name) => {
                match written {
                    None => {
                        append_str(&mut text, "Can't save, I/O error");
                    },
                    Some(bytes) => {
                        append_decimal(&mut text, bytes as u128);
                        append_str(&mut text, " bytes written in \"");
                        append_str(&mut text, name.as_str());
                        append_str(&mut text, "\"");
                        self.dirty = false;
                    },
                }
            },
        }
        proof {
            assert(text@ =~= old(self)@.save_message(written));
        }
        self.set_status_message(string_of(&text), now);
    }

    /// Looks for `needle` in the rows after the cursor's, one round of the
    /// buffer, forwards or backwards.
    fn locate(&self, needle: &Vec<char>, forward: bool) -> (hit: Option<(usize, usize)>)
        requires
            self.wf(),
        ensures
            match hit {
                Some((row, column)) => {
                    &&& self@.first_hit(needle@, forward) matches Some(i)
                    &&& row == scan_row(self@.cy, self@.rows.len(), forward, i)
                    &&& row < self@.rows.len()
                    &&& first_index(self@.rows[row as int], needle@) == Some(column as int)
                    &&& column <= self@.rows[row as int].len()
                },
                None => self@.first_hit(needle@, forward) is None,
            },
    {
        let n: usize = self.rows.len();
        let ghost v = self@;
        let mut current: usize = self.cy;
        let mut i: usize = 0;
        while i < n
            invariant
                i <= n,
                n == self.rows.len(),
                n == v.rows.len(),
                v == self@,
                current <= n,
                i > 0 ==> current < n,
                current == scan_row(v.cy, n as nat, forward, i as nat),
                forall|j: nat| j <= i ==> !#[trigger] v.hit_at(needle@, forward, j),
            decreases n - i,
        {
            if forward {
                current = if n - current <= 1 {
                    0
                } else {
                    current + 1
                };
            } else {
                current = if current == 0 {
                    n - 1
                } else {
                    current - 1
                };
            }
            i += 1;
            assert(current == scan_row(v.cy, n as nat, forward, i as nat));
            let found = find_in(self.rows[current].raw_chars(), needle);
            proof {
                lemma_first_index(v.rows[current as int], needle@, found);
            }
            match found {
                Some(index) => {
                    proof {
                        assert(occurs_at(v.rows[current as int], needle@, index as int));
                        assert(v.hit_at(needle@, forward, i as nat));
                        lemma_first_hit(v, needle@, forward, i as nat);
                    }
                    return Some((current, index));
                },
                None => {
                    assert(!contains(v.rows[current as int], needle@));
                },
            }
        }
        None
    }

    /// One update of an incremental search for `query`, after `key`.
    /// Returns the row and column that the cursor went to, if there is a
    /// hit.
    pub fn find_callback(&mut self, query: &str, key: Key) -> (hit: Option<(usize, usize)>)
        requires
            old(self).wf(),
        ensures
            final(self).wf(),
            final(self)@ == old(self)@.searched(query@, key),
            match hit {
                Some((row, column)) => {
                    &&& old(self)@.searches(query@, key)
                    &&& old(self)@.first_hit(query@, key != Key::Up) is Some
                    &&& final(self)@.cy == row
                    &&& final(self)@.cx == column
                },
                None => !old(self)@.searches(query@, key) || old(self)@.first_hit(query@, key != Key::Up) is None,
            },
    {
        let needle = chars_of(query);
        self.search(&needle, key)
    }

    /// The start of a search: the position to come back to if the search is
    /// abandoned.
    pub fn find_begin(&self) -> (saved: Snapshot)
        ensures
            saved.cx == self@.cx,
            saved.cy == self@.cy,
            saved.coloff == self@.coloff,
            saved.rowoff == self@.rowoff,
    {
        Snapshot { cx: self.cx, cy: self.cy, coloff: self.coloff, rowoff: self.rowoff }
    }

    /// The end of a search: an accepted search keeps the position found, an
    /// abandoned one goes back to `saved`.
    pub fn find_end(&mut self, saved: Snapshot, accepted: bool)
        requires
            old(self).wf(),
        ensures
            final(self).wf(),
            final(self)@ == if accepted {
                old(self)@
            } else {
                old(self)@.restored(saved)
            },
    {
        if !accepted {
            let valid = saved.cy <= self.rows.len() && (saved.cy == self.rows.len() || saved.cx
                <= self.rows[saved.cy].len());
            if valid {
                self.cx = saved.cx;
                self.cy = saved.cy;
                self.coloff = saved.coloff;
                self.rowoff = saved.rowoff;
            }
            proof {
                assert(self@.rows =~= old(self)@.rows);
            }
        }
    }

    /// The left part of the status line.
    fn status_left(&self) -> (status: Vec<char>)
        ensures
            status@ == self@.status_left(),
    {
        let mut status: Vec<char> = Vec::new();
        self.mode.write_label(&mut status);
        append_str(&mut status, " ");
        match &self.filename {
            Some(name) => {
                append_str(&mut status, name.as_str());
            },
            None => {
                append_str(&mut status, "[None]");
            },
        }
        append_str(&mut status, " - ");
        append_decimal(&mut status, self.rows.len() as u128);
        append_str(&mut status, " lines ");
        let ghost head = status@;
        if self.dirty {
            append_str(&mut status, "(modified)");
        }
        proof {
            let name = match self@.filename {
                Some(name) => name,
                None => "[None]"@,
            };
            assert(head =~= self@.mode.label_text() + " "@ + name + " - "@ + decimal(self@.rows.len())
                + " lines "@);
            assert(status@ =~= self@.status_left());
        }
        status
    }

    /// The right part of the status line.
    fn status_right(&self) -> (status: Vec<char>)
        ensures
            status@ == self@.status_right(),
    {
        let mut status: Vec<char> = Vec::new();
        append_str(&mut status, "[");
        append_str(&mut status, self.syntax.filetype.as_str());
        append_str(&mut status, "] ");
        append_decimal(&mut status, self.cy as u128 + 1);
        append_str(&mut status, "/");
        append_decimal(&mut status, self.rows.len() as u128);
        append_str(&mut status, " ");
        proof {
            assert(status@ =~= self@.status_right());
        }
        status
    }

    /// Appends the status line to `buffer`.
    pub fn status_bar(&self, buffer: &mut Vec<char>)
        ensures
            final(buffer)@ == old(buffer)@ + self@.status_line(),
    {
        let status = self.status_left();
        let rstatus = self.status_right();
        let columns: usize = self.screencols as usize;
        let shown: usize = if status.len() > columns {
            columns
        } else {
            status.len()
        };
        let fits: bool = rstatus.len() <= columns - shown;
        let padding: usize = if rstatus.len() >= columns - shown + LABEL_OVERHEAD {
            0
        } else {
            columns - shown + LABEL_OVERHEAD - rstatus.len()
        };
        let ghost left = status@.take(shown as int);
        let ghost tail = if fits {
            rstatus@
        } else {
            Seq::empty()
        };
        append_str(buffer, style_invert());
        append_range(buffer, &status, 0, shown);
        proof {
            assert(status@.subrange(0, shown as int) =~= left);
        }
        append_repeat(buffer, ' ', padding);
        let ghost middle = buffer@;
        if fits {
            append_range(buffer, &rstatus, 0, rstatus.len());
            proof {
                assert(rstatus@.subrange(0, rstatus.len() as int) =~= rstatus@);
            }
        }
        proof {
            assert(buffer@ =~= middle + tail);
        }
        append_str(buffer, style_no_invert());
        append_str(buffer, "\r\n");
        proof {
            assert(buffer@ =~= old(buffer)@ + ("\x1b[7m"@ + left + repeat(' ', padding as nat) + tail
                + "\x1b[27m"@ + "\r\n"@));
        }
    }

    /// Appends the message line to `buffer`, as of time `now`.
    pub fn message_bar(&self, buffer: &mut Vec<char>, now: u64)
        ensures
            final(buffer)@ == old(buffer)@ + self@.message_line(now as nat),
    {
        match &self.status_message {
            Some((message, at)) => {
                if *at <= now && now - *at < MESSAGE_SECONDS {
                    let text = chars_of(message.as_str());
                    let columns: usize = self.screencols as usize;
                    let shown: usize = if text.len() > columns {
                        columns
                    } else {
                        text.len()
                    };
                    append_range(buffer, &text, 0, shown);
                    proof {
                        assert(text@.subrange(0, shown as int) =~= text@.take(shown as int));
                        assert(text@.take(text.len() as int) =~= text@);
                    }
                }
            },
            None => {},
        }
        proof {
            assert(buffer@ =~= old(buffer)@ + self@.message_line(now as nat));
        }
    }

    /// Appends the banner line of an empty buffer to `buffer`.
    fn welcome(&self, buffer: &mut Vec<char>)
        ensures
            final(buffer)@ == old(buffer)@ + self@.welcome_line(),
    {
        let banner = chars_of("Kilo editor for Rust -- version 0.0.1");
        let columns: usize = self.screencols as usize;
        let shown: usize = if banner.len() > columns {
            columns
        } else {
            banner.len()
        };
        let padding: usize = (columns - shown) / 2;
        if padding > 0 {
            buffer.push('~');
            append_repeat(buffer, ' ', padding - 1);
        }
        append_range(buffer, &banner, 0, shown);
        proof {
            assert(banner@.subrange(0, shown as int) =~= banner@.take(shown as int));
            assert(buffer@ =~= old(buffer)@ + self@.welcome_line());
        }
    }

    /// Appends screen line `y` of the text area to `buffer`.
    fn text_row(&self, buffer: &mut Vec<char>, y: usize)
        requires
            self.wf(),
        ensures
            final(buffer)@ == old(buffer)@ + self@.text_line(y as nat),
    {
        let count: usize = self.rows.len();
        if self.rowoff >= count || y >= count - self.rowoff {
            if count == 0 && y == self.screenrows as usize / 2 {
                self.welcome(buffer);
            } else {
                append_str(buffer, style_bold());
                buffer.push('~');
                append_str(buffer, style_reset());
            }
        } else {
            let row = &self.rows[y + self.rowoff];
            let length: usize = row.render_len();
            let columns: usize = self.screencols as usize;
            let width: usize = if length < self.coloff {
                0
            } else if length - self.coloff > columns {
                columns
            } else {
                length - self.coloff
            };
            if width > 0 {
                row.draw(buffer, self.coloff, width);
            }
        }
        append_str(buffer, "\r\n");
        proof {
            assert(buffer@ =~= old(buffer)@ + self@.text_line(y as nat));
        }
    }

    /// Composes one frame, as of time `now`, after bringing the viewport to
    /// the cursor.
    pub fn draw(&mut self, now: u64) -> (frame: String)
        requires
            old(self).wf(),
        ensures
            final(self).wf(),
            final(self)@ == old(self)@.scrolled(),
            final(self)@.cursor_visible(),
            frame@ == final(self)@.frame(now as nat),
    {
        self.scroll_cursor();
        let mut buffer: Vec<char> = Vec::new();
        let lines: usize = self.screenrows as usize;
        let mut y: usize = 0;
        while y < lines
            invariant
                y <= lines,
                lines == self.screenrows,
                self.wf(),
                buffer@ == self@.text_lines(y as nat),
            decreases lines - y,
        {
            self.text_row(&mut buffer, y);
            y += 1;
        }
        self.status_bar(&mut buffer);
        self.message_bar(&mut buffer, now);
        let x: u16 = (self.rx - self.coloff + 1) as u16;
        let line: u16 = (self.cy - self.rowoff + 1) as u16;
        let place = cursor_goto(x, line);
        append_str(&mut buffer, place.as_str());
        string_of(&buffer)
    }

    /// Shows a prompt: the status message becomes `message` followed by the
    /// input so far.
    pub fn prompt_message(&mut self, message: &str, input: &Vec<char>, now: u64)
        ensures
            final(self)@ == old(self)@.with_message(message@ + input@, now as nat),
            old(self).wf() ==> final(self).wf(),
    {
        let mut text = chars_of(message);
        append_range(&mut text, input, 0, input.len());
        proof {
            assert(input@.subrange(0, input.len() as int) =~= input@);
        }
        self.set_status_message(string_of(&text), now);
    }

    /// One update of an incremental search for `needle`, after `key`.
    fn search(&mut self, needle: &Vec<char>, key: Key) -> (hit: Option<(usize, usize)>)
        requires
            old(self).wf(),
        ensures
            final(self).wf(),
            final(self)@ == old(self)@.searched(needle@, key),
            match hit {
                Some((row, column)) => {
                    &&& old(self)@.searches(needle@, key)
                    &&& old(self)@.first_hit(needle@, key != Key::Up) is Some
                    &&& final(self)@.cy == row
                    &&& final(self)@.cx == column
                },
                None => !old(self)@.searches(needle@, key) || old(self)@.first_hit(needle@, key != Key::Up) is None,
            },
    {
        if key == Key::Char('\n') || key == Key::Esc {
            return None;
        }
        let forward = key != Key::Up;
        if needle.len() == 0 {
            return None;
        }
        let hit = self.locate(needle, forward);
        match hit {
            Some((row, column)) => {
                self.cy = row;
                self.cx = column;
                self.rowoff = self.rows.len();
                proof {
                    assert(self@.rows =~= old(self)@.rows);
                }
            },
            None => {},
        }
        hit
    }

    /// Handles one key of a prompt. Backspace and delete drop the last
    /// character of the input, a character is added to it, escape abandons
    /// the prompt, and a line feed accepts an input that is not empty. A
    /// search prompt updates its search after every key that goes on.
    pub fn prompt(&mut self, input: &mut Vec<char>, key: Key, search: bool, now: u64) -> (step: PromptStep)
        requires
            old(self).wf(),
        ensures
            final(self).wf(),
            (final(self)@, final(input)@, step) == old(self)@.prompted(old(input)@, key, search, now as nat),
    {
        if key == Key::Delete || key == Key::Backspace {
            input.pop();
            proof {
                assert(input@ =~= if old(input)@.len() > 0 {
                    old(input)@.drop_last()
                } else {
                    old(input)@
                });
            }
        } else if key == Key::Esc {
            self.set_status_message(String::new(), now);
            return PromptStep::Cancel;
        } else {
            match key {
                Key::Char(c) => {
                    if c == '\n' {
                        if input.len() != 0 {
                            self.set_status_message(String::new(), now);
                            return PromptStep::Accept;
                        }
                    } else {
                        input.push(c);
                    }
                },
                _ => {},
            }
        }
        if search {
            self.search(input, key);
        }
        PromptStep::Continue
    }

    /// Handles one key of the editing loop, as of time `now`, and says what
    /// the loop does next.
    pub fn process_keypress(&mut self, key: Key, now: u64) -> (step: Step)
        requires
            old(self).wf(),
        ensures
            final(self).wf(),
            (final(self)@, step) == old(self)@.pressed(key, now as nat),
    {
        if key == Key::Ctrl('q') {
            if self.dirty && self.quit_times > 1 {
                let mut text: Vec<char> = Vec::new();
                append_str(&mut text, "WARNING!!! file has unsaved changes. Press Ctrl-Q ");
                append_decimal(&mut text, (self.quit_times - 1) as u128);
                append_str(&mut text, " more times to quit");
                proof {
                    assert(text@ =~= quit_warning_text((self@.quit_times - 1) as nat));
                }
                self.set_status_message(string_of(&text), now);
                self.quit_times -= 1;
                proof {
                    assert(self@.rows =~= old(self)@.rows);
                }
                return Step::Continue;
            } else {
                return Step::Quit;
            }
        }
        let mut step = Step::Continue;
        match key {
            Key::Ctrl(c) => {
                if c == 's' {
                    step = Step::Save;
                } else if c == 'f' {
                    step = Step::Find;
                } else if c == 'h' {
                    self.delete_char();
                }
            },
            Key::Char(c) => {
                if c == '\n' {
                    self.insert_newline();
                } else if c == '\t' {
                    let mut typed: usize = 0;
                    while typed < TAB_SPACES
                        invariant
                            typed <= TAB_SPACES,
                            self.wf(),
                            self@ == old(self)@.spaced(typed as nat),
                        decreases TAB_SPACES - typed,
                    {
                        self.insert_char(' ');
                        typed += 1;
                    }
                } else {
                    self.insert_char(c);
                }
            },
            Key::Backspace => {
                self.delete_char();
            },
            Key::Delete => {
                self.move_cursor(Key::Right);
                self.delete_char();
            },
            Key::Up => {
                self.move_cursor(key);
            },
            Key::Down => {
                self.move_cursor(key);
            },
            Key::Left => {
                self.move_cursor(key);
            },
            Key::Right => {
                self.move_cursor(key);
            },
            _ => {},
        }
        let ghost after = self@;
        self.quit_times = QUIT_TIMES;
        proof {
            assert(self@.rows =~= after.rows);
        }
        step
    }

    /// The cursor: raw column and row.
    pub fn cursor(&self) -> (at: (usize, usize))
        ensures
            at.0 == self@.cx,
            at.1 == self@.cy,
    {
        (self.cx, self.cy)
    }

    /// The viewport: first row and first render column shown.
    pub fn offsets(&self) -> (at: (usize, usize))
        ensures
            at.0 == self@.rowoff,
            at.1 == self@.coloff,
    {
        (self.rowoff, self.coloff)
    }

    /// The render column of the cursor, as last computed.
    pub fn rx(&self) -> (rx: usize)
        ensures
            rx == self@.rx,
    {
        self.rx
    }

    /// The number of rows.
    pub fn row_count(&self) -> (n: usize)
        ensures
            n == self@.rows.len(),
    {
        self.rows.len()
    }

    /// Row `i`, where there is one.
    pub fn row(&self, i: usize) -> (row: Option<&Row>)
        requires
            self.wf(),
        ensures
            match row {
                Some(row) => i < self@.rows.len() && row@ == self@.rows[i as int] && row.wf()
                    && row.profile() == self@.profile,
                None => i >= self@.rows.len(),
            },
    {
        if i < self.rows.len() {
            Some(&self.rows[i])
        } else {
            None
        }
    }

    /// Whether the buffer has unsaved changes.
    pub fn is_dirty(&self) -> (dirty: bool)
        ensures
            dirty == self@.dirty,
    {
        self.dirty
    }

    /// The remaining presses of the quit key.
    pub fn quit_times(&self) -> (left: u16)
        ensures
            left == self@.quit_times,
    {
        self.quit_times
    }

    /// The editing mode.
    pub fn mode(&self) -> (mode: Mode)
        ensures
            mode == self@.mode,
    {
        self.mode
    }

    /// The file name, where the buffer has one.
    pub fn filename(&self) -> (name: Option<String>)
        ensures
            match name {
                Some(text) => self@.filename == Some(text@),
                None => self@.filename is None,
            },
    {
        match &self.filename {
            Some(name) => Some(name.clone()),
            None => None,
        }
    }

    /// The status message and the time it was set at, where there is one.
    pub fn status_message(&self) -> (message: Option<(String, u64)>)
        ensures
            match message {
                Some((text, at)) => self@.message == Some((text@, at as nat)),
                None => self@.message is None,
            },
    {
        match &self.status_message {
            Some((text, at)) => Some((text.clone(), *at)),
            None => None,
        }
    }
}

impl Mode {
    /// Hands a key to the handler of this mode. No mode acts on a key: the
    /// editing loop handles every key itself, whatever the mode.
    pub fn process_keypress(&mut self, editor: &mut Editor, key: Key)
        ensures
            *final(self) == *old(self),
            *final(editor) == *old(editor),
    {
        match *self {
            Mode::Insert => self.insert(editor, key),
            Mode::Normal => self.normal(editor, key),
            Mode::Visual => self.visual(editor, key),
        }
    }

    /// The handler of normal mode; it leaves everything as it is.
    pub fn normal(&mut self, editor: &mut Editor, key: Key)
        ensures
            *final(self) == *old(self),
            *final(editor) == *old(editor),
    {
    }

    /// The handler of insert mode; it leaves everything as it is.
    pub fn insert(&mut self, editor: &mut Editor, key: Key)
        ensures
            *final(self) == *old(self),
            *final(editor) == *old(editor),
    {
    }

    /// The handler of visual mode; it leaves everything as it is.
    pub fn visual(&mut self, editor: &mut Editor, key: Key)
        ensures
            *final(self) == *old(self),
            *final(editor) == *old(editor),
    {
    }
}

} // verus!
