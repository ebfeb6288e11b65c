//! The mathematical model of the editor: its state as plain values, and what
//! each operation makes of it.

use vstd::prelude::*;
use crate::escape::goto_text;
use crate::input::{Key, Mode};
use crate::row::{deleted, deleted_count, drawn, insert_position, inserted, render_column, render_of};
use crate::row::TAB_SPACES;
use crate::syntax::{highlight_of, SyntaxRe};
use crate::text::{decimal, first_index, is_leftmost, lemma_leftmost_exists, occurs_at, repeat};

verus! {

/// How often the quit key must be pressed in a row to leave with unsaved
/// changes.
pub const QUIT_TIMES: u16 = 2;

/// The age, in seconds, from which a status message is no longer shown.
pub const MESSAGE_SECONDS: u64 = 5;

/// The mathematical model of the editor state.
pub struct EditorView {
    /// Raw column of the cursor.
    pub cx: nat,
    /// Row of the cursor; equal to the number of rows when the cursor stands
    /// past the last line.
    pub cy: nat,
    /// Render column of the cursor, as last computed.
    pub rx: nat,
    /// First row shown.
    pub rowoff: nat,
    /// First render column shown.
    pub coloff: nat,
    /// Number of text rows on screen.
    pub screenrows: nat,
    /// Number of columns on screen.
    pub screencols: nat,
    /// Raw content of every row.
    pub rows: Seq<Seq<char>>,
    /// The compiled profile that every row is classified under.
    pub profile: SyntaxRe,
    pub mode: Mode,
    /// Whether the buffer has unsaved changes.
    pub dirty: bool,
    /// Presses of the quit key still owed before unsaved changes are given
    /// up.
    pub quit_times: nat,
    pub filename: Option<Seq<char>>,
    /// The label of the file type.
    pub filetype: Seq<char>,
    /// The status message and the time it was set at.
    pub message: Option<(Seq<char>, nat)>,
}

impl EditorView {
    /// The cursor addresses a position of the buffer: a row or the line past
    /// the last one, and within a row a column of it or its end.
    pub open spec fn cursor_ok(self) -> bool {
        &&& self.cy <= self.rows.len()
        &&& self.cy < self.rows.len() ==> self.cx <= self.rows[self.cy as int].len()
    }

    /// The cursor is inside the viewport.
    pub open spec fn cursor_visible(self) -> bool {
        &&& self.rowoff <= self.cy < self.rowoff + self.screenrows
        &&& self.coloff <= self.rx < self.coloff + self.screencols
    }

    /// The length of row `y`, or zero where there is no such row.
    pub open spec fn row_len(self, y: nat) -> nat {
        if y < self.rows.len() {
            self.rows[y as int].len()
        } else {
            0
        }
    }

    /// `cx` clamped to the length of row `cy`, where that is a row.
    pub open spec fn clamped_cx(self, cx: nat, cy: nat) -> nat {
        if cy < self.rows.len() && cx > self.rows[cy as int].len() {
            self.rows[cy as int].len()
        } else {
            cx
        }
    }

    /// The state after a directional key: left and right move by one column
    /// within the row, up and down by one row within the buffer and the
    /// line past it, and the column is then clamped to the new row.
    pub open spec fn moved(self, key: Key) -> EditorView {
        let cy: nat = match key {
            Key::Down => if self.cy < self.rows.len() {
                self.cy + 1
            } else {
                self.cy
            },
            Key::Up => if self.cy > 0 {
                (self.cy - 1) as nat
            } else {
                self.cy
            },
            _ => self.cy,
        };
        let cx: nat = match key {
            Key::Right => if self.cx < self.row_len(self.cy) {
                self.cx + 1
            } else {
                self.cx
            },
            Key::Left => if self.cx > 0 {
                (self.cx - 1) as nat
            } else {
                self.cx
            },
            _ => self.cx,
        };
        EditorView { cx: self.clamped_cx(cx, cy), cy, ..self }
    }

    /// The state after the viewport adjustment: the render column is
    /// computed from the cursor, and each offset moves by just what brings
    /// the cursor back into view.
    pub open spec fn scrolled(self) -> EditorView {
        let rx = if self.cy < self.rows.len() {
            render_column(self.rows[self.cy as int], self.cx)
        } else {
            0
        };
        let rowoff = if self.cy < self.rowoff {
            self.cy
        } else if self.cy >= self.rowoff + self.screenrows {
            (self.cy - self.screenrows + 1) as nat
        } else {
            self.rowoff
        };
        let coloff = if rx < self.coloff {
            rx
        } else if rx >= self.coloff + self.screencols {
            (rx - self.screencols + 1) as nat
        } else {
            self.coloff
        };
        EditorView { rx, rowoff, coloff, ..self }
    }

    /// The state after typing `c`: with the cursor past the last line an
    /// empty row is appended first; `c` goes in at the cursor, and the
    /// cursor stands behind it.
    pub open spec fn typed(self, c: char) -> EditorView {
        let rows = if self.cy == self.rows.len() {
            self.rows.push(Seq::empty())
        } else {
            self.rows
        };
        let row = rows[self.cy as int];
        EditorView {
            rows: rows.update(self.cy as int, inserted(row, self.cx, c)),
            cx: insert_position(row, self.cx) + 1,
            dirty: true,
            ..self
        }
    }

    /// The state after a backspace: nothing changes past the last line or at
    /// the start of the buffer; inside a row the deletion before the cursor
    /// takes place and the cursor moves left by what was removed; at the
    /// start of a row that row is joined to the end of the one above.
    pub open spec fn erased(self) -> EditorView {
        if self.cy >= self.rows.len() || (self.cx == 0 && self.cy == 0) {
            self
        } else if self.cx > 0 {
            let row = self.rows[self.cy as int];
            let at = (self.cx - 1) as nat;
            EditorView {
                rows: self.rows.update(self.cy as int, deleted(row, at)),
                cx: (self.cx - deleted_count(row, at)) as nat,
                dirty: true,
                ..self
            }
        } else {
            let above = self.rows[self.cy - 1];
            EditorView {
                rows: self.rows.update(self.cy - 1, above + self.rows[self.cy as int]).remove(self.cy as int),
                cx: above.len(),
                cy: (self.cy - 1) as nat,
                dirty: true,
                ..self
            }
        }
    }

    /// The state after a line break: at the start of a row, or past the last
    /// line, an empty row is put in at the cursor's row; elsewhere the row
    /// is cut at the cursor and what followed becomes the next row. The
    /// cursor goes to the start of the next row.
    pub open spec fn broken(self) -> EditorView {
        let rows = if self.cx == 0 || self.cy >= self.rows.len() {
            self.rows.insert(self.cy as int, Seq::empty())
        } else {
            let row = self.rows[self.cy as int];
            self.rows.update(self.cy as int, row.take(self.cx as int)).insert(
                (self.cy + 1) as int,
                row.skip(self.cx as int),
            )
        };
        EditorView { rows, cx: 0, cy: self.cy + 1, dirty: true, ..self }
    }
}

/// After the viewport adjustment the cursor is inside the viewport. The
/// adjustment is minimal: an offset stays where the cursor was in view
/// already, and otherwise moves just far enough to put the cursor on the
/// first or the last line, or column, shown. Adjusting twice is adjusting
/// once.
pub proof fn lemma_scrolled_visible(v: EditorView)
    requires
        v.screenrows >= 1,
        v.screencols >= 1,
    ensures
        v.scrolled().cursor_visible(),
        v.rowoff <= v.cy < v.rowoff + v.screenrows ==> v.scrolled().rowoff == v.rowoff,
        v.cy < v.rowoff ==> v.scrolled().rowoff == v.cy,
        v.cy >= v.rowoff + v.screenrows ==> v.scrolled().rowoff + v.screenrows - 1 == v.cy,
        v.coloff <= v.scrolled().rx < v.coloff + v.screencols ==> v.scrolled().coloff == v.coloff,
        v.scrolled().rx < v.coloff ==> v.scrolled().coloff == v.scrolled().rx,
        v.scrolled().rx >= v.coloff + v.screencols ==> v.scrolled().coloff + v.screencols - 1
            == v.scrolled().rx,
        v.scrolled().scrolled() == v.scrolled(),
{
}

/// The row that a search visits after row `current` of `n`: the next one,
/// or the previous one when searching backwards, wrapping round the ends.
pub open spec fn step_row(current: nat, n: nat, forward: bool) -> nat {
    if forward {
        if current + 1 >= n {
            0
        } else {
            current + 1
        }
    } else {
        if current == 0 {
            (n - 1) as nat
        } else {
            (current - 1) as nat
        }
    }
}

/// The row that a search from row `start` visits at step `i`.
pub open spec fn scan_row(start: nat, n: nat, forward: bool, i: nat) -> nat
    decreases i,
{
    if i == 0 {
        start
    } else {
        step_row(scan_row(start, n, forward, (i - 1) as nat), n, forward)
    }
}

/// Whether `needle` occurs somewhere in `hay`.
pub open spec fn contains(hay: Seq<char>, needle: Seq<char>) -> bool {
    exists|k: int| occurs_at(hay, needle, k)
}

/// The position of the cursor and of the viewport.
pub struct Snapshot {
    pub cx: usize,
    pub cy: usize,
    pub coloff: usize,
    pub rowoff: usize,
}

/// What a key makes the editing loop do next.
#[derive(Clone, Copy, Debug, PartialEq, Eq, Structural)]
pub enum Step {
    /// Go on with the next key.
    Continue,
    /// Write the buffer out, then go on.
    Save,
    /// Run a search prompt, then go on.
    Find,
    /// Leave the editor.
    Quit,
}

/// What a key makes a prompt do next.
#[derive(Clone, Copy, Debug, PartialEq, Eq, Structural)]
pub enum PromptStep {
    /// Go on with the next key.
    Continue,
    /// The input is accepted.
    Accept,
    /// The prompt is abandoned.
    Cancel,
}

/// The banner of an empty buffer.
pub open spec fn welcome_text() -> Seq<char> {
    "Kilo editor for Rust -- version 0.0.1"@
}

/// The text of the warning about unsaved changes, with `left` presses of
/// the quit key to go.
pub open spec fn quit_warning_text(left: nat) -> Seq<char> {
    "WARNING!!! file has unsaved changes. Press Ctrl-Q "@ + decimal(left) + " more times to quit"@
}

/// The number of characters of a mode label that take no room on screen:
/// its two colour directives.
pub const LABEL_OVERHEAD: usize = 14;

/// A buffer as one text: every row followed by a line feed.
pub open spec fn saved_text(rows: Seq<Seq<char>>) -> Seq<char>
    decreases rows.len(),
{
    if rows.len() == 0 {
        Seq::empty()
    } else {
        saved_text(rows.drop_last()) + rows.last().push('\n')
    }
}

impl EditorView {
    /// Whether step `i` of a search for `query` from the cursor's row is
    /// within one round of the buffer and visits a row that holds `query`.
    pub open spec fn hit_at(self, query: Seq<char>, forward: bool, i: nat) -> bool {
        1 <= i <= self.rows.len() && contains(
            self.rows[scan_row(self.cy, self.rows.len(), forward, i) as int],
            query,
        )
    }

    /// Whether step `i` is the first at which a search for `query` visits a
    /// row that holds it.
    pub open spec fn first_hit_at(self, query: Seq<char>, forward: bool, i: nat) -> bool {
        self.hit_at(query, forward, i) && forall|j: nat| j < i ==> !#[trigger] self.hit_at(query, forward, j)
    }

    /// The first step of a search for `query` from the cursor's row at
    /// which the row visited holds `query`, within one round of the buffer.
    pub open spec fn first_hit(self, query: Seq<char>, forward: bool) -> Option<nat> {
        if exists|i: nat| self.hit_at(query, forward, i) {
            Some(choose|i: nat| self.first_hit_at(query, forward, i))
        } else {
            None
        }
    }

    /// Whether an update of an incremental search looks through the rows:
    /// not after a key that ends the prompt, and not for an empty query.
    pub open spec fn searches(self, query: Seq<char>, key: Key) -> bool {
        key != Key::Char('\n') && key != Key::Esc && query.len() > 0
    }

    /// The state after one update of an incremental search: the keys that
    /// end a prompt and an empty query change nothing; otherwise the rows
    /// are visited one round from the row after the cursor's, backwards for
    /// the up key, and the cursor goes to the leftmost occurrence in the
    /// first row that holds the query. The row offset is then set past the
    /// buffer, so that the next viewport adjustment shows the hit in the
    /// first line. Without a hit nothing changes.
    pub open spec fn searched(self, query: Seq<char>, key: Key) -> EditorView {
        if !self.searches(query, key) {
            self
        } else {
            let forward = key != Key::Up;
            match self.first_hit(query, forward) {
                Some(i) => {
                    let row = scan_row(self.cy, self.rows.len(), forward, i);
                    EditorView {
                        cy: row,
                        cx: first_index(self.rows[row as int], query).unwrap() as nat,
                        rowoff: self.rows.len(),
                        ..self
                    }
                },
                None => self,
            }
        }
    }

    /// The state with the cursor and the viewport put back to `saved`, where
    /// `saved` addresses a position of the buffer; unchanged otherwise.
    pub open spec fn restored(self, saved: Snapshot) -> EditorView {
        let back = EditorView {
            cx: saved.cx as nat,
            cy: saved.cy as nat,
            coloff: saved.coloff as nat,
            rowoff: saved.rowoff as nat,
            ..self
        };
        if back.cursor_ok() {
            back
        } else {
            self
        }
    }

    /// The state after a file is taken up: its name, the label and the
    /// profile of its type; its lines behind the rows already there, with
    /// the cursor's column clamped to its row; or, for a missing file, a
    /// status message that says so.
    pub open spec fn loaded(
        self,
        filename: Seq<char>,
        filetype: Seq<char>,
        profile: SyntaxRe,
        lines: Option<Seq<Seq<char>>>,
        now: nat,
    ) -> EditorView {
        let named = EditorView { filename: Some(filename), filetype, profile, ..self };
        match lines {
            Some(lines) => {
                let filled = EditorView { rows: self.rows + lines, ..named };
                EditorView { cx: filled.clamped_cx(self.cx, self.cy), ..filled }
            },
            None => named.with_message(filename + " [New file]"@, now),
        }
    }

    /// The state, the input and the next step after one key of a prompt.
    /// `search` says whether the prompt is a search prompt, which updates
    /// its search after every key that goes on.
    pub open spec fn prompted(self, input: Seq<char>, key: Key, search: bool, now: nat) -> (
        EditorView,
        Seq<char>,
        PromptStep,
    ) {
        if key == Key::Esc {
            (self.with_message(Seq::empty(), now), input, PromptStep::Cancel)
        } else if key == Key::Char('\n') && input.len() > 0 {
            (self.with_message(Seq::empty(), now), input, PromptStep::Accept)
        } else {
            let next = match key {
                Key::Delete => if input.len() > 0 {
                    input.drop_last()
                } else {
                    input
                },
                Key::Backspace => if input.len() > 0 {
                    input.drop_last()
                } else {
                    input
                },
                Key::Char(c) => if c == '\n' {
                    input
                } else {
                    input.push(c)
                },
                _ => input,
            };
            let after = if search {
                self.searched(next, key)
            } else {
                self
            };
            (after, next, PromptStep::Continue)
        }
    }

    /// The state with `text` as the status message, set at time `now`.
    pub open spec fn with_message(self, text: Seq<char>, now: nat) -> EditorView {
        EditorView { message: Some((text, now)), ..self }
    }

    /// The message that reports how a save went: that nothing was saved for
    /// want of a file name, that writing failed, or the number of bytes
    /// written and the file name.
    pub open spec fn save_message(self, written: Option<usize>) -> Seq<char> {
        match self.filename {
            None => "Not saved :("@,
            Some(name) => match written {
                None => "Can't save, I/O error"@,
                Some(bytes) => decimal(bytes as nat) + " bytes written in \""@ + name + "\""@,
            },
        }
    }

    /// The state after a save: the report is the status message, and a
    /// successful save clears the mark for unsaved changes.
    pub open spec fn save_recorded(self, written: Option<usize>, now: nat) -> EditorView {
        EditorView {
            dirty: self.dirty && !(self.filename is Some && written is Some),
            ..self.with_message(self.save_message(written), now)
        }
    }

    /// The state after `n` spaces are typed.
    pub open spec fn spaced(self, n: nat) -> EditorView
        decreases n,
    {
        if n == 0 {
            self
        } else {
            self.spaced((n - 1) as nat).typed(' ')
        }
    }

    /// The state after a tab key: one indentation step of spaces is typed.
    pub open spec fn indented(self) -> EditorView {
        self.spaced(TAB_SPACES as nat)
    }

    /// The state and the next step after a key in the editing loop.
    ///
    /// The quit key leaves at once where nothing is unsaved or only this
    /// press was still owed; otherwise it warns, names the presses still
    /// owed, and counts down. Every other key sets the counter back. The save and find keys hand the work to the loop.
    /// A line feed breaks the line, a tab indents, another character is
    /// typed. Backspace and control-H erase before the cursor; delete steps
    /// right first. The directional keys move the cursor.
    pub open spec fn pressed(self, key: Key, now: nat) -> (EditorView, Step) {
        if key == Key::Ctrl('q') {
            if self.dirty && self.quit_times > 1 {
                (
                    EditorView {
                        quit_times: (self.quit_times - 1) as nat,
                        ..self.with_message(quit_warning_text((self.quit_times - 1) as nat), now)
                    },
                    Step::Continue,
                )
            } else {
                (self, Step::Quit)
            }
        } else {
            let (after, step) = match key {
                Key::Ctrl('s') => (self, Step::Save),
                Key::Ctrl('f') => (self, Step::Find),
                Key::Char('\n') => (self.broken(), Step::Continue),
                Key::Char('\t') => (self.indented(), Step::Continue),
                Key::Char(c) => (self.typed(c), Step::Continue),
                Key::Backspace => (self.erased(), Step::Continue),
                Key::Ctrl('h') => (self.erased(), Step::Continue),
                Key::Delete => (self.moved(Key::Right).erased(), Step::Continue),
                Key::Up => (self.moved(key), Step::Continue),
                Key::Down => (self.moved(key), Step::Continue),
                Key::Left => (self.moved(key), Step::Continue),
                Key::Right => (self.moved(key), Step::Continue),
                _ => (self, Step::Continue),
            };
            (EditorView { quit_times: QUIT_TIMES as nat, ..after }, step)
        }
    }

    /// The left part of the status line: the mode, the file name or a
    /// placeholder, the number of rows, and a mark for unsaved changes.
    pub open spec fn status_left(self) -> Seq<char> {
        let name = match self.filename {
            Some(name) => name,
            None => "[None]"@,
        };
        let mark = if self.dirty {
            "(modified)"@
        } else {
            Seq::empty()
        };
        self.mode.label_text() + " "@ + name + " - "@ + decimal(self.rows.len()) + " lines "@ + mark
    }

    /// The right part of the status line: the file type and the cursor's
    /// row, counted from one, out of the number of rows.
    pub open spec fn status_right(self) -> Seq<char> {
        "["@ + self.filetype + "] "@ + decimal(self.cy + 1) + "/"@ + decimal(self.rows.len()) + " "@
    }

    /// The status line: in inverted colours, the left part cut to the
    /// screen width, padding, and the right part where both parts fit.
    pub open spec fn status_line(self) -> Seq<char> {
        let left = self.status_left();
        let right = self.status_right();
        let shown: nat = if left.len() > self.screencols {
            self.screencols
        } else {
            left.len()
        };
        let room: int = self.screencols - shown - right.len();
        let padding: nat = if room + LABEL_OVERHEAD > 0 {
            (room + LABEL_OVERHEAD) as nat
        } else {
            0
        };
        let tail = if room >= 0 {
            right
        } else {
            Seq::empty()
        };
        "\x1b[7m"@ + left.take(shown as int) + repeat(' ', padding) + tail + "\x1b[27m"@ + "\r\n"@
    }

    /// Whether the status message is shown at time `now`: it is, for
    /// `MESSAGE_SECONDS` from the time it was set at.
    pub open spec fn message_shown(self, now: nat) -> bool {
        self.message matches Some((text, at)) && at <= now < at + MESSAGE_SECONDS
    }

    /// The message line: the status message cut to the screen width while
    /// it is shown, and nothing afterwards.
    pub open spec fn message_line(self, now: nat) -> Seq<char> {
        if self.message_shown(now) {
            let text = self.message.unwrap().0;
            if text.len() > self.screencols {
                text.take(self.screencols as int)
            } else {
                text
            }
        } else {
            Seq::empty()
        }
    }

    /// The banner line of an empty buffer: the banner, cut to the screen
    /// width, centred by padding whose first character is a tilde.
    pub open spec fn welcome_line(self) -> Seq<char> {
        let banner = welcome_text();
        let shown: nat = if banner.len() > self.screencols {
            self.screencols
        } else {
            banner.len()
        };
        let padding: nat = ((self.screencols - shown) / 2) as nat;
        if padding > 0 {
            seq!['~'] + repeat(' ', (padding - 1) as nat) + banner.take(shown as int)
        } else {
            banner.take(shown as int)
        }
    }

    /// Screen line `y` of the text area, with its line end: the visible part
    /// of the buffer row shown there, with its colours; or the banner, in
    /// the centre line of an empty buffer; or a tilde in bold.
    pub open spec fn text_line(self, y: nat) -> Seq<char> {
        let file_row = y + self.rowoff;
        let content = if file_row >= self.rows.len() {
            if self.rows.len() == 0 && y == self.screenrows / 2 {
                self.welcome_line()
            } else {
                "\x1b[1m"@ + seq!['~'] + "\x1b[m"@
            }
        } else {
            let render = render_of(self.rows[file_row as int]);
            let width: nat = if render.len() < self.coloff {
                0
            } else if render.len() - self.coloff > self.screencols {
                self.screencols
            } else {
                (render.len() - self.coloff) as nat
            };
            if width > 0 {
                drawn(render, highlight_of(self.profile, render), self.coloff, width)
            } else {
                Seq::empty()
            }
        };
        content + "\r\n"@
    }

    /// The first `count` screen lines of the text area.
    pub open spec fn text_lines(self, count: nat) -> Seq<char>
        decreases count,
    {
        if count == 0 {
            Seq::empty()
        } else {
            self.text_lines((count - 1) as nat) + self.text_line((count - 1) as nat)
        }
    }

    /// One full frame: the text area, the status line, the message line,
    /// and the directive that places the cursor, counted from one within
    /// the viewport.
    pub open spec fn frame(self, now: nat) -> Seq<char> {
        self.text_lines(self.screenrows) + self.status_line() + self.message_line(now) + goto_text(
            (self.rx - self.coloff + 1) as nat,
            (self.cy - self.rowoff + 1) as nat,
        )
    }
}

/// A step that is the first hit of a search is what `first_hit` gives.
pub proof fn lemma_first_hit(v: EditorView, query: Seq<char>, forward: bool, i: nat)
    requires
        v.first_hit_at(query, forward, i),
    ensures
        v.first_hit(query, forward) == Some(i),
{
    let least = choose|l: nat| v.first_hit_at(query, forward, l);
    if least < i {
        assert(!v.hit_at(query, forward, least));
    }
    if i < least {
        assert(!v.hit_at(query, forward, i));
    }
}

/// Where a search has a hit, it has a first one, no later than any hit.
pub proof fn lemma_first_hit_exists(v: EditorView, query: Seq<char>, forward: bool, i: nat)
    requires
        v.hit_at(query, forward, i),
    ensures
        v.first_hit(query, forward) matches Some(l) && l <= i && v.first_hit_at(query, forward, l),
    decreases i,
{
    if exists|j: nat| j < i && v.hit_at(query, forward, j) {
        let j = choose|j: nat| j < i && v.hit_at(query, forward, j);
        lemma_first_hit_exists(v, query, forward, j);
    } else {
        assert(v.first_hit_at(query, forward, i));
        lemma_first_hit(v, query, forward, i);
    }
}

/// Leaving with unsaved changes takes the quit key `QUIT_TIMES` times in a
/// row: from a full counter the first press warns and the second leaves.
/// Without unsaved changes the first press leaves. Any other key in between
/// sets the counter back, so that the next press of the quit key warns again.
pub proof fn lemma_quit_protocol(v: EditorView, other: Key, now: nat)
    requires
        v.quit_times == QUIT_TIMES,
        other != Key::Ctrl('q'),
    ensures
        !v.dirty ==> v.pressed(Key::Ctrl('q'), now) == (v, Step::Quit),
        v.dirty ==> {
            let first = v.pressed(Key::Ctrl('q'), now);
            &&& first.1 == Step::Continue
            &&& first.0.message == Some((quit_warning_text(1), now))
            &&& first.0.pressed(Key::Ctrl('q'), now) == (first.0, Step::Quit)
            &&& first.0.pressed(other, now).0.quit_times == QUIT_TIMES
        },
{
}

/// A search over an empty buffer changes nothing.
pub proof fn lemma_search_empty_buffer(v: EditorView, query: Seq<char>, key: Key)
    requires
        v.rows.len() == 0,
    ensures
        v.searched(query, key) == v,
{
}

/// Every editing operation keeps the cursor at a position of the buffer.
pub proof fn lemma_cursor_stays_ok(v: EditorView, key: Key, c: char)
    requires
        v.cursor_ok(),
    ensures
        v.moved(key).cursor_ok(),
        v.typed(c).cursor_ok(),
        v.erased().cursor_ok(),
        v.broken().cursor_ok(),
        v.scrolled().cursor_ok(),
        v.indented().cursor_ok(),
{
    lemma_spaced_cursor_ok(v, TAB_SPACES as nat);
}

/// Typing spaces keeps the cursor at a position of the buffer.
proof fn lemma_spaced_cursor_ok(v: EditorView, n: nat)
    requires
        v.cursor_ok(),
    ensures
        v.spaced(n).cursor_ok(),
    decreases n,
{
    if n > 0 {
        lemma_spaced_cursor_ok(v, (n - 1) as nat);
    }
}

/// Every step of a search visits a row of the buffer.
pub proof fn lemma_scan_row_bound(start: nat, n: nat, forward: bool, i: nat)
    requires
        start <= n,
        n > 0,
    ensures
        scan_row(start, n, forward, i) <= n,
        i >= 1 ==> scan_row(start, n, forward, i) < n,
    decreases i,
{
    if i > 0 {
        lemma_scan_row_bound(start, n, forward, (i - 1) as nat);
    }
}

/// A search leaves the cursor at a position of the buffer: where it was, or
/// at the leftmost occurrence of the query in the first row that holds it.
pub proof fn lemma_searched_cursor_ok(v: EditorView, query: Seq<char>, key: Key)
    requires
        v.cursor_ok(),
    ensures
        v.searched(query, key).cursor_ok(),
        v.searched(query, key).rows == v.rows,
        v.searched(query, key) != v ==> is_leftmost(
            v.rows[v.searched(query, key).cy as int],
            query,
            v.searched(query, key).cx as int,
        ),
{
    let forward = key != Key::Up;
    if v.searches(query, key) && v.first_hit(query, forward) is Some {
        let n = v.rows.len();
        let some = choose|i: nat| v.hit_at(query, forward, i);
        lemma_first_hit_exists(v, query, forward, some);
        let i = v.first_hit(query, forward).unwrap();
        lemma_scan_row_bound(v.cy, n, forward, i);
        let row = v.rows[scan_row(v.cy, n, forward, i) as int];
        let k = choose|k: int| occurs_at(row, query, k);
        lemma_leftmost_exists(row, query, k);
    }
}

/// Every key of the editing loop and of a prompt keeps the cursor at a
/// position of the buffer.
pub proof fn lemma_keys_keep_cursor_ok(v: EditorView, key: Key, input: Seq<char>, search: bool, now: nat)
    requires
        v.cursor_ok(),
    ensures
        v.pressed(key, now).0.cursor_ok(),
        v.prompted(input, key, search, now).0.cursor_ok(),
{
    lemma_cursor_stays_ok(v, key, ' ');
    lemma_cursor_stays_ok(v.moved(Key::Right), key, ' ');
    match key {
        Key::Char(c) => {
            lemma_cursor_stays_ok(v, key, c);
        },
        _ => {},
    }
    lemma_searched_cursor_ok(v, v.prompted(input, key, search, now).1, key);
}

/// A backspace at the start of the buffer changes nothing.
pub proof fn lemma_backspace_at_origin(v: EditorView)
    requires
        v.cx == 0,
        v.cy == 0,
    ensures
        v.erased() == v,
{
}

/// A backspace at the start of a row below the first joins the row to the
/// end of the one above, and the cursor stands where the two meet.
pub proof fn lemma_backspace_joins(v: EditorView)
    requires
        v.cx == 0,
        0 < v.cy < v.rows.len(),
    ensures
        v.erased().rows.len() == v.rows.len() - 1,
        v.erased().rows[v.cy - 1] == v.rows[v.cy - 1] + v.rows[v.cy as int],
        v.erased().cy == v.cy - 1,
        v.erased().cx == v.rows[v.cy - 1].len(),
        forall|i: int| 0 <= i < v.cy - 1 ==> v.erased().rows[i] == v.rows[i],
        forall|i: int| v.cy <= i < v.rows.len() - 1 ==> v.erased().rows[i] == v.rows[i + 1],
{
}

/// Typing a character and erasing it at once restores the buffer and the
/// cursor, unless the erasure takes a whole indentation step.
pub proof fn lemma_type_then_erase(v: EditorView, c: char)
    requires
        v.cursor_ok(),
        v.cy < v.rows.len(),
        !crate::row::unindents(
            inserted(v.rows[v.cy as int], v.cx, c),
            insert_position(v.rows[v.cy as int], v.cx),
        ),
    ensures
        v.typed(c).erased().rows == v.rows,
        v.typed(c).erased().cx == v.cx,
        v.typed(c).erased().cy == v.cy,
{
    let row = v.rows[v.cy as int];
    crate::row::lemma_insert_then_delete(row, v.cx, c);
    assert(v.typed(c).erased().rows =~= v.rows);
}

} // verus!
