//! One line of text: its raw characters, the tab-expanded form that is shown,
//! and the classification of every shown character.

use vstd::prelude::*;
use std::rc::Rc;
use crate::highlight::Highlight;
use crate::syntax::{highlight_of, SyntaxRe};
use crate::text::{append_str, chars_of, repeat, string_of};

verus! {

/// The width of a tab stop on screen.
pub const TAB_STOP: usize = 8;

/// The number of spaces that make one step of indentation.
pub const TAB_SPACES: usize = 4;

/// The number of spaces that a tab at column `col` expands to: as many as
/// reach the next tab stop, and at least one.
pub open spec fn tab_fill(col: nat) -> nat {
    (TAB_STOP - col % (TAB_STOP as nat)) as nat
}

/// The rendered form of `raw`: every character but a tab stands for itself,
/// and a tab becomes spaces up to the next tab stop.
pub open spec fn render_of(raw: Seq<char>) -> Seq<char>
    decreases raw.len(),
{
    if raw.len() == 0 {
        Seq::empty()
    } else {
        let head = render_of(raw.drop_last());
        if raw.last() == '\t' {
            head + repeat(' ', tab_fill(head.len()))
        } else {
            head.push(raw.last())
        }
    }
}

/// The render column of raw column `cx`: the width of what renders before it.
pub open spec fn render_column(raw: Seq<char>, cx: nat) -> nat {
    if cx <= raw.len() {
        render_of(raw.take(cx as int)).len()
    } else {
        render_of(raw).len()
    }
}

/// The position at which an insertion at `at` lands: `at`, or the end of the
/// line where `at` lies beyond it.
pub open spec fn insert_position(raw: Seq<char>, at: nat) -> nat {
    if at > raw.len() {
        raw.len()
    } else {
        at
    }
}

/// `raw` with `c` inserted at `at`, clamped to the end of the line.
pub open spec fn inserted(raw: Seq<char>, at: nat, c: char) -> Seq<char> {
    raw.insert(insert_position(raw, at) as int, c)
}

/// Whether a deletion at `at` removes a whole indentation step: the
/// character at `at` and the ones before it, `TAB_SPACES` in all, are spaces.
pub open spec fn unindents(raw: Seq<char>, at: nat) -> bool {
    &&& at < raw.len()
    &&& at + 1 >= TAB_SPACES
    &&& forall|k: int| at + 1 - TAB_SPACES <= k <= at ==> raw[k] == ' '
}

/// The number of characters that a deletion at `at` removes.
pub open spec fn deleted_count(raw: Seq<char>, at: nat) -> nat {
    if at >= raw.len() {
        0
    } else if unindents(raw, at) {
        TAB_SPACES as nat
    } else {
        1
    }
}

/// `raw` after a deletion at `at`: unchanged where `at` is past the end,
/// without the indentation step that ends at `at` where there is one, and
/// without the single character at `at` otherwise.
pub open spec fn deleted(raw: Seq<char>, at: nat) -> Seq<char> {
    if at >= raw.len() {
        raw
    } else if unindents(raw, at) {
        raw.subrange(0, at + 1 - TAB_SPACES) + raw.subrange((at + 1) as int, raw.len() as int)
    } else {
        raw.remove(at as int)
    }
}

/// The text that shows `render[from..to]` with its colours, given that the
/// colours of `current` are in force: a character whose classification
/// differs from the one in force is preceded by its foreground and background
/// directives.
pub open spec fn styled(
    render: Seq<char>,
    highlight: Seq<Highlight>,
    from: int,
    to: int,
    current: Highlight,
) -> Seq<char>
    decreases to - from,
{
    if from >= to {
        Seq::empty()
    } else if highlight[from] == current {
        seq![render[from]] + styled(render, highlight, from + 1, to, current)
    } else {
        highlight[from].color_text() + highlight[from].background_text() + seq![render[from]]
            + styled(render, highlight, from + 1, to, highlight[from])
    }
}

/// The text that shows at most `len` rendered characters from column
/// `coloff` on, with their colours, followed by a return to the default
/// colours.
pub open spec fn drawn(render: Seq<char>, highlight: Seq<Highlight>, coloff: nat, len: nat) -> Seq<char> {
    let to: int = if coloff + len <= render.len() {
        (coloff + len) as int
    } else {
        render.len() as int
    };
    styled(render, highlight, coloff as int, to, Highlight::Normal) + Highlight::Normal.color_text()
        + Highlight::Normal.background_text()
}

/// A rendered line holds no tab, is at least as long as the raw line, and
/// equals the raw line where that holds no tab.
pub proof fn lemma_render_basics(raw: Seq<char>)
    ensures
        forall|i: int| 0 <= i < render_of(raw).len() ==> render_of(raw)[i] != '\t',
        render_of(raw).len() >= raw.len(),
        (forall|i: int| 0 <= i < raw.len() ==> raw[i] != '\t') ==> render_of(raw) == raw,
    decreases raw.len(),
{
    if raw.len() > 0 {
        lemma_render_basics(raw.drop_last());
        if forall|i: int| 0 <= i < raw.len() ==> raw[i] != '\t' {
            assert forall|i: int| 0 <= i < raw.drop_last().len() implies raw.drop_last()[i] != '\t' by {
                assert(raw.drop_last()[i] == raw[i]);
            }
            assert(raw.last() == raw[raw.len() - 1]);
            assert(render_of(raw) =~= raw);
        }
    }
}

/// Whether every tab of `raw` sits in the last column before a tab stop, so
/// that it renders as a single space.
pub open spec fn tabs_fill_one(raw: Seq<char>) -> bool {
    forall|i: int| 0 <= i < raw.len() && raw[i] == '\t' ==> tab_fill(#[trigger] render_of(raw.take(i)).len()) == 1
}

/// The rendered line is as long as the raw line exactly when each tab of the
/// raw line renders as a single space.
pub proof fn lemma_render_len_equal(raw: Seq<char>)
    ensures
        render_of(raw).len() == raw.len() <==> tabs_fill_one(raw),
    decreases raw.len(),
{
    if raw.len() > 0 {
        let head = raw.drop_last();
        lemma_render_len_equal(head);
        lemma_render_basics(head);
        assert(raw.take(raw.len() - 1) =~= head);
        assert forall|i: int| 0 <= i < head.len() implies raw.take(i) == head.take(i) by {
            assert(raw.take(i) =~= head.take(i));
        }
        if tabs_fill_one(raw) {
            assert forall|i: int| 0 <= i < head.len() && head[i] == '\t' implies tab_fill(
                #[trigger] render_of(head.take(i)).len(),
            ) == 1 by {
                assert(raw[i] == '\t');
                assert(raw.take(i) == head.take(i));
                assert(tab_fill(render_of(raw.take(i)).len()) == 1);
            }
            if raw.last() == '\t' {
                assert(tab_fill(render_of(raw.take(raw.len() - 1)).len()) == 1);
            }
        }
        if render_of(raw).len() == raw.len() {
            assert forall|i: int| 0 <= i < raw.len() && raw[i] == '\t' implies tab_fill(
                #[trigger] render_of(raw.take(i)).len(),
            ) == 1 by {
                if i < head.len() {
                    assert(head[i] == '\t');
                    assert(raw.take(i) == head.take(i));
                    assert(tab_fill(render_of(head.take(i)).len()) == 1);
                }
            }
        }
    }
}

/// Whether `raw` holds a tab.
pub open spec fn has_tab(raw: Seq<char>) -> bool {
    exists|i: int| 0 <= i < raw.len() && raw[i] == '\t'
}

/// The rendered line is as long as the raw line exactly when the raw line
/// holds no tab, on every line but those that hold tabs each of which
/// renders as a single space.
pub proof fn lemma_render_len_equal_iff_no_tabs(raw: Seq<char>)
    requires
        !(has_tab(raw) && tabs_fill_one(raw)),
    ensures
        render_of(raw).len() == raw.len() <==> !has_tab(raw),
{
    lemma_render_len_equal(raw);
}

/// What renders before a column is a prefix of the rendered line, so a render
/// column never lies beyond the rendered line.
pub proof fn lemma_render_column_bound(raw: Seq<char>, cx: nat)
    ensures
        render_column(raw, cx) <= render_of(raw).len(),
    decreases raw.len(),
{
    if cx < raw.len() {
        let head = raw.drop_last();
        assert(head.take(cx as int) =~= raw.take(cx as int));
        lemma_render_column_bound(head, cx);
    } else if cx == raw.len() {
        assert(raw.take(cx as int) =~= raw);
    }
}

/// Inserting a character and then deleting at the position where it landed
/// restores the line, unless that deletion removes a whole indentation step.
pub proof fn lemma_insert_then_delete(raw: Seq<char>, at: nat, c: char)
    requires
        !unindents(inserted(raw, at, c), insert_position(raw, at)),
    ensures
        deleted(inserted(raw, at, c), insert_position(raw, at)) == raw,
        deleted_count(inserted(raw, at, c), insert_position(raw, at)) == 1,
{
    let p = insert_position(raw, at) as int;
    assert(raw.insert(p, c).remove(p) =~= raw);
}

/// Another handle to a shared profile.
///
/// Trusted: wraps `Rc::clone`, which the standard library documents as
/// making another pointer to the same allocation.
#[verifier::external_body]
pub(crate) fn share(profile: &Rc<SyntaxRe>) -> (handle: Rc<SyntaxRe>)
    ensures
        handle == profile,
{
    Rc::clone(profile)
}

/// Expands the tabs of a raw line.
pub fn expand_tabs(chars: &Vec<char>) -> (render: Vec<char>)
    ensures
        render@ == render_of(chars@),
{
    let mut render: Vec<char> = Vec::new();
    let mut i: usize = 0;
    while i < chars.len()
        invariant
            i <= chars.len(),
            render@ == render_of(chars@.take(i as int)),
        decreases chars.len() - i,
    {
        let ghost head = render@;
        proof {
            assert(chars@.take(i + 1).drop_last() =~= chars@.take(i as int));
        }
        if chars[i] == '\t' {
            render.push(' ');
            let ghost fill = tab_fill(head.len());
            proof {
                assert(render@ =~= head + repeat(' ', 1));
            }
            while render.len() % TAB_STOP != 0
                invariant
                    1 <= render.len() - head.len() <= fill,
                    fill == tab_fill(head.len()),
                    render@ == head + repeat(' ', (render.len() - head.len()) as nat),
                decreases fill - (render.len() - head.len()),
            {
                let ghost k = (render.len() - head.len()) as nat;
                render.push(' ');
                proof {
                    assert(render@ =~= head + repeat(' ', k + 1));
                }
            }
        } else {
            render.push(chars[i]);
        }
        i += 1;
    }
    proof {
        assert(chars@.take(chars.len() as int) =~= chars@);
    }
    render
}

/// One line of the buffer.
pub struct Row {
    chars: Vec<char>,
    render: Vec<char>,
    highlight: Vec<Highlight>,
    syntax: Rc<SyntaxRe>,
}

impl View for Row {
    type V = Seq<char>;

    /// The raw characters of the line.
    closed spec fn view(&self) -> Seq<char> {
        self.chars@
    }
}

impl Row {
    /// The rendered characters of the line.
    pub closed spec fn rendered(&self) -> Seq<char> {
        self.render@
    }

    /// The classification of each rendered character.
    pub closed spec fn highlights(&self) -> Seq<Highlight> {
        self.highlight@
    }

    /// The syntax profile that the line is classified under.
    pub closed spec fn profile(&self) -> SyntaxRe {
        *self.syntax
    }

    /// The line is consistent: its rendered form is the tab expansion of its
    /// raw characters, and its classification is that of the rendered form
    /// under its profile. So there is one class for every rendered
    /// character, and the rendered form is no shorter than the raw one.
    pub open spec fn wf(&self) -> bool {
        &&& self.rendered() == render_of(self@)
        &&& self.highlights() == highlight_of(self.profile(), self.rendered())
        &&& self.highlights().len() == self.rendered().len()
        &&& self.rendered().len() >= self@.len()
    }

    /// Recomputes the derived parts from the raw characters.
    fn refresh(&mut self)
        ensures
            final(self)@ == old(self)@,
            final(self).profile() == old(self).profile(),
            final(self).wf(),
    {
        self.render = expand_tabs(&self.chars);
        self.highlight = self.syntax.classify(&self.render);
        proof {
            lemma_render_basics(self@);
        }
    }

    /// A line holding `chars`, classified under `syntax`.
    pub fn new(chars: &str, syntax: Rc<SyntaxRe>) -> (row: Row)
        ensures
            row@ == chars@,
            row.profile() == *syntax,
            row.wf(),
    {
        Row::from_chars(chars_of(chars), syntax)
    }

    /// A line holding `chars`, classified under `syntax`.
    pub fn from_chars(chars: Vec<char>, syntax: Rc<SyntaxRe>) -> (row: Row)
        ensures
            row@ == chars@,
            row.profile() == *syntax,
            row.wf(),
    {
        let mut row = Row { chars, render: Vec::new(), highlight: Vec::new(), syntax };
        row.refresh();
        row
    }

    /// Replaces the profile and classifies the line anew under it.
    pub fn add_syntax(&mut self, syntax: Rc<SyntaxRe>)
        ensures
            final(self)@ == old(self)@,
            final(self).profile() == *syntax,
            final(self).wf(),
    {
        self.syntax = syntax;
        self.refresh();
    }

    /// Recomputes the rendered form and the classification in full.
    pub fn update(&mut self)
        ensures
            final(self)@ == old(self)@,
            final(self).profile() == old(self).profile(),
            final(self).wf(),
    {
        self.refresh();
    }

    /// Recomputes the classification of the rendered form.
    pub fn update_syntax(&mut self)
        ensures
            final(self)@ == old(self)@,
            final(self).rendered() == old(self).rendered(),
            final(self).profile() == old(self).profile(),
            final(self).highlights() == highlight_of(final(self).profile(), final(self).rendered()),
            final(self).highlights().len() == final(self).rendered().len(),
    {
        self.highlight = self.syntax.classify(&self.render);
    }

    /// The number of raw characters.
    pub fn len(&self) -> (n: usize)
        ensures
            n == self@.len(),
    {
        self.chars.len()
    }

    /// The number of rendered characters.
    pub fn render_len(&self) -> (n: usize)
        ensures
            n == self.rendered().len(),
    {
        self.render.len()
    }

    /// The raw characters.
    pub fn raw_chars(&self) -> (chars: &Vec<char>)
        ensures
            chars@ == self@,
    {
        &self.chars
    }

    /// The raw characters, as a string.
    pub fn chars(&self) -> (s: String)
        ensures
            s@ == self@,
    {
        string_of(&self.chars)
    }

    /// The rendered characters, as a string.
    pub fn render(&self) -> (s: String)
        ensures
            s@ == self.rendered(),
    {
        string_of(&self.render)
    }

    /// The classification of each rendered character.
    pub fn highlight(&self) -> (h: &Vec<Highlight>)
        ensures
            h@ == self.highlights(),
    {
        &self.highlight
    }

    /// The shared profile of the line.
    pub fn syntax(&self) -> (handle: Rc<SyntaxRe>)
        ensures
            *handle == self.profile(),
    {
        share(&self.syntax)
    }

    /// The render column that raw column `cx` is shown at. A column beyond
    /// the end of the line counts as the end.
    pub fn cx_to_rx(&self, cx: usize) -> (rx: usize)
        requires
            self.rendered() == render_of(self@),
        ensures
            rx == render_column(self@, cx as nat),
    {
        let end: usize = if cx > self.chars.len() {
            self.chars.len()
        } else {
            cx
        };
        let width: usize = self.render.len();
        let mut rx: usize = 0;
        let mut j: usize = 0;
        while j < end
            invariant
                j <= end <= self.chars.len(),
                self.rendered() == render_of(self@),
                width == self.rendered().len(),
                rx == render_of(self@.take(j as int)).len(),
            decreases end - j,
        {
            proof {
                let next = self@.take(j + 1);
                assert(next.drop_last() =~= self@.take(j as int));
                assert(next.last() == self@[j as int]);
                lemma_render_column_bound(self@, (j + 1) as nat);
                assert(render_of(next).len() <= self.render@.len());
                assert(render_of(next).len() == if self@[j as int] == '\t' {
                    rx + tab_fill(rx as nat)
                } else {
                    rx + 1
                });
            }
            let ghost column = rx as nat;
            if self.chars[j] == '\t' {
                rx += (TAB_STOP - 1) - (rx % TAB_STOP);
                assert(rx + 1 == column + tab_fill(column));
            }
            rx += 1;
            j += 1;
        }
        proof {
            if cx >= self.chars.len() {
                assert(self@.take(end as int) =~= self@);
            }
        }
        rx
    }

    /// Appends to `buffer` at most `len` rendered characters from column
    /// `coloff` on, with the directives that colour them, and a return to
    /// the default colours.
    pub fn draw(&self, buffer: &mut Vec<char>, coloff: usize, len: usize)
        requires
            self.highlights().len() == self.rendered().len(),
        ensures
            final(buffer)@ == old(buffer)@ + drawn(
                self.rendered(),
                self.highlights(),
                coloff as nat,
                len as nat,
            ),
    {
        let n: usize = self.render.len();
        let to: usize = if coloff <= n && len <= n - coloff {
            coloff + len
        } else {
            n
        };
        let ghost whole = styled(self.rendered(), self.highlights(), coloff as int, to as int, Highlight::Normal);
        let mut current = Highlight::Normal;
        let mut i: usize = coloff;
        proof {
            assert(buffer@ + whole =~= old(buffer)@ + whole);
        }
        while i < to
            invariant
                to <= self.render.len(),
                self.highlight.len() == self.render.len(),
                coloff <= i,
                buffer@ + styled(self.rendered(), self.highlights(), i as int, to as int, current)
                    == old(buffer)@ + whole,
            decreases to - i,
        {
            let ghost before = buffer@;
            let ghost rest = styled(self.rendered(), self.highlights(), i + 1, to as int, self.highlights()[i as int]);
            let hl = self.highlight[i];
            if hl == current {
                buffer.push(self.render[i]);
                proof {
                    assert(buffer@ + rest =~= before + (seq![self.rendered()[i as int]] + rest));
                }
            } else {
                append_str(buffer, hl.to_color());
                append_str(buffer, hl.to_background());
                buffer.push(self.render[i]);
                current = hl;
                proof {
                    assert(buffer@ + rest =~= before + (hl.color_text() + hl.background_text()
                        + seq![self.rendered()[i as int]] + rest));
                }
            }
            i += 1;
        }
        let ghost shown = buffer@;
        append_str(buffer, Highlight::Normal.to_color());
        append_str(buffer, Highlight::Normal.to_background());
        proof {
            assert(shown =~= old(buffer)@ + whole);
            assert(buffer@ =~= old(buffer)@ + (whole + Highlight::Normal.color_text()
                + Highlight::Normal.background_text()));
        }
    }

    /// Inserts `c` at raw column `at`, or at the end of the line where `at`
    /// lies beyond it.
    pub fn insert_char(&mut self, at: usize, c: char)
        ensures
            final(self)@ == inserted(old(self)@, at as nat, c),
            final(self).profile() == old(self).profile(),
            final(self).wf(),
    {
        let position: usize = if at > self.chars.len() {
            self.chars.len()
        } else {
            at
        };
        self.chars.insert(position, c);
        self.refresh();
    }

    /// Appends `line` to the raw characters.
    pub fn append_string(&mut self, line: &str)
        ensures
            final(self)@ == old(self)@ + line@,
            final(self).profile() == old(self).profile(),
            final(self).wf(),
    {
        append_str(&mut self.chars, line);
        self.refresh();
    }

    /// Appends `line` to the raw characters.
    pub fn append_chars(&mut self, line: &Vec<char>)
        ensures
            final(self)@ == old(self)@ + line@,
            final(self).profile() == old(self).profile(),
            final(self).wf(),
    {
        crate::text::append_range(&mut self.chars, line, 0, line.len());
        proof {
            assert(line@.subrange(0, line.len() as int) =~= line@);
        }
        self.refresh();
    }

    /// Cuts the line at raw column `at` and returns what followed it.
    pub fn split_off(&mut self, at: usize) -> (tail: Vec<char>)
        requires
            at <= old(self)@.len(),
        ensures
            final(self)@ == old(self)@.take(at as int),
            tail@ == old(self)@.skip(at as int),
            final(self).profile() == old(self).profile(),
            final(self).wf(),
    {
        let tail = self.chars.split_off(at);
        self.refresh();
        tail
    }

    /// Deletes at raw column `at` and returns the number of characters
    /// removed: a whole indentation step where the character at `at` ends
    /// one, a single character otherwise, and nothing where `at` is not a
    /// column of the line.
    pub fn delete_char(&mut self, at: usize) -> (removed: usize)
        ensures
            removed == deleted_count(old(self)@, at as nat),
            final(self)@ == deleted(old(self)@, at as nat),
            final(self).profile() == old(self).profile(),
            old(self).wf() ==> final(self).wf(),
            at >= old(self)@.len() ==> *final(self) == *old(self),
    {
        if at >= self.chars.len() {
            return 0;
        }
        let removed: usize;
        if at + 1 >= TAB_SPACES && self.ends_indentation(at) {
            let mut tail = self.chars.split_off(at + 1);
            self.chars.truncate(at + 1 - TAB_SPACES);
            self.chars.append(&mut tail);
            removed = TAB_SPACES;
        } else {
            self.chars.remove(at);
            removed = 1;
        }
        self.refresh();
        removed
    }

    /// Whether the `TAB_SPACES` characters that end at `at` are all spaces.
    fn ends_indentation(&self, at: usize) -> (b: bool)
        requires
            at < self@.len(),
            at + 1 >= TAB_SPACES,
        ensures
            b == unindents(self@, at as nat),
    {
        let n: usize = self.chars.len();
        let first: usize = at + 1 - TAB_SPACES;
        let mut k: usize = first;
        while k <= at
            invariant
                at < n,
                first == at + 1 - TAB_SPACES,
                first <= k <= at + 1,
                at < self@.len(),
                forall|t: int| first <= t < k ==> self@[t] == ' ',
            decreases at + 1 - k,
        {
            if self.chars[k] != ' ' {
                return false;
            }
            k += 1;
        }
        true
    }
}

} // verus!
