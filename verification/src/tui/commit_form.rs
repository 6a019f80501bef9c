//! The form that writes the message of a new (non-fixup) commit: a small
//! multi-line text editor with a cursor.

use vstd::prelude::*;

use crate::diff::patch::join;
use crate::tui::review::Area;
use crate::text::{chars_of, lines_scan, push_char, push_chars, split_lines, string_of, text_lines, trim, trimmed};

verus! {

pub struct CommitFormState {
    lines: Vec<Vec<char>>,
    cursor_line: usize,
    cursor_col: usize,
    diff: String,
}

pub struct CommitFormView {
    pub lines: Seq<Seq<char>>,
    pub cursor_line: usize,
    pub cursor_col: usize,
    pub diff: Seq<char>,
}

impl View for CommitFormState {
    type V = CommitFormView;

    closed spec fn view(&self) -> CommitFormView {
        CommitFormView {
            lines: self.lines.deep_view(),
            cursor_line: self.cursor_line,
            cursor_col: self.cursor_col,
            diff: self.diff@,
        }
    }
}

// ---------------------------------------------------------------------
// Specification
// ---------------------------------------------------------------------

/// `s` with `c` inserted at position `i`.
pub open spec fn insert_at(s: Seq<char>, i: int, c: char) -> Seq<char> {
    s.take(i).push(c) + s.skip(i)
}

/// Where the terminal cursor goes for text cursor `(line, col)` in the
/// bordered message box `text`: one cell in from its top-left corner, moved
/// by the cursor, and kept inside the border.
pub open spec fn cursor_cell_spec(text: Area, line: int, col: int) -> (int, int) {
    let max_x = text.x + if text.width >= 2 { text.width - 2 } else { 0 };
    let max_y = text.y + if text.height >= 2 { text.height - 2 } else { 0 };
    let x = text.x + 1 + col;
    let y = text.y + 1 + line;
    (if x < max_x { x } else { max_x }, if y < max_y { y } else { max_y })
}

impl CommitFormView {
    /// At least one line, and the cursor on a line, at most just past its
    /// last character.
    pub open spec fn valid(self) -> bool {
        &&& self.lines.len() >= 1
        &&& self.cursor_line < self.lines.len()
        &&& self.cursor_col <= self.lines[self.cursor_line as int].len()
    }

    pub open spec fn current(self) -> Seq<char> {
        self.lines[self.cursor_line as int]
    }

    /// The message: the lines joined by newlines.
    pub open spec fn message(self) -> Seq<char> {
        join(self.lines, "\n"@)
    }

    pub open spec fn with_cursor(self, line: usize, col: usize) -> CommitFormView {
        CommitFormView { cursor_line: line, cursor_col: col, ..self }
    }

    pub open spec fn inserted(self, c: char) -> CommitFormView {
        CommitFormView {
            lines: self.lines.update(
                self.cursor_line as int,
                insert_at(self.current(), self.cursor_col as int, c),
            ),
            cursor_col: (self.cursor_col + 1) as usize,
            ..self
        }
    }

    pub open spec fn newline_inserted(self) -> CommitFormView {
        let l = self.cursor_line as int;
        let line = self.current();
        CommitFormView {
            lines: self.lines.update(l, line.take(self.cursor_col as int)).insert(
                l + 1,
                line.skip(self.cursor_col as int),
            ),
            cursor_line: (self.cursor_line + 1) as usize,
            cursor_col: 0,
            ..self
        }
    }

    /// Backspace: removes the character before the cursor, or at the start
    /// of a line joins the line to the one above; nothing at the very start.
    pub open spec fn backspaced(self) -> CommitFormView {
        let l = self.cursor_line as int;
        if self.cursor_col > 0 {
            CommitFormView {
                lines: self.lines.update(l, self.current().remove(self.cursor_col - 1)),
                cursor_col: (self.cursor_col - 1) as usize,
                ..self
            }
        } else if self.cursor_line > 0 {
            let above = self.lines[l - 1];
            CommitFormView {
                lines: self.lines.update(l - 1, above + self.current()).remove(l),
                cursor_line: (self.cursor_line - 1) as usize,
                cursor_col: above.len() as usize,
                ..self
            }
        } else {
            self
        }
    }

    pub open spec fn moved_left(self) -> CommitFormView {
        if self.cursor_col > 0 {
            self.with_cursor(self.cursor_line, (self.cursor_col - 1) as usize)
        } else if self.cursor_line > 0 {
            self.with_cursor(
                (self.cursor_line - 1) as usize,
                self.lines[self.cursor_line - 1].len() as usize,
            )
        } else {
            self
        }
    }

    pub open spec fn moved_right(self) -> CommitFormView {
        if self.cursor_col < self.current().len() {
            self.with_cursor(self.cursor_line, (self.cursor_col + 1) as usize)
        } else if self.cursor_line < self.lines.len() - 1 {
            self.with_cursor((self.cursor_line + 1) as usize, 0)
        } else {
            self
        }
    }

    /// The cursor one line up or down, its column kept when the line is
    /// long enough, else at the line's end.
    pub open spec fn moved_to_line(self, line: usize) -> CommitFormView {
        let len = self.lines[line as int].len();
        self.with_cursor(
            line,
            if self.cursor_col <= len {
                self.cursor_col
            } else {
                len as usize
            },
        )
    }

    pub open spec fn moved_up(self) -> CommitFormView {
        if self.cursor_line > 0 {
            self.moved_to_line((self.cursor_line - 1) as usize)
        } else {
            self
        }
    }

    pub open spec fn moved_down(self) -> CommitFormView {
        if self.cursor_line < self.lines.len() - 1 {
            self.moved_to_line((self.cursor_line + 1) as usize)
        } else {
            self
        }
    }
}

/// The lines a form starts with: one empty line for an empty template,
/// the template's lines otherwise.
pub open spec fn initial_lines(template: Seq<char>) -> Seq<Seq<char>> {
    if template.len() == 0 {
        seq![Seq::<char>::empty()]
    } else {
        text_lines(template)
    }
}

proof fn lemma_text_lines_nonempty(s: Seq<char>)
    requires
        s.len() > 0,
    ensures
        text_lines(s).len() >= 1,
{
    let (done, cur) = lines_scan(s.drop_last());
    if s.last() == '\n' {
        assert(lines_scan(s).0 == done.push(crate::text::strip_one_cr(cur)));
    } else {
        assert(lines_scan(s).1 == cur.push(s.last()));
    }
}

// ---------------------------------------------------------------------
// Implementation
// ---------------------------------------------------------------------

impl CommitFormState {
    pub closed spec fn wf(&self) -> bool {
        self@.valid()
    }

    /// A form holding `template`'s lines, the cursor at the start, with
    /// `diff` shown below it.
    pub fn new(template: &str, diff: String) -> (r: CommitFormState)
        ensures
            r.wf(),
            r@.lines == initial_lines(template@),
            r@.cursor_line == 0,
            r@.cursor_col == 0,
            r@.diff == diff@,
    {
        let cs = chars_of(template);
        let lines = if cs.len() == 0 {
            let mut v: Vec<Vec<char>> = Vec::new();
            v.push(Vec::new());
            assert(v@[0]@ =~= Seq::<char>::empty());
            assert(v.deep_view()[0] =~= Seq::<char>::empty());
            assert(v.deep_view() =~= seq![Seq::<char>::empty()]);
            v
        } else {
            proof {
                lemma_text_lines_nonempty(template@);
            }
            split_lines(&cs)
        };
        CommitFormState { lines, cursor_line: 0, cursor_col: 0, diff }
    }

    /// The message typed so far: the lines joined by newlines.
    pub fn message(&self) -> (r: String)
        ensures
            r@ == self@.message(),
    {
        let ghost lv = self.lines.deep_view();
        let mut s = String::new();
        let mut i: usize = 0;
        assert(lv.take(0) =~= Seq::<Seq<char>>::empty());
        while i < self.lines.len()
            invariant
                0 <= i <= self.lines.len(),
                lv == self.lines.deep_view(),
                s@ == join(lv.take(i as int), "\n"@),
            decreases self.lines.len() - i,
        {
            proof {
                reveal_strlit("\n");
            }
            assert(self.lines@[i as int]@ == lv[i as int]) by {
                assert(self.lines@[i as int].deep_view() =~= self.lines@[i as int]@);
            }
            assert(lv.take(i + 1).drop_last() =~= lv.take(i as int));
            assert(lv.take(i + 1).last() == lv[i as int]);
            if i > 0 {
                push_char(&mut s, '\n');
            }
            push_chars(&mut s, &self.lines[i], 0, self.lines[i].len());
            assert(self.lines@[i as int]@.subrange(0, self.lines@[i as int]@.len() as int)
                =~= lv[i as int]);
            if i == 0 {
                assert(lv.take(1) =~= seq![lv[0]]);
            }
            i += 1;
        }
        assert(lv.take(i as int) =~= lv);
        s
    }

    /// The message to commit with, or `None` when it is blank (nothing but
    /// whitespace): a blank message cancels the commit.
    pub fn submission(&self) -> (r: Option<String>)
        ensures
            match r {
                Some(m) => m@ == self@.message() && trim(self@.message()).len() > 0,
                None => trim(self@.message()).len() == 0,
            },
    {
        let m = self.message();
        let t = trimmed(&chars_of(m.as_str()));
        if t.as_str().is_empty() {
            None
        } else {
            Some(m)
        }
    }

    pub fn line_count(&self) -> (r: usize)
        ensures
            r == self@.lines.len(),
    {
        self.lines.len()
    }

    /// The text of line `i`.
    pub fn line_text(&self, i: usize) -> (r: String)
        requires
            i < self@.lines.len(),
        ensures
            r@ == self@.lines[i as int],
    {
        assert(self.lines@[i as int].deep_view() =~= self.lines@[i as int]@);
        string_of(&self.lines[i], 0, self.lines[i].len())
    }

    /// The cursor, as a line and a column (in characters).
    pub fn cursor(&self) -> (r: (usize, usize))
        ensures
            r == (self@.cursor_line, self@.cursor_col),
    {
        (self.cursor_line, self.cursor_col)
    }

    /// The cell of the terminal cursor when the message is drawn in the
    /// bordered box `text`.
    pub fn cursor_cell(&self, text: Area) -> (r: (u16, u16))
        requires
            text.x + text.width <= u16::MAX,
            text.y + text.height <= u16::MAX,
        ensures
            (r.0 as int, r.1 as int) == cursor_cell_spec(
                text,
                self@.cursor_line as int,
                self@.cursor_col as int,
            ),
    {
        let max_x: u16 = text.x + if text.width >= 2 { text.width - 2 } else { 0 };
        let max_y: u16 = text.y + if text.height >= 2 { text.height - 2 } else { 0 };
        let x: u16 = if self.cursor_col < (max_x - text.x) as usize {
            text.x + 1 + self.cursor_col as u16
        } else {
            max_x
        };
        let y: u16 = if self.cursor_line < (max_y - text.y) as usize {
            text.y + 1 + self.cursor_line as u16
        } else {
            max_y
        };
        (x, y)
    }

    /// The staged diff shown below the message.
    pub fn diff(&self) -> (r: &str)
        ensures
            r@ == self@.diff,
    {
        self.diff.as_str()
    }

    fn current_len(&self) -> (r: usize)
        requires
            self.cursor_line < self.lines@.len(),
        ensures
            r == self@.current().len(),
    {
        assert(self.lines@[self.cursor_line as int].deep_view() =~= self.lines@[self.cursor_line as int]@);
        self.lines[self.cursor_line].len()
    }

    /// Types `c` at the cursor.
    pub fn insert_char(&mut self, c: char)
        requires
            old(self).wf(),
        ensures
            final(self).wf(),
            final(self)@ == old(self)@.inserted(c),
    {
        let ghost before = self@;
        let l = self.cursor_line;
        let mut line = self.lines.remove(l);
        assert(line@ == before.current()) by {
            assert(line.deep_view() =~= line@);
        }
        line.insert(self.cursor_col, c);
        assert(line@ =~= insert_at(before.current(), before.cursor_col as int, c));
        assert(line.len() == before.current().len() + 1);
        let ghost lv = line@;
        self.lines.insert(l, line);
        assert(self.lines.deep_view() =~= before.lines.update(l as int, lv)) by {
            assert(self.lines@[l as int].deep_view() =~= lv);
        }
        self.cursor_col = self.cursor_col + 1;
    }

    /// Cuts the line at the cursor; the cursor goes to the start of the new
    /// line.
    pub fn insert_newline(&mut self)
        requires
            old(self).wf(),
            old(self)@.lines.len() < usize::MAX,
        ensures
            final(self).wf(),
            final(self)@ == old(self)@.newline_inserted(),
    {
        let ghost before = self@;
        let l = self.cursor_line;
        let mut line = self.lines.remove(l);
        assert(line@ == before.current()) by {
            assert(line.deep_view() =~= line@);
        }
        let tail = line.split_off(self.cursor_col);
        assert(line@ =~= before.current().take(before.cursor_col as int));
        assert(tail@ =~= before.current().skip(before.cursor_col as int));
        let ghost (hv, tv) = (line@, tail@);
        self.lines.insert(l, line);
        self.lines.insert(l + 1, tail);
        assert(self.lines.deep_view() =~= before.lines.update(l as int, hv).insert(l + 1, tv)) by {
            assert(self.lines@[l as int].deep_view() =~= hv);
            assert(self.lines@[l + 1].deep_view() =~= tv);
        }
        self.cursor_line = l + 1;
        self.cursor_col = 0;
    }

    /// Deletes the character before the cursor, or joins the line to the
    /// one above when the cursor is at its start.
    pub fn backspace(&mut self)
        requires
            old(self).wf(),
        ensures
            final(self).wf(),
            final(self)@ == old(self)@.backspaced(),
    {
        let ghost before = self@;
        let l = self.cursor_line;
        if self.cursor_col > 0 {
            let mut line = self.lines.remove(l);
            assert(line@ == before.current()) by {
                assert(line.deep_view() =~= line@);
            }
            line.remove(self.cursor_col - 1);
            let ghost lv = line@;
            self.lines.insert(l, line);
            assert(self.lines.deep_view() =~= before.lines.update(
                l as int,
                before.current().remove(before.cursor_col - 1),
            )) by {
                assert(self.lines@[l as int].deep_view() =~= lv);
            }
            self.cursor_col = self.cursor_col - 1;
        } else if l > 0 {
            let current = self.lines.remove(l);
            assert(current@ == before.current()) by {
                assert(current.deep_view() =~= current@);
            }
            let mut above = self.lines.remove(l - 1);
            assert(above@ == before.lines[l - 1]) by {
                assert(above.deep_view() =~= above@);
            }
            let col = above.len();
            let mut k: usize = 0;
            let ghost a0 = above@;
            while k < current.len()
                invariant
                    0 <= k <= current.len(),
                    above@ == a0 + current@.take(k as int),
                decreases current.len() - k,
            {
                above.push(current[k]);
                assert(current@.take(k + 1) =~= current@.take(k as int).push(current@[k as int]));
                k += 1;
            }
            assert(current@.take(k as int) =~= current@);
            let ghost av = above@;
            self.lines.insert(l - 1, above);
            assert(self.lines.deep_view() =~= before.lines.update(l - 1, before.lines[l - 1]
                + before.current()).remove(l as int)) by {
                assert(self.lines@[l - 1].deep_view() =~= av);
            }
            self.cursor_line = l - 1;
            self.cursor_col = col;
        }
    }

    pub fn move_left(&mut self)
        requires
            old(self).wf(),
        ensures
            final(self).wf(),
            final(self)@ == old(self)@.moved_left(),
    {
        assert(self.lines.deep_view().len() == self.lines@.len());
        if self.cursor_col > 0 {
            self.cursor_col = self.cursor_col - 1;
        } else if self.cursor_line > 0 {
            self.cursor_line = self.cursor_line - 1;
            self.cursor_col = self.current_len();
        }
    }

    pub fn move_right(&mut self)
        requires
            old(self).wf(),
        ensures
            final(self).wf(),
            final(self)@ == old(self)@.moved_right(),
    {
        assert(self.lines.deep_view().len() == self.lines@.len());
        if self.cursor_col < self.current_len() {
            self.cursor_col = self.cursor_col + 1;
        } else if self.cursor_line < self.lines.len() - 1 {
            self.cursor_line = self.cursor_line + 1;
            self.cursor_col = 0;
        }
    }

    pub fn move_up(&mut self)
        requires
            old(self).wf(),
        ensures
            final(self).wf(),
            final(self)@ == old(self)@.moved_up(),
    {
        assert(self.lines.deep_view().len() == self.lines@.len());
        if self.cursor_line > 0 {
            self.cursor_line = self.cursor_line - 1;
            let len = self.current_len();
            if self.cursor_col > len {
                self.cursor_col = len;
            }
        }
    }

    pub fn move_down(&mut self)
        requires
            old(self).wf(),
        ensures
            final(self).wf(),
            final(self)@ == old(self)@.moved_down(),
    {
        assert(self.lines.deep_view().len() == self.lines@.len());
        if self.cursor_line < self.lines.len() - 1 {
            self.cursor_line = self.cursor_line + 1;
            let len = self.current_len();
            if self.cursor_col > len {
                self.cursor_col = len;
            }
        }
    }

    pub fn move_home(&mut self)
        requires
            old(self).wf(),
        ensures
            final(self).wf(),
            final(self)@ == old(self)@.with_cursor(old(self)@.cursor_line, 0),
    {
        self.cursor_col = 0;
    }

    pub fn move_end(&mut self)
        requires
            old(self).wf(),
        ensures
            final(self).wf(),
            final(self)@ == old(self)@.with_cursor(
                old(self)@.cursor_line,
                old(self)@.current().len() as usize,
            ),
    {
        self.cursor_col = self.current_len();
    }
}

// ---------------------------------------------------------------------
// Laws
// ---------------------------------------------------------------------

/// Backspace right after typing a character gives back the form as it was.
pub proof fn law_backspace_undoes_typing(v: CommitFormView, c: char)
    requires
        v.valid(),
        v.current().len() < usize::MAX,
    ensures
        v.inserted(c).backspaced() == v,
{
    let w = v.inserted(c);
    let l = v.cursor_line as int;
    assert(w.current() == insert_at(v.current(), v.cursor_col as int, c));
    assert(w.current().remove(v.cursor_col as int) =~= v.current());
    assert(w.backspaced().lines =~= v.lines);
}

/// Backspace right after cutting a line joins it back: the form is as it
/// was.
pub proof fn law_backspace_undoes_newline(v: CommitFormView)
    requires
        v.valid(),
        v.lines.len() < usize::MAX,
    ensures
        v.newline_inserted().backspaced() == v,
{
    let w = v.newline_inserted();
    let l = v.cursor_line as int;
    let line = v.current();
    assert(w.lines[l] == line.take(v.cursor_col as int));
    assert(w.lines[l + 1] == line.skip(v.cursor_col as int));
    assert(w.lines[l] + w.lines[l + 1] =~= line);
    assert(w.backspaced().lines =~= v.lines);
}

/// Every edit and move keeps the cursor within the text.
pub proof fn law_edits_keep_cursor_in_text(v: CommitFormView, c: char)
    requires
        v.valid(),
        v.current().len() < usize::MAX,
        v.lines.len() < usize::MAX,
    ensures
        v.inserted(c).valid(),
        v.newline_inserted().valid(),
        v.backspaced().valid(),
        v.moved_left().valid(),
        v.moved_right().valid(),
        v.moved_up().valid(),
        v.moved_down().valid(),
{
    let l = v.cursor_line as int;
    if v.cursor_line > 0 && v.cursor_col == 0 {
        let b = v.backspaced();
        assert(b.lines[l - 1] == v.lines[l - 1] + v.current());
    }
}

/// Moving right then left comes back to the same place, unless the cursor
/// was at the very end of the text.
pub proof fn law_right_then_left(v: CommitFormView)
    requires
        v.valid(),
        v.cursor_col < v.current().len() || v.cursor_line + 1 < v.lines.len(),
        v.current().len() <= usize::MAX,
        v.lines.len() <= usize::MAX,
    ensures
        v.moved_right().moved_left() == v,
{
    if v.cursor_col >= v.current().len() {
        assert(v.cursor_col == v.current().len());
        let w = v.moved_right();
        assert(w.cursor_line == v.cursor_line + 1);
        assert(w.moved_left().cursor_line == v.cursor_line);
        assert(w.moved_left().cursor_col == v.lines[v.cursor_line as int].len());
    }
}


/// Moving up or down keeps the column where the line reached is long
/// enough, and otherwise stops at that line's end: the new column is the
/// smaller of the old column and the new line's length. The text never
/// changes, and at the first (last) line moving up (down) does nothing.
pub proof fn law_vertical_moves_keep_column(v: CommitFormView)
    requires
        v.valid(),
        v.lines.len() <= usize::MAX,
    ensures
        v.moved_up().lines == v.lines,
        v.moved_down().lines == v.lines,
        v.cursor_line == 0 ==> v.moved_up() == v,
        v.cursor_line + 1 == v.lines.len() ==> v.moved_down() == v,
        v.cursor_line > 0 ==> {
            let up = v.moved_up();
            let len = v.lines[v.cursor_line - 1].len();
            &&& up.cursor_line == v.cursor_line - 1
            &&& up.cursor_col <= v.cursor_col
            &&& up.cursor_col <= len
            &&& (up.cursor_col == v.cursor_col || up.cursor_col == len)
        },
        v.cursor_line + 1 < v.lines.len() ==> {
            let down = v.moved_down();
            let len = v.lines[v.cursor_line + 1].len();
            &&& down.cursor_line == v.cursor_line + 1
            &&& down.cursor_col <= v.cursor_col
            &&& down.cursor_col <= len
            &&& (down.cursor_col == v.cursor_col || down.cursor_col == len)
        },
{
}

} // verus!
