use vstd::prelude::*;
use crate::geometry::LayoutError;
use crate::input::{InputEvent, Key};
use crate::text::{copy_chars, rows_view, splice_rows};

verus! {

/// The longest row an editor buffer holds: a row is addressed in cells.
pub const MAX_LINE_LEN: usize = 65535;

/// The most rows an editor buffer holds: a row is addressed in cells.
pub const MAX_LINES: usize = 65535;

/// The text of an editor, its caret and the first row shown.
pub struct EditorBuffer {
    rows: Vec<Vec<char>>,
    caret_row: usize,
    caret_col: usize,
    scroll_row: usize,
}

pub open spec fn text_ok(text: Seq<Seq<char>>) -> bool {
    &&& 1 <= text.len() <= MAX_LINES
    &&& forall|i: int| 0 <= i < text.len() ==> (#[trigger] text[i]).len() <= MAX_LINE_LEN
}

impl EditorBuffer {
    #[verifier::type_invariant]
    spec fn valid(self) -> bool {
        &&& text_ok(rows_view(self.rows@))
        &&& self.caret_row < self.rows@.len()
        &&& self.caret_col <= self.rows@[self.caret_row as int]@.len()
        &&& self.scroll_row <= self.caret_row
    }

    pub closed spec fn text(self) -> Seq<Seq<char>> {
        rows_view(self.rows@)
    }

    pub closed spec fn row(self) -> int {
        self.caret_row as int
    }

    pub closed spec fn col(self) -> int {
        self.caret_col as int
    }

    pub closed spec fn scroll(self) -> int {
        self.scroll_row as int
    }

    /// One empty row, with the caret at its start.
    pub fn new_empty() -> (r: EditorBuffer)
        ensures
            r.text() == seq![Seq::<char>::empty()],
            r.row() == 0,
            r.col() == 0,
            r.scroll() == 0,
    {
        let rows: Vec<Vec<char>> = vec![Vec::new()];
        assert(rows_view(rows@) =~= seq![Seq::<char>::empty()]);
        EditorBuffer { rows, caret_row: 0, caret_col: 0, scroll_row: 0 }
    }

    /// A buffer holding `rows`, with the caret at the start. Fails with
    /// `RangeError` when there is no row, more than `MAX_LINES` rows, or a row
    /// longer than `MAX_LINE_LEN`.
    pub fn from_rows(rows: Vec<Vec<char>>) -> (r: Result<EditorBuffer, LayoutError>)
        ensures
            r is Ok <==> text_ok(rows_view(rows@)),
            r is Err ==> r == Err::<EditorBuffer, LayoutError>(LayoutError::RangeError),
            r matches Ok(b) ==> b.text() == rows_view(rows@) && b.row() == 0 && b.col() == 0
                && b.scroll() == 0,
    {
        if rows.len() == 0 || rows.len() > MAX_LINES {
            return Err(LayoutError::RangeError);
        }
        let mut i: usize = 0;
        while i < rows.len()
            invariant
                i <= rows@.len(),
                forall|k: int| 0 <= k < i ==> (#[trigger] rows_view(rows@)[k]).len() <= MAX_LINE_LEN,
            decreases rows@.len() - i,
        {
            assert(rows_view(rows@)[i as int] == rows@[i as int]@);
            if rows[i].len() > MAX_LINE_LEN {
                return Err(LayoutError::RangeError);
            }
            i = i + 1;
        }
        Ok(EditorBuffer { rows, caret_row: 0, caret_col: 0, scroll_row: 0 })
    }

    pub fn rows(&self) -> (r: &Vec<Vec<char>>)
        ensures
            rows_view(r@) == self.text(),
    {
        &self.rows
    }

    pub fn caret_row(&self) -> (r: usize)
        ensures
            r == self.row(),
    {
        self.caret_row
    }

    pub fn caret_col(&self) -> (r: usize)
        ensures
            r == self.col(),
    {
        self.caret_col
    }

    pub fn scroll_row(&self) -> (r: usize)
        ensures
            r == self.scroll(),
    {
        self.scroll_row
    }

    /// What every buffer satisfies.
    pub fn lemma_valid(&self)
        ensures
            text_ok(self.text()),
            0 <= self.row() < self.text().len(),
            0 <= self.col() <= self.text()[self.row()].len(),
            0 <= self.scroll() <= self.row(),
    {
        proof {
            use_type_invariant(self);
        }
    }
}

/// Options fixed when an editor engine is made.
#[derive(Clone, Copy, Debug, PartialEq, Eq, Structural)]
pub struct EditorEngineConfig {
    /// Whether Enter splits a row; a single-line editor ignores it.
    pub multiline: bool,
}

/// The reusable editing algorithm; it keeps only its options.
#[derive(Clone, Copy, Debug, PartialEq, Eq, Structural)]
pub struct EditorEngine {
    pub config: EditorEngineConfig,
}

/// What an editor engine made of an event.
pub enum ApplyResponse {
    /// The event changed the buffer or its caret: the new buffer.
    Applied(EditorBuffer),
    /// The event means nothing to the editor.
    NotApplied,
}

pub open spec fn min(a: int, b: int) -> int {
    if a <= b {
        a
    } else {
        b
    }
}

/// The text and caret after `key`, or `None` when the key does nothing here.
pub open spec fn edit(text: Seq<Seq<char>>, row: int, col: int, multiline: bool, key: Key) -> Option<
    (Seq<Seq<char>>, int, int),
> {
    let line = text[row];
    match key {
        Key::Character(ch) => if line.len() < MAX_LINE_LEN {
            Some((text.update(row, line.take(col).push(ch) + line.skip(col)), row, col + 1))
        } else {
            None
        },
        Key::Enter => if multiline && text.len() < MAX_LINES {
            Some((text.take(row) + seq![line.take(col), line.skip(col)] + text.skip(row + 1), row + 1, 0))
        } else {
            None
        },
        Key::Backspace => if col > 0 {
            Some((text.update(row, line.take(col - 1) + line.skip(col)), row, col - 1))
        } else if row > 0 && text[row - 1].len() + line.len() <= MAX_LINE_LEN {
            Some(
                (
                    text.take(row - 1) + seq![text[row - 1] + line] + text.skip(row + 1),
                    row - 1,
                    text[row - 1].len() as int,
                ),
            )
        } else {
            None
        },
        Key::Left => if col > 0 {
            Some((text, row, col - 1))
        } else if row > 0 {
            Some((text, row - 1, text[row - 1].len() as int))
        } else {
            None
        },
        Key::Right => if col < line.len() {
            Some((text, row, col + 1))
        } else if row + 1 < text.len() {
            Some((text, row + 1, 0))
        } else {
            None
        },
        Key::Up => if row > 0 {
            Some((text, row - 1, min(col, text[row - 1].len() as int)))
        } else {
            None
        },
        Key::Down => if row + 1 < text.len() {
            Some((text, row + 1, min(col, text[row + 1].len() as int)))
        } else {
            None
        },
        _ => None,
    }
}

/// `edit` for any input event: only key presses edit.
pub open spec fn edit_in(text: Seq<Seq<char>>, row: int, col: int, multiline: bool, event: InputEvent) -> Option<
    (Seq<Seq<char>>, int, int),
> {
    match event {
        InputEvent::Keyboard(key) => edit(text, row, col, multiline, key),
        _ => None,
    }
}

/// `edit_in` on the text and caret of `b`.
pub open spec fn edit_event(b: EditorBuffer, multiline: bool, event: InputEvent) -> Option<
    (Seq<Seq<char>>, int, int),
> {
    edit_in(b.text(), b.row(), b.col(), multiline, event)
}

proof fn lemma_splice_one(t: Seq<Seq<char>>, r: int, x: Seq<char>)
    requires
        0 <= r < t.len(),
    ensures
        t.take(r) + seq![x] + t.skip(r + 1) == t.update(r, x),
{
    assert(t.take(r) + seq![x] + t.skip(r + 1) =~= t.update(r, x));
}

impl EditorEngine {
    pub fn new(config: EditorEngineConfig) -> (r: EditorEngine)
        ensures
            r.config == config,
    {
        EditorEngine { config }
    }

    /// Applies `event` to `buffer`: `Applied` with the buffer that `edit`
    /// describes, whose first shown row moves up to the caret when the caret
    /// moved above it; `NotApplied` exactly when `edit` gives nothing.
    pub fn apply_event(&self, buffer: &EditorBuffer, event: &InputEvent) -> (r: ApplyResponse)
        ensures
            edit_event(*buffer, self.config.multiline, *event) is None <==> r is NotApplied,
            r matches ApplyResponse::Applied(b) ==> {
                &&& edit_event(*buffer, self.config.multiline, *event) == Some(
                    (b.text(), b.row(), b.col()),
                )
                &&& b.scroll() == min(buffer.scroll(), b.row())
            },
    {
        proof {
            use_type_invariant(buffer);
        }
        let key = match event {
            InputEvent::Keyboard(k) => *k,
            _ => return ApplyResponse::NotApplied,
        };
        let rows = &buffer.rows;
        let row = buffer.caret_row;
        let col = buffer.caret_col;
        let ghost text = rows_view(rows@);
        let line = &rows[row];
        assert(text[row as int] == line@);
        let (new_rows, new_row, new_col): (Vec<Vec<char>>, usize, usize) = match key {
            Key::Character(ch) => {
                if line.len() >= MAX_LINE_LEN {
                    return ApplyResponse::NotApplied;
                }
                let mut changed = copy_chars(line, 0, col);
                changed.push(ch);
                let mut tail = copy_chars(line, col, line.len());
                changed.append(&mut tail);
                let ghost x = changed@;
                let out = splice_rows(rows, row, 1, vec![changed]);
                proof {
                    assert(rows_view(seq![changed]) =~= seq![x]);
                    lemma_splice_one(text, row as int, x);
                    assert(x =~= line@.take(col as int).push(ch) + line@.skip(col as int));
                }
                (out, row, col + 1)
            },
            Key::Enter => {
                if !self.config.multiline || rows.len() >= MAX_LINES {
                    return ApplyResponse::NotApplied;
                }
                let left = copy_chars(line, 0, col);
                let right = copy_chars(line, col, line.len());
                let ghost l = left@;
                let ghost rr = right@;
                let out = splice_rows(rows, row, 1, vec![left, right]);
                proof {
                    assert(rows_view(seq![left, right]) =~= seq![l, rr]);
                    assert(l =~= line@.take(col as int));
                    assert(rr =~= line@.skip(col as int));
                }
                (out, row + 1, 0)
            },
            Key::Backspace => {
                if col > 0 {
                    let mut changed = copy_chars(line, 0, col - 1);
                    let mut tail = copy_chars(line, col, line.len());
                    changed.append(&mut tail);
                    let ghost x = changed@;
                    let out = splice_rows(rows, row, 1, vec![changed]);
                    proof {
                        assert(rows_view(seq![changed]) =~= seq![x]);
                        lemma_splice_one(text, row as int, x);
                        assert(x =~= line@.take(col - 1) + line@.skip(col as int));
                    }
                    (out, row, col - 1)
                } else if row > 0 {
                    let above = &rows[row - 1];
                    assert(text[row - 1] == above@);
                    if above.len() + line.len() > MAX_LINE_LEN {
                        return ApplyResponse::NotApplied;
                    }
                    let mut joined = copy_chars(above, 0, above.len());
                    let mut tail = copy_chars(line, 0, line.len());
                    joined.append(&mut tail);
                    let ghost x = joined@;
                    let out = splice_rows(rows, row - 1, 2, vec![joined]);
                    proof {
                        assert(rows_view(seq![joined]) =~= seq![x]);
                        assert(x =~= above@ + line@);
                    }
                    (out, row - 1, above.len())
                } else {
                    return ApplyResponse::NotApplied;
                }
            },
            Key::Left => {
                if col > 0 {
                    (splice_rows(rows, 0, 0, Vec::new()), row, col - 1)
                } else if row > 0 {
                    assert(text[row - 1] == rows@[row - 1]@);
                    (splice_rows(rows, 0, 0, Vec::new()), row - 1, rows[row - 1].len())
                } else {
                    return ApplyResponse::NotApplied;
                }
            },
            Key::Right => {
                if col < line.len() {
                    (splice_rows(rows, 0, 0, Vec::new()), row, col + 1)
                } else if row + 1 < rows.len() {
                    (splice_rows(rows, 0, 0, Vec::new()), row + 1, 0)
                } else {
                    return ApplyResponse::NotApplied;
                }
            },
            Key::Up => {
                if row > 0 {
                    assert(text[row - 1] == rows@[row - 1]@);
                    let above = rows[row - 1].len();
                    let c = if col <= above {
                        col
                    } else {
                        above
                    };
                    (splice_rows(rows, 0, 0, Vec::new()), row - 1, c)
                } else {
                    return ApplyResponse::NotApplied;
                }
            },
            Key::Down => {
                if row + 1 < rows.len() {
                    assert(text[row + 1] == rows@[row + 1]@);
                    let below = rows[row + 1].len();
                    let c = if col <= below {
                        col
                    } else {
                        below
                    };
                    (splice_rows(rows, 0, 0, Vec::new()), row + 1, c)
                } else {
                    return ApplyResponse::NotApplied;
                }
            },
            _ => {
                return ApplyResponse::NotApplied;
            },
        };
        proof {
            let e = edit(text, row as int, col as int, self.config.multiline, key);
            assert(rows_view(Seq::<Vec<char>>::empty()) =~= Seq::<Seq<char>>::empty());
            assert(text.take(0) + Seq::<Seq<char>>::empty() + text.skip(0) =~= text);
            assert(e == Some((rows_view(new_rows@), new_row as int, new_col as int)));
            let t2 = rows_view(new_rows@);
            assert forall|i: int| 0 <= i < t2.len() implies (#[trigger] t2[i]).len() <= MAX_LINE_LEN by {
                if key is Enter {
                    if i < row {
                        assert(t2[i] == text[i]);
                    } else if i > row + 1 {
                        assert(t2[i] == text[i - 1]);
                    }
                } else if key is Backspace && col == 0 {
                    if i < row - 1 {
                        assert(t2[i] == text[i]);
                    } else if i > row - 1 {
                        assert(t2[i] == text[i + 1]);
                    }
                } else if key is Character {
                    if i != row {
                        assert(t2[i] == text[i]);
                    }
                } else if key is Backspace {
                    if i != row {
                        assert(t2[i] == text[i]);
                    }
                } else {
                    assert(t2[i] == text[i]);
                }
            }
            assert(t2.len() == new_rows@.len());
            assert(new_row < t2.len()) by {
                if key is Enter {
                    assert(t2.len() == text.len() + 1);
                } else if key is Backspace && col == 0 {
                    assert(t2.len() == text.len() - 1);
                } else {
                    assert(t2.len() == text.len());
                }
            }
            assert(t2[new_row as int] == new_rows@[new_row as int]@);
        }
        let scroll = if buffer.scroll_row <= new_row {
            buffer.scroll_row
        } else {
            new_row
        };
        ApplyResponse::Applied(
            EditorBuffer { rows: new_rows, caret_row: new_row, caret_col: new_col, scroll_row: scroll },
        )
    }
}

} // verus!
