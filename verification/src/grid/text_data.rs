//! The text format of a grid: rows of equal width, one per line, each character the
//! dead or the alive one.

use super::dead_alive_char_cells::DeadAliveCharCell;
use super::outer::LifeCell;
use super::text_load_error::TextLoadError;
use crate::text::chars_of;
use vstd::prelude::*;

verus! {

/// How many characters stand before the first line feed of `text`; its length where it
/// holds none.
pub open spec fn line_end(text: Seq<char>) -> nat
    decreases text.len(),
{
    if text.len() == 0 || text[0] == '\n' {
        0
    } else {
        1 + line_end(text.skip(1))
    }
}

/// A line that a line feed ended loses the carriage return before it, if there is one.
pub open spec fn without_cr(line: Seq<char>) -> Seq<char> {
    if line.len() > 0 && line.last() == '\r' {
        line.drop_last()
    } else {
        line
    }
}

/// The lines of `text`. A line ends with a line feed or with a carriage return and a
/// line feed, neither of which belongs to it. After the last line the ending may be
/// missing; what the text ends with is then kept as it is. The empty text has no line.
pub open spec fn text_rows(text: Seq<char>) -> Seq<Seq<char>>
    decreases text.len(),
{
    if text.len() == 0 {
        Seq::empty()
    } else {
        let end = line_end(text) as int;
        if end >= text.len() {
            seq![text]
        } else {
            seq![without_cr(text.take(end))] + text_rows(text.skip(end + 1))
        }
    }
}

/// A text from which a grid can be built has a first line, and that line has a cell.
pub open spec fn has_cells(text: Seq<char>) -> bool {
    text_rows(text).len() > 0 && text_rows(text)[0].len() > 0
}

/// The first character of `row`, from `from` on, that is neither `dead` nor `alive`.
pub open spec fn first_foreign(row: Seq<char>, from: int, dead: char, alive: char) -> Option<char>
    decreases row.len() - from,
{
    if from < 0 || from >= row.len() {
        None
    } else if row[from] != dead && row[from] != alive {
        Some(row[from])
    } else {
        first_foreign(row, from + 1, dead, alive)
    }
}

/// What is wrong with one row: a width other than `width` comes before a character
/// that stands for no cell.
pub open spec fn row_fault(row: Seq<char>, width: int, dead: char, alive: char) -> Option<
    TextLoadError,
> {
    if row.len() != width {
        Some(TextLoadError::UnEqualWidth(width as usize))
    } else {
        match first_foreign(row, 0, dead, alive) {
            Some(c) => Some(TextLoadError::NotValidCellChar(c)),
            None => None,
        }
    }
}

/// What is wrong with the first faulty row among those from `from` on.
pub open spec fn rows_fault(
    rows: Seq<Seq<char>>,
    from: int,
    width: int,
    dead: char,
    alive: char,
) -> Option<TextLoadError>
    decreases rows.len() - from,
{
    if from < 0 || from >= rows.len() {
        None
    } else {
        match row_fault(rows[from], width, dead, alive) {
            Some(fault) => Some(fault),
            None => rows_fault(rows, from + 1, width, dead, alive),
        }
    }
}

/// Why `text` is no grid over `dead` and `alive`, if it is none: the fault of its first
/// faulty row, where every row is held to the width of the first.
pub open spec fn text_fault(text: Seq<char>, dead: char, alive: char) -> Option<TextLoadError> {
    rows_fault(text_rows(text), 0, text_rows(text)[0].len() as int, dead, alive)
}

/// Whether a grid can be built from `text`, as `has_cells` says.
pub fn text_has_cells(text: &str) -> (ok: bool)
    ensures
        ok == has_cells(text@),
{
    let chars = chars_of(text);
    let n = chars.len();
    if n == 0 {
        return false;
    }
    proof {
        let rest = chars@.skip(1);
        if chars@[0] != '\n' {
            if rest.len() > 0 && rest[0] == '\n' {
                assert(line_end(rest) == 0);
                assert(line_end(chars@) == 1);
                assert(chars@.take(1).last() == chars@[0]);
            } else if rest.len() > 0 {
                assert(line_end(rest) == 1 + line_end(rest.skip(1)));
                lemma_line_end_bounds(rest.skip(1));
                assert(line_end(chars@) >= 2);
                if line_end(chars@) < n {
                    assert(without_cr(chars@.take(line_end(chars@) as int)).len() >= 1);
                }
            } else {
                assert(line_end(rest) == 0);
            }
        } else {
            assert(chars@.take(0).len() == 0);
        }
    }
    if chars[0] == '\n' {
        false
    } else if chars[0] == '\r' && n >= 2 && chars[1] == '\n' {
        false
    } else {
        true
    }
}

/// A line ends inside the text or at its end.
pub proof fn lemma_line_end_bounds(text: Seq<char>)
    ensures
        0 <= line_end(text) <= text.len(),
        line_end(text) < text.len() ==> text[line_end(text) as int] == '\n',
        forall|i: int| 0 <= i < line_end(text) ==> text[i] != '\n',
    decreases text.len(),
{
    if text.len() == 0 || text[0] == '\n' {
    } else {
        let rest = text.skip(1);
        lemma_line_end_bounds(rest);
        assert forall|i: int| 0 <= i < line_end(text) implies text[i] != '\n' by {
            if i > 0 {
                assert(text[i] == rest[i - 1]);
            }
        }
    }
}

/// The text of `rows`: one row after the other, with a line feed between two of them and
/// none at the end.
pub open spec fn rows_text(rows: Seq<Seq<char>>) -> Seq<char>
    decreases rows.len(),
{
    if rows.len() == 0 {
        Seq::empty()
    } else if rows.len() == 1 {
        rows[0]
    } else {
        rows_text(rows.drop_last()) + seq!['\n'] + rows.last()
    }
}

/// A row that is read back as it was written: it has a character, holds no line feed
/// and does not end with a carriage return.
pub open spec fn plain_row(row: Seq<char>) -> bool {
    &&& row.len() > 0
    &&& row.last() != '\r'
    &&& forall|i: int| 0 <= i < row.len() ==> row[i] != '\n'
}

/// The first line ends where the first line feed stands.
proof fn lemma_line_end_is(text: Seq<char>, end: int)
    requires
        0 <= end <= text.len(),
        forall|i: int| 0 <= i < end ==> text[i] != '\n',
        end < text.len() ==> text[end] == '\n',
    ensures
        line_end(text) == end,
    decreases end,
{
    if end > 0 {
        let rest = text.skip(1);
        assert forall|i: int| 0 <= i < end - 1 implies rest[i] != '\n' by {
            assert(rest[i] == text[i + 1]);
        }
        lemma_line_end_is(rest, end - 1);
    }
}

/// The text of several rows is the first row, a line feed, and the text of the others.
proof fn lemma_rows_text_from_the_front(first: Seq<char>, others: Seq<Seq<char>>)
    requires
        others.len() > 0,
    ensures
        rows_text(seq![first] + others) == first + seq!['\n'] + rows_text(others),
    decreases others.len(),
{
    let rows = seq![first] + others;
    assert(rows.last() == others.last());
    if others.len() == 1 {
        assert(rows.drop_last() =~= seq![first]);
        assert(rows_text(rows.drop_last()) == first);
        assert(rows_text(others) == others[0]);
    } else {
        assert(rows.drop_last() =~= seq![first] + others.drop_last());
        lemma_rows_text_from_the_front(first, others.drop_last());
        assert(rows_text(rows) =~= first + seq!['\n'] + rows_text(others));
    }
}

/// Rows that are written are read back: the lines of the text of plain rows are those
/// rows.
pub proof fn lemma_text_is_read_back(rows: Seq<Seq<char>>)
    requires
        rows.len() > 0,
        forall|y: int| 0 <= y < rows.len() ==> plain_row(#[trigger] rows[y]),
    ensures
        text_rows(rows_text(rows)) == rows,
    decreases rows.len(),
{
    let text = rows_text(rows);
    let first = rows[0];
    assert(plain_row(first));
    if rows.len() == 1 {
        lemma_line_end_is(text, text.len() as int);
        assert(rows =~= seq![first]);
    } else {
        let others = rows.skip(1);
        assert(rows =~= seq![first] + others);
        lemma_rows_text_from_the_front(first, others);
        let rest = rows_text(others);
        assert(text == first + seq!['\n'] + rest);
        assert forall|i: int| 0 <= i < first.len() implies text[i] != '\n' by {
            assert(text[i] == first[i]);
        }
        assert(text[first.len() as int] == '\n');
        lemma_line_end_is(text, first.len() as int);
        assert(text.take(first.len() as int) =~= first);
        assert(text.skip(first.len() as int + 1) =~= rest);
        assert forall|y: int| 0 <= y < others.len() implies plain_row(#[trigger] others[y]) by {
            assert(others[y] == rows[y + 1]);
        }
        lemma_text_is_read_back(others);
        assert(without_cr(first) == first);
        assert(text_rows(text) == seq![first] + others);
    }
}

/// In a row without a foreign character every character is a cell.
pub proof fn lemma_row_without_fault(row: Seq<char>, from: int, x: int, dead: char, alive: char)
    requires
        0 <= from <= x < row.len(),
        first_foreign(row, from, dead, alive) is None,
    ensures
        row[x] == dead || row[x] == alive,
    decreases x - from,
{
    if from < x {
        lemma_row_without_fault(row, from + 1, x, dead, alive);
    }
}

/// Among rows without a fault every row has the width and holds cells only.
pub proof fn lemma_rows_without_fault(
    rows: Seq<Seq<char>>,
    from: int,
    y: int,
    width: int,
    dead: char,
    alive: char,
)
    requires
        0 <= from <= y < rows.len(),
        rows_fault(rows, from, width, dead, alive) is None,
    ensures
        rows[y].len() == width,
        first_foreign(rows[y], 0, dead, alive) is None,
    decreases y - from,
{
    if from < y {
        lemma_rows_without_fault(rows, from + 1, y, width, dead, alive);
    }
}

/// A row that holds cells only holds no foreign character.
pub proof fn lemma_sound_row(row: Seq<char>, from: int, dead: char, alive: char)
    requires
        0 <= from,
        forall|x: int| from <= x < row.len() ==> row[x] == dead || row[x] == alive,
    ensures
        first_foreign(row, from, dead, alive) is None,
    decreases row.len() - from,
{
    if from < row.len() {
        lemma_sound_row(row, from + 1, dead, alive);
    }
}

/// Where no row has a fault, none is found.
pub proof fn lemma_sound_rows(rows: Seq<Seq<char>>, from: int, width: int, dead: char, alive: char)
    requires
        0 <= from,
        forall|y: int|
            from <= y < rows.len() ==> row_fault(#[trigger] rows[y], width, dead, alive) is None,
    ensures
        rows_fault(rows, from, width, dead, alive) is None,
    decreases rows.len() - from,
{
    if from < rows.len() {
        lemma_sound_rows(rows, from + 1, width, dead, alive);
    }
}

/// `data` cut into `height` pieces of `width` characters each.
pub open spec fn chunks(data: Seq<char>, width: int, height: int) -> Seq<Seq<char>> {
    Seq::new(height as nat, |y: int| data.subrange(y * width, y * width + width))
}

/// One more row behind `height` rows is one more chunk.
proof fn lemma_chunks_push(data: Seq<char>, row: Seq<char>, width: int, height: int)
    requires
        width > 0,
        height >= 0,
        data.len() == height * width,
        row.len() == width,
    ensures
        (data + row).len() == (height + 1) * width,
        chunks(data + row, width, height + 1) == chunks(data, width, height).push(row),
{
    assert((height + 1) * width == height * width + width) by (nonlinear_arith);
    let long = chunks(data + row, width, height + 1);
    let short = chunks(data, width, height).push(row);
    assert forall|y: int| 0 <= y < height + 1 implies long[y] == short[y] by {
        assert(0 <= y * width) by (nonlinear_arith)
            requires
                0 <= y,
                width > 0,
        ;
        if y < height {
            assert(y * width + width <= height * width) by (nonlinear_arith)
                requires
                    0 <= y < height,
                    width > 0,
            ;
            assert((data + row).subrange(y * width, y * width + width) =~= data.subrange(
                y * width,
                y * width + width,
            ));
        } else {
            assert((data + row).subrange(y * width, y * width + width) =~= row);
        }
    }
    assert(long =~= short);
}

/// The row of `chars` that starts at `start`: it stands from `start` up to `extent.0`,
/// and the row after it, if there is one, starts at `extent.1`.
fn row_at(chars: &Vec<char>, start: usize) -> (extent: (usize, usize))
    requires
        start < chars@.len(),
    ensures
        start <= extent.0 <= extent.1 <= chars@.len(),
        start < extent.1,
        text_rows(chars@.skip(start as int)) == seq![
            chars@.subrange(start as int, extent.0 as int),
        ] + text_rows(chars@.skip(extent.1 as int)),
{
    let n = chars.len();
    let ghost tail = chars@.skip(start as int);
    let mut end: usize = start;
    assert(tail.skip(0) =~= tail);
    while end < n && chars[end] != '\n'
        invariant
            n == chars@.len(),
            start <= end <= n,
            tail == chars@.skip(start as int),
            line_end(tail) == (end - start) + line_end(tail.skip(end - start)),
        decreases n - end,
    {
        assert(tail.skip(end - start).skip(1) =~= tail.skip(end - start + 1));
        end += 1;
    }
    assert(line_end(tail) == end - start);
    if end < n {
        let stop = if end > start && chars[end - 1] == '\r' {
            end - 1
        } else {
            end
        };
        proof {
            assert(tail.take(end - start) =~= chars@.subrange(start as int, end as int));
            assert(tail.skip(end - start + 1) =~= chars@.skip(end + 1));
            assert(without_cr(tail.take(end - start)) =~= chars@.subrange(
                start as int,
                stop as int,
            ));
        }
        (stop, end + 1)
    } else {
        proof {
            assert(tail =~= chars@.subrange(start as int, n as int));
            assert(chars@.skip(n as int).len() == 0);
            assert(seq![tail] =~= seq![tail] + Seq::<Seq<char>>::empty());
        }
        (n, n)
    }
}

/// Puts the characters of `chars` from `start` up to `stop` behind `text_date`, as far
/// as they are `dead` or `alive`, and hands back the first one that is neither.
fn push_row(
    text_date: &mut Vec<char>,
    chars: &Vec<char>,
    start: usize,
    stop: usize,
    dead: char,
    alive: char,
) -> (foreign: Option<char>)
    requires
        start <= stop <= chars@.len(),
        forall|k: int|
            0 <= k < old(text_date)@.len() ==> old(text_date)@[k] == dead || old(text_date)@[k]
                == alive,
    ensures
        foreign == first_foreign(chars@.subrange(start as int, stop as int), 0, dead, alive),
        foreign is None ==> final(text_date)@ == old(text_date)@ + chars@.subrange(
            start as int,
            stop as int,
        ),
        forall|k: int|
            0 <= k < final(text_date)@.len() ==> final(text_date)@[k] == dead
                || final(text_date)@[k] == alive,
{
    let ghost row = chars@.subrange(start as int, stop as int);
    let ghost before = text_date@;
    let mut i: usize = start;
    assert(before + row.take(0) =~= before);
    while i < stop
        invariant
            start <= i <= stop <= chars@.len(),
            row == chars@.subrange(start as int, stop as int),
            first_foreign(row, 0, dead, alive) == first_foreign(row, i - start, dead, alive),
            text_date@ == before + row.take(i - start),
            forall|k: int|
                0 <= k < text_date@.len() ==> text_date@[k] == dead || text_date@[k] == alive,
        decreases stop - i,
    {
        let c = chars[i];
        assert(row[i - start] == c);
        if c != dead && c != alive {
            return Some(c);
        }
        text_date.push(c);
        assert(before + row.take(i - start + 1) =~= (before + row.take(i - start)).push(c));
        i += 1;
    }
    assert(row.take(stop - start) =~= row);
    None
}

/// A text that was found to be a grid: `height` rows of `width` cells, each written as
/// the dead or the alive character.
pub struct TextData {
    dead_char: char,
    alive_char: char,
    width: usize,
    height: usize,
    text_date: Vec<char>,
}

impl TextData {
    #[verifier::type_invariant]
    spec fn well_formed(&self) -> bool {
        &&& self.width > 0
        &&& self.height > 0
        &&& self.text_date@.len() == self.height * self.width
        &&& forall|i: int|
            0 <= i < self.text_date@.len() ==> self.text_date@[i] == self.dead_char
                || self.text_date@[i] == self.alive_char
    }

    pub closed spec fn spec_width(&self) -> nat {
        self.width as nat
    }

    pub closed spec fn spec_height(&self) -> nat {
        self.height as nat
    }

    pub closed spec fn spec_dead_char(&self) -> char {
        self.dead_char
    }

    pub closed spec fn spec_alive_char(&self) -> char {
        self.alive_char
    }

    /// The rows from top to bottom, each from left to right.
    pub closed spec fn rows(&self) -> Seq<Seq<char>> {
        chunks(self.text_date@, self.width as int, self.height as int)
    }

    /// The cell that the character in row `y`, column `x` stands for. Where one
    /// character was given for both states, it stands for a dead cell.
    pub open spec fn spec_cell_at_y_x(&self, y: int, x: int) -> LifeCell {
        if self.rows()[y][x] == self.spec_dead_char() {
            LifeCell::Dead
        } else {
            LifeCell::Alive
        }
    }

    /// Reads `text` as a grid. Every line is a row; the first one sets the width. The
    /// rows are looked at from the top: the first one that is faulty decides the error,
    /// a wrong width before a character that is no cell.
    pub fn new(text: &str, dead_alive: DeadAliveCharCell) -> (result: Result<Self, TextLoadError>)
        requires
            has_cells(text@),
        ensures
            match result {
                Ok(data) => {
                    &&& text_fault(text@, dead_alive.spec_dead(), dead_alive.spec_alive()) is None
                    &&& data.rows() == text_rows(text@)
                    &&& data.spec_height() == text_rows(text@).len()
                    &&& data.spec_width() == text_rows(text@)[0].len()
                    &&& data.spec_dead_char() == dead_alive.spec_dead()
                    &&& data.spec_alive_char() == dead_alive.spec_alive()
                },
                Err(error) => text_fault(text@, dead_alive.spec_dead(), dead_alive.spec_alive())
                    == Some(error),
            },
    {
        let chars = chars_of(text);
        let n = chars.len();
        let (dead_char, alive_char) = (dead_alive.dead(), dead_alive.alive());
        let ghost rows = text_rows(chars@);
        let ghost first_width = rows[0].len() as int;
        let mut text_date: Vec<char> = Vec::new();
        let mut width: usize = 0;
        let mut height: usize = 0;
        let mut start: usize = 0;
        proof {
            assert(chars@.skip(0) =~= chars@);
            assert(rows.skip(0) =~= rows);
            assert(chunks(text_date@, first_width, 0) =~= rows.take(0));
        }
        while start < n
            invariant
                chars@ == text@,
                dead_char == dead_alive.spec_dead(),
                alive_char == dead_alive.spec_alive(),
                n == chars@.len(),
                start <= n,
                height <= start,
                rows == text_rows(chars@),
                rows.len() > 0,
                first_width == rows[0].len() > 0,
                height <= rows.len(),
                text_rows(chars@.skip(start as int)) == rows.skip(height as int),
                height > 0 ==> width == first_width,
                rows_fault(rows, 0, first_width, dead_char, alive_char) == rows_fault(
                    rows,
                    height as int,
                    first_width,
                    dead_char,
                    alive_char,
                ),
                text_date@.len() == height * first_width,
                chunks(text_date@, first_width, height as int) == rows.take(height as int),
                forall|i: int|
                    0 <= i < text_date@.len() ==> text_date@[i] == dead_char || text_date@[i]
                        == alive_char,
            decreases n - start,
        {
            let (stop, next) = row_at(&chars, start);
            let ghost row = chars@.subrange(start as int, stop as int);
            let ghost before = text_date@;
            proof {
                let rest = text_rows(chars@.skip(next as int));
                assert(rows.skip(height as int) == seq![row] + rest);
                assert((seq![row] + rest).len() == 1 + rest.len());
                assert(height < rows.len());
                assert((seq![row] + rest)[0] == row);
                assert(rows.skip(height as int)[0] == rows[height as int]);
                assert(rows.skip(height as int).skip(1) =~= rows.skip(height + 1));
                assert((seq![row] + rest).skip(1) =~= rest);
            }
            if height == 0 {
                width = stop - start;
            }
            if stop - start != width {
                return Err(TextLoadError::UnEqualWidth(width));
            }
            match push_row(&mut text_date, &chars, start, stop, dead_char, alive_char) {
                Some(foreign) => {
                    return Err(TextLoadError::NotValidCellChar(foreign));
                },
                None => {},
            }
            proof {
                lemma_chunks_push(before, row, first_width, height as int);
                assert(rows.take(height + 1) =~= rows.take(height as int).push(row));
            }
            height += 1;
            start = next;
        }
        proof {
            assert(chars@.skip(start as int).len() == 0);
            assert(rows.skip(height as int).len() == 0);
            assert(rows.take(height as int) =~= rows);
        }
        Ok(TextData { dead_char, alive_char, width, height, text_date })
    }

    /// The width of every row.
    pub fn width(&self) -> (width: usize)
        ensures
            width == self.spec_width(),
            width > 0,
            forall|y: int|
                0 <= y < self.spec_height() ==> (#[trigger] self.rows()[y]).len()
                    == self.spec_width(),
    {
        proof {
            use_type_invariant(self);
            assert forall|y: int| 0 <= y < self.spec_height() implies (#[trigger] self.rows()[y]).len()
                == self.spec_width() by {
                assert(0 <= y * self.width && y * self.width + self.width <= self.height
                    * self.width) by (nonlinear_arith)
                    requires
                        0 <= y < self.height,
                ;
            }
        }
        self.width
    }

    /// The number of rows.
    pub fn height(&self) -> (height: usize)
        ensures
            height == self.spec_height(),
            height > 0,
            self.rows().len() == self.spec_height(),
            self.spec_height() * self.spec_width() <= usize::MAX,
    {
        proof {
            use_type_invariant(self);
            assert(self.text_date.len() == self.text_date@.len());
        }
        self.height
    }

    /// Every character that was loaded is the dead or the alive one, so every cell has
    /// a state. `y` and `x` have to lie inside the grid.
    pub fn cell_at_y_x(&self, y: usize, x: usize) -> (cell: LifeCell)
        requires
            y < self.spec_height(),
            x < self.spec_width(),
        ensures
            cell == self.spec_cell_at_y_x(y as int, x as int),
    {
        proof {
            use_type_invariant(self);
            assert(self.text_date.len() == self.text_date@.len());
            assert(y * self.width + self.width <= self.height * self.width) by (nonlinear_arith)
                requires
                    y < self.height,
            ;
            assert(0 <= y * self.width) by (nonlinear_arith);
            assert(self.rows()[y as int][x as int] == self.text_date@[y * self.width + x]);
        }
        let index = super::y_x_to_index(self.width, y, x);
        let char_cell = self.text_date[index];
        if self.dead_char == char_cell {
            LifeCell::Dead
        } else {
            LifeCell::Alive
        }
    }
}

} // verus!
