//! The terminal emulator behind a pane.
//!
//! Emulation is `vt100`'s. What a screen shows is a function of what the
//! emulator has been given so far, and contracts speak of it in those terms.
//!
//! There are bytes at which the emulator gives up: lines that wrap on a screen of
//! one row, characters that are wider than the screen, tabs on very wide screens,
//! and whatever comes to a screen that has cut a wide character in two when it
//! became narrower. A [`Display`] knows which bytes its emulator can take.
use vstd::prelude::*;

use crate::stream::{
    no_bytes_do_nothing, nothing_read, passage, passage_after, passage_from,
    plain_text_takes_its_columns, Letter, Passage, Phase, Reading,
};
use crate::text::text_option;

verus! {

/// One thing that an emulator has been given.
pub enum EmulatorInput {
    /// It was made with this size.
    Start { rows: u16, cols: u16 },
    /// It got these bytes to interpret.
    Bytes(Seq<u8>),
    /// It got another size.
    Resize { rows: u16, cols: u16 },
}

/// A `vt100::Parser` without scrollback.
#[verifier::external_body]
pub struct Emulator {
    parser: vt100::Parser,
}

/// What an emulator has been given, in order.
pub uninterp spec fn fed_to(emulator: Emulator) -> Seq<EmulatorInput>;

/// The text that a screen shows in a cell, where it has that cell.
pub uninterp spec fn cell_shown(given: Seq<EmulatorInput>, row: u16, col: u16) -> Option<Seq<char>>;

/// Whether a cell holds the first half of a wide character.
pub uninterp spec fn wide_shown(given: Seq<EmulatorInput>, row: u16, col: u16) -> bool;

/// Whether the alternate screen is the one that is shown.
pub uninterp spec fn alternate_shown(given: Seq<EmulatorInput>) -> bool;

/// The row and the column of the cursor.
pub uninterp spec fn cursor_shown(given: Seq<EmulatorInput>) -> (u16, u16);

/// The bytes that draw the screen again.
pub uninterp spec fn redraw_of(given: Seq<EmulatorInput>) -> Seq<u8>;

/// The rows and the columns of a screen: those that it was last told.
pub open spec fn size_of(given: Seq<EmulatorInput>) -> (u16, u16)
    decreases given.len(),
{
    if given.len() == 0 {
        (0, 0)
    } else {
        match given.last() {
            EmulatorInput::Start { rows, cols } => (rows, cols),
            EmulatorInput::Resize { rows, cols } => (rows, cols),
            EmulatorInput::Bytes(_) => size_of(given.drop_last()),
        }
    }
}

/// What an emulator is in the middle of reading.
pub open spec fn reading_of(given: Seq<EmulatorInput>) -> Reading
    decreases given.len(),
{
    if given.len() == 0 {
        nothing_read()
    } else {
        let before = given.drop_last();
        match given.last() {
            EmulatorInput::Bytes(data) => passage_after(
                passage_from(reading_of(before), cursor_shown(before).1),
                size_of(before).1,
                data,
            ).reading,
            _ => reading_of(before),
        }
    }
}

/// What some more bytes do to a screen.
pub open spec fn passage_of(given: Seq<EmulatorInput>, data: Seq<u8>) -> Passage {
    passage_after(
        passage_from(reading_of(given), cursor_shown(given).1),
        size_of(given).1,
        data,
    )
}

/// Whether one of the first rows shows the first half of a wide character in a
/// column.
pub open spec fn wide_in(given: Seq<EmulatorInput>, rows: u16, col: u16) -> bool {
    exists|row: u16| row < rows && #[trigger] wide_shown(given, row, col)
}

/// Whether a screen shows the first half of a wide character in a column.
pub open spec fn wide_at(given: Seq<EmulatorInput>, col: u16) -> bool {
    col < size_of(given).1 && wide_in(given, size_of(given).0, col)
}

/// Whether the screen that is not shown may have the first half of a wide
/// character in a column. What a screen has when it disappears is what it showed
/// before, unless wide characters came in or were moved meanwhile.
pub open spec fn hidden_at(given: Seq<EmulatorInput>, col: u16) -> bool
    decreases given.len(),
{
    if given.len() == 0 {
        false
    } else {
        let before = given.drop_last();
        match given.last() {
            EmulatorInput::Bytes(data) => {
                let done = passage_of(before, data);
                if done.switches == 0 {
                    hidden_at(before, col)
                } else if done.left_behind {
                    true
                } else if done.switches > 1 {
                    hidden_at(before, col) || wide_at(before, col)
                } else if alternate_shown(given) != alternate_shown(before) {
                    wide_at(before, col)
                } else {
                    hidden_at(before, col)
                }
            },
            _ => hidden_at(before, col),
        }
    }
}

/// Whether the screen that is shown has cut a wide character in two when it
/// became narrower.
pub open spec fn is_cut(given: Seq<EmulatorInput>) -> bool
    decreases given.len(),
{
    if given.len() == 0 {
        false
    } else {
        let before = given.drop_last();
        is_cut(before) || match given.last() {
            EmulatorInput::Resize { rows, cols } => 0 < cols < size_of(before).1 && wide_in(
                before,
                if rows < size_of(before).0 {
                    rows
                } else {
                    size_of(before).0
                },
                (cols - 1) as u16,
            ),
            _ => false,
        }
    }
}

/// Whether the screen that is not shown may have cut a wide character in two. A
/// change to it has been taken only where it was cleared.
pub open spec fn hidden_cut(given: Seq<EmulatorInput>) -> bool
    decreases given.len(),
{
    if given.len() == 0 {
        false
    } else {
        let before = given.drop_last();
        match given.last() {
            EmulatorInput::Bytes(data) => hidden_cut(before) && passage_of(before, data).switches
                == 0,
            EmulatorInput::Resize { cols, .. } => hidden_cut(before) || (0 < cols < size_of(
                before,
            ).1 && hidden_at(before, (cols - 1) as u16)),
            EmulatorInput::Start { .. } => hidden_cut(before),
        }
    }
}

/// The most columns on which every tab stop has a number.
pub const MOST_COLUMNS: u16 = 65527;

/// Whether an emulator can take some bytes. Every character has room, lines wrap
/// only where there is a row to wrap to, tab stops have numbers, and no wide
/// character was cut in two on a screen that is written to.
pub open spec fn can_take(given: Seq<EmulatorInput>, data: Seq<u8>) -> bool {
    let (rows, cols) = size_of(given);
    let done = passage_of(given, data);
    &&& done.widest <= cols
    &&& rows > 1 || done.fits
    &&& cols <= MOST_COLUMNS || !done.tabs
    &&& !is_cut(given)
    &&& hidden_cut(given) ==> done.switches == 0 || (done.clears && !alternate_shown(given))
}

impl View for Emulator {
    type V = Seq<EmulatorInput>;

    open spec fn view(&self) -> Seq<EmulatorInput> {
        fed_to(*self)
    }
}

impl Emulator {
    /// `vt100::Parser::new` without scrollback. It computes the number of the
    /// last row, so a screen without rows or columns is left out.
    #[verifier::external_body]
    fn new(rows: u16, cols: u16) -> (emulator: Self)
        requires
            rows > 0,
            cols > 0,
        ensures
            fed_to(emulator) == seq![EmulatorInput::Start { rows, cols }],
    {
        Emulator { parser: vt100::Parser::new(rows, cols, 0) }
    }

    /// `vt100::Parser::process`. Four inputs on which it gives up are left out: a
    /// line that wraps on a screen of one row, a character for which there are
    /// too few columns, a tab behind the last tab stop that has a number, and
    /// the erasing or overwriting of a wide character of which a narrower size
    /// has cut off the second half, on either of the two screens. So it is trusted
    /// too that `vte` finds no character or sequence in the bytes that `stream`
    /// does not, and that none is wider than `columns_of` says.
    #[verifier::external_body]
    fn process(&mut self, data: &[u8])
        requires
            can_take(fed_to(*old(self)), data@),
        ensures
            fed_to(*final(self)) == fed_to(*old(self)).push(EmulatorInput::Bytes(data@)),
    {
        self.parser.process(data);
    }

    /// `vt100::Screen::set_size`. It computes the number of the last row and of
    /// the last column, so a size without rows or columns is left out.
    #[verifier::external_body]
    fn set_size(&mut self, rows: u16, cols: u16)
        requires
            rows > 0,
            cols > 0,
        ensures
            fed_to(*final(self)) == fed_to(*old(self)).push(EmulatorInput::Resize { rows, cols }),
    {
        self.parser.screen_mut().set_size(rows, cols);
    }

    /// `vt100::Screen::size`: only a new size changes it, whatever bytes come in.
    #[verifier::external_body]
    fn size(&self) -> (size: (u16, u16))
        ensures
            size == size_of(fed_to(*self)),
    {
        self.parser.screen().size()
    }

    /// `vt100::Screen::cell` and the cell's `contents`: the text in a row and a
    /// column, where there is such a cell.
    #[verifier::external_body]
    fn cell(&self, row: u16, col: u16) -> (r: Option<String>)
        ensures
            text_option(r) == cell_shown(fed_to(*self), row, col),
    {
        self.parser.screen().cell(row, col).map(|cell| cell.contents().to_string())
    }

    /// `vt100::Screen::cell` and the cell's `is_wide`: whether a cell holds the
    /// first half of a wide character, which no cell outside the screen does.
    #[verifier::external_body]
    fn is_wide(&self, row: u16, col: u16) -> (yes: bool)
        ensures
            yes == wide_shown(fed_to(*self), row, col),
    {
        self.parser.screen().cell(row, col).is_some_and(vt100::Cell::is_wide)
    }

    /// `vt100::Screen::alternate_screen`: whether the alternate screen is shown.
    #[verifier::external_body]
    fn alternate_screen(&self) -> (yes: bool)
        ensures
            yes == alternate_shown(fed_to(*self)),
    {
        self.parser.screen().alternate_screen()
    }

    /// `vt100::Screen::cursor_position`: the row, which is one of the screen, and
    /// the column, which is one past the last where a row has just been filled.
    #[verifier::external_body]
    fn cursor_position(&self) -> (at: (u16, u16))
        ensures
            at == cursor_shown(fed_to(*self)),
            at.0 < size_of(fed_to(*self)).0,
            at.1 <= size_of(fed_to(*self)).1,
    {
        self.parser.screen().cursor_position()
    }

    /// `vt100::Screen::contents_formatted`: bytes that draw the screen again.
    #[verifier::external_body]
    fn contents_formatted(&self) -> (bytes: Vec<u8>)
        ensures
            bytes@ == redraw_of(fed_to(*self)),
    {
        self.parser.screen().contents_formatted()
    }
}

fn has_column(columns: &Vec<u16>, col: u16) -> (yes: bool)
    ensures
        yes == columns@.contains(col),
{
    let mut i: usize = 0;
    while i < columns.len()
        invariant
            i <= columns.len(),
            forall|k: int| 0 <= k < i ==> columns@[k] != col,
        decreases columns.len() - i,
    {
        if columns[i] == col {
            return true;
        }
        i = i + 1;
    }
    false
}

/// An emulator, with a memory of what it needs to tell which bytes it can take.
pub struct Display {
    emulator: Emulator,
    reading: Reading,
    cut: bool,
    hidden_cut: bool,
    /// Columns in which the hidden screen may have the first half of a wide
    /// character.
    hidden: Vec<u16>,
    /// Whether it may have one in any column.
    anywhere: bool,
}

impl View for Display {
    type V = Seq<EmulatorInput>;

    closed spec fn view(&self) -> Seq<EmulatorInput> {
        self.emulator@
    }
}

impl Display {
    /// The memory is of what the emulator has been given.
    pub closed spec fn wf(&self) -> bool {
        &&& self.reading == reading_of(self@)
        &&& self.reading.letter.wf()
        &&& self.cut == is_cut(self@)
        &&& self.hidden_cut == hidden_cut(self@)
        &&& forall|col: u16| #[trigger]
            hidden_at(self@, col) == (self.anywhere || self.hidden@.contains(col))
    }

    /// An empty screen.
    pub(crate) fn new(rows: u16, cols: u16) -> (display: Self)
        requires
            rows > 0,
            cols > 0,
        ensures
            display.wf(),
            display@ == seq![EmulatorInput::Start { rows, cols }],
            size_of(display@) == (rows, cols),
    {
        let display = Display {
            emulator: Emulator::new(rows, cols),
            reading: Reading {
                letter: Letter { code: 0, left: 0, least: 0 },
                phase: Phase::Ground,
            },
            cut: false,
            hidden_cut: false,
            hidden: Vec::new(),
            anywhere: false,
        };
        proof {
            reveal_with_fuel(reading_of, 2);
            reveal_with_fuel(is_cut, 2);
            reveal_with_fuel(hidden_cut, 2);
            reveal_with_fuel(hidden_at, 2);
            assert(display@.drop_last() =~= Seq::empty());
        }
        display
    }

    fn passage(&self, data: &[u8]) -> (done: Passage)
        requires
            self.wf(),
        ensures
            done == passage_of(self@, data@),
            done.reading.letter.wf(),
    {
        let (_, cols) = self.emulator.size();
        let (_, col) = self.emulator.cursor_position();
        passage(self.reading, col, cols, data)
    }

    /// Whether some bytes can be taken.
    pub(crate) fn takes(&self, data: &[u8]) -> (yes: bool)
        requires
            self.wf(),
        ensures
            yes == can_take(self@, data@),
    {
        let (rows, cols) = self.emulator.size();
        let done = self.passage(data);
        done.widest <= cols && (rows > 1 || done.fits) && (cols <= MOST_COLUMNS || !done.tabs)
            && !self.cut && (!self.hidden_cut || done.switches == 0 || (done.clears
            && !self.emulator.alternate_screen()))
    }

    fn wide_in(&self, rows: u16, col: u16) -> (yes: bool)
        ensures
            yes == wide_in(self@, rows, col),
    {
        let mut row: u16 = 0;
        while row < rows
            invariant
                row <= rows,
                forall|r: u16| r < row ==> !#[trigger] wide_shown(self@, r, col),
            decreases rows - row,
        {
            if self.emulator.is_wide(row, col) {
                return true;
            }
            row = row + 1;
        }
        false
    }

    fn wide_columns(&self) -> (columns: Vec<u16>)
        ensures
            forall|col: u16| #[trigger] columns@.contains(col) == wide_at(self@, col),
    {
        let (rows, cols) = self.emulator.size();
        let mut columns: Vec<u16> = Vec::new();
        let mut col: u16 = 0;
        while col < cols
            invariant
                col <= cols,
                (rows, cols) == size_of(self@),
                forall|c: u16| #[trigger]
                    columns@.contains(c) == (c < col && wide_in(self@, rows, c)),
            decreases cols - col,
        {
            let ghost before = columns@;
            if self.wide_in(rows, col) {
                columns.push(col);
                assert forall|c: u16| #[trigger]
                    columns@.contains(c) == (before.contains(c) || c == col) by {
                    if before.contains(c) {
                        assert(columns@[before.index_of(c)] == c);
                    }
                    assert(columns@[before.len() as int] == col);
                    if columns@.contains(c) && c != col {
                        assert(before[columns@.index_of(c)] == c);
                    }
                }
            }
            col = col + 1;
        }
        columns
    }

    /// Interprets some bytes.
    pub(crate) fn process(&mut self, data: &[u8])
        requires
            old(self).wf(),
            can_take(old(self)@, data@),
        ensures
            final(self).wf(),
            final(self)@ == old(self)@.push(EmulatorInput::Bytes(data@)),
            size_of(final(self)@) == size_of(old(self)@),
    {
        let done = self.passage(data);
        if done.switches == 0 {
            self.emulator.process(data);
        } else {
            let mut columns = self.wide_columns();
            let before = self.emulator.alternate_screen();
            self.emulator.process(data);
            let after = self.emulator.alternate_screen();
            self.hidden_cut = false;
            if done.left_behind {
                self.anywhere = true;
            } else if done.switches > 1 {
                let ghost first = columns@;
                let ghost second = self.hidden@;
                columns.append(&mut self.hidden);
                assert forall|c: u16| #[trigger]
                    columns@.contains(c) == (first.contains(c) || second.contains(c)) by {
                    if first.contains(c) {
                        assert(columns@[first.index_of(c)] == c);
                    }
                    if second.contains(c) {
                        assert(columns@[first.len() + second.index_of(c)] == c);
                    }
                    if columns@.contains(c) {
                        let k = columns@.index_of(c);
                        if k < first.len() {
                            assert(first[k] == c);
                        } else {
                            assert(second[k - first.len()] == c);
                        }
                    }
                }
                self.hidden = columns;
            } else if before != after {
                self.hidden = columns;
                self.anywhere = false;
            }
        }
        self.reading = done.reading;
        assert(self@.drop_last() =~= old(self)@);
        assert forall|col: u16| #[trigger]
            hidden_at(self@, col) == (self.anywhere || self.hidden@.contains(col)) by {
            assert(hidden_at(old(self)@, col) == (old(self).anywhere || old(self).hidden@.contains(
                col,
            )));
        }
    }

    /// Takes over a new size.
    pub(crate) fn set_size(&mut self, rows: u16, cols: u16)
        requires
            old(self).wf(),
            rows > 0,
            cols > 0,
        ensures
            final(self).wf(),
            final(self)@ == old(self)@.push(EmulatorInput::Resize { rows, cols }),
            size_of(final(self)@) == (rows, cols),
    {
        let (rows_before, cols_before) = self.emulator.size();
        if cols < cols_before {
            let kept = if rows < rows_before {
                rows
            } else {
                rows_before
            };
            if self.wide_in(kept, cols - 1) {
                self.cut = true;
            }
            if self.anywhere || has_column(&self.hidden, cols - 1) {
                self.hidden_cut = true;
            }
        }
        self.emulator.set_size(rows, cols);
        assert(self@.drop_last() =~= old(self)@);
        assert forall|col: u16| #[trigger]
            hidden_at(self@, col) == (self.anywhere || self.hidden@.contains(col)) by {
            assert(hidden_at(old(self)@, col) == (old(self).anywhere || old(self).hidden@.contains(
                col,
            )));
        }
    }

    /// The rows and the columns.
    pub(crate) fn size(&self) -> (size: (u16, u16))
        ensures
            size == size_of(self@),
    {
        self.emulator.size()
    }

    /// The text in a cell, where there is such a cell.
    pub(crate) fn cell(&self, row: u16, col: u16) -> (r: Option<String>)
        ensures
            text_option(r) == cell_shown(self@, row, col),
    {
        self.emulator.cell(row, col)
    }

    /// The row and the column of the cursor.
    pub(crate) fn cursor_position(&self) -> (at: (u16, u16))
        ensures
            at == cursor_shown(self@),
            at.0 < size_of(self@).0,
            at.1 <= size_of(self@).1,
    {
        self.emulator.cursor_position()
    }

    /// The bytes that draw the screen again.
    pub(crate) fn contents_formatted(&self) -> (bytes: Vec<u8>)
        ensures
            bytes@ == redraw_of(self@),
    {
        self.emulator.contents_formatted()
    }
}

/// A screen of two rows or more that is neither very narrow nor very wide takes
/// all bytes, unless it has cut a wide character in two.
pub proof fn whole_screens_take_everything(given: Seq<EmulatorInput>, data: Seq<u8>)
    requires
        size_of(given).0 > 1,
        3 <= size_of(given).1 <= MOST_COLUMNS,
        !is_cut(given),
        !hidden_cut(given),
    ensures
        can_take(given, data),
{
    lemma_widest(passage_from(reading_of(given), cursor_shown(given).1), size_of(given).1, data);
}

proof fn lemma_widest(before: Passage, cols: u16, data: Seq<u8>)
    requires
        before.widest <= 3,
    ensures
        passage_after(before, cols, data).widest <= 3,
    decreases data.len(),
{
    if data.len() > 0 {
        lemma_widest(before, cols, data.drop_last());
    }
}

/// Bytes cut no character in two, nor does a size with as many columns or more,
/// nor one at whose last column no wide character begins.
pub proof fn only_the_edge_cuts(given: Seq<EmulatorInput>, next: EmulatorInput)
    requires
        next matches EmulatorInput::Resize { cols, .. } ==> cols >= size_of(given).1 || (cols > 0
            && !wide_at(given, (cols - 1) as u16) && !hidden_at(given, (cols - 1) as u16)),
    ensures
        is_cut(given.push(next)) == is_cut(given),
        hidden_cut(given.push(next)) ==> hidden_cut(given),
{
    assert(given.push(next).drop_last() =~= given);
}

/// A screen has the size that it was last given, whatever bytes came in since.
pub proof fn last_size_holds(given: Seq<EmulatorInput>, rows: u16, cols: u16, data: Seq<u8>)
    ensures
        size_of(given.push(EmulatorInput::Resize { rows, cols })) == (rows, cols),
        size_of(given.push(EmulatorInput::Start { rows, cols })) == (rows, cols),
        size_of(given.push(EmulatorInput::Bytes(data))) == size_of(given),
{
    assert(given.push(EmulatorInput::Bytes(data)).drop_last() =~= given);
}

/// A wide character at the new edge of a narrower screen is cut in two, and that
/// is noticed: from then on the screen takes nothing, whatever else it is given.
pub proof fn cut_screens_take_nothing(
    given: Seq<EmulatorInput>,
    rows: u16,
    cols: u16,
    row: u16,
    next: EmulatorInput,
    data: Seq<u8>,
)
    requires
        0 < cols < size_of(given).1,
        row < rows,
        row < size_of(given).0,
        wide_shown(given, row, (cols - 1) as u16),
    ensures
        ({
            let cut = given.push(EmulatorInput::Resize { rows, cols });
            &&& !can_take(cut, data)
            &&& !can_take(cut.push(next), data)
        }),
{
    let cut = given.push(EmulatorInput::Resize { rows, cols });
    assert(cut.drop_last() =~= given);
    assert(cut.push(next).drop_last() =~= cut);
}

/// On a screen of one row plain text is taken if and only if it ends at the last
/// column or before it.
pub proof fn one_row_takes_what_fits(given: Seq<EmulatorInput>, text: Seq<u8>)
    requires
        size_of(given).0 == 1,
        0 < size_of(given).1 <= MOST_COLUMNS,
        cursor_shown(given).1 <= size_of(given).1,
        reading_of(given) == nothing_read(),
        !is_cut(given),
        !hidden_cut(given),
        text.len() > 0,
        forall|i: int| 0 <= i < text.len() ==> 0x20 <= #[trigger] text[i] < 0x7f,
    ensures
        can_take(given, text) <==> cursor_shown(given).1 + text.len() <= size_of(given).1,
{
    plain_text_takes_its_columns(
        passage_from(reading_of(given), cursor_shown(given).1),
        size_of(given).1,
        text,
    );
}

/// Nothing can always be taken, but by a screen that has cut a character in two.
pub proof fn nothing_is_always_taken(given: Seq<EmulatorInput>)
    ensures
        can_take(given, Seq::empty()) <==> !is_cut(given),
        size_of(Seq::empty()) == (0u16, 0u16),
{
    no_bytes_do_nothing(reading_of(given), cursor_shown(given).1, size_of(given).1);
}

/// What is known of the screen that is not shown. A change of screens leaves
/// behind what was shown, wherever a wide character stood in any row, as long as
/// none came in or moved meanwhile; without a change nothing is forgotten.
pub proof fn hidden_screen_is_remembered(given: Seq<EmulatorInput>, data: Seq<u8>, col: u16)
    ensures
        ({
            let after = given.push(EmulatorInput::Bytes(data));
            let done = passage_of(given, data);
            let stood = col < size_of(given).1 && exists|row: u16|
                row < size_of(given).0 && #[trigger] wide_shown(given, row, col);
            let changed = alternate_shown(after) != alternate_shown(given);
            &&& done.switches == 0 ==> hidden_at(after, col) == hidden_at(given, col)
            &&& done.switches > 0 && done.left_behind ==> hidden_at(after, col)
            &&& done.switches == 1 && !done.left_behind ==> hidden_at(after, col) == (if changed {
                stood
            } else {
                hidden_at(given, col)
            })
            &&& done.switches > 1 && !done.left_behind ==> hidden_at(after, col) == (hidden_at(
                given,
                col,
            ) || stood)
            &&& hidden_cut(after) <==> hidden_cut(given) && done.switches == 0
        }),
{
    assert(given.push(EmulatorInput::Bytes(data)).drop_last() =~= given);
}

/// A wide character at the new edge of the screen that is not shown is cut in two
/// as well, and from then on no change to that screen is taken unless it clears
/// it.
pub proof fn hidden_cut_bars_the_change(
    given: Seq<EmulatorInput>,
    rows: u16,
    cols: u16,
    data: Seq<u8>,
)
    ensures
        ({
            let narrow = given.push(EmulatorInput::Resize { rows, cols });
            let edge = 0 < cols < size_of(given).1 && hidden_at(given, (cols - 1) as u16);
            &&& hidden_cut(narrow) <==> hidden_cut(given) || edge
            &&& forall|col: u16| #[trigger] hidden_at(narrow, col) == hidden_at(given, col)
        }),
        hidden_cut(given) && passage_of(given, data).switches > 0 && (alternate_shown(given)
            || !passage_of(given, data).clears) ==> !can_take(given, data),
{
    assert(given.push(EmulatorInput::Resize { rows, cols }).drop_last() =~= given);
}

} // verus!
