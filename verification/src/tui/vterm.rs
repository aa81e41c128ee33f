//! The terminal behind a pane, with a memory of what has been drawn of it.
use vstd::prelude::*;
use std::collections::hash_map::DefaultHasher;
use std::hash::Hasher;
use vstd::std_specs::hash::DefaultHasherAdditionalSpecFns;
use vstd::utf8::{encode_scalar, encode_utf8, encode_utf8_decode_utf8};

use crate::emulator::{
    can_take, cell_shown, cursor_shown, redraw_of, size_of, Display, EmulatorInput,
};
use crate::text::text_option;

verus! {

/// A terminal as contracts speak of it: what its emulator has been given, and a
/// fingerprint of each row from the last look.
#[verifier::ext_equal]
pub struct Terminal {
    pub given: Seq<EmulatorInput>,
    pub prints: Seq<u64>,
}

/// A terminal emulator that knows which rows have changed.
pub struct VirtualTerminal {
    display: Display,
    prev_row_hashes: Vec<u64>,
}

impl View for VirtualTerminal {
    type V = Terminal;

    closed spec fn view(&self) -> Terminal {
        Terminal { given: self.display@, prints: self.prev_row_hashes@ }
    }
}

/// What the first `cols` cells of a row put into its fingerprint: the bytes of
/// each cell, with a byte after them that ends no text.
pub open spec fn row_ink(given: Seq<EmulatorInput>, row: u16, cols: nat) -> Seq<Seq<u8>>
    decreases cols,
{
    if cols == 0 {
        Seq::empty()
    } else {
        let before = row_ink(given, row, (cols - 1) as nat);
        match cell_shown(given, row, (cols - 1) as u16) {
            Some(text) => before.push(encode_utf8(text)).push(seq![0xffu8]),
            None => before,
        }
    }
}

/// The fingerprint of a row.
pub open spec fn fingerprint(given: Seq<EmulatorInput>, row: u16) -> u64 {
    DefaultHasher::spec_finish(row_ink(given, row, size_of(given).1 as nat))
}

/// Those of the first `rows` rows, in order, whose fingerprint is not the
/// remembered one.
pub open spec fn dirty_rows(terminal: Terminal, rows: nat) -> Seq<u16>
    decreases rows,
{
    if rows == 0 {
        Seq::empty()
    } else {
        let before = dirty_rows(terminal, (rows - 1) as nat);
        let row = (rows - 1) as u16;
        if terminal.prints[row as int] != fingerprint(terminal.given, row) {
            before.push(row)
        } else {
            before
        }
    }
}

/// The terminal after each row has been looked at.
pub open spec fn looked_at(terminal: Terminal) -> Terminal {
    Terminal {
        given: terminal.given,
        prints: Seq::new(
            size_of(terminal.given).0 as nat,
            |row: int| fingerprint(terminal.given, row as u16),
        ),
    }
}

impl VirtualTerminal {
    /// There is one remembered fingerprint for each row, and the emulator's
    /// memory is right.
    pub closed spec fn wf(&self) -> bool {
        &&& self@.prints.len() == size_of(self@.given).0
        &&& self.display.wf()
    }

    /// An empty screen of the given size. No row has been looked at.
    pub fn new(rows: u16, cols: u16) -> (terminal: Self)
        requires
            rows > 0,
            cols > 0,
        ensures
            terminal.wf(),
            terminal@.given == seq![EmulatorInput::Start { rows, cols }],
            terminal@.prints == Seq::new(rows as nat, |i: int| 0u64),
            size_of(terminal@.given) == (rows, cols),
    {
        let terminal = Self {
            display: Display::new(rows, cols),
            prev_row_hashes: vec![0u64; rows as usize],
        };
        assert(terminal@.prints =~= Seq::new(rows as nat, |i: int| 0u64));
        terminal
    }

    /// Whether what a program has written can be interpreted.
    pub fn takes(&self, data: &[u8]) -> (yes: bool)
        requires
            self.wf(),
        ensures
            yes == can_take(self@.given, data@),
    {
        self.display.takes(data)
    }

    /// Interprets what a program has written.
    pub fn process(&mut self, data: &[u8])
        requires
            old(self).wf(),
            can_take(old(self)@.given, data@),
        ensures
            final(self).wf(),
            final(self)@.given == old(self)@.given.push(EmulatorInput::Bytes(data@)),
            final(self)@.prints == old(self)@.prints,
            size_of(final(self)@.given) == size_of(old(self)@.given),
    {
        self.display.process(data);
    }

    /// Interprets what a program has written where that is possible, and leaves
    /// everything as it is where it is not.
    pub fn try_process(&mut self, data: &[u8]) -> (done: bool)
        requires
            old(self).wf(),
        ensures
            final(self).wf(),
            done == can_take(old(self)@.given, data@),
            final(self)@.given == if done {
                old(self)@.given.push(EmulatorInput::Bytes(data@))
            } else {
                old(self)@.given
            },
            final(self)@.prints == old(self)@.prints,
            size_of(final(self)@.given) == size_of(old(self)@.given),
    {
        if self.takes(data) {
            self.process(data);
            true
        } else {
            false
        }
    }

    /// Takes over a new size. All rows count as never looked at.
    pub fn resize(&mut self, rows: u16, cols: u16)
        requires
            old(self).wf(),
            rows > 0,
            cols > 0,
        ensures
            final(self).wf(),
            final(self)@.given == old(self)@.given.push(EmulatorInput::Resize { rows, cols }),
            final(self)@.prints == Seq::new(rows as nat, |i: int| 0u64),
            size_of(final(self)@.given) == (rows, cols),
    {
        self.display.set_size(rows, cols);
        self.prev_row_hashes = vec![0u64; rows as usize];
        assert(self@.prints =~= Seq::new(rows as nat, |i: int| 0u64));
    }

    /// The text in a cell, where there is such a cell.
    pub fn cell(&self, row: u16, col: u16) -> (r: Option<String>)
        ensures
            text_option(r) == cell_shown(self@.given, row, col),
    {
        self.display.cell(row, col)
    }

    /// The bytes that draw the screen again.
    pub fn snapshot(&self) -> (bytes: Vec<u8>)
        ensures
            bytes@ == redraw_of(self@.given),
    {
        self.display.contents_formatted()
    }

    /// The row and the column of the cursor.
    pub fn cursor_position(&self) -> (at: (u16, u16))
        ensures
            at == cursor_shown(self@.given),
            at.0 < size_of(self@.given).0,
            at.1 <= size_of(self@.given).1,
    {
        self.display.cursor_position()
    }

    fn row_hash(&self, row: u16, cols: u16) -> (hash: u64)
        requires
            cols == size_of(self@.given).1,
        ensures
            hash == fingerprint(self@.given, row),
    {
        let mut hasher = DefaultHasher::new();
        let mut c: u16 = 0;
        while c < cols
            invariant
                c <= cols,
                hasher@ == row_ink(self@.given, row, c as nat),
            decreases cols - c,
        {
            if let Some(text) = self.display.cell(row, c) {
                hasher.write(text.as_str().as_bytes());
                let end: [u8; 1] = [0xff];
                hasher.write(&end);
                assert(end@ =~= seq![0xffu8]);
            }
            c = c + 1;
        }
        hasher.finish()
    }

    /// The rows that have changed since they were last looked at. They count as
    /// looked at from now on.
    pub fn take_dirty_rows(&mut self) -> (dirty: Vec<u16>)
        requires
            old(self).wf(),
        ensures
            final(self).wf(),
            final(self)@ == looked_at(old(self)@),
            dirty@ == dirty_rows(old(self)@, size_of(old(self)@.given).0 as nat),
    {
        let (rows, cols) = self.display.size();
        let mut dirty: Vec<u16> = Vec::new();
        let ghost before = self@;
        let mut r: u16 = 0;
        while r < rows
            invariant
                r <= rows,
                (rows, cols) == size_of(before.given),
                self@.given == before.given,
                self.display.wf(),
                self@.prints.len() == rows,
                before.prints.len() == rows,
                forall|i: int|
                    0 <= i < r ==> #[trigger] self@.prints[i] == fingerprint(
                        before.given,
                        i as u16,
                    ),
                forall|i: int| r <= i < rows ==> #[trigger] self@.prints[i] == before.prints[i],
                dirty@ == dirty_rows(before, r as nat),
            decreases rows - r,
        {
            let h: u64 = self.row_hash(r, cols);
            assert(self@.prints[r as int] == before.prints[r as int]);
            if self.prev_row_hashes[r as usize] != h {
                dirty.push(r);
            }
            self.prev_row_hashes.set(r as usize, h);
            r = r + 1;
        }
        assert(self@ =~= looked_at(before));
        dirty
    }
}

/// A row is reported if and only if its fingerprint is not the remembered one,
/// and rows are reported in order, each once.
pub proof fn dirty_rows_are_the_changed_ones(terminal: Terminal, rows: nat)
    requires
        rows <= u16::MAX,
    ensures
        forall|row: u16| #[trigger]
            dirty_rows(terminal, rows).contains(row) <==> row < rows && terminal.prints[row as int]
                != fingerprint(terminal.given, row),
        forall|i: int, j: int|
            0 <= i < j < dirty_rows(terminal, rows).len() ==> dirty_rows(terminal, rows)[i]
                < dirty_rows(terminal, rows)[j],
    decreases rows,
{
    if rows > 0 {
        let last = (rows - 1) as u16;
        let before = dirty_rows(terminal, (rows - 1) as nat);
        dirty_rows_are_the_changed_ones(terminal, (rows - 1) as nat);
        let now = dirty_rows(terminal, rows);
        assert forall|i: int| 0 <= i < before.len() implies #[trigger] before[i] < last by {
            assert(before.contains(before[i]));
        }
        assert forall|row: u16| #[trigger] now.contains(row) <==> row < rows
            && terminal.prints[row as int] != fingerprint(terminal.given, row) by {
            if before.contains(row) {
                let i = before.index_of(row);
                assert(now[i] == row);
            }
            if now.contains(row) && row != last {
                let i = now.index_of(row);
                assert(before[i] == row);
            }
            if now.len() > before.len() {
                assert(now[before.len() as int] == last);
            }
            if now.contains(last) {
                let i = now.index_of(last);
                if i < before.len() {
                    assert(before[i] == last);
                }
            }
        }
    }
}

/// Two looks with nothing in between: the second one finds no changed row.
pub proof fn second_look_finds_nothing(terminal: Terminal, rows: nat)
    requires
        rows <= size_of(terminal.given).0,
    ensures
        dirty_rows(looked_at(terminal), rows) == Seq::<u16>::empty(),
    decreases rows,
{
    if rows > 0 {
        second_look_finds_nothing(terminal, (rows - 1) as nat);
    }
}

/// A row that shows the same cells as at the last look is not reported, whatever
/// the terminal has been given since.
pub proof fn unchanged_row_is_not_reported(terminal: Terminal, later: Seq<EmulatorInput>, row: u16)
    requires
        size_of(later) == size_of(terminal.given),
        row < size_of(later).0,
        forall|col: u16| #[trigger]
            cell_shown(later, row, col) == cell_shown(terminal.given, row, col),
    ensures
        !dirty_rows(
            (Terminal { given: later, prints: looked_at(terminal).prints }),
            size_of(later).0 as nat,
        ).contains(row),
{
    let now = Terminal { given: later, prints: looked_at(terminal).prints };
    lemma_same_cells_same_ink(terminal.given, later, row, size_of(later).1 as nat);
    dirty_rows_are_the_changed_ones(now, size_of(later).0 as nat);
}

proof fn lemma_same_cells_same_ink(
    a: Seq<EmulatorInput>,
    b: Seq<EmulatorInput>,
    row: u16,
    cols: nat,
)
    requires
        forall|col: u16| #[trigger] cell_shown(b, row, col) == cell_shown(a, row, col),
    ensures
        row_ink(a, row, cols) == row_ink(b, row, cols),
    decreases cols,
{
    if cols > 0 {
        lemma_same_cells_same_ink(a, b, row, (cols - 1) as nat);
    }
}

/// The fingerprint of a row takes in every cell: of two screens with the same
/// cells in a row, what goes into its hash is the same if and only if each of
/// them shows the same text.
pub proof fn ink_tells_rows_apart(
    a: Seq<EmulatorInput>,
    b: Seq<EmulatorInput>,
    row: u16,
    cols: nat,
)
    requires
        cols <= u16::MAX,
        forall|col: u16|
            col < cols ==> (#[trigger] cell_shown(a, row, col) is Some) == (cell_shown(
                b,
                row,
                col,
            ) is Some),
    ensures
        row_ink(a, row, cols) == row_ink(b, row, cols) <==> forall|col: u16|
            col < cols ==> #[trigger] cell_shown(a, row, col) == cell_shown(b, row, col),
    decreases cols,
{
    if cols > 0 {
        let last = (cols - 1) as u16;
        let (ink_a, ink_b) = (row_ink(a, row, cols), row_ink(b, row, cols));
        let before_a = row_ink(a, row, (cols - 1) as nat);
        let before_b = row_ink(b, row, (cols - 1) as nat);
        ink_tells_rows_apart(a, b, row, (cols - 1) as nat);
        if let Some(shown_a) = cell_shown(a, row, last) {
            let shown_b = cell_shown(b, row, last).unwrap();
            encode_utf8_decode_utf8(shown_a);
            encode_utf8_decode_utf8(shown_b);
            if ink_a == ink_b {
                assert(before_a =~= ink_a.take(ink_a.len() - 2));
                assert(before_b =~= ink_b.take(ink_b.len() - 2));
                assert(ink_a[ink_a.len() - 2] == encode_utf8(shown_a));
                assert(ink_b[ink_b.len() - 2] == encode_utf8(shown_b));
            }
        }
        if before_a == before_b && cell_shown(a, row, last) == cell_shown(b, row, last) {
            assert(ink_a == ink_b);
            assert forall|col: u16| col < cols implies #[trigger] cell_shown(a, row, col)
                == cell_shown(b, row, col) by {
                if col != last {
                    assert(col < cols - 1);
                }
            }
        }
        if ink_a == ink_b {
            assert(cell_shown(a, row, last) == cell_shown(b, row, last));
        }
    }
}

/// A row is reported if and only if one of its cells has changed since the last
/// look, as long as the hasher tells the two contents of the row apart.
pub proof fn changed_row_is_reported(terminal: Terminal, later: Seq<EmulatorInput>, row: u16)
    requires
        size_of(later) == size_of(terminal.given),
        row < size_of(later).0,
        forall|col: u16|
            col < size_of(later).1 ==> (#[trigger] cell_shown(later, row, col) is Some) == (
            cell_shown(terminal.given, row, col) is Some),
        ({
            let was = row_ink(terminal.given, row, size_of(later).1 as nat);
            let is = row_ink(later, row, size_of(later).1 as nat);
            was != is ==> DefaultHasher::spec_finish(was) != DefaultHasher::spec_finish(is)
        }),
    ensures
        dirty_rows(
            (Terminal { given: later, prints: looked_at(terminal).prints }),
            size_of(later).0 as nat,
        ).contains(row) <==> exists|col: u16|
            col < size_of(later).1 && #[trigger] cell_shown(later, row, col) != cell_shown(
                terminal.given,
                row,
                col,
            ),
{
    let now = Terminal { given: later, prints: looked_at(terminal).prints };
    ink_tells_rows_apart(later, terminal.given, row, size_of(later).1 as nat);
    dirty_rows_are_the_changed_ones(now, size_of(later).0 as nat);
}

/// The bytes that reach the hasher, one after the other, tell rows apart: a mark
/// that is no part of any text ends each cell, so that text cannot move from one
/// cell to the next unnoticed.
pub proof fn hashed_bytes_tell_rows_apart(
    a: Seq<EmulatorInput>,
    b: Seq<EmulatorInput>,
    row: u16,
    cols: nat,
)
    requires
        cols <= u16::MAX,
        forall|col: u16|
            col < cols ==> (#[trigger] cell_shown(a, row, col) is Some) == (cell_shown(
                b,
                row,
                col,
            ) is Some),
        row_ink(a, row, cols).flatten() == row_ink(b, row, cols).flatten(),
    ensures
        forall|col: u16|
            col < cols ==> #[trigger] cell_shown(a, row, col) == cell_shown(b, row, col),
    decreases cols,
{
    if cols > 0 {
        let last = (cols - 1) as u16;
        let fa = row_ink(a, row, (cols - 1) as nat).flatten();
        let fb = row_ink(b, row, (cols - 1) as nat).flatten();
        lemma_ink_ends_with_a_mark(a, row, (cols - 1) as nat);
        lemma_ink_ends_with_a_mark(b, row, (cols - 1) as nat);
        if let Some(shown_a) = cell_shown(a, row, last) {
            let shown_b = cell_shown(b, row, last).unwrap();
            let (ea, eb) = (encode_utf8(shown_a), encode_utf8(shown_b));
            lemma_flatten_two(row_ink(a, row, (cols - 1) as nat), ea, seq![0xffu8]);
            lemma_flatten_two(row_ink(b, row, (cols - 1) as nat), eb, seq![0xffu8]);
            lemma_text_has_no_mark(shown_a);
            lemma_text_has_no_mark(shown_b);
            let whole = fa + ea + seq![0xffu8];
            assert(whole == fb + eb + seq![0xffu8]);
            if fa.len() > fb.len() {
                assert(whole[fa.len() - 1] == 0xff);
                assert((fb + eb + seq![0xffu8])[fa.len() - 1] == eb[fa.len() - 1 - fb.len()]);
            } else if fb.len() > fa.len() {
                assert((fb + eb + seq![0xffu8])[fb.len() - 1] == 0xff);
                assert(whole[fb.len() - 1] == ea[fb.len() - 1 - fa.len()]);
            }
            assert(fa =~= whole.take(fa.len() as int));
            assert(fb =~= (fb + eb + seq![0xffu8]).take(fb.len() as int));
            assert(ea =~= whole.subrange(fa.len() as int, whole.len() - 1));
            assert(eb =~= (fb + eb + seq![0xffu8]).subrange(fb.len() as int, whole.len() - 1));
            encode_utf8_decode_utf8(shown_a);
            encode_utf8_decode_utf8(shown_b);
        }
        hashed_bytes_tell_rows_apart(a, b, row, (cols - 1) as nat);
        assert forall|col: u16| col < cols implies #[trigger] cell_shown(a, row, col) == cell_shown(
            b,
            row,
            col,
        ) by {
            if col != last {
                assert(col < cols - 1);
            }
        }
    }
}

proof fn lemma_flatten_two(ink: Seq<Seq<u8>>, text: Seq<u8>, mark: Seq<u8>)
    ensures
        ink.push(text).push(mark).flatten() == ink.flatten() + text + mark,
{
    let more = ink.push(text).push(mark);
    ink.lemma_flatten_and_flatten_alt_are_equivalent();
    ink.push(text).lemma_flatten_and_flatten_alt_are_equivalent();
    more.lemma_flatten_and_flatten_alt_are_equivalent();
    assert(more.drop_last() =~= ink.push(text));
    assert(ink.push(text).drop_last() =~= ink);
}

proof fn lemma_ink_ends_with_a_mark(given: Seq<EmulatorInput>, row: u16, cols: nat)
    ensures
        row_ink(given, row, cols).flatten().len() > 0 ==> row_ink(given, row, cols).flatten().last()
            == 0xff,
    decreases cols,
{
    if cols > 0 {
        lemma_ink_ends_with_a_mark(given, row, (cols - 1) as nat);
        if let Some(text) = cell_shown(given, row, (cols - 1) as u16) {
            lemma_flatten_two(
                row_ink(given, row, (cols - 1) as nat),
                encode_utf8(text),
                seq![0xffu8],
            );
        }
    } else {
        assert(Seq::<Seq<u8>>::empty().flatten().len() == 0);
    }
}

proof fn lemma_text_has_no_mark(text: Seq<char>)
    ensures
        forall|i: int| 0 <= i < encode_utf8(text).len() ==> #[trigger] encode_utf8(text)[i] != 0xff,
    decreases text.len(),
{
    if text.len() > 0 {
        lemma_text_has_no_mark(text.drop_first());
        let scalar = text[0] as u32;
        let first = encode_scalar(scalar);
        assert((scalar & 0x7F) as u8 != 0xff) by (bit_vector);
        assert((0xC0 | ((scalar >> 6) & 0x1F) as u8) != 0xff) by (bit_vector);
        assert((0xE0 | ((scalar >> 12) & 0x0F) as u8) != 0xff) by (bit_vector);
        assert((0xF0 | ((scalar >> 18) & 0x7) as u8) != 0xff) by (bit_vector);
        assert((0x80 | (scalar & 0x3F) as u8) != 0xff) by (bit_vector);
        assert((0x80 | ((scalar >> 6) & 0x3F) as u8) != 0xff) by (bit_vector);
        assert((0x80 | ((scalar >> 12) & 0x3F) as u8) != 0xff) by (bit_vector);
        let bytes = encode_utf8(text);
        assert forall|i: int| 0 <= i < bytes.len() implies #[trigger] bytes[i] != 0xff by {
            if i < first.len() {
                assert(bytes[i] == first[i]);
            } else {
                assert(bytes[i] == encode_utf8(text.drop_first())[i - first.len()]);
            }
        }
    }
}

} // verus!
