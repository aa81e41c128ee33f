//! Drawing into a buffer of terminal output.
use vstd::prelude::*;
use crossterm::cursor::{MoveTo, Show};
use crossterm::style::{Attribute, Print, SetAttribute};
use crossterm::QueueableCommand;
use vstd::utf8::{
    decode_utf8, encode_utf8, encode_utf8_decode_utf8, encode_utf8_valid_utf8, valid_utf8,
};

use super::screen::Rect;
use super::vterm::VirtualTerminal;
use crate::emulator::{cell_shown, EmulatorInput};
use crate::text::{
    chars_of, decimal_digits, pad_right, padded, push_repeated, repeated, text_between,
};
use crate::wire::encode_concat;

verus! {

/// The sequence that moves the cursor to a column and a row, counted from zero.
pub open spec fn move_sequence(x: int, y: int) -> Seq<char> {
    "\x1b["@ + decimal_digits((y + 1) as nat) + ";"@ + decimal_digits((x + 1) as nat) + "H"@
}

/// The sequence that swaps the colours of what follows.
pub open spec fn reverse_sequence() -> Seq<char> {
    "\x1b[7m"@
}

/// The sequence that ends all attributes.
pub open spec fn reset_sequence() -> Seq<char> {
    "\x1b[0m"@
}

/// The sequence that shows the cursor.
pub open spec fn show_sequence() -> Seq<char> {
    "\x1b[?25h"@
}

/// `crossterm`'s `MoveTo`, queued on a buffer. It counts from one on the wire,
/// so the last number that a column or a row could have is left out.
#[verifier::external_body]
fn queue_move(out: &mut Vec<u8>, x: u16, y: u16)
    requires
        x < u16::MAX,
        y < u16::MAX,
    ensures
        final(out)@ == old(out)@ + encode_utf8(move_sequence(x as int, y as int)),
{
    let _ = out.queue(MoveTo(x, y));
}

/// `crossterm`'s `Print`, queued on a buffer: the text as it is.
#[verifier::external_body]
fn queue_text(out: &mut Vec<u8>, text: &str)
    ensures
        final(out)@ == old(out)@ + encode_utf8(text@),
{
    let _ = out.queue(Print(text));
}

/// `crossterm`'s `SetAttribute` with `Attribute::Reverse`, queued on a buffer.
#[verifier::external_body]
fn queue_reverse(out: &mut Vec<u8>)
    ensures
        final(out)@ == old(out)@ + encode_utf8(reverse_sequence()),
{
    let _ = out.queue(SetAttribute(Attribute::Reverse));
}

/// `crossterm`'s `SetAttribute` with `Attribute::Reset`, queued on a buffer.
#[verifier::external_body]
fn queue_reset(out: &mut Vec<u8>)
    ensures
        final(out)@ == old(out)@ + encode_utf8(reset_sequence()),
{
    let _ = out.queue(SetAttribute(Attribute::Reset));
}

/// `crossterm`'s `Show`, queued on a buffer.
#[verifier::external_body]
fn queue_show(out: &mut Vec<u8>)
    ensures
        final(out)@ == old(out)@ + encode_utf8(show_sequence()),
{
    let _ = out.queue(Show);
}

/// What is drawn for a cell: its text, or a blank where it has none.
pub open spec fn ink(cell: Option<Seq<char>>) -> Seq<char> {
    match cell {
        Some(text) => if text.len() == 0 {
            " "@
        } else {
            text
        },
        None => " "@,
    }
}

/// The first `width` cells of a row of a screen, as they are drawn.
pub open spec fn row_line(given: Seq<EmulatorInput>, row: u16, width: nat) -> Seq<char>
    decreases width,
{
    if width == 0 {
        Seq::empty()
    } else {
        row_line(given, row, (width - 1) as nat) + ink(cell_shown(given, row, (width - 1) as u16))
    }
}

/// One row of a screen, drawn at its place in an area.
pub open spec fn drawn_row(given: Seq<EmulatorInput>, area: Rect, row: u16) -> Seq<u8> {
    encode_utf8(move_sequence(area.x as int, area.y + row)) + encode_utf8(
        row_line(given, row, area.width as nat),
    )
}

/// Rows of a screen, drawn one after the other. Rows below the area are left
/// out.
pub open spec fn drawn_rows(given: Seq<EmulatorInput>, area: Rect, rows: Seq<u16>) -> Seq<u8>
    decreases rows.len(),
{
    if rows.len() == 0 {
        Seq::empty()
    } else {
        let before = drawn_rows(given, area, rows.drop_last());
        if rows.last() < area.height {
            before + drawn_row(given, area, rows.last())
        } else {
            before
        }
    }
}

/// The rows from the top down.
pub open spec fn first_rows(n: nat) -> Seq<u16> {
    Seq::new(n, |i: int| i as u16)
}

/// A text cut or filled up with blanks to a number of characters.
pub open spec fn fitted(text: Seq<char>, width: nat) -> Seq<char> {
    if text.len() >= width {
        text.take(width as int)
    } else {
        padded(text, width)
    }
}

/// A status bar with a text, in swapped colours.
pub open spec fn drawn_bar(text: Seq<char>, area: Rect) -> Seq<u8> {
    encode_utf8(move_sequence(area.x as int, area.y as int)) + encode_utf8(reverse_sequence())
        + encode_utf8(fitted(text, area.width as nat)) + encode_utf8(reset_sequence())
}

/// The first `height` cells of a vertical line.
pub open spec fn drawn_column(x: u16, y: u16, height: nat) -> Seq<u8>
    decreases height,
{
    if height == 0 {
        Seq::empty()
    } else {
        drawn_column(x, y, (height - 1) as nat) + encode_utf8(
            move_sequence(x as int, y + height - 1),
        ) + encode_utf8("│"@)
    }
}

/// Whether the cursor can be sent to the start of a row of an area.
pub open spec fn reachable(area: Rect, row: u16) -> bool {
    area.x < u16::MAX && area.y + row < u16::MAX
}

/// Terminal output that has been drawn and not yet been written out.
pub struct Renderer {
    out: Vec<u8>,
}

impl View for Renderer {
    type V = Seq<u8>;

    closed spec fn view(&self) -> Seq<u8> {
        self.out@
    }
}

impl Renderer {
    /// Draws behind what a buffer holds already.
    pub fn new(out: Vec<u8>) -> (renderer: Self)
        ensures
            renderer@ == out@,
    {
        Self { out }
    }

    fn draw_row(&mut self, vterm: &VirtualTerminal, area: &Rect, row: u16)
        requires
            reachable(*area, row),
        ensures
            final(self)@ == old(self)@ + drawn_row(vterm@.given, *area, row),
    {
        queue_move(&mut self.out, area.x, area.y + row);
        let mut line = String::new();
        let mut col: u16 = 0;
        while col < area.width
            invariant
                col <= area.width,
                line@ == row_line(vterm@.given, row, col as nat),
            decreases area.width - col,
        {
            match vterm.cell(row, col) {
                Some(text) => {
                    if chars_of(text.as_str()).len() == 0 {
                        line.append(" ");
                    } else {
                        line.append(text.as_str());
                    }
                },
                None => {
                    line.append(" ");
                },
            }
            col = col + 1;
        }
        queue_text(&mut self.out, line.as_str());
        assert(self@ =~= old(self)@ + drawn_row(vterm@.given, *area, row));
    }

    /// Draws the screen of a terminal into an area.
    pub fn render_vterm(&mut self, vterm: &VirtualTerminal, area: &Rect)
        requires
            forall|row: u16| row < area.height ==> #[trigger] reachable(*area, row),
        ensures
            final(self)@ == old(self)@ + drawn_rows(
                vterm@.given,
                *area,
                first_rows(area.height as nat),
            ),
    {
        let ghost before = self@;
        let ghost given = vterm@.given;
        let mut row: u16 = 0;
        assert(before + drawn_rows(given, *area, first_rows(0)) =~= before);
        while row < area.height
            invariant
                row <= area.height,
                given == vterm@.given,
                forall|r: u16| r < area.height ==> #[trigger] reachable(*area, r),
                self@ == before + drawn_rows(given, *area, first_rows(row as nat)),
            decreases area.height - row,
        {
            assert(reachable(*area, row));
            self.draw_row(vterm, area, row);
            row = row + 1;
            proof {
                let now = first_rows(row as nat);
                assert(now.drop_last() =~= first_rows((row - 1) as nat));
                assert(self@ =~= before + drawn_rows(given, *area, now));
            }
        }
    }

    /// Draws some rows of a terminal's screen into an area.
    pub fn render_vterm_rows(&mut self, vterm: &VirtualTerminal, area: &Rect, rows: &[u16])
        requires
            forall|i: int|
                0 <= i < rows@.len() && rows@[i] < area.height ==> reachable(
                    *area,
                    #[trigger] rows@[i],
                ),
        ensures
            final(self)@ == old(self)@ + drawn_rows(vterm@.given, *area, rows@),
    {
        let ghost before = self@;
        let ghost given = vterm@.given;
        let mut i: usize = 0;
        assert(before + drawn_rows(given, *area, rows@.take(0)) =~= before);
        while i < rows.len()
            invariant
                i <= rows.len(),
                given == vterm@.given,
                forall|i: int|
                    0 <= i < rows@.len() && rows@[i] < area.height ==> reachable(
                        *area,
                        #[trigger] rows@[i],
                    ),
                self@ == before + drawn_rows(given, *area, rows@.take(i as int)),
            decreases rows.len() - i,
        {
            let row: u16 = rows[i];
            if row < area.height {
                self.draw_row(vterm, area, row);
            }
            i = i + 1;
            proof {
                let now = rows@.take(i as int);
                assert(now.drop_last() =~= rows@.take(i - 1));
                assert(self@ =~= before + drawn_rows(given, *area, now));
            }
        }
        assert(rows@.take(i as int) =~= rows@);
    }

    /// Draws a status bar, cut or filled up to the width of its area.
    pub fn render_status_bar(&mut self, text: &str, area: &Rect)
        requires
            reachable(*area, 0),
        ensures
            final(self)@ == old(self)@ + drawn_bar(text@, *area),
    {
        queue_move(&mut self.out, area.x, area.y);
        queue_reverse(&mut self.out);
        let chars = chars_of(text);
        let width: usize = area.width as usize;
        let bar = if chars.len() >= width {
            text_between(&chars, 0, width)
        } else {
            pad_right(text, width)
        };
        assert(bar@ =~= fitted(text@, width as nat));
        queue_text(&mut self.out, bar.as_str());
        queue_reset(&mut self.out);
        assert(self@ =~= old(self)@ + drawn_bar(text@, *area));
    }

    /// Draws a vertical line down from a cell.
    pub fn render_vsep(&mut self, x: u16, y: u16, height: u16)
        requires
            y + height <= u16::MAX,
            height > 0 ==> x < u16::MAX,
        ensures
            final(self)@ == old(self)@ + drawn_column(x, y, height as nat),
    {
        let ghost before = self@;
        let mut i: u16 = 0;
        assert(before + drawn_column(x, y, 0) =~= before);
        while i < height
            invariant
                i <= height,
                y + height <= u16::MAX,
                height > 0 ==> x < u16::MAX,
                self@ == before + drawn_column(x, y, i as nat),
            decreases height - i,
        {
            queue_move(&mut self.out, x, y + i);
            queue_text(&mut self.out, "│");
            i = i + 1;
            assert(self@ =~= before + drawn_column(x, y, i as nat));
        }
    }

    /// Draws a horizontal line to the right from a cell.
    pub fn render_hsep(&mut self, x: u16, y: u16, width: u16)
        requires
            x < u16::MAX,
            y < u16::MAX,
        ensures
            final(self)@ == old(self)@ + encode_utf8(move_sequence(x as int, y as int))
                + encode_utf8(repeated('─', width as nat)),
    {
        queue_move(&mut self.out, x, y);
        let mut line = String::new();
        push_repeated(&mut line, '─', width as usize);
        assert(line@ =~= repeated('─', width as nat));
        queue_text(&mut self.out, line.as_str());
    }

    /// Sends the cursor to a cell and shows it there.
    pub fn place_cursor(&mut self, x: u16, y: u16)
        requires
            x < u16::MAX,
            y < u16::MAX,
        ensures
            final(self)@ == old(self)@ + encode_utf8(move_sequence(x as int, y as int))
                + encode_utf8(show_sequence()),
    {
        queue_move(&mut self.out, x, y);
        queue_show(&mut self.out);
    }

    /// Hands out what has been drawn and starts over.
    pub fn flush(&mut self) -> (out: Vec<u8>)
        ensures
            out@ == old(self)@,
            final(self)@ == Seq::<u8>::empty(),
    {
        let mut out: Vec<u8> = Vec::new();
        std::mem::swap(&mut out, &mut self.out);
        out
    }
}

/// A status bar is as wide as its area, and a text that fits stands at its
/// start.
pub proof fn status_bar_fills_its_width(text: Seq<char>, width: nat)
    ensures
        fitted(text, width).len() == width,
        text.len() <= width ==> fitted(text, width).take(text.len() as int) == text,
        text.len() > width ==> fitted(text, width) == text.take(width as int),
{
    if text.len() <= width {
        assert(fitted(text, width).take(text.len() as int) =~= text);
    }
}

/// Every cell of a row takes at least one character, so no column is lost.
pub proof fn row_line_covers_every_column(given: Seq<EmulatorInput>, row: u16, width: nat)
    ensures
        row_line(given, row, width).len() >= width,
    decreases width,
{
    reveal_strlit(" ");
    if width > 0 {
        row_line_covers_every_column(given, row, (width - 1) as nat);
    }
}

/// A row is drawn cell by cell from the left: what is drawn of fewer columns is
/// the start of what is drawn of more, and each column adds the text of its cell,
/// or one blank where the cell is empty or missing.
pub proof fn row_line_shows_each_cell(
    given: Seq<EmulatorInput>,
    row: u16,
    col: u16,
    width: nat,
)
    requires
        col < width,
    ensures
        ({
            let line = row_line(given, row, width);
            let start = row_line(given, row, col as nat).len() as int;
            let end = row_line(given, row, (col + 1) as nat).len() as int;
            &&& row_line(given, row, 0) == Seq::<char>::empty()
            &&& 0 <= start < end <= line.len()
            &&& line.subrange(start, end) == match cell_shown(given, row, col) {
                Some(text) if text.len() > 0 => text,
                _ => seq![' '],
            }
        }),
    decreases width,
{
    reveal_strlit(" ");
    assert(" "@ =~= seq![' ']);
    let line = row_line(given, row, width);
    let before = row_line(given, row, (width - 1) as nat);
    let start = row_line(given, row, col as nat).len() as int;
    let end = row_line(given, row, (col + 1) as nat).len() as int;
    if col + 1 < width {
        row_line_shows_each_cell(given, row, col, (width - 1) as nat);
        assert(line.subrange(start, end) =~= before.subrange(start, end));
    } else {
        assert(line.subrange(start, end) =~= ink(cell_shown(given, row, col)));
    }
}

/// A drawn row, read as text, goes to its place, the row and then the column
/// counted from one, and shows the cells that the area is wide.
pub proof fn drawn_row_reads_as_its_cells(given: Seq<EmulatorInput>, area: Rect, row: u16)
    ensures
        valid_utf8(drawn_row(given, area, row)),
        decode_utf8(drawn_row(given, area, row)) == seq!['\u{1b}', '['] + decimal_digits(
            (area.y + row + 1) as nat,
        ) + seq![';'] + decimal_digits((area.x + 1) as nat) + seq!['H'] + row_line(
            given,
            row,
            area.width as nat,
        ),
{
    reveal_strlit("\x1b[");
    reveal_strlit(";");
    reveal_strlit("H");
    let line = row_line(given, row, area.width as nat);
    let place = move_sequence(area.x as int, area.y + row);
    encode_concat(place, line);
    encode_utf8_valid_utf8(place + line);
    encode_utf8_decode_utf8(place + line);
    assert(place + line =~= seq!['\u{1b}', '['] + decimal_digits((area.y + row + 1) as nat) + seq![
        ';',
    ] + decimal_digits((area.x + 1) as nat) + seq!['H'] + line);
}

/// Rows are drawn one by one in the order in which they are named. A row that
/// lies in the area is drawn, one below it is not.
pub proof fn rows_are_drawn_one_by_one(
    given: Seq<EmulatorInput>,
    area: Rect,
    a: Seq<u16>,
    b: Seq<u16>,
    row: u16,
)
    ensures
        drawn_rows(given, area, a + b) == drawn_rows(given, area, a) + drawn_rows(given, area, b),
        drawn_rows(given, area, seq![row]) == if row < area.height {
            drawn_row(given, area, row)
        } else {
            Seq::empty()
        },
    decreases b.len(),
{
    reveal_with_fuel(drawn_rows, 2);
    assert(seq![row].drop_last() =~= Seq::empty());
    let whole = drawn_rows(given, area, a) + drawn_rows(given, area, b);
    if b.len() == 0 {
        assert(a + b =~= a);
        assert(drawn_rows(given, area, b) =~= Seq::empty());
        assert(whole =~= drawn_rows(given, area, a));
    } else {
        rows_are_drawn_one_by_one(given, area, a, b.drop_last(), row);
        assert((a + b).drop_last() =~= a + b.drop_last());
        assert((a + b).last() == b.last());
        assert(drawn_rows(given, area, a + b) =~= whole);
    }
    assert(drawn_rows(given, area, seq![row]) =~= if row < area.height {
        drawn_row(given, area, row)
    } else {
        Seq::empty()
    });
}

/// A drawn status bar, read as text, goes to its place, swaps the colours, shows
/// exactly as many characters as it is wide, the text first and then blanks, and
/// ends all attributes.
pub proof fn drawn_bar_reads_as_its_text(text: Seq<char>, area: Rect) -> (shown: Seq<char>)
    ensures
        valid_utf8(drawn_bar(text, area)),
        decode_utf8(drawn_bar(text, area)) == seq!['\u{1b}', '['] + decimal_digits(
            (area.y + 1) as nat,
        ) + seq![';'] + decimal_digits((area.x + 1) as nat) + seq!['H'] + seq![
            '\u{1b}',
            '[',
            '7',
            'm',
        ] + shown + seq!['\u{1b}', '[', '0', 'm'],
        shown.len() == area.width,
        forall|i: int|
            0 <= i < area.width ==> #[trigger] shown[i] == if i < text.len() {
                text[i]
            } else {
                ' '
            },
{
    reveal_strlit("\x1b[");
    reveal_strlit(";");
    reveal_strlit("H");
    reveal_strlit("\x1b[7m");
    reveal_strlit("\x1b[0m");
    let place = move_sequence(area.x as int, area.y as int);
    let shown = fitted(text, area.width as nat);
    encode_concat(place, reverse_sequence());
    encode_concat(place + reverse_sequence(), shown);
    encode_concat(place + reverse_sequence() + shown, reset_sequence());
    let all = place + reverse_sequence() + shown + reset_sequence();
    encode_utf8_valid_utf8(all);
    encode_utf8_decode_utf8(all);
    assert(all =~= seq!['\u{1b}', '['] + decimal_digits((area.y + 1) as nat) + seq![';']
        + decimal_digits((area.x + 1) as nat) + seq!['H'] + seq!['\u{1b}', '[', '7', 'm'] + shown
        + seq!['\u{1b}', '[', '0', 'm']);
    shown
}

/// A vertical line can be drawn in two pieces, one below the other. A piece of
/// one cell, read as text, goes to its place and draws the line there.
pub proof fn vertical_line_is_drawn_cell_by_cell(x: u16, y: u16, upper: u16, lower: nat)
    requires
        y + upper <= u16::MAX,
    ensures
        drawn_column(x, y, 0) == Seq::<u8>::empty(),
        drawn_column(x, y, (upper + lower) as nat) == drawn_column(x, y, upper as nat) + drawn_column(
            x,
            (y + upper) as u16,
            lower,
        ),
        decode_utf8(drawn_column(x, y, 1)) == seq!['\u{1b}', '['] + decimal_digits((y + 1) as nat)
            + seq![';'] + decimal_digits((x + 1) as nat) + seq!['H', '\u{2502}'],
    decreases lower,
{
    if lower == 0 {
        assert(drawn_column(x, y, upper as nat) + Seq::<u8>::empty() =~= drawn_column(
            x,
            y,
            upper as nat,
        ));
    } else {
        vertical_line_is_drawn_cell_by_cell(x, y, upper, (lower - 1) as nat);
        assert(drawn_column(x, y, (upper + lower) as nat) =~= drawn_column(x, y, upper as nat)
            + drawn_column(x, (y + upper) as u16, lower));
    }
    reveal_strlit("\x1b[");
    reveal_strlit(";");
    reveal_strlit("H");
    reveal_strlit("│");
    reveal_with_fuel(drawn_column, 2);
    let place = move_sequence(x as int, y as int);
    encode_concat(place, "│"@);
    encode_utf8_decode_utf8(place + "│"@);
    assert(drawn_column(x, y, 1) =~= encode_utf8(place + "│"@));
    assert(place + "│"@ =~= seq!['\u{1b}', '['] + decimal_digits((y + 1) as nat) + seq![';']
        + decimal_digits((x + 1) as nat) + seq!['H', '\u{2502}']);
}

} // verus!
