//! What a stream of bytes does to the screen of a terminal.
//!
//! A terminal reads text in UTF-8 between escape sequences. This is not an
//! emulation: it tells only where characters are, how many columns they take at
//! most, and which sequences bring the cursor to the right, move characters
//! within a row or change between the two screens.
use vstd::prelude::*;

verus! {

/// The character that is being read.
#[derive(Debug, Clone, Copy, PartialEq, Eq, Structural)]
pub struct Letter {
    /// What its bytes so far say of its number.
    pub code: u32,
    /// How many bytes are missing.
    pub left: u8,
    /// The least number that is written with that many bytes.
    pub least: u32,
}

impl Letter {
    /// The missing bytes are at most three, and the number has room for them.
    pub open spec fn wf(self) -> bool {
        match self.left {
            0 => true,
            1 => self.code < 0x8000,
            2 => self.code < 0x200,
            3 => self.code < 8,
            _ => false,
        }
    }
}

/// No character is being read.
pub open spec fn no_letter() -> Letter {
    Letter { code: 0, left: 0, least: 0 }
}

/// The number of the character that a byte ends. Malformed bytes end none.
pub open spec fn letter_done(before: Letter, byte: u8) -> Option<u32> {
    if byte < 0x80 {
        Some(byte as u32)
    } else if byte < 0xc0 && before.left == 1 && before.code * 64 + (byte - 0x80) >= before.least {
        Some((before.code * 64 + (byte - 0x80)) as u32)
    } else {
        None
    }
}

/// The character that is being read after one more byte.
pub open spec fn next_letter(before: Letter, byte: u8) -> Letter {
    if byte < 0x80 {
        no_letter()
    } else if byte < 0xc0 {
        if before.left > 1 {
            Letter {
                code: (before.code * 64 + (byte - 0x80)) as u32,
                left: (before.left - 1) as u8,
                least: before.least,
            }
        } else {
            no_letter()
        }
    } else if 0xc2 <= byte <= 0xdf {
        Letter { code: (byte - 0xc0) as u32, left: 1, least: 0x80 }
    } else if 0xe0 <= byte <= 0xef {
        Letter { code: (byte - 0xe0) as u32, left: 2, least: 0x800 }
    } else if 0xf0 <= byte <= 0xf4 {
        Letter { code: (byte - 0xf0) as u32, left: 3, least: 0x10000 }
    } else {
        no_letter()
    }
}

/// Whether a character is two columns wide, which `unicode-width` decides.
pub open spec fn is_double(code: u32) -> bool {
    0x1100 <= code <= 0x115f || code == 0x17a4 || 0x231a <= code <= 0x231b
    || 0x2329 <= code <= 0x232a || 0x23e9 <= code <= 0x23ec || code == 0x23f0 || code == 0x23f3
    || 0x25fd <= code <= 0x25fe || 0x2614 <= code <= 0x2615 || 0x2630 <= code <= 0x2637
    || 0x2648 <= code <= 0x2653 || code == 0x267f || 0x268a <= code <= 0x268f || code == 0x2693
    || code == 0x26a1 || 0x26aa <= code <= 0x26ab || 0x26bd <= code <= 0x26be
    || 0x26c4 <= code <= 0x26c5 || code == 0x26ce || code == 0x26d4 || code == 0x26ea
    || 0x26f2 <= code <= 0x26f3 || code == 0x26f5 || code == 0x26fa || code == 0x26fd
    || code == 0x2705 || 0x270a <= code <= 0x270b || code == 0x2728 || code == 0x274c
    || code == 0x274e || 0x2753 <= code <= 0x2755 || code == 0x2757 || 0x2795 <= code <= 0x2797
    || code == 0x27b0 || code == 0x27bf || 0x2b1b <= code <= 0x2b1c || code == 0x2b50
    || code == 0x2b55 || 0x2e80 <= code <= 0x2e99 || 0x2e9b <= code <= 0x2ef3
    || 0x2f00 <= code <= 0x2fd5 || 0x2ff0 <= code <= 0x3029 || 0x3030 <= code <= 0x303e
    || 0x3041 <= code <= 0x3096 || 0x309b <= code <= 0x30ff || 0x3105 <= code <= 0x312f
    || 0x3131 <= code <= 0x3163 || 0x3165 <= code <= 0x318e || 0x3190 <= code <= 0x31e5
    || 0x31ef <= code <= 0x321e || 0x3220 <= code <= 0x3247 || 0x3250 <= code <= 0xa48c
    || 0xa490 <= code <= 0xa4c6 || 0xa960 <= code <= 0xa97c || 0xac00 <= code <= 0xd7a3
    || 0xf900 <= code <= 0xfaff || 0xfe10 <= code <= 0xfe19 || 0xfe30 <= code <= 0xfe52
    || 0xfe54 <= code <= 0xfe66 || 0xfe68 <= code <= 0xfe6b || 0xff01 <= code <= 0xff60
    || 0xffe0 <= code <= 0xffe6 || 0x16fe0 <= code <= 0x16fe3 || 0x16ff2 <= code <= 0x16ff6
    || 0x17000 <= code <= 0x18cda || 0x18cff <= code <= 0x18d20 || 0x18d80 <= code <= 0x18df2
    || 0x18e00 <= code <= 0x19191 || 0x191a0 <= code <= 0x191d2 || 0x1aff0 <= code <= 0x1aff3
    || 0x1aff5 <= code <= 0x1affb || 0x1affd <= code <= 0x1affe || 0x1b000 <= code <= 0x1b128
    || code == 0x1b132 || 0x1b150 <= code <= 0x1b152 || code == 0x1b155
    || 0x1b164 <= code <= 0x1b168 || 0x1b170 <= code <= 0x1b2fb || 0x1d300 <= code <= 0x1d356
    || 0x1d360 <= code <= 0x1d376 || code == 0x1f004 || code == 0x1f0cf || code == 0x1f18e
    || 0x1f191 <= code <= 0x1f19a || code == 0x1f1ae || 0x1f200 <= code <= 0x1f202
    || 0x1f210 <= code <= 0x1f23b || 0x1f240 <= code <= 0x1f248 || 0x1f250 <= code <= 0x1f251
    || 0x1f260 <= code <= 0x1f265 || 0x1f300 <= code <= 0x1f320 || 0x1f32d <= code <= 0x1f335
    || 0x1f337 <= code <= 0x1f37c || 0x1f37e <= code <= 0x1f393 || 0x1f3a0 <= code <= 0x1f3ca
    || 0x1f3cf <= code <= 0x1f3d3 || 0x1f3e0 <= code <= 0x1f3f0 || code == 0x1f3f4
    || 0x1f3f8 <= code <= 0x1f43e || code == 0x1f440 || 0x1f442 <= code <= 0x1f4fc
    || 0x1f4ff <= code <= 0x1f53d || 0x1f54b <= code <= 0x1f54e || 0x1f550 <= code <= 0x1f567
    || code == 0x1f57a || 0x1f595 <= code <= 0x1f596 || code == 0x1f5a4
    || 0x1f5fb <= code <= 0x1f64f || 0x1f680 <= code <= 0x1f6c5 || code == 0x1f6cc
    || 0x1f6d0 <= code <= 0x1f6d2 || 0x1f6d5 <= code <= 0x1f6d9 || 0x1f6dc <= code <= 0x1f6df
    || 0x1f6eb <= code <= 0x1f6ec || 0x1f6f4 <= code <= 0x1f6fc || code == 0x1f7da
    || 0x1f7e0 <= code <= 0x1f7eb || code == 0x1f7f0 || 0x1f90c <= code <= 0x1f93a
    || 0x1f93c <= code <= 0x1f945 || 0x1f947 <= code <= 0x1f9ff || 0x1fa70 <= code <= 0x1fa7c
    || 0x1fa80 <= code <= 0x1fac6 || code == 0x1fac8 || 0x1facc <= code <= 0x1fadd
    || 0x1fadf <= code <= 0x1faeb || 0x1faef <= code <= 0x1fafa || 0x20000 <= code <= 0x2fffd
    || 0x30000 <= code <= 0x3fffd
}

/// The one character that is three columns wide.
pub const TRIPLE: u32 = 0x17d8;

/// The most columns that a character takes. Control characters take none.
pub open spec fn columns_of(code: u32) -> u16 {
    if code < 0x20 || 0x7f <= code < 0xa0 {
        0
    } else if code == TRIPLE {
        3
    } else if is_double(code) {
        2
    } else {
        1
    }
}

/// A control sequence as far as it has been read.
#[derive(Debug, Clone, Copy, PartialEq, Eq, Structural)]
pub struct Control {
    /// Whether it has a question mark.
    pub private: bool,
    /// The number that is being read, or more than any that matters.
    pub number: u32,
    /// Whether a number before that one is the mode of a screen.
    pub marked: bool,
    /// Whether it is nothing but a question mark and digits.
    pub plain: bool,
    /// Whether it is nothing but numbers with semicolons between them.
    pub clean: bool,
    /// How many semicolons it has: none, one, or more.
    pub fields: u8,
}

/// The private mode that is the other screen.
pub const OTHER_SCREEN: u32 = 47;

/// The private mode that is the other screen, cleared.
pub const CLEARED_SCREEN: u32 = 1049;

/// From here on numbers do not matter.
pub const LARGE: u32 = 10000;

/// A control sequence of which nothing has been read.
pub open spec fn new_control() -> Control {
    Control { private: false, number: 0, marked: false, plain: true, clean: true, fields: 0 }
}

/// Whether a private mode is that of a screen.
pub open spec fn is_screen(number: u32) -> bool {
    number == OTHER_SCREEN || number == CLEARED_SCREEN
}

/// A control sequence after one more byte that does not end it.
pub open spec fn next_control(before: Control, byte: u8) -> Control {
    if 0x30 <= byte <= 0x39 {
        Control {
            number: if before.number < LARGE {
                (before.number * 10 + (byte - 0x30)) as u32
            } else {
                LARGE
            },
            plain: before.plain && before.private,
            ..before
        }
    } else if byte == 0x3f {
        Control {
            private: true,
            plain: before.plain && !before.private,
            clean: false,
            ..before
        }
    } else if byte == 0x3a || byte == 0x3b {
        Control {
            number: 0,
            marked: before.marked || is_screen(before.number),
            plain: false,
            clean: before.clean && byte == 0x3b,
            fields: if before.fields == 0 {
                1
            } else {
                2
            },
            ..before
        }
    } else {
        Control { plain: false, clean: false, ..before }
    }
}

/// Where in a stream a terminal is.
#[derive(Debug, Clone, Copy, PartialEq, Eq, Structural)]
pub enum Phase {
    /// In text.
    Ground,
    /// Behind an escape character.
    Escape,
    /// In an escape sequence that has more bytes than one.
    Charset,
    /// In a control sequence.
    Control(Control),
    /// In an operating system command, such as one that sets the title.
    Title,
    /// In another string, or in the text behind it.
    Loose,
}

/// The phase after one more byte.
pub open spec fn next_phase(before: Phase, byte: u8) -> Phase {
    if byte == 0x1b {
        Phase::Escape
    } else if byte == 0x18 || byte == 0x1a {
        Phase::Ground
    } else {
        match before {
            Phase::Ground => Phase::Ground,
            Phase::Escape => if 0x20 <= byte <= 0x2f {
                Phase::Charset
            } else if byte == 0x5b {
                Phase::Control(new_control())
            } else if byte == 0x5d {
                Phase::Title
            } else if byte == 0x50 || byte == 0x58 || byte == 0x5e || byte == 0x5f {
                Phase::Loose
            } else if 0x30 <= byte <= 0x7e {
                Phase::Ground
            } else {
                Phase::Escape
            },
            Phase::Charset => if 0x30 <= byte <= 0x7e {
                Phase::Ground
            } else {
                Phase::Charset
            },
            Phase::Control(control) => if 0x40 <= byte <= 0x7e {
                Phase::Ground
            } else {
                Phase::Control(next_control(control, byte))
            },
            Phase::Title => if byte == 0x07 {
                Phase::Ground
            } else {
                Phase::Title
            },
            Phase::Loose => Phase::Loose,
        }
    }
}

/// What a terminal is in the middle of.
#[derive(Debug, Clone, Copy, PartialEq, Eq, Structural)]
pub struct Reading {
    pub letter: Letter,
    pub phase: Phase,
}

/// Nothing has been read.
pub open spec fn nothing_read() -> Reading {
    Reading { letter: no_letter(), phase: Phase::Ground }
}

/// What a byte does to a screen, as far as it matters here.
#[derive(Debug, Clone, Copy, PartialEq, Eq, Structural)]
pub enum Effect {
    /// Nothing that matters.
    Still,
    /// It may end a character, which is then shown.
    Print(u32),
    /// It brings the cursor to the first column.
    Return,
    /// It may bring the cursor to the next tab stop.
    Tab,
    /// It brings the cursor to a column, or to the last one.
    Column(u32),
    /// It brings the cursor some columns to the right, or to the last one.
    Ahead(u32),
    /// It may bring the cursor to any column.
    Jump,
    /// It may move characters within a row.
    Shift,
    /// It may change between the two screens.
    Switch,
    /// It clears the other screen and changes to it, where that is not shown yet.
    Clear,
}

/// The number that a sequence gives, where none and zero mean one.
pub open spec fn count_of(control: Control) -> u32 {
    if control.number == 0 {
        1
    } else {
        control.number
    }
}

/// What a control sequence does that may bring the cursor to the right.
pub open spec fn move_of(control: Control, byte: u8) -> Effect {
    if !control.clean || control.number >= LARGE {
        Effect::Jump
    } else if byte == 0x48 && control.fields == 0 {
        Effect::Column(0)
    } else if (byte == 0x48 && control.fields == 1) || (byte == 0x47 && control.fields == 0) {
        Effect::Column((count_of(control) - 1) as u32)
    } else if byte == 0x43 && control.fields == 0 {
        Effect::Ahead(count_of(control))
    } else {
        Effect::Jump
    }
}

/// What a byte does.
pub open spec fn effect_of(before: Reading, byte: u8) -> Effect {
    match before.phase {
        Phase::Title => Effect::Still,
        _ if byte == 0x09 => Effect::Tab,
        Phase::Ground if byte == 0x0d => Effect::Return,
        Phase::Ground | Phase::Loose => match letter_done(before.letter, byte) {
            Some(code) => if code < 0x20 {
                Effect::Still
            } else {
                Effect::Print(code)
            },
            None => Effect::Still,
        },
        Phase::Escape => if byte == 0x38 {
            Effect::Jump
        } else {
            Effect::Still
        },
        Phase::Charset => Effect::Still,
        Phase::Control(control) => if byte == 0x43 || byte == 0x47 || byte == 0x48 {
            move_of(control, byte)
        } else if byte == 0x40 || byte == 0x50 {
            Effect::Shift
        } else if (byte == 0x68 || byte == 0x6c) && control.private && (control.marked
            || is_screen(control.number)) {
            if byte == 0x68 && control.plain && control.number == CLEARED_SCREEN {
                Effect::Clear
            } else {
                Effect::Switch
            }
        } else {
            Effect::Still
        },
    }
}

/// What some bytes have done to a screen.
#[derive(Debug, Clone, Copy, PartialEq, Eq, Structural)]
pub struct Passage {
    pub reading: Reading,
    /// The most columns that one character takes.
    pub widest: u16,
    /// Whether there are wide characters where there were none.
    pub spread: bool,
    /// Whether there were any when the screens were last changed.
    pub left_behind: bool,
    /// Whether there was a tab.
    pub tabs: bool,
    /// How often the screens were changed: never, once, or more often.
    pub switches: u8,
    /// Whether the first change cleared the other screen.
    pub clears: bool,
    /// The cursor is not to the right of this column.
    pub col: u16,
    /// Whether no line was wrapped.
    pub fits: bool,
}

/// Nothing has been done, with the cursor in a column.
pub open spec fn passage_from(reading: Reading, col: u16) -> Passage {
    Passage {
        reading,
        widest: 0,
        spread: false,
        left_behind: false,
        tabs: false,
        switches: 0,
        clears: false,
        col,
        fits: true,
    }
}

/// A column, or the last one where there are not so many.
pub open spec fn within(col: int, cols: u16) -> u16 {
    if col < cols {
        col as u16
    } else if cols > 0 {
        (cols - 1) as u16
    } else {
        0
    }
}

/// What has been done after one more effect, on a screen with some columns.
pub open spec fn with_effect(before: Passage, cols: u16, effect: Effect) -> Passage {
    match effect {
        Effect::Still => before,
        Effect::Print(code) => {
            let width = columns_of(code);
            let fits = before.col + width <= cols;
            Passage {
                widest: if width > before.widest {
                    width
                } else {
                    before.widest
                },
                spread: before.spread || width > 1,
                col: if fits {
                    (before.col + width) as u16
                } else {
                    cols
                },
                fits: before.fits && fits,
                ..before
            }
        },
        Effect::Return => Passage { col: 0, ..before },
        Effect::Tab => {
            let stop = within(before.col - before.col % 8 + 8, cols);
            Passage {
                tabs: true,
                col: if stop > before.col {
                    stop
                } else {
                    before.col
                },
                ..before
            }
        },
        Effect::Column(col) => Passage { col: within(col as int, cols), ..before },
        Effect::Ahead(count) => Passage { col: within(before.col + count, cols), ..before },
        Effect::Jump => Passage { col: cols, ..before },
        Effect::Shift => Passage { spread: true, ..before },
        Effect::Switch | Effect::Clear => Passage {
            left_behind: before.left_behind || before.spread,
            switches: if before.switches == 0 {
                1
            } else {
                2
            },
            clears: if before.switches == 0 {
                effect == Effect::Clear
            } else {
                before.clears
            },
            col: cols,
            ..before
        },
    }
}

/// What has been done after one more byte.
pub open spec fn next_passage(before: Passage, cols: u16, byte: u8) -> Passage {
    let reading = Reading {
        letter: next_letter(before.reading.letter, byte),
        phase: next_phase(before.reading.phase, byte),
    };
    Passage { reading, ..with_effect(before, cols, effect_of(before.reading, byte)) }
}

/// What has been done after some bytes.
pub open spec fn passage_after(before: Passage, cols: u16, bytes: Seq<u8>) -> Passage
    decreases bytes.len(),
{
    if bytes.len() == 0 {
        before
    } else {
        next_passage(passage_after(before, cols, bytes.drop_last()), cols, bytes.last())
    }
}

fn letter_end(before: Letter, byte: u8) -> (done: Option<u32>)
    requires
        before.wf(),
    ensures
        done == letter_done(before, byte),
{
    if byte < 0x80 {
        Some(byte as u32)
    } else if byte < 0xc0 && before.left == 1 {
        let code: u32 = before.code * 64 + (byte - 0x80) as u32;
        if code >= before.least {
            Some(code)
        } else {
            None
        }
    } else {
        None
    }
}

fn letter_with(before: Letter, byte: u8) -> (after: Letter)
    requires
        before.wf(),
    ensures
        after.wf(),
        after == next_letter(before, byte),
{
    if 0x80 <= byte && byte < 0xc0 && before.left > 1 {
        Letter {
            code: before.code * 64 + (byte - 0x80) as u32,
            left: before.left - 1,
            least: before.least,
        }
    } else if 0xc2 <= byte && byte <= 0xdf {
        Letter { code: (byte - 0xc0) as u32, left: 1, least: 0x80 }
    } else if 0xe0 <= byte && byte <= 0xef {
        Letter { code: (byte - 0xe0) as u32, left: 2, least: 0x800 }
    } else if 0xf0 <= byte && byte <= 0xf4 {
        Letter { code: (byte - 0xf0) as u32, left: 3, least: 0x10000 }
    } else {
        Letter { code: 0, left: 0, least: 0 }
    }
}

fn double(code: u32) -> (yes: bool)
    ensures
        yes == is_double(code),
{
    (0x1100 <= code && code <= 0x115f) || code == 0x17a4 || (0x231a <= code && code <= 0x231b)
    || (0x2329 <= code && code <= 0x232a) || (0x23e9 <= code && code <= 0x23ec) || code == 0x23f0
    || code == 0x23f3 || (0x25fd <= code && code <= 0x25fe) || (0x2614 <= code && code <= 0x2615)
    || (0x2630 <= code && code <= 0x2637) || (0x2648 <= code && code <= 0x2653) || code == 0x267f
    || (0x268a <= code && code <= 0x268f) || code == 0x2693 || code == 0x26a1
    || (0x26aa <= code && code <= 0x26ab) || (0x26bd <= code && code <= 0x26be)
    || (0x26c4 <= code && code <= 0x26c5) || code == 0x26ce || code == 0x26d4 || code == 0x26ea
    || (0x26f2 <= code && code <= 0x26f3) || code == 0x26f5 || code == 0x26fa || code == 0x26fd
    || code == 0x2705 || (0x270a <= code && code <= 0x270b) || code == 0x2728 || code == 0x274c
    || code == 0x274e || (0x2753 <= code && code <= 0x2755) || code == 0x2757
    || (0x2795 <= code && code <= 0x2797) || code == 0x27b0 || code == 0x27bf
    || (0x2b1b <= code && code <= 0x2b1c) || code == 0x2b50 || code == 0x2b55
    || (0x2e80 <= code && code <= 0x2e99) || (0x2e9b <= code && code <= 0x2ef3)
    || (0x2f00 <= code && code <= 0x2fd5) || (0x2ff0 <= code && code <= 0x3029)
    || (0x3030 <= code && code <= 0x303e) || (0x3041 <= code && code <= 0x3096)
    || (0x309b <= code && code <= 0x30ff) || (0x3105 <= code && code <= 0x312f)
    || (0x3131 <= code && code <= 0x3163) || (0x3165 <= code && code <= 0x318e)
    || (0x3190 <= code && code <= 0x31e5) || (0x31ef <= code && code <= 0x321e)
    || (0x3220 <= code && code <= 0x3247) || (0x3250 <= code && code <= 0xa48c)
    || (0xa490 <= code && code <= 0xa4c6) || (0xa960 <= code && code <= 0xa97c)
    || (0xac00 <= code && code <= 0xd7a3) || (0xf900 <= code && code <= 0xfaff)
    || (0xfe10 <= code && code <= 0xfe19) || (0xfe30 <= code && code <= 0xfe52)
    || (0xfe54 <= code && code <= 0xfe66) || (0xfe68 <= code && code <= 0xfe6b)
    || (0xff01 <= code && code <= 0xff60) || (0xffe0 <= code && code <= 0xffe6)
    || (0x16fe0 <= code && code <= 0x16fe3) || (0x16ff2 <= code && code <= 0x16ff6)
    || (0x17000 <= code && code <= 0x18cda) || (0x18cff <= code && code <= 0x18d20)
    || (0x18d80 <= code && code <= 0x18df2) || (0x18e00 <= code && code <= 0x19191)
    || (0x191a0 <= code && code <= 0x191d2) || (0x1aff0 <= code && code <= 0x1aff3)
    || (0x1aff5 <= code && code <= 0x1affb) || (0x1affd <= code && code <= 0x1affe)
    || (0x1b000 <= code && code <= 0x1b128) || code == 0x1b132
    || (0x1b150 <= code && code <= 0x1b152) || code == 0x1b155
    || (0x1b164 <= code && code <= 0x1b168) || (0x1b170 <= code && code <= 0x1b2fb)
    || (0x1d300 <= code && code <= 0x1d356) || (0x1d360 <= code && code <= 0x1d376)
    || code == 0x1f004 || code == 0x1f0cf || code == 0x1f18e
    || (0x1f191 <= code && code <= 0x1f19a) || code == 0x1f1ae
    || (0x1f200 <= code && code <= 0x1f202) || (0x1f210 <= code && code <= 0x1f23b)
    || (0x1f240 <= code && code <= 0x1f248) || (0x1f250 <= code && code <= 0x1f251)
    || (0x1f260 <= code && code <= 0x1f265) || (0x1f300 <= code && code <= 0x1f320)
    || (0x1f32d <= code && code <= 0x1f335) || (0x1f337 <= code && code <= 0x1f37c)
    || (0x1f37e <= code && code <= 0x1f393) || (0x1f3a0 <= code && code <= 0x1f3ca)
    || (0x1f3cf <= code && code <= 0x1f3d3) || (0x1f3e0 <= code && code <= 0x1f3f0)
    || code == 0x1f3f4 || (0x1f3f8 <= code && code <= 0x1f43e) || code == 0x1f440
    || (0x1f442 <= code && code <= 0x1f4fc) || (0x1f4ff <= code && code <= 0x1f53d)
    || (0x1f54b <= code && code <= 0x1f54e) || (0x1f550 <= code && code <= 0x1f567)
    || code == 0x1f57a || (0x1f595 <= code && code <= 0x1f596) || code == 0x1f5a4
    || (0x1f5fb <= code && code <= 0x1f64f) || (0x1f680 <= code && code <= 0x1f6c5)
    || code == 0x1f6cc || (0x1f6d0 <= code && code <= 0x1f6d2)
    || (0x1f6d5 <= code && code <= 0x1f6d9) || (0x1f6dc <= code && code <= 0x1f6df)
    || (0x1f6eb <= code && code <= 0x1f6ec) || (0x1f6f4 <= code && code <= 0x1f6fc)
    || code == 0x1f7da || (0x1f7e0 <= code && code <= 0x1f7eb) || code == 0x1f7f0
    || (0x1f90c <= code && code <= 0x1f93a) || (0x1f93c <= code && code <= 0x1f945)
    || (0x1f947 <= code && code <= 0x1f9ff) || (0x1fa70 <= code && code <= 0x1fa7c)
    || (0x1fa80 <= code && code <= 0x1fac6) || code == 0x1fac8
    || (0x1facc <= code && code <= 0x1fadd) || (0x1fadf <= code && code <= 0x1faeb)
    || (0x1faef <= code && code <= 0x1fafa) || (0x20000 <= code && code <= 0x2fffd)
    || (0x30000 <= code && code <= 0x3fffd)
}

fn columns(code: u32) -> (width: u16)
    ensures
        width == columns_of(code),
        width <= 3,
{
    if code < 0x20 || (0x7f <= code && code < 0xa0) {
        0
    } else if code == TRIPLE {
        3
    } else if double(code) {
        2
    } else {
        1
    }
}

fn control_with(before: Control, byte: u8) -> (after: Control)
    ensures
        after == next_control(before, byte),
{
    let mut after = before;
    if 0x30 <= byte && byte <= 0x39 {
        after.number = if before.number < LARGE {
            before.number * 10 + (byte - 0x30) as u32
        } else {
            LARGE
        };
        after.plain = before.plain && before.private;
    } else if byte == 0x3f {
        after.private = true;
        after.plain = before.plain && !before.private;
        after.clean = false;
    } else if byte == 0x3a || byte == 0x3b {
        after.number = 0;
        after.marked = before.marked || before.number == OTHER_SCREEN || before.number
            == CLEARED_SCREEN;
        after.plain = false;
        after.clean = before.clean && byte == 0x3b;
        after.fields = if before.fields == 0 {
            1
        } else {
            2
        };
    } else {
        after.plain = false;
        after.clean = false;
    }
    after
}

fn phase_with(before: Phase, byte: u8) -> (after: Phase)
    ensures
        after == next_phase(before, byte),
{
    if byte == 0x1b {
        Phase::Escape
    } else if byte == 0x18 || byte == 0x1a {
        Phase::Ground
    } else {
        match before {
            Phase::Escape => if 0x20 <= byte && byte <= 0x2f {
                Phase::Charset
            } else if byte == 0x5b {
                Phase::Control(
                    Control {
                        private: false,
                        number: 0,
                        marked: false,
                        plain: true,
                        clean: true,
                        fields: 0,
                    },
                )
            } else if byte == 0x5d {
                Phase::Title
            } else if byte == 0x50 || byte == 0x58 || byte == 0x5e || byte == 0x5f {
                Phase::Loose
            } else if 0x30 <= byte && byte <= 0x7e {
                Phase::Ground
            } else {
                Phase::Escape
            },
            Phase::Charset => if 0x30 <= byte && byte <= 0x7e {
                Phase::Ground
            } else {
                Phase::Charset
            },
            Phase::Control(control) => if 0x40 <= byte && byte <= 0x7e {
                Phase::Ground
            } else {
                Phase::Control(control_with(control, byte))
            },
            Phase::Title => if byte == 0x07 {
                Phase::Ground
            } else {
                Phase::Title
            },
            other => other,
        }
    }
}

fn motion(control: &Control, byte: u8) -> (effect: Effect)
    ensures
        effect == move_of(*control, byte),
{
    if !control.clean || control.number >= LARGE {
        return Effect::Jump;
    }
    let count = if control.number == 0 {
        1
    } else {
        control.number
    };
    if byte == 0x48 && control.fields == 0 {
        Effect::Column(0)
    } else if (byte == 0x48 && control.fields == 1) || (byte == 0x47 && control.fields == 0) {
        Effect::Column(count - 1)
    } else if byte == 0x43 && control.fields == 0 {
        Effect::Ahead(count)
    } else {
        Effect::Jump
    }
}

fn column_within(col: u64, cols: u16) -> (kept: u16)
    ensures
        kept == within(col as int, cols),
        kept <= cols,
{
    if col < cols as u64 {
        col as u16
    } else if cols > 0 {
        cols - 1
    } else {
        0
    }
}

fn effect(before: &Reading, byte: u8) -> (effect: Effect)
    requires
        before.letter.wf(),
    ensures
        effect == effect_of(*before, byte),
{
    if byte == 0x09 {
        return match before.phase {
            Phase::Title => Effect::Still,
            _ => Effect::Tab,
        };
    }
    match before.phase {
        Phase::Ground | Phase::Loose => {
            if byte == 0x0d {
                match before.phase {
                    Phase::Ground => Effect::Return,
                    _ => Effect::Still,
                }
            } else {
                match letter_end(before.letter, byte) {
                    Some(code) => if code < 0x20 {
                        Effect::Still
                    } else {
                        Effect::Print(code)
                    },
                    None => Effect::Still,
                }
            }
        },
        Phase::Escape => if byte == 0x38 {
            Effect::Jump
        } else {
            Effect::Still
        },
        Phase::Control(control) => if byte == 0x43 || byte == 0x47 || byte == 0x48 {
            motion(&control, byte)
        } else if byte == 0x40 || byte == 0x50 {
            Effect::Shift
        } else if (byte == 0x68 || byte == 0x6c) && control.private && (control.marked
            || control.number == OTHER_SCREEN || control.number == CLEARED_SCREEN) {
            if byte == 0x68 && control.plain && control.number == CLEARED_SCREEN {
                Effect::Clear
            } else {
                Effect::Switch
            }
        } else {
            Effect::Still
        },
        _ => Effect::Still,
    }
}

fn passage_with(before: Passage, cols: u16, byte: u8) -> (after: Passage)
    requires
        before.reading.letter.wf(),
        before.col <= cols,
    ensures
        after == next_passage(before, cols, byte),
        after.reading.letter.wf(),
        after.col <= cols,
{
    let effect = effect(&before.reading, byte);
    let mut after = before;
    after.reading = Reading {
        letter: letter_with(before.reading.letter, byte),
        phase: phase_with(before.reading.phase, byte),
    };
    match effect {
        Effect::Still => {},
        Effect::Print(code) => {
            let width = columns(code);
            if width > before.widest {
                after.widest = width;
            }
            if width > 1 {
                after.spread = true;
            }
            if width <= cols - before.col {
                after.col = before.col + width;
            } else {
                after.col = cols;
                after.fits = false;
            }
        },
        Effect::Return => {
            after.col = 0;
        },
        Effect::Tab => {
            after.tabs = true;
            let stop: u64 = before.col as u64 - before.col as u64 % 8 + 8;
            let stop = column_within(stop, cols);
            if stop > before.col {
                after.col = stop;
            }
        },
        Effect::Column(col) => {
            after.col = column_within(col as u64, cols);
        },
        Effect::Ahead(count) => {
            after.col = column_within(before.col as u64 + count as u64, cols);
        },
        Effect::Jump => {
            after.col = cols;
        },
        Effect::Shift => {
            after.spread = true;
        },
        Effect::Switch | Effect::Clear => {
            after.left_behind = before.left_behind || before.spread;
            if before.switches == 0 {
                after.switches = 1;
                after.clears = match effect {
                    Effect::Clear => true,
                    _ => false,
                };
            } else {
                after.switches = 2;
            }
            after.col = cols;
        },
    }
    after
}

/// What some bytes do to a screen with some columns, from a column on.
pub(crate) fn passage(reading: Reading, col: u16, cols: u16, data: &[u8]) -> (after: Passage)
    requires
        reading.letter.wf(),
        col <= cols,
    ensures
        after == passage_after(passage_from(reading, col), cols, data@),
        after.reading.letter.wf(),
{
    let mut after = Passage {
        reading,
        widest: 0,
        spread: false,
        left_behind: false,
        tabs: false,
        switches: 0,
        clears: false,
        col,
        fits: true,
    };
    let mut i: usize = 0;
    assert(data@.take(0) =~= Seq::empty());
    while i < data.len()
        invariant
            i <= data.len(),
            after == passage_after(passage_from(reading, col), cols, data@.take(i as int)),
            after.reading.letter.wf(),
            after.col <= cols,
        decreases data.len() - i,
    {
        assert(data@.take(i + 1).drop_last() =~= data@.take(i as int));
        after = passage_with(after, cols, data[i]);
        i = i + 1;
    }
    assert(data@.take(i as int) =~= data@);
    after
}

/// Characters are read as UTF-8 writes them: one byte below 128 is a character,
/// and a leading byte with the continuation bytes that belong to it gives one at
/// its last byte and none before, of six bits from each continuation byte. What
/// could have been written shorter is none.
pub proof fn characters_are_read_as_utf8(before: Letter, a: u8, b: u8, c: u8, d: u8)
    requires
        0x80 <= b < 0xc0,
        0x80 <= c < 0xc0,
        0x80 <= d < 0xc0,
    ensures
        a < 0x80 ==> letter_done(before, a) == Some(a as u32),
        a >= 0xc0 ==> letter_done(before, a) is None,
        ({
            let one = next_letter(before, a);
            let two = next_letter(one, b);
            let three = next_letter(two, c);
            let short = (a - 0xc0) * 64 + (b - 0x80);
            let middle = ((a - 0xe0) * 64 + (b - 0x80)) * 64 + (c - 0x80);
            let long = (((a - 0xf0) * 64 + (b - 0x80)) * 64 + (c - 0x80)) * 64 + (d - 0x80);
            &&& 0xc2 <= a < 0xe0 ==> letter_done(one, b) == Some(short as u32)
            &&& 0xe0 <= a < 0xf0 ==> {
                &&& letter_done(one, b) is None
                &&& middle >= 0x800 ==> letter_done(two, c) == Some(middle as u32)
                &&& middle < 0x800 ==> letter_done(two, c) is None
            }
            &&& 0xf0 <= a < 0xf5 ==> {
                &&& letter_done(one, b) is None
                &&& letter_done(two, c) is None
                &&& long >= 0x10000 ==> letter_done(three, d) == Some(long as u32)
                &&& long < 0x10000 ==> letter_done(three, d) is None
            }
            &&& a == 0xc0 || a == 0xc1 || a >= 0xf5 ==> letter_done(one, b) is None
        }),
{
}

/// How many columns characters take: none for control characters, one for the
/// other characters of ASCII and of Latin, two for those of Chinese, Japanese and
/// Korean and for most symbols of feeling, and never more than three.
pub proof fn characters_take_their_columns(code: u32)
    ensures
        code < 0x20 || 0x7f <= code < 0xa0 <==> columns_of(code) == 0,
        columns_of(code) <= 3,
        columns_of(code) == 3 <==> code == 0x17d8,
        0x20 <= code < 0x7f || 0xa0 <= code < 0x1100 ==> columns_of(code) == 1,
        0x1100 <= code <= 0x115f ==> columns_of(code) == 2,
        0x3041 <= code <= 0x3096 ==> columns_of(code) == 2,
        0x30a0 <= code <= 0x30ff ==> columns_of(code) == 2,
        0x3400 <= code <= 0x9fff ==> columns_of(code) == 2,
        0xac00 <= code <= 0xd7a3 ==> columns_of(code) == 2,
        0xf900 <= code <= 0xfaff ==> columns_of(code) == 2,
        0xff01 <= code <= 0xff60 ==> columns_of(code) == 2,
        0x1f600 <= code <= 0x1f64f ==> columns_of(code) == 2,
        0x20000 <= code <= 0x2fffd ==> columns_of(code) == 2,
{
}

/// Bytes can come in pieces: where they are divided makes no difference.
pub proof fn bytes_can_come_in_pieces(before: Passage, cols: u16, a: Seq<u8>, b: Seq<u8>)
    ensures
        passage_after(before, cols, a + b) == passage_after(
            passage_after(before, cols, a),
            cols,
            b,
        ),
    decreases b.len(),
{
    if b.len() == 0 {
        assert(a + b =~= a);
    } else {
        bytes_can_come_in_pieces(before, cols, a, b.drop_last());
        assert((a + b).drop_last() =~= a + b.drop_last());
        assert((a + b).last() == b.last());
    }
}

/// Plain text takes one column for each of its characters and wraps if and only
/// if there are more of them than columns to the right of the cursor.
pub proof fn plain_text_takes_its_columns(before: Passage, cols: u16, text: Seq<u8>)
    requires
        before.reading.phase == Phase::Ground,
        before.col <= cols,
        text.len() > 0,
        forall|i: int| 0 <= i < text.len() ==> 0x20 <= #[trigger] text[i] < 0x7f,
    ensures
        ({
            let after = passage_after(before, cols, text);
            let end = before.col + text.len();
            &&& after.fits == (before.fits && end <= cols)
            &&& after.col == (if end <= cols {
                end
            } else {
                cols as int
            })
            &&& after.reading == nothing_read()
            &&& after.widest == (if before.widest == 0 {
                1
            } else {
                before.widest
            })
            &&& after.spread == before.spread && after.tabs == before.tabs
            &&& after.switches == before.switches && after.clears == before.clears
        }),
    decreases text.len(),
{
    let front = text.drop_last();
    if front.len() > 0 {
        plain_text_takes_its_columns(before, cols, front);
    } else {
        assert(front =~= Seq::empty());
        assert(passage_after(before, cols, front) == before);
    }
}

/// What is in a title is not shown: until the title ends nothing happens to the
/// screen.
pub proof fn titles_are_not_shown(before: Passage, cols: u16, title: Seq<u8>)
    requires
        before.reading.phase == Phase::Title,
        forall|i: int|
            0 <= i < title.len() ==> #[trigger] title[i] != 0x07 && title[i] != 0x18 && title[i]
                != 0x1a && title[i] != 0x1b,
    ensures
        ({
            let after = passage_after(before, cols, title);
            let ended = passage_after(before, cols, title + seq![0x07u8]);
            &&& after == (Passage { reading: after.reading, ..before })
            &&& after.reading.phase == Phase::Title
            &&& ended == (Passage { reading: nothing_read(), ..before })
        }),
    decreases title.len(),
{
    if title.len() > 0 {
        titles_are_not_shown(before, cols, title.drop_last());
    }
    let ended = title + seq![0x07u8];
    assert(ended.drop_last() =~= title);
    assert(ended.last() == 0x07);
}

proof fn lemma_one_more(before: Passage, cols: u16, bytes: Seq<u8>, byte: u8)
    ensures
        passage_after(before, cols, bytes.push(byte)) == next_passage(
            passage_after(before, cols, bytes),
            cols,
            byte,
        ),
{
    assert(bytes.push(byte).drop_last() =~= bytes);
}

/// Behind text a carriage return and the sequence that brings the cursor home
/// bring it to the first column, and a tab brings it to the next multiple of
/// eight or to the last column.
pub proof fn known_moves_do_what_they_say(before: Passage, cols: u16)
    requires
        before.reading.phase == Phase::Ground,
        before.col < cols,
    ensures
        passage_after(before, cols, seq![0x0du8]).col == 0,
        passage_after(before, cols, seq![0x1bu8, 0x5b, 0x48]).col == 0,
        ({
            let tabbed = passage_after(before, cols, seq![0x09u8]);
            let next_stop = (before.col / 8 + 1) * 8;
            tabbed.tabs && tabbed.col == (if next_stop < cols {
                next_stop
            } else {
                cols - 1
            })
        }),
{
    let none = Seq::<u8>::empty();
    assert(passage_after(before, cols, none) == before);
    lemma_one_more(before, cols, none, 0x0d);
    lemma_one_more(before, cols, none, 0x09);
    lemma_one_more(before, cols, none, 0x1b);
    lemma_one_more(before, cols, none.push(0x1b), 0x5b);
    lemma_one_more(before, cols, none.push(0x1b).push(0x5b), 0x48);
    let two = passage_after(before, cols, none.push(0x1b).push(0x5b));
    assert(two.reading.phase == Phase::Control(new_control()));
    assert(none.push(0x0d) =~= seq![0x0du8]);
    assert(none.push(0x09) =~= seq![0x09u8]);
    assert(none.push(0x1b).push(0x5b).push(0x48) =~= seq![0x1bu8, 0x5b, 0x48]);
}

/// Behind text the sequence for the other screen changes to it once and clears
/// it, and the one that leads back changes without clearing. Neither of them
/// wraps a line.
pub proof fn screens_change_by_their_sequences(before: Passage, cols: u16)
    requires
        before.reading.phase == Phase::Ground,
        before.switches == 0,
    ensures
        ({
            let other = passage_after(
                before,
                cols,
                seq![0x1bu8, 0x5b, 0x3f, 0x31, 0x30, 0x34, 0x39, 0x68],
            );
            let back = passage_after(
                before,
                cols,
                seq![0x1bu8, 0x5b, 0x3f, 0x31, 0x30, 0x34, 0x39, 0x6c],
            );
            &&& other.switches == 1 && other.clears
            &&& back.switches == 1 && !back.clears
            &&& other.fits == before.fits && back.fits == before.fits
            &&& other.reading.phase == Phase::Ground && back.reading.phase == Phase::Ground
        }),
{
    let b0 = Seq::<u8>::empty();
    let b1 = b0.push(0x1b);
    let b2 = b1.push(0x5b);
    let b3 = b2.push(0x3f);
    let b4 = b3.push(0x31);
    let b5 = b4.push(0x30);
    let b6 = b5.push(0x34);
    let b7 = b6.push(0x39);
    assert(passage_after(before, cols, b0) == before);
    lemma_one_more(before, cols, b0, 0x1b);
    let p1 = passage_after(before, cols, b1);
    assert(p1 == (Passage { reading: p1.reading, ..before }) && p1.reading.phase
        == Phase::Escape);
    lemma_one_more(before, cols, b1, 0x5b);
    let p2 = passage_after(before, cols, b2);
    assert(p2 == (Passage { reading: p2.reading, ..before }) && p2.reading.phase
        == Phase::Control(new_control()));
    let c3 = Control { private: true, clean: false, ..new_control() };
    lemma_one_more(before, cols, b2, 0x3f);
    let p3 = passage_after(before, cols, b3);
    assert(p3 == (Passage { reading: p3.reading, ..before }) && p3.reading.phase
        == Phase::Control(c3));
    lemma_one_more(before, cols, b3, 0x31);
    let p4 = passage_after(before, cols, b4);
    assert(p4 == (Passage { reading: p4.reading, ..before }) && p4.reading.phase
        == Phase::Control(Control { number: 1, ..c3 }));
    lemma_one_more(before, cols, b4, 0x30);
    let p5 = passage_after(before, cols, b5);
    assert(p5 == (Passage { reading: p5.reading, ..before }) && p5.reading.phase
        == Phase::Control(Control { number: 10, ..c3 }));
    lemma_one_more(before, cols, b5, 0x34);
    let p6 = passage_after(before, cols, b6);
    assert(p6 == (Passage { reading: p6.reading, ..before }) && p6.reading.phase
        == Phase::Control(Control { number: 104, ..c3 }));
    lemma_one_more(before, cols, b6, 0x39);
    let p7 = passage_after(before, cols, b7);
    assert(p7 == (Passage { reading: p7.reading, ..before }) && p7.reading.phase
        == Phase::Control(Control { number: 1049, ..c3 }));
    lemma_one_more(before, cols, b7, 0x68);
    lemma_one_more(before, cols, b7, 0x6c);
    assert(b7.push(0x68) =~= seq![0x1bu8, 0x5b, 0x3f, 0x31, 0x30, 0x34, 0x39, 0x68]);
    assert(b7.push(0x6c) =~= seq![0x1bu8, 0x5b, 0x3f, 0x31, 0x30, 0x34, 0x39, 0x6c]);
}

/// Where nothing has been read nothing has been done: no character was shown, no
/// line was wrapped, no tab came and no screen was changed.
pub proof fn no_bytes_do_nothing(reading: Reading, col: u16, cols: u16)
    ensures
        ({
            let done = passage_after(passage_from(reading, col), cols, Seq::empty());
            &&& done.reading == reading && done.col == col
            &&& done.widest == 0 && done.fits && done.switches == 0
            &&& !done.spread && !done.left_behind && !done.tabs && !done.clears
        }),
{
}

/// The number that decimal digits are, the highest one first.
pub open spec fn number_in(digits: Seq<u8>) -> nat
    decreases digits.len(),
{
    if digits.len() == 0 {
        0
    } else {
        (number_in(digits.drop_last()) * 10 + digits.last() - 0x30) as nat
    }
}

/// Whether bytes are up to four decimal digits.
pub open spec fn few_digits(digits: Seq<u8>) -> bool {
    digits.len() <= 4 && forall|i: int|
        0 <= i < digits.len() ==> 0x30 <= #[trigger] digits[i] <= 0x39
}

proof fn lemma_digits_are_read(before: Passage, cols: u16, digits: Seq<u8>, control: Control)
    requires
        before.reading.phase == Phase::Control(control),
        control.clean,
        control.number == 0,
        few_digits(digits),
    ensures
        ({
            let after = passage_after(before, cols, digits);
            let n = number_in(digits);
            &&& after == (Passage { reading: after.reading, ..before })
            &&& after.reading.phase matches Phase::Control(c)
            &&& c.clean && c.fields == control.fields && c.number == n
            &&& digits.len() == 0 ==> n < 1
            &&& digits.len() == 1 ==> n < 10
            &&& digits.len() == 2 ==> n < 100
            &&& digits.len() == 3 ==> n < 1000
            &&& digits.len() == 4 ==> n < 10000
        }),
    decreases digits.len(),
{
    if digits.len() > 0 {
        let front = digits.drop_last();
        assert forall|i: int| 0 <= i < front.len() implies 0x30 <= #[trigger] front[i] <= 0x39 by {
            assert(front[i] == digits[i]);
        }
        lemma_digits_are_read(before, cols, front, control);
        let last = digits.last();
        assert(last == digits[digits.len() - 1]);
        assert(0x30 <= last <= 0x39);
        let after = passage_after(before, cols, front);
        assert(effect_of(after.reading, last) == Effect::Still);
    }
}

proof fn lemma_control_begins(before: Passage, cols: u16)
    requires
        before.reading.phase == Phase::Ground,
    ensures
        ({
            let after = passage_after(before, cols, seq![0x1bu8, 0x5b]);
            &&& after == (Passage { reading: after.reading, ..before })
            &&& after.reading.phase == Phase::Control(new_control())
        }),
{
    let none = Seq::<u8>::empty();
    assert(passage_after(before, cols, none) == before);
    lemma_one_more(before, cols, none, 0x1b);
    lemma_one_more(before, cols, none.push(0x1b), 0x5b);
    assert(none.push(0x1b).push(0x5b) =~= seq![0x1bu8, 0x5b]);
}

/// A sequence that names a row and a column brings the cursor to that column,
/// counted from one, or to the last one; one that names a column does so too; and
/// one that names a count brings it that many columns to the right, or to the last
/// one. None and zero count as one.
pub proof fn cursor_goes_where_it_is_sent(
    before: Passage,
    cols: u16,
    rows: Seq<u8>,
    digits: Seq<u8>,
)
    requires
        before.reading.phase == Phase::Ground,
        before.col <= cols,
        cols > 0,
        few_digits(rows),
        few_digits(digits),
    ensures
        ({
            let n = if number_in(digits) == 0 {
                1int
            } else {
                number_in(digits) as int
            };
            let at_most = |col: int| if col < cols {
                col
            } else {
                cols - 1
            };
            let start = seq![0x1bu8, 0x5b];
            let sent = passage_after(
                before,
                cols,
                start + rows + seq![0x3bu8] + digits + seq![0x48u8],
            );
            let placed = passage_after(before, cols, start + digits + seq![0x47u8]);
            let moved = passage_after(before, cols, start + digits + seq![0x43u8]);
            &&& sent.col == at_most(n - 1)
            &&& placed.col == at_most(n - 1)
            &&& moved.col == at_most(before.col + n)
            &&& sent.fits == before.fits && sent.switches == before.switches
            &&& sent.reading.phase == Phase::Ground
        }),
{
    let start = seq![0x1bu8, 0x5b];
    let begun = passage_after(before, cols, start);
    lemma_control_begins(before, cols);
    // The column or the count alone.
    lemma_digits_are_read(begun, cols, digits, new_control());
    bytes_can_come_in_pieces(before, cols, start, digits);
    lemma_one_more(before, cols, start + digits, 0x47);
    lemma_one_more(before, cols, start + digits, 0x43);
    assert((start + digits).push(0x47) =~= start + digits + seq![0x47u8]);
    assert((start + digits).push(0x43) =~= start + digits + seq![0x43u8]);
    // The row and the column.
    lemma_digits_are_read(begun, cols, rows, new_control());
    bytes_can_come_in_pieces(before, cols, start, rows);
    let named = passage_after(before, cols, start + rows);
    lemma_one_more(before, cols, start + rows, 0x3b);
    let between = passage_after(before, cols, (start + rows).push(0x3b));
    assert((start + rows).push(0x3b) =~= start + rows + seq![0x3bu8]);
    let control = between.reading.phase->Control_0;
    assert(between == (Passage { reading: between.reading, ..named }));
    assert(between.reading.phase == Phase::Control(control));
    assert(control.clean && control.number == 0 && control.fields == 1);
    lemma_digits_are_read(between, cols, digits, control);
    bytes_can_come_in_pieces(before, cols, start + rows + seq![0x3bu8], digits);
    lemma_one_more(before, cols, start + rows + seq![0x3bu8] + digits, 0x48);
    assert((start + rows + seq![0x3bu8] + digits).push(0x48) =~= start + rows + seq![0x3bu8]
        + digits + seq![0x48u8]);
}

} // verus!
