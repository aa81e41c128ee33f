//! Building and comparing text.
use vstd::prelude::*;
use vstd::utf8::encode_utf8_decode_utf8;

verus! {

/// `String::push` puts one character at the end of the string.
pub assume_specification[ String::push ](s: &mut String, c: char)
    ensures
        final(s)@ == old(s)@.push(c),
;

/// The decimal digit of a number below ten.
pub open spec fn digit(d: nat) -> char {
    (48 + d) as char
}

/// A number in decimal, without leading zeros.
pub open spec fn decimal_digits(n: nat) -> Seq<char>
    decreases n,
{
    if n < 10 {
        seq![digit(n)]
    } else {
        decimal_digits(n / 10).push(digit(n % 10))
    }
}

/// The lower-case hexadecimal digit of a number below sixteen.
pub open spec fn hex_digit(d: nat) -> char {
    if d < 10 {
        (48 + d) as char
    } else {
        (87 + d) as char
    }
}

/// A number in lower-case hexadecimal, without leading zeros.
pub open spec fn hex_digits(n: nat) -> Seq<char>
    decreases n,
{
    if n < 16 {
        seq![hex_digit(n)]
    } else {
        hex_digits(n / 16).push(hex_digit(n % 16))
    }
}

/// `n` copies of one character.
pub open spec fn repeated(c: char, n: nat) -> Seq<char> {
    Seq::new(n, |i: int| c)
}

/// Text filled up with spaces on the right until it is `width` characters long.
/// Longer text stays as it is.
pub open spec fn padded(s: Seq<char>, width: nat) -> Seq<char> {
    if s.len() >= width {
        s
    } else {
        s + repeated(' ', (width - s.len()) as nat)
    }
}

/// The texts of a list of strings.
pub open spec fn texts(list: Seq<String>) -> Seq<Seq<char>> {
    Seq::new(list.len(), |i: int| list[i]@)
}

/// The text of an optional string.
pub open spec fn text_option(s: Option<String>) -> Option<Seq<char>> {
    match s {
        Some(t) => Some(t@),
        None => None,
    }
}

/// The items of a list with a separator between each two of them.
pub open spec fn joined(list: Seq<Seq<char>>, sep: Seq<char>) -> Seq<char>
    decreases list.len(),
{
    if list.len() == 0 {
        Seq::empty()
    } else if list.len() == 1 {
        list[0]
    } else {
        joined(list.drop_last(), sep) + sep + list.last()
    }
}

/// Whether `pattern` stands in `s` at position `at`.
pub open spec fn stands_at(s: Seq<char>, at: int, pattern: Seq<char>) -> bool {
    0 <= at && at + pattern.len() <= s.len() && s.subrange(at, at + pattern.len()) == pattern
}

/// `s` from position `at` on, with each occurrence of `from`, found left to
/// right without overlap, replaced by `to`.
pub open spec fn replaced_from(s: Seq<char>, at: int, from: Seq<char>, to: Seq<char>) -> Seq<char>
    decreases s.len() - at,
{
    if at < 0 || at >= s.len() || from.len() == 0 {
        Seq::empty()
    } else if stands_at(s, at, from) {
        to + replaced_from(s, at + from.len(), from, to)
    } else {
        seq![s[at]] + replaced_from(s, at + 1, from, to)
    }
}

/// Text without the NUL characters at its end.
pub open spec fn without_nul_tail(s: Seq<char>) -> Seq<char>
    decreases s.len(),
{
    if s.len() > 0 && s.last() == '\0' {
        without_nul_tail(s.drop_last())
    } else {
        s
    }
}

/// The characters of a text.
pub fn chars_of(s: &str) -> (out: Vec<char>)
    ensures
        out@ == s@,
{
    let mut out: Vec<char> = Vec::new();
    for c in it: s.chars()
        invariant
            it.seq() == s@,
            out@ == s@.take(it.index()),
    {
        out.push(c);
    }
    out
}

/// The text made of the characters from `start` up to `end`.
pub fn text_between(chars: &Vec<char>, start: usize, end: usize) -> (out: String)
    requires
        start <= end <= chars.len(),
    ensures
        out@ == chars@.subrange(start as int, end as int),
{
    let mut out = String::new();
    let mut i: usize = start;
    while i < end
        invariant
            start <= i <= end <= chars.len(),
            out@ == chars@.subrange(start as int, i as int),
        decreases end - i,
    {
        out.push(chars[i]);
        i = i + 1;
        assert(chars@.subrange(start as int, i as int) =~= chars@.subrange(
            start as int,
            i - 1,
        ).push(chars@[i - 1]));
    }
    out
}

/// Whether two byte strings are equal.
pub fn same_bytes(a: &[u8], b: &[u8]) -> (r: bool)
    ensures
        r == (a@ == b@),
{
    if a.len() != b.len() {
        return false;
    }
    let mut i: usize = 0;
    while i < a.len()
        invariant
            i <= a.len(),
            a.len() == b.len(),
            forall|j: int| 0 <= j < i ==> a@[j] == b@[j],
        decreases a.len() - i,
    {
        if a[i] != b[i] {
            return false;
        }
        i = i + 1;
    }
    assert(a@ =~= b@);
    true
}

/// Whether two texts are equal.
pub fn same_text(a: &str, b: &str) -> (r: bool)
    ensures
        r == (a@ == b@),
{
    proof {
        encode_utf8_decode_utf8(a@);
        encode_utf8_decode_utf8(b@);
    }
    same_bytes(a.as_bytes(), b.as_bytes())
}

/// Two texts, one after the other.
pub fn concat2(a: &str, b: &str) -> (out: String)
    ensures
        out@ == a@ + b@,
{
    let mut out = String::new();
    out.append(a);
    out.append(b);
    out
}

/// Three texts, one after the other.
pub fn concat3(a: &str, b: &str, c: &str) -> (out: String)
    ensures
        out@ == a@ + b@ + c@,
{
    let mut out = concat2(a, b);
    out.append(c);
    out
}

/// A copy of an optional string.
pub fn copy_option(s: &Option<String>) -> (out: Option<String>)
    ensures
        out == *s,
{
    match s {
        Some(t) => Some(t.clone()),
        None => None,
    }
}

/// A copy of a list of strings.
pub fn copy_list(list: &Vec<String>) -> (out: Vec<String>)
    ensures
        out@ == list@,
{
    let mut out: Vec<String> = Vec::new();
    let mut i: usize = 0;
    while i < list.len()
        invariant
            i <= list.len(),
            out@ == list@.take(i as int),
        decreases list.len() - i,
    {
        out.push(list[i].clone());
        i = i + 1;
        assert(list@.take(i as int) =~= list@.take(i - 1).push(list@[i - 1]));
    }
    assert(list@.take(i as int) =~= list@);
    out
}

/// Writes a number in decimal at the end of a text.
pub fn push_decimal(out: &mut String, n: u64)
    ensures
        final(out)@ == old(out)@ + decimal_digits(n as nat),
    decreases n,
{
    if n >= 10 {
        push_decimal(out, n / 10);
    }
    let c: char = (48u8 + (n % 10) as u8) as char;
    out.push(c);
    assert(out@ =~= old(out)@ + decimal_digits(n as nat));
}

/// A number in decimal.
pub fn decimal(n: u64) -> (out: String)
    ensures
        out@ == decimal_digits(n as nat),
{
    let mut out = String::new();
    push_decimal(&mut out, n);
    assert(out@ =~= decimal_digits(n as nat));
    out
}

/// Writes a number in lower-case hexadecimal at the end of a text.
pub fn push_hex(out: &mut String, n: u64)
    ensures
        final(out)@ == old(out)@ + hex_digits(n as nat),
    decreases n,
{
    if n >= 16 {
        push_hex(out, n / 16);
    }
    let d: u8 = (n % 16) as u8;
    let c: char = if d < 10 {
        (48u8 + d) as char
    } else {
        (87u8 + d) as char
    };
    out.push(c);
    assert(out@ =~= old(out)@ + hex_digits(n as nat));
}

/// Writes one character `n` times at the end of a text.
pub fn push_repeated(out: &mut String, c: char, n: usize)
    ensures
        final(out)@ == old(out)@ + repeated(c, n as nat),
{
    let mut i: usize = 0;
    while i < n
        invariant
            i <= n,
            out@ == old(out)@ + repeated(c, i as nat),
        decreases n - i,
    {
        out.push(c);
        i = i + 1;
        assert(out@ =~= old(out)@ + repeated(c, i as nat));
    }
}

/// Fills a text up with spaces on the right to a given number of characters.
pub fn pad_right(s: &str, width: usize) -> (out: String)
    ensures
        out@ == padded(s@, width as nat),
{
    let len: usize = chars_of(s).len();
    let mut out = String::new();
    out.append(s);
    if len < width {
        push_repeated(&mut out, ' ', width - len);
    }
    assert(out@ =~= padded(s@, width as nat));
    out
}

/// Joins strings with a separator between each two of them.
pub fn join(list: &Vec<String>, sep: &str) -> (out: String)
    ensures
        out@ == joined(texts(list@), sep@),
{
    let mut out = String::new();
    let mut i: usize = 0;
    while i < list.len()
        invariant
            i <= list.len(),
            out@ == joined(texts(list@.take(i as int)), sep@),
        decreases list.len() - i,
    {
        if i > 0 {
            out.append(sep);
        }
        out.append(list[i].as_str());
        i = i + 1;
        proof {
            let now = texts(list@.take(i as int));
            assert(now.drop_last() =~= texts(list@.take(i - 1)));
            assert(now.last() == list@[i - 1]@);
            assert(out@ =~= joined(now, sep@));
        }
    }
    assert(list@.take(i as int) =~= list@);
    out
}

/// Replaces each occurrence of a pattern, left to right without overlap.
pub fn replace_all(s: &str, from: &str, to: &str) -> (out: String)
    requires
        from@.len() > 0,
    ensures
        out@ == replaced_from(s@, 0, from@, to@),
{
    let chars = chars_of(s);
    let pattern = chars_of(from);
    let mut out = String::new();
    let mut i: usize = 0;
    while i < chars.len()
        invariant
            i <= chars.len(),
            chars@ == s@,
            pattern@ == from@,
            from@.len() > 0,
            out@ + replaced_from(s@, i as int, from@, to@) == replaced_from(s@, 0, from@, to@),
        decreases chars.len() - i,
    {
        let ghost before = out@;
        let ghost rest = replaced_from(s@, i as int, from@, to@);
        if found_at(&chars, i, &pattern) {
            out.append(to);
            i = i + pattern.len();
            assert(before + rest =~= out@ + replaced_from(s@, i as int, from@, to@));
        } else {
            out.push(chars[i]);
            i = i + 1;
            assert(before + rest =~= out@ + replaced_from(s@, i as int, from@, to@));
        }
    }
    assert(out@ =~= out@ + replaced_from(s@, i as int, from@, to@));
    out
}

fn found_at(s: &Vec<char>, at: usize, pattern: &Vec<char>) -> (r: bool)
    requires
        at <= s.len(),
    ensures
        r == stands_at(s@, at as int, pattern@),
{
    if pattern.len() > s.len() - at {
        return false;
    }
    let mut i: usize = 0;
    while i < pattern.len()
        invariant
            i <= pattern.len(),
            at + pattern.len() <= s.len(),
            forall|j: int| 0 <= j < i ==> #[trigger] s@[at + j] == pattern@[j],
        decreases pattern.len() - i,
    {
        if s[at + i] != pattern[i] {
            proof {
                let part = s@.subrange(at as int, at + pattern@.len());
                assert(part[i as int] == s@[at + i]);
            }
            return false;
        }
        i = i + 1;
    }
    proof {
        let part = s@.subrange(at as int, at + pattern@.len());
        assert forall|j: int| 0 <= j < part.len() implies part[j] == pattern@[j] by {
            assert(part[j] == s@[at + j]);
        }
        assert(part =~= pattern@);
    }
    true
}

/// A text without the NUL characters at its end.
pub fn trim_nul_tail(s: &str) -> (out: String)
    ensures
        out@ == without_nul_tail(s@),
{
    let chars = chars_of(s);
    let mut end: usize = chars.len();
    assert(s@.take(end as int) =~= s@);
    while end > 0 && chars[end - 1] == '\0'
        invariant
            end <= chars.len(),
            chars@ == s@,
            without_nul_tail(s@.take(end as int)) == without_nul_tail(s@),
        decreases end,
    {
        proof {
            let now = s@.take(end as int);
            assert(now.drop_last() =~= s@.take(end - 1));
        }
        end = end - 1;
    }
    assert(chars@.subrange(0, end as int) =~= s@.take(end as int));
    text_between(&chars, 0, end)
}

/// The number that digits to some base stand for, the highest one first, where
/// `value` says what each digit counts.
pub open spec fn read_to_base(digits: Seq<char>, base: nat, value: spec_fn(char) -> nat) -> nat
    decreases digits.len(),
{
    if digits.len() == 0 {
        0
    } else {
        read_to_base(digits.drop_last(), base, value) * base + value(digits.last())
    }
}

/// A number in decimal reads back as that number, is made of the characters from
/// `0` to `9`, and starts with `0` only where it is nothing else.
pub proof fn decimal_reads_back(n: nat)
    ensures
        decimal_digits(n).len() > 0,
        read_to_base(decimal_digits(n), 10, |c: char| (c as int - '0' as int) as nat) == n,
        forall|i: int|
            0 <= i < decimal_digits(n).len() ==> '0' <= #[trigger] decimal_digits(n)[i] <= '9',
        decimal_digits(n)[0] == '0' <==> n == 0,
    decreases n,
{
    let value = |c: char| (c as int - '0' as int) as nat;
    let digits = decimal_digits(n);
    assert(value(digits.last()) == n % 10);
    if n < 10 {
        assert(digits.drop_last() =~= Seq::empty());
        assert(read_to_base(digits.drop_last(), 10, value) == 0);
    } else {
        decimal_reads_back(n / 10);
        assert(digits.drop_last() =~= decimal_digits(n / 10));
        assert(digits[0] == decimal_digits(n / 10)[0]);
        assert forall|i: int| 0 <= i < digits.len() implies '0' <= #[trigger] digits[i] <= '9' by {
            if i < digits.len() - 1 {
                assert(digits[i] == decimal_digits(n / 10)[i]);
            }
        }
    }
}

/// A number in hexadecimal reads back as that number, is made of the characters
/// from `0` to `9` and from `a` to `f`, and starts with `0` only where it is
/// nothing else.
pub proof fn hexadecimal_reads_back(n: nat)
    ensures
        hex_digits(n).len() > 0,
        read_to_base(
            hex_digits(n),
            16,
            |c: char|
                if c <= '9' {
                    (c as int - '0' as int) as nat
                } else {
                    (c as int - 'a' as int + 10) as nat
                },
        ) == n,
        forall|i: int|
            0 <= i < hex_digits(n).len() ==> '0' <= #[trigger] hex_digits(n)[i] <= '9' || 'a'
                <= hex_digits(n)[i] <= 'f',
        hex_digits(n)[0] == '0' <==> n == 0,
    decreases n,
{
    let value = |c: char|
        if c <= '9' {
            (c as int - '0' as int) as nat
        } else {
            (c as int - 'a' as int + 10) as nat
        };
    let digits = hex_digits(n);
    assert(value(digits.last()) == n % 16);
    if n < 16 {
        assert(digits.drop_last() =~= Seq::empty());
        assert(read_to_base(digits.drop_last(), 16, value) == 0);
    } else {
        hexadecimal_reads_back(n / 16);
        assert(digits.drop_last() =~= hex_digits(n / 16));
        assert(digits[0] == hex_digits(n / 16)[0]);
        assert forall|i: int| 0 <= i < digits.len() implies '0' <= #[trigger] digits[i] <= '9'
            || 'a' <= digits[i] <= 'f' by {
            if i < digits.len() - 1 {
                assert(digits[i] == hex_digits(n / 16)[i]);
            }
        }
    }
}

/// Padding keeps the text at the front, adds nothing but spaces, and adds no more
/// of them than the width asks for.
pub proof fn padding_adds_spaces_only(s: Seq<char>, width: nat)
    ensures
        padded(s, width).len() == (if s.len() < width {
            width
        } else {
            s.len()
        }),
        padded(s, width).take(s.len() as int) == s,
        forall|i: int|
            s.len() <= i < padded(s, width).len() ==> #[trigger] padded(s, width)[i] == ' ',
{
    assert(padded(s, width).take(s.len() as int) =~= s);
}

/// Joining can be done piece by piece: nothing comes out of an empty list, one
/// item as it is, and two lists with the separator between what each of them
/// gives.
pub proof fn joining_goes_piece_by_piece(
    a: Seq<Seq<char>>,
    b: Seq<Seq<char>>,
    item: Seq<char>,
    sep: Seq<char>,
)
    ensures
        joined(Seq::empty(), sep) == Seq::<char>::empty(),
        joined(seq![item], sep) == item,
        a.len() > 0 && b.len() > 0 ==> joined(a + b, sep) == joined(a, sep) + sep + joined(b, sep),
    decreases b.len(),
{
    if a.len() > 0 && b.len() > 0 {
        let whole = a + b;
        assert(whole.last() == b.last());
        assert(whole.drop_last() =~= a + b.drop_last());
        if b.len() > 1 {
            joining_goes_piece_by_piece(a, b.drop_last(), item, sep);
            assert(joined(whole, sep) =~= joined(a, sep) + sep + joined(b, sep));
        } else {
            assert(whole.drop_last() =~= a);
            assert(joined(b, sep) == b[0]);
        }
    }
}

/// Replacing goes from left to right: text in front of the first occurrence of
/// the pattern stays as it is, the pattern gives way to its replacement, and what
/// follows it is treated in the same way. Text without the pattern stays as it is.
pub proof fn replacing_goes_left_to_right(
    s: Seq<char>,
    at: int,
    end: int,
    from: Seq<char>,
    to: Seq<char>,
)
    requires
        0 <= at <= end <= s.len(),
        from.len() > 0,
        forall|i: int|
            at <= i < end && i + from.len() <= s.len() ==> #[trigger] s.subrange(
                i,
                i + from.len(),
            ) != from,
    ensures
        end == s.len() ==> replaced_from(s, at, from, to) == s.skip(at),
        end + from.len() <= s.len() && s.subrange(end, end + from.len()) == from ==> replaced_from(
            s,
            at,
            from,
            to,
        ) == s.subrange(at, end) + to + replaced_from(s, end + from.len(), from, to),
    decreases end - at,
{
    if at < end {
        assert(!stands_at(s, at, from)) by {
            if at + from.len() <= s.len() {
                assert(s.subrange(at, at + from.len()) != from);
            }
        }
        replacing_goes_left_to_right(s, at + 1, end, from, to);
        assert(s.skip(at) =~= seq![s[at]] + s.skip(at + 1));
        assert(s.subrange(at, end) =~= seq![s[at]] + s.subrange(at + 1, end));
        let rest = replaced_from(s, end + from.len(), from, to);
        assert(seq![s[at]] + (s.subrange(at + 1, end) + to + rest) =~= s.subrange(at, end) + to
            + rest);
    } else {
        assert(s.subrange(at, end) =~= Seq::empty());
        let rest = replaced_from(s, end + from.len(), from, to);
        assert(s.subrange(at, end) + to + rest =~= to + rest);
        assert(s.skip(s.len() as int) =~= Seq::empty());
    }
}

/// Text without its NUL tail is the text up to its last character that is not
/// NUL: nothing but NUL characters is taken away, and all of them are.
pub proof fn nul_tail_is_all_that_goes(s: Seq<char>)
    ensures
        without_nul_tail(s).len() <= s.len(),
        without_nul_tail(s) == s.take(without_nul_tail(s).len() as int),
        forall|i: int| without_nul_tail(s).len() <= i < s.len() ==> #[trigger] s[i] == '\0',
        without_nul_tail(s).len() > 0 ==> without_nul_tail(s).last() != '\0',
    decreases s.len(),
{
    if s.len() > 0 && s.last() == '\0' {
        nul_tail_is_all_that_goes(s.drop_last());
        let kept = without_nul_tail(s);
        assert(s.take(kept.len() as int) =~= s.drop_last().take(kept.len() as int));
        assert forall|i: int| kept.len() <= i < s.len() implies #[trigger] s[i] == '\0' by {
            if i < s.len() - 1 {
                assert(s[i] == s.drop_last()[i]);
            }
        }
    } else {
        assert(s.take(s.len() as int) =~= s);
    }
}

} // verus!
