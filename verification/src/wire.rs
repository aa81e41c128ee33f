//! The parts that binary frames are made of: big-endian numbers and the field
//! of eight bytes that names a terminal or a request.
use vstd::prelude::*;
use vstd::utf8::{
    decode_utf8, encode_scalar, encode_utf8, encode_utf8_decode_utf8, encode_utf8_valid_utf8,
    is_ascii_chars, is_ascii_chars_encode_utf8, valid_utf8,
};

use crate::text::{nul_tail_is_all_that_goes, repeated, trim_nul_tail, without_nul_tail};

verus! {

/// How many bytes the field for an identifier has.
pub const ID_FIELD: usize = 8;

/// A number of two bytes, the high one first.
pub open spec fn be16(n: u16) -> Seq<u8> {
    seq![(n / 256) as u8, (n % 256) as u8]
}

/// A number of four bytes, the highest one first.
pub open spec fn be32(n: u32) -> Seq<u8> {
    seq![
        (n / 0x100_0000) as u8,
        ((n / 0x1_0000) % 256) as u8,
        ((n / 256) % 256) as u8,
        (n % 256) as u8,
    ]
}

/// The number that two bytes are.
pub open spec fn from_be16(b: Seq<u8>) -> u16 {
    (b[0] * 256 + b[1]) as u16
}

/// The number that four bytes are.
pub open spec fn from_be32(b: Seq<u8>) -> u32 {
    (b[0] * 0x100_0000 + b[1] * 0x1_0000 + b[2] * 256 + b[3]) as u32
}

/// A length as it is sent: its lowest four bytes.
pub open spec fn sent_length(len: nat) -> u32 {
    (len % 0x1_0000_0000) as u32
}

/// The field for an identifier: its first bytes, filled up with zeros.
pub open spec fn id_field(id: Seq<u8>) -> Seq<u8> {
    Seq::new(ID_FIELD as nat, |i: int| if i < id.len() {
        id[i]
    } else {
        0u8
    })
}

/// The identifier in a field: its text without the zeros at the end, and no text
/// where the bytes are none.
pub open spec fn id_in(field: Seq<u8>) -> Seq<char> {
    if valid_utf8(field) {
        without_nul_tail(decode_utf8(field))
    } else {
        Seq::empty()
    }
}

/// `std::str::from_utf8`: the text that bytes are, where they are valid UTF-8.
#[verifier::external_body]
fn text_of(bytes: &[u8]) -> (r: Option<String>)
    ensures
        match r {
            Some(text) => valid_utf8(bytes@) && text@ == decode_utf8(bytes@),
            None => !valid_utf8(bytes@),
        },
{
    std::str::from_utf8(bytes).ok().map(|text| text.to_string())
}

/// Reads an identifier out of its field.
pub fn read_id(field: &[u8]) -> (id: String)
    ensures
        id@ == id_in(field@),
{
    match text_of(field) {
        Some(text) => trim_nul_tail(text.as_str()),
        None => String::new(),
    }
}

/// Writes the field for an identifier. What does not fit is cut off.
pub fn push_id(out: &mut Vec<u8>, id: &str)
    ensures
        final(out)@ == old(out)@ + id_field(encode_utf8(id@)),
{
    let bytes = id.as_bytes();
    let mut i: usize = 0;
    while i < ID_FIELD
        invariant
            i <= ID_FIELD,
            bytes@ == encode_utf8(id@),
            out@ == old(out)@ + id_field(encode_utf8(id@)).take(i as int),
        decreases ID_FIELD - i,
    {
        if i < bytes.len() {
            out.push(bytes[i]);
        } else {
            out.push(0);
        }
        i = i + 1;
        proof {
            let field = id_field(encode_utf8(id@));
            assert(field.take(i as int) =~= field.take(i - 1).push(field[i - 1]));
            assert(out@ =~= old(out)@ + field.take(i as int));
        }
    }
    assert(id_field(encode_utf8(id@)).take(i as int) =~= id_field(encode_utf8(id@)));
}

/// Writes a number of two bytes.
pub fn push_be16(out: &mut Vec<u8>, n: u16)
    ensures
        final(out)@ == old(out)@ + be16(n),
{
    out.push((n / 256) as u8);
    out.push((n % 256) as u8);
    assert(out@ =~= old(out)@ + be16(n));
}

/// Writes a number of four bytes.
pub fn push_be32(out: &mut Vec<u8>, n: u32)
    ensures
        final(out)@ == old(out)@ + be32(n),
{
    out.push((n / 0x100_0000) as u8);
    out.push(((n / 0x1_0000) % 256) as u8);
    out.push(((n / 256) % 256) as u8);
    out.push((n % 256) as u8);
    assert(out@ =~= old(out)@ + be32(n));
}

/// Reads a number of two bytes.
pub fn read_be16(high: u8, low: u8) -> (n: u16)
    ensures
        n == from_be16(seq![high, low]),
{
    high as u16 * 256 + low as u16
}

/// Reads a number of four bytes.
pub fn read_be32(b: &[u8], at: usize) -> (n: u32)
    requires
        at + 4 <= b@.len(),
    ensures
        n == from_be32(b@.subrange(at as int, at + 4)),
{
    proof {
        let field = b@.subrange(at as int, at + 4);
        assert(field[0] == b@[at as int] && field[1] == b@[at + 1] && field[2] == b@[at + 2]
            && field[3] == b@[at + 3]);
    }
    b[at] as u32 * 0x100_0000 + b[at + 1] as u32 * 0x1_0000 + b[at + 2] as u32 * 256
        + b[at + 3] as u32
}

/// A length as it is sent.
pub fn length_to_send(len: usize) -> (n: u32)
    ensures
        n == sent_length(len as nat),
{
    (len as u64 % 0x1_0000_0000) as u32
}

/// The part of some bytes from one place to another.
pub fn bytes_between(bytes: &[u8], start: usize, end: usize) -> (out: Vec<u8>)
    requires
        start <= end <= bytes@.len(),
    ensures
        out@ == bytes@.subrange(start as int, end as int),
{
    let mut out: Vec<u8> = Vec::new();
    let mut i: usize = start;
    while i < end
        invariant
            start <= i <= end <= bytes@.len(),
            out@ == bytes@.subrange(start as int, i as int),
        decreases end - i,
    {
        out.push(bytes[i]);
        i = i + 1;
        assert(bytes@.subrange(start as int, i as int) =~= bytes@.subrange(
            start as int,
            i - 1,
        ).push(bytes@[i - 1]));
    }
    out
}

/// Writes bytes behind others.
pub fn push_bytes(out: &mut Vec<u8>, bytes: &[u8])
    ensures
        final(out)@ == old(out)@ + bytes@,
{
    let mut i: usize = 0;
    assert(out@ =~= old(out)@ + bytes@.take(0));
    while i < bytes.len()
        invariant
            i <= bytes@.len(),
            out@ == old(out)@ + bytes@.take(i as int),
        decreases bytes@.len() - i,
    {
        out.push(bytes[i]);
        i = i + 1;
        assert(out@ =~= old(out)@ + bytes@.take(i as int));
    }
    assert(bytes@.take(i as int) =~= bytes@);
}

/// A number of two bytes is read back as it was written.
pub proof fn be16_reads_back(n: u16)
    ensures
        from_be16(be16(n)) == n,
{
}

/// A number of four bytes is read back as it was written.
pub proof fn be32_reads_back(n: u32)
    ensures
        from_be32(be32(n)) == n,
{
}

/// The bytes of two texts, one after the other, are those of the whole.
pub proof fn encode_concat(a: Seq<char>, b: Seq<char>)
    ensures
        encode_utf8(a + b) == encode_utf8(a) + encode_utf8(b),
    decreases a.len(),
{
    if a.len() == 0 {
        assert(a + b =~= b);
        assert(encode_utf8(a) + encode_utf8(b) =~= encode_utf8(b));
    } else {
        let rest = a.drop_first();
        assert((a + b).drop_first() =~= rest + b);
        encode_concat(rest, b);
        assert(encode_utf8(a + b) =~= encode_scalar(a[0] as u32) + (encode_utf8(rest)
            + encode_utf8(b)));
        assert(encode_utf8(a + b) =~= encode_utf8(a) + encode_utf8(b));
    }
}

proof fn lemma_nul_tail(a: Seq<char>, n: nat)
    ensures
        without_nul_tail(a + repeated('\0', n)) == without_nul_tail(a),
    decreases n,
{
    if n == 0 {
        assert(a + repeated('\0', n) =~= a);
    } else {
        let whole = a + repeated('\0', n);
        assert(whole.last() == '\0');
        assert(whole.drop_last() =~= a + repeated('\0', (n - 1) as nat));
        lemma_nul_tail(a, (n - 1) as nat);
    }
}

/// An identifier of at most eight bytes is read back as it was written, but for
/// the zeros at its end.
pub proof fn id_reads_back(id: Seq<char>)
    requires
        encode_utf8(id).len() <= ID_FIELD,
    ensures
        id_in(id_field(encode_utf8(id))) == without_nul_tail(id),
{
    let n = (ID_FIELD - encode_utf8(id).len()) as nat;
    let tail = repeated('\0', n);
    assert(is_ascii_chars(tail));
    is_ascii_chars_encode_utf8(tail);
    encode_concat(id, tail);
    let field = id_field(encode_utf8(id));
    assert forall|i: int| 0 <= i < n implies encode_utf8(tail)[i] == 0u8 by {
        assert(tail[i] as u8 == encode_utf8(tail)[i]);
    }
    assert(field =~= encode_utf8(id) + encode_utf8(tail));
    encode_utf8_valid_utf8(id + tail);
    encode_utf8_decode_utf8(id + tail);
    lemma_nul_tail(id, n);
}

/// An identifier that does not end in zeros is its own trimmed form.
pub proof fn plain_id_needs_no_trimming(id: Seq<char>)
    requires
        id.len() == 0 || id.last() != '\0',
    ensures
        without_nul_tail(id) == id,
{
}

/// Numbers are written and read with the highest byte first, and every pair or
/// four of bytes is the number it stands for in base 256.
pub proof fn numbers_have_the_high_byte_first(n: u16, m: u32, a: u8, b: u8, c: u8, d: u8)
    ensures
        be16(n).len() == 2,
        be16(n)[0] * 256 + be16(n)[1] == n,
        be32(m).len() == 4,
        ((be32(m)[0] * 256 + be32(m)[1]) * 256 + be32(m)[2]) * 256 + be32(m)[3] == m,
        from_be16(seq![a, b]) == a * 256 + b,
        from_be32(seq![a, b, c, d]) == ((a * 256 + b) * 256 + c) * 256 + d,
        be16(from_be16(seq![a, b])) == seq![a, b],
        be32(from_be32(seq![a, b, c, d])) == seq![a, b, c, d],
{
    assert(be16(from_be16(seq![a, b])) =~= seq![a, b]);
    assert(be32(from_be32(seq![a, b, c, d])) =~= seq![a, b, c, d]);
}

/// A length that fits in four bytes is sent as it is.
pub proof fn fitting_length_is_sent(len: nat)
    ensures
        len <= u32::MAX ==> sent_length(len) == len,
        sent_length(len + 0x1_0000_0000) == sent_length(len),
{
}

/// The field for an identifier has eight bytes: those of the identifier at its
/// start, as far as they fit, and zeros behind them.
pub proof fn id_stands_at_the_start_of_its_field(id: Seq<u8>)
    ensures
        id_field(id).len() == 8,
        forall|i: int|
            0 <= i < 8 ==> #[trigger] id_field(id)[i] == if i < id.len() {
                id[i]
            } else {
                0
            },
{
}

/// A field is read as its text up to the last character that is not NUL, whatever
/// it holds in front of that, and as no text where its bytes are none.
pub proof fn field_is_read_up_to_its_zeros(field: Seq<u8>) -> (zeros: nat)
    ensures
        !valid_utf8(field) ==> id_in(field).len() == 0,
        valid_utf8(field) ==> {
            &&& decode_utf8(field) == id_in(field) + repeated('\0', zeros)
            &&& id_in(field).len() > 0 ==> id_in(field).last() != '\0'
        },
{
    let text = decode_utf8(field);
    nul_tail_is_all_that_goes(text);
    let zeros = (text.len() - without_nul_tail(text).len()) as nat;
    if valid_utf8(field) {
        assert(text =~= id_in(field) + repeated('\0', zeros));
    }
    zeros
}

} // verus!
