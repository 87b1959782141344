//! The byte layout shared by everything that crosses the wire.
//!
//! Every value is written as a run of items, each of which says what it is
//! before it says what it holds. The items are those of CBOR, with every
//! number and every length written in full:
//!
//! * a *word* is an unsigned 64-bit integer: the byte `0x1B`, then eight
//!   bytes, most significant first;
//! * a *blob* is a byte string: the byte `0x5B`, the length as eight bytes,
//!   then the bytes;
//! * a *text* is the same with `0x7B` in front and UTF-8 inside;
//! * a *flag* is one byte, `0xF4` for false and `0xF5` for true;
//! * a text that may be absent is a text, or the byte `0xF6`;
//! * a list starts with `0x9B` and the number of its items as eight bytes;
//! * a *tag* is one byte that names a variant or marks the start of a record.
//!
//! For each item there is a function that says what bytes stand for a value,
//! a function that says what a run of bytes starts with, and a pair of
//! executable functions proved against them. Reading is strict: of every
//! value there is one way to write it, and nothing else is read as that value.

use vstd::prelude::*;
use vstd::bytes::{
    lemma_auto_spec_u64_to_from_le_bytes, spec_u64_from_le_bytes, spec_u64_to_le_bytes,
    u64_from_le_bytes, u64_to_le_bytes,
};
use vstd::slice::{slice_subrange, slice_to_vec};
use vstd::utf8::{
    decode_utf8, decode_utf8_encode_utf8, encode_utf8, encode_utf8_decode_utf8,
    encode_utf8_valid_utf8, valid_utf8,
};

verus! {

/// The byte in front of a word.
pub const UINT_HEAD: u8 = 0x1B;

/// The byte in front of the length of a blob.
pub const BYTES_HEAD: u8 = 0x5B;

/// The byte in front of the length of a text.
pub const TEXT_HEAD: u8 = 0x7B;

/// The byte in front of the length of a list.
pub const ARRAY_HEAD: u8 = 0x9B;

/// The byte that stands for false.
pub const FALSE_BYTE: u8 = 0xF4;

/// The byte that stands for true.
pub const TRUE_BYTE: u8 = 0xF5;

/// The byte that stands for a value that is absent.
pub const NULL_BYTE: u8 = 0xF6;

/// The eight bytes of a number, most significant first.
pub open spec fn big_endian(n: u64) -> Seq<u8> {
    spec_u64_to_le_bytes(n).reverse()
}

/// The number that eight bytes stand for, most significant first.
pub open spec fn from_big_endian(s: Seq<u8>) -> u64 {
    spec_u64_from_le_bytes(s.reverse())
}

/// The bytes of a head: what kind of item follows, and a number.
pub open spec fn head(kind: u8, n: u64) -> Seq<u8> {
    seq![kind] + big_endian(n)
}

/// The number in the head of the given kind at the start of `s`, and what
/// follows the head.
pub open spec fn parse_head(kind: u8, s: Seq<u8>) -> Option<(u64, Seq<u8>)> {
    if s.len() >= 9 && s[0] == kind {
        Some((from_big_endian(s.subrange(1, 9)), s.subrange(9, s.len() as int)))
    } else {
        None
    }
}

/// The bytes of a word.
pub open spec fn word(n: u64) -> Seq<u8> {
    head(UINT_HEAD, n)
}

/// The bytes of a run of bytes with its length in front. Lengths beyond 64
/// bits do not occur in memory.
pub open spec fn framed(kind: u8, bytes: Seq<u8>) -> Seq<u8> {
    head(kind, bytes.len() as u64) + bytes
}

/// The bytes of a blob.
pub open spec fn blob(bytes: Seq<u8>) -> Seq<u8> {
    framed(BYTES_HEAD, bytes)
}

/// The bytes of a text.
pub open spec fn text(chars: Seq<char>) -> Seq<u8> {
    framed(TEXT_HEAD, encode_utf8(chars))
}

/// The byte of a flag.
pub open spec fn flag(b: bool) -> Seq<u8> {
    seq![if b { TRUE_BYTE } else { FALSE_BYTE }]
}

/// The word at the head of `s` and what follows it.
pub open spec fn parse_word(s: Seq<u8>) -> Option<(u64, Seq<u8>)> {
    parse_head(UINT_HEAD, s)
}

/// The run of bytes of the given kind at the head of `s` and what follows it.
pub open spec fn parse_framed(kind: u8, s: Seq<u8>) -> Option<(Seq<u8>, Seq<u8>)> {
    match parse_head(kind, s) {
        Some((n, rest)) => if n <= rest.len() {
            Some((rest.subrange(0, n as int), rest.subrange(n as int, rest.len() as int)))
        } else {
            None
        },
        None => None,
    }
}

/// The blob at the head of `s` and what follows it.
pub open spec fn parse_blob(s: Seq<u8>) -> Option<(Seq<u8>, Seq<u8>)> {
    parse_framed(BYTES_HEAD, s)
}

/// The text at the head of `s` and what follows it.
pub open spec fn parse_text(s: Seq<u8>) -> Option<(Seq<char>, Seq<u8>)> {
    match parse_framed(TEXT_HEAD, s) {
        Some((bytes, rest)) => if valid_utf8(bytes) {
            Some((decode_utf8(bytes), rest))
        } else {
            None
        },
        None => None,
    }
}

/// The single byte at the head of `s` and what follows it.
pub open spec fn parse_tag(s: Seq<u8>) -> Option<(u8, Seq<u8>)> {
    if s.len() >= 1 {
        Some((s[0], s.subrange(1, s.len() as int)))
    } else {
        None
    }
}

/// The flag at the head of `s` and what follows it.
pub open spec fn parse_flag(s: Seq<u8>) -> Option<(bool, Seq<u8>)> {
    match parse_tag(s) {
        Some((t, rest)) => if t == FALSE_BYTE {
            Some((false, rest))
        } else if t == TRUE_BYTE {
            Some((true, rest))
        } else {
            None
        },
        None => None,
    }
}

/// Eight bytes, most significant first, stand for the number they were
/// written for, and a number is written in one way only.
pub proof fn lemma_big_endian(n: u64, s: Seq<u8>)
    ensures
        big_endian(n).len() == 8,
        from_big_endian(big_endian(n)) == n,
        s.len() == 8 ==> big_endian(from_big_endian(s)) == s,
{
    lemma_auto_spec_u64_to_from_le_bytes();
    let le = spec_u64_to_le_bytes(n);
    assert(le.reverse().reverse() =~= le);
    if s.len() == 8 {
        assert(s.reverse().len() == 8);
        assert(spec_u64_to_le_bytes(spec_u64_from_le_bytes(s.reverse())) == s.reverse());
        assert(s.reverse().reverse() =~= s);
    }
}

/// A head is read back from its own bytes, whatever follows them.
pub proof fn lemma_parse_head(kind: u8, n: u64, rest: Seq<u8>)
    ensures
        head(kind, n).len() == 9,
        parse_head(kind, head(kind, n) + rest) == Some((n, rest)),
{
    lemma_big_endian(n, Seq::empty());
    let s = head(kind, n) + rest;
    assert(s.subrange(1, 9) =~= big_endian(n));
    assert(s.subrange(9, s.len() as int) =~= rest);
}

/// Only the bytes of a head are read as that head.
pub proof fn lemma_head_parsed(kind: u8, s: Seq<u8>)
    requires
        parse_head(kind, s) is Some,
    ensures
        head(kind, parse_head(kind, s)->Some_0.0) + parse_head(kind, s)->Some_0.1 == s,
{
    let number = s.subrange(1, 9);
    lemma_big_endian(0, number);
    assert(seq![kind] + number + s.subrange(9, s.len() as int) =~= s);
}

/// A word is read back from its own bytes, whatever follows them.
pub proof fn lemma_parse_word(n: u64, rest: Seq<u8>)
    ensures
        word(n).len() == 9,
        parse_word(word(n) + rest) == Some((n, rest)),
{
    lemma_parse_head(UINT_HEAD, n, rest);
}

/// A run of bytes is read back from its own bytes, whatever follows them.
pub proof fn lemma_parse_framed(kind: u8, bytes: Seq<u8>, rest: Seq<u8>)
    requires
        bytes.len() <= u64::MAX,
    ensures
        framed(kind, bytes).len() == 9 + bytes.len(),
        parse_framed(kind, framed(kind, bytes) + rest) == Some((bytes, rest)),
{
    let n = bytes.len() as u64;
    lemma_parse_head(kind, n, bytes + rest);
    assert(framed(kind, bytes) + rest =~= head(kind, n) + (bytes + rest));
    let tail = bytes + rest;
    assert(tail.subrange(0, n as int) =~= bytes);
    assert(tail.subrange(n as int, tail.len() as int) =~= rest);
}

/// A blob is read back from its own bytes, whatever follows them.
pub proof fn lemma_parse_blob(bytes: Seq<u8>, rest: Seq<u8>)
    requires
        bytes.len() <= u64::MAX,
    ensures
        blob(bytes).len() == 9 + bytes.len(),
        parse_blob(blob(bytes) + rest) == Some((bytes, rest)),
{
    lemma_parse_framed(BYTES_HEAD, bytes, rest);
}

/// A text is read back from its own bytes, whatever follows them.
pub proof fn lemma_parse_text(chars: Seq<char>, rest: Seq<u8>)
    requires
        encode_utf8(chars).len() <= u64::MAX,
    ensures
        parse_text(text(chars) + rest) == Some((chars, rest)),
{
    lemma_parse_framed(TEXT_HEAD, encode_utf8(chars), rest);
    encode_utf8_valid_utf8(chars);
    encode_utf8_decode_utf8(chars);
}

/// A tag is read back from its own byte, whatever follows it.
pub proof fn lemma_parse_tag(t: u8, rest: Seq<u8>)
    ensures
        parse_tag(seq![t] + rest) == Some((t, rest)),
{
    let s = seq![t] + rest;
    assert(s.subrange(1, s.len() as int) =~= rest);
}

/// A flag is read back from its own byte, whatever follows it.
pub proof fn lemma_parse_flag(b: bool, rest: Seq<u8>)
    ensures
        parse_flag(flag(b) + rest) == Some((b, rest)),
{
    lemma_parse_tag(if b { TRUE_BYTE } else { FALSE_BYTE }, rest);
}

/// Only the bytes of a word are read as that word.
pub proof fn lemma_word_parsed(s: Seq<u8>)
    requires
        parse_word(s) is Some,
    ensures
        word(parse_word(s)->Some_0.0) + parse_word(s)->Some_0.1 == s,
{
    lemma_head_parsed(UINT_HEAD, s);
}

/// Only the bytes of a run of bytes are read as that run.
pub proof fn lemma_framed_parsed(kind: u8, s: Seq<u8>)
    requires
        parse_framed(kind, s) is Some,
    ensures
        framed(kind, parse_framed(kind, s)->Some_0.0) + parse_framed(kind, s)->Some_0.1 == s,
        parse_framed(kind, s)->Some_0.0.len() <= u64::MAX,
{
    lemma_head_parsed(kind, s);
    let (n, rest) = parse_head(kind, s)->Some_0;
    let (bytes, after) = parse_framed(kind, s)->Some_0;
    assert(bytes.len() as u64 == n);
    assert(bytes + after =~= rest);
    assert(framed(kind, bytes) + after =~= head(kind, n) + rest);
}

/// Only the bytes of a blob are read as that blob.
pub proof fn lemma_blob_parsed(s: Seq<u8>)
    requires
        parse_blob(s) is Some,
    ensures
        blob(parse_blob(s)->Some_0.0) + parse_blob(s)->Some_0.1 == s,
        parse_blob(s)->Some_0.0.len() <= u64::MAX,
{
    lemma_framed_parsed(BYTES_HEAD, s);
}

/// Only the bytes of a text are read as that text.
pub proof fn lemma_text_parsed(s: Seq<u8>)
    requires
        parse_text(s) is Some,
    ensures
        text(parse_text(s)->Some_0.0) + parse_text(s)->Some_0.1 == s,
        encode_utf8(parse_text(s)->Some_0.0).len() <= u64::MAX,
{
    lemma_framed_parsed(TEXT_HEAD, s);
    decode_utf8_encode_utf8(parse_framed(TEXT_HEAD, s)->Some_0.0);
}

/// Only its own byte is read as a tag.
pub proof fn lemma_tag_parsed(s: Seq<u8>)
    requires
        parse_tag(s) is Some,
    ensures
        seq![parse_tag(s)->Some_0.0] + parse_tag(s)->Some_0.1 == s,
{
    assert(seq![s[0]] + s.subrange(1, s.len() as int) =~= s);
}

/// Only its own byte is read as a flag.
pub proof fn lemma_flag_parsed(s: Seq<u8>)
    requires
        parse_flag(s) is Some,
    ensures
        flag(parse_flag(s)->Some_0.0) + parse_flag(s)->Some_0.1 == s,
{
    lemma_tag_parsed(s);
}

/// Appends `bytes` to `out`.
pub fn put_bytes(out: &mut Vec<u8>, bytes: &[u8])
    ensures
        final(out)@ == old(out)@ + bytes@,
{
    let mut i: usize = 0;
    while i < bytes.len()
        invariant
            i <= bytes@.len(),
            out@ == old(out)@ + bytes@.subrange(0, i as int),
        decreases bytes@.len() - i,
    {
        out.push(bytes[i]);
        assert(old(out)@ + bytes@.subrange(0, i as int + 1) =~= (old(out)@ + bytes@.subrange(
            0,
            i as int,
        )).push(bytes@[i as int]));
        i += 1;
    }
    assert(bytes@.subrange(0, i as int) =~= bytes@);
}

/// Appends one byte to `out`.
pub fn put_tag(out: &mut Vec<u8>, t: u8)
    ensures
        final(out)@ == old(out)@ + seq![t],
{
    out.push(t);
    assert(out@ =~= old(out)@ + seq![t]);
}

/// Appends a flag to `out`.
pub fn put_flag(out: &mut Vec<u8>, b: bool)
    ensures
        final(out)@ == old(out)@ + flag(b),
{
    put_tag(out, if b { TRUE_BYTE } else { FALSE_BYTE });
}

/// The eight bytes of `n`, most significant first.
pub fn big_endian_bytes(n: u64) -> (bytes: Vec<u8>)
    ensures
        bytes@ == big_endian(n),
{
    let least_first = u64_to_le_bytes(n);
    let mut bytes: Vec<u8> = Vec::new();
    let mut i: usize = 0;
    while i < 8
        invariant
            least_first@.len() == 8,
            i <= 8,
            bytes@.len() == i,
            forall|j: int| 0 <= j < i ==> #[trigger] bytes@[j] == least_first@[7 - j],
        decreases 8 - i,
    {
        bytes.push(least_first[7 - i]);
        i += 1;
    }
    assert(bytes@ =~= least_first@.reverse());
    bytes
}

/// The number that the eight bytes of `bytes` stand for, most significant
/// first.
pub fn from_big_endian_bytes(bytes: &[u8]) -> (n: u64)
    requires
        bytes@.len() == 8,
    ensures
        n == from_big_endian(bytes@),
{
    let mut least_first: Vec<u8> = Vec::new();
    let mut i: usize = 0;
    while i < 8
        invariant
            bytes@.len() == 8,
            i <= 8,
            least_first@.len() == i,
            forall|j: int| 0 <= j < i ==> #[trigger] least_first@[j] == bytes@[7 - j],
        decreases 8 - i,
    {
        least_first.push(bytes[7 - i]);
        i += 1;
    }
    assert(least_first@ =~= bytes@.reverse());
    u64_from_le_bytes(least_first.as_slice())
}

/// Appends a head to `out`.
pub fn put_head(out: &mut Vec<u8>, kind: u8, n: u64)
    ensures
        final(out)@ == old(out)@ + head(kind, n),
{
    put_tag(out, kind);
    let number = big_endian_bytes(n);
    put_bytes(out, number.as_slice());
    assert(out@ =~= old(out)@ + head(kind, n));
}

/// Appends a word to `out`.
pub fn put_word(out: &mut Vec<u8>, n: u64)
    ensures
        final(out)@ == old(out)@ + word(n),
{
    put_head(out, UINT_HEAD, n);
}

/// Appends a run of bytes with its length in front to `out`.
pub fn put_framed(out: &mut Vec<u8>, kind: u8, bytes: &[u8])
    ensures
        final(out)@ == old(out)@ + framed(kind, bytes@),
        bytes@.len() <= u64::MAX,
{
    put_head(out, kind, bytes.len() as u64);
    put_bytes(out, bytes);
    assert(out@ =~= old(out)@ + framed(kind, bytes@));
}

/// Appends a blob to `out`.
pub fn put_blob(out: &mut Vec<u8>, bytes: &[u8])
    ensures
        final(out)@ == old(out)@ + blob(bytes@),
        bytes@.len() <= u64::MAX,
{
    put_framed(out, BYTES_HEAD, bytes);
}

/// Appends a text to `out`.
pub fn put_text(out: &mut Vec<u8>, chars: &str)
    ensures
        final(out)@ == old(out)@ + text(chars@),
        encode_utf8(chars@).len() <= u64::MAX,
{
    put_framed(out, TEXT_HEAD, chars.as_bytes());
}

/// Reads the byte at the head of `input`.
pub fn take_tag<'a>(input: &'a [u8]) -> (r: Option<(u8, &'a [u8])>)
    ensures
        match r {
            Some((t, rest)) => parse_tag(input@) == Some((t, rest@)),
            None => parse_tag(input@) is None,
        },
{
    if input.len() >= 1 {
        Some((input[0], slice_subrange(input, 1, input.len())))
    } else {
        None
    }
}

/// Reads the flag at the head of `input`.
pub fn take_flag<'a>(input: &'a [u8]) -> (r: Option<(bool, &'a [u8])>)
    ensures
        match r {
            Some((b, rest)) => parse_flag(input@) == Some((b, rest@)),
            None => parse_flag(input@) is None,
        },
{
    match take_tag(input) {
        Some((t, rest)) => if t == FALSE_BYTE {
            Some((false, rest))
        } else if t == TRUE_BYTE {
            Some((true, rest))
        } else {
            None
        },
        None => None,
    }
}

/// Reads the head of the given kind at the start of `input`.
pub fn take_head<'a>(kind: u8, input: &'a [u8]) -> (r: Option<(u64, &'a [u8])>)
    ensures
        match r {
            Some((n, rest)) => parse_head(kind, input@) == Some((n, rest@)),
            None => parse_head(kind, input@) is None,
        },
{
    if input.len() >= 9 && input[0] == kind {
        let n: u64 = from_big_endian_bytes(slice_subrange(input, 1, 9));
        Some((n, slice_subrange(input, 9, input.len())))
    } else {
        None
    }
}

/// Reads the word at the head of `input`.
pub fn take_word<'a>(input: &'a [u8]) -> (r: Option<(u64, &'a [u8])>)
    ensures
        match r {
            Some((n, rest)) => parse_word(input@) == Some((n, rest@)),
            None => parse_word(input@) is None,
        },
{
    take_head(UINT_HEAD, input)
}

/// Reads the run of bytes of the given kind at the head of `input`.
pub fn take_framed<'a>(kind: u8, input: &'a [u8]) -> (r: Option<(&'a [u8], &'a [u8])>)
    ensures
        match r {
            Some((bytes, rest)) => parse_framed(kind, input@) == Some((bytes@, rest@)),
            None => parse_framed(kind, input@) is None,
        },
{
    match take_head(kind, input) {
        Some((n, rest)) => {
            if n <= rest.len() as u64 {
                let len: usize = n as usize;
                Some((slice_subrange(rest, 0, len), slice_subrange(rest, len, rest.len())))
            } else {
                None
            }
        },
        None => None,
    }
}

/// Reads the blob at the head of `input`.
pub fn take_blob<'a>(input: &'a [u8]) -> (r: Option<(&'a [u8], &'a [u8])>)
    ensures
        match r {
            Some((bytes, rest)) => parse_blob(input@) == Some((bytes@, rest@)),
            None => parse_blob(input@) is None,
        },
{
    take_framed(BYTES_HEAD, input)
}

/// `String::from_utf8` of the standard library: it accepts exactly the byte
/// strings that are valid UTF-8, and the text it gives back is what they
/// encode.
#[verifier::external_body]
fn string_from_utf8(bytes: Vec<u8>) -> (r: Option<String>)
    ensures
        match r {
            Some(s) => valid_utf8(bytes@) && s@ == decode_utf8(bytes@),
            None => !valid_utf8(bytes@),
        },
{
    String::from_utf8(bytes).ok()
}

/// Reads the text at the head of `input`.
pub fn take_text<'a>(input: &'a [u8]) -> (r: Option<(String, &'a [u8])>)
    ensures
        match r {
            Some((chars, rest)) => parse_text(input@) == Some((chars@, rest@)),
            None => parse_text(input@) is None,
        },
{
    match take_framed(TEXT_HEAD, input) {
        Some((bytes, rest)) => match string_from_utf8(slice_to_vec(bytes)) {
            Some(chars) => Some((chars, rest)),
            None => None,
        },
        None => None,
    }
}

/// The bytes of a text that may be absent: the text, or the byte that
/// stands for nothing.
pub open spec fn optional_text(chars: Option<Seq<char>>) -> Seq<u8> {
    match chars {
        Some(c) => text(c),
        None => seq![NULL_BYTE],
    }
}

/// The optional text at the head of `s` and what follows it.
pub open spec fn parse_optional_text(s: Seq<u8>) -> Option<(Option<Seq<char>>, Seq<u8>)> {
    match parse_tag(s) {
        Some((first, rest)) => if first == NULL_BYTE {
            Some((None, rest))
        } else {
            match parse_text(s) {
                Some((c, after)) => Some((Some(c), after)),
                None => None,
            }
        },
        None => None,
    }
}

/// Whether the text, if there is one, is short enough to be written.
pub open spec fn optional_text_fits(chars: Option<Seq<char>>) -> bool {
    chars matches Some(c) ==> encode_utf8(c).len() <= u64::MAX
}

/// An optional text is read back from its own bytes, whatever follows them.
pub proof fn lemma_parse_optional_text(chars: Option<Seq<char>>, rest: Seq<u8>)
    requires
        optional_text_fits(chars),
    ensures
        parse_optional_text(optional_text(chars) + rest) == Some((chars, rest)),
{
    match chars {
        Some(c) => {
            lemma_parse_text(c, rest);
            assert((text(c) + rest)[0] == TEXT_HEAD);
        },
        None => {
            lemma_parse_tag(NULL_BYTE, rest);
        },
    }
}

/// Only the bytes of an optional text are read as that optional text.
pub proof fn lemma_optional_text_parsed(s: Seq<u8>)
    requires
        parse_optional_text(s) is Some,
    ensures
        optional_text(parse_optional_text(s)->Some_0.0) + parse_optional_text(s)->Some_0.1 == s,
        optional_text_fits(parse_optional_text(s)->Some_0.0),
{
    lemma_tag_parsed(s);
    if s[0] != NULL_BYTE {
        lemma_text_parsed(s);
    }
}

/// Four runs of bytes and what follows them, joined from the left or from
/// the right, are the same bytes.
pub proof fn lemma_four_parts(a: Seq<u8>, b: Seq<u8>, c: Seq<u8>, d: Seq<u8>, rest: Seq<u8>)
    ensures
        a + b + c + d + rest == a + (b + (c + (d + rest))),
{
    assert(a + b + c + d + rest =~= a + (b + (c + (d + rest))));
}

/// A value with a place in the byte layout.
pub trait Wire: View + Sized {
    /// The bytes that stand for a value.
    spec fn wire(v: Self::V) -> Seq<u8>;

    /// The value at the head of `s` and what follows it.
    spec fn parse(s: Seq<u8>) -> Option<(Self::V, Seq<u8>)>;

    /// Whether every length in the value can be written as a word. This
    /// holds of every value in memory.
    spec fn fits(v: Self::V) -> bool;

    /// Appends the bytes of `self` to `out`.
    fn put(&self, out: &mut Vec<u8>)
        ensures
            final(out)@ == old(out)@ + Self::wire(self@),
            Self::fits(self@),
    ;

    /// Reads a value from the head of `input`.
    fn take<'a>(input: &'a [u8]) -> (r: Option<(Self, &'a [u8])>)
        ensures
            match r {
                Some((v, rest)) => Self::parse(input@) == Some((v@, rest@)),
                None => Self::parse(input@) is None,
            },
    ;

    /// A value is read back from its own bytes, whatever follows them.
    proof fn lemma_parse_wire(v: Self::V, rest: Seq<u8>)
        requires
            Self::fits(v),
        ensures
            Self::parse(Self::wire(v) + rest) == Some((v, rest)),
    ;

    /// Only the bytes of a value are read as that value: there is one way
    /// to write each value, and reading accepts no other.
    proof fn lemma_wire_parsed(s: Seq<u8>)
        requires
            Self::parse(s) is Some,
        ensures
            Self::wire(Self::parse(s)->Some_0.0) + Self::parse(s)->Some_0.1 == s,
            Self::fits(Self::parse(s)->Some_0.0),
    ;
}

/// A 32-bit number travels as a word.
impl Wire for u32 {
    open spec fn wire(v: u32) -> Seq<u8> {
        word(v as u64)
    }

    open spec fn parse(s: Seq<u8>) -> Option<(u32, Seq<u8>)> {
        match parse_word(s) {
            Some((n, rest)) => if n <= u32::MAX {
                Some((n as u32, rest))
            } else {
                None
            },
            None => None,
        }
    }

    open spec fn fits(v: u32) -> bool {
        true
    }

    fn put(&self, out: &mut Vec<u8>) {
        put_word(out, *self as u64);
    }

    fn take<'a>(input: &'a [u8]) -> (r: Option<(Self, &'a [u8])>) {
        match take_word(input) {
            Some((n, rest)) => if n <= u32::MAX as u64 {
                Some((n as u32, rest))
            } else {
                None
            },
            None => None,
        }
    }

    proof fn lemma_parse_wire(v: u32, rest: Seq<u8>) {
        lemma_parse_word(v as u64, rest);
    }

    proof fn lemma_wire_parsed(s: Seq<u8>) {
        lemma_word_parsed(s);
    }
}

/// The value that `s` stands for as a whole, with nothing left over.
pub open spec fn decoded<T: Wire>(s: Seq<u8>) -> Option<T::V> {
    match T::parse(s) {
        Some((v, rest)) => if rest.len() == 0 {
            Some(v)
        } else {
            None
        },
        None => None,
    }
}

/// A value is recovered from exactly its own bytes.
pub proof fn lemma_decoded_wire<T: Wire>(v: T::V)
    requires
        T::fits(v),
    ensures
        decoded::<T>(T::wire(v)) == Some(v),
{
    T::lemma_parse_wire(v, Seq::empty());
    assert(T::wire(v) + Seq::<u8>::empty() =~= T::wire(v));
}

/// Bytes stand for a value exactly when they are what is written for it.
pub proof fn lemma_decoded_iff_written<T: Wire>(s: Seq<u8>, v: T::V)
    ensures
        decoded::<T>(s) == Some(v) <==> T::fits(v) && T::wire(v) == s,
{
    if T::fits(v) && T::wire(v) == s {
        lemma_decoded_wire::<T>(v);
    }
    if decoded::<T>(s) == Some(v) {
        T::lemma_wire_parsed(s);
        assert(T::wire(v) + Seq::<u8>::empty() =~= T::wire(v));
    }
}

/// The bytes that stand for `value`.
pub fn to_bytes<T: Wire>(value: &T) -> (bytes: Vec<u8>)
    ensures
        bytes@ == T::wire(value@),
        T::fits(value@),
{
    let mut out: Vec<u8> = Vec::new();
    value.put(&mut out);
    assert(out@ =~= T::wire(value@));
    out
}

/// The value that `bytes` stand for: the one value whose bytes they are, if
/// there is such a value.
pub fn from_bytes<T: Wire>(bytes: &[u8]) -> (r: Option<T>)
    ensures
        match r {
            Some(v) => decoded::<T>(bytes@) == Some(v@) && T::wire(v@) == bytes@,
            None => decoded::<T>(bytes@) is None && forall|v: T::V|
                T::fits(v) ==> #[trigger] T::wire(v) != bytes@,
        },
{
    let r = match T::take(bytes) {
        Some((v, rest)) => if rest.len() == 0 {
            Some(v)
        } else {
            None
        },
        None => None,
    };
    proof {
        if r is Some {
            lemma_decoded_iff_written::<T>(bytes@, r->Some_0@);
        } else {
            assert forall|v: T::V| T::fits(v) implies #[trigger] T::wire(v) != bytes@ by {
                lemma_decoded_iff_written::<T>(bytes@, v);
            }
        }
    }
    r
}

/// Appends an optional text to `out`.
pub fn put_optional_text(out: &mut Vec<u8>, chars: Option<&str>)
    ensures
        final(out)@ == old(out)@ + optional_text(
            match chars {
                Some(c) => Some(c@),
                None => None,
            },
        ),
        chars matches Some(c) ==> encode_utf8(c@).len() <= u64::MAX,
{
    match chars {
        Some(c) => {
            put_text(out, c);
        },
        None => {
            put_tag(out, NULL_BYTE);
        },
    }
}

/// Reads the optional text at the head of `input`.
pub fn take_optional_text<'a>(input: &'a [u8]) -> (r: Option<(Option<String>, &'a [u8])>)
    ensures
        match r {
            Some((chars, rest)) => parse_optional_text(input@) == Some(
                (
                    match chars {
                        Some(c) => Some(c@),
                        None => None,
                    },
                    rest@,
                ),
            ),
            None => parse_optional_text(input@) is None,
        },
{
    match take_tag(input) {
        Some((first, rest)) => if first == NULL_BYTE {
            Some((None, rest))
        } else {
            match take_text(input) {
                Some((c, after)) => Some((Some(c), after)),
                None => None,
            }
        },
        None => None,
    }
}

} // verus!
