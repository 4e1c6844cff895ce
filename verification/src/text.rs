//! Byte ranges into UTF-8 text, and a builder that records them while the
//! text is put together.

use vstd::prelude::*;
use vstd::string::*;
use vstd::utf8::*;

verus! {

/// The number of bytes that `text` takes in UTF-8.
pub open spec fn byte_len(text: Seq<char>) -> nat {
    encode_utf8(text).len()
}

/// The bytes of `bytes` in the half-open range `range`.
pub open spec fn range_bytes(bytes: Seq<u8>, range: (int, int)) -> Seq<u8> {
    bytes.subrange(range.0, range.1)
}

/// The byte range that `piece` takes in the UTF-8 form of a text in which it
/// directly follows `before`.
pub open spec fn piece_range(before: Seq<char>, piece: Seq<char>) -> (int, int) {
    (byte_len(before) as int, (byte_len(before) + byte_len(piece)) as int)
}

/// A half-open range `[start, end)` of byte offsets into a string.
#[derive(Clone, Copy, Debug, PartialEq, Eq, Structural)]
pub struct ByteSpan {
    pub start: usize,
    pub end: usize,
}

impl ByteSpan {
    /// The span as a pair of mathematical integers.
    pub open spec fn range(&self) -> (int, int) {
        (self.start as int, self.end as int)
    }

    /// The span lies within a string of `len` bytes.
    pub open spec fn within(&self, len: nat) -> bool {
        self.start <= self.end <= len
    }
}

/// The UTF-8 form of a concatenation is the concatenation of the UTF-8 forms.
pub proof fn lemma_utf8_concat(a: Seq<char>, b: Seq<char>)
    ensures
        encode_utf8(a + b) == encode_utf8(a) + encode_utf8(b),
        byte_len(a + b) == byte_len(a) + byte_len(b),
    decreases a.len(),
{
    if a.len() == 0 {
        assert(a + b =~= b);
        assert(encode_utf8(a) + encode_utf8(b) =~= encode_utf8(b));
    } else {
        lemma_utf8_concat(a.drop_first(), b);
        assert((a + b).drop_first() =~= a.drop_first() + b);
        assert(encode_utf8(a + b) =~= encode_utf8(a) + encode_utf8(b));
    }
}

/// Cutting the UTF-8 form of `before + piece + after` at the range of `piece`
/// gives the UTF-8 form of `piece`, and decoding that gives `piece` back.
pub proof fn lemma_piece_round_trip(before: Seq<char>, piece: Seq<char>, after: Seq<char>)
    ensures
        range_bytes(encode_utf8(before + piece + after), piece_range(before, piece))
            == encode_utf8(piece),
        decode_utf8(
            range_bytes(encode_utf8(before + piece + after), piece_range(before, piece)),
        ) == piece,
        piece_range(before, piece).1 <= byte_len(before + piece + after),
{
    lemma_utf8_concat(before, piece);
    lemma_utf8_concat(before + piece, after);
    assert(range_bytes(encode_utf8(before + piece + after), piece_range(before, piece))
        =~= encode_utf8(piece));
    encode_utf8_decode_utf8(piece);
}

/// Whether `text` begins with the characters of `prefix`.
pub fn has_prefix(text: &str, prefix: &str) -> (found: bool)
    ensures
        found == prefix@.is_prefix_of(text@),
{
    let wanted: usize = prefix.unicode_len();
    if text.unicode_len() < wanted {
        return false;
    }
    let mut i: usize = 0;
    while i < wanted
        invariant
            i <= wanted,
            wanted == prefix@.len(),
            wanted <= text@.len(),
            text@.subrange(0, i as int) == prefix@.subrange(0, i as int),
        decreases wanted - i,
    {
        if text.get_char(i) != prefix.get_char(i) {
            assert(text@.subrange(0, wanted as int)[i as int] != prefix@[i as int]);
            return false;
        }
        assert(text@.subrange(0, i + 1) =~= text@.subrange(0, i as int).push(text@[i as int]));
        assert(prefix@.subrange(0, i + 1) =~= prefix@.subrange(0, i as int).push(
            prefix@[i as int],
        ));
        i = i + 1;
    }
    assert(prefix@.subrange(0, wanted as int) =~= prefix@);
    true
}

/// A text under construction.
pub struct FragmentBuilder {
    code: String,
}

impl FragmentBuilder {
    /// The text built so far.
    pub closed spec fn text(&self) -> Seq<char> {
        self.code@
    }

    /// A builder that holds the empty text.
    pub fn new() -> (builder: Self)
        ensures
            builder.text() == Seq::<char>::empty(),
    {
        FragmentBuilder { code: String::new() }
    }

    /// Appends `piece` and returns the span of bytes that it takes in the
    /// text.
    pub fn push(&mut self, piece: &str) -> (span: ByteSpan)
        ensures
            final(self).text() == old(self).text() + piece@,
            span.range() == piece_range(old(self).text(), piece@),
            span.within(byte_len(final(self).text())),
    {
        let start: usize = self.code.as_str().as_bytes().len();
        self.code.append(piece);
        let end: usize = self.code.as_str().as_bytes().len();
        proof {
            lemma_utf8_concat(old(self).text(), piece@);
        }
        ByteSpan { start, end }
    }

    /// The finished text.
    pub fn finish(self) -> (code: String)
        ensures
            code@ == self.text(),
    {
        self.code
    }
}

} // verus!
