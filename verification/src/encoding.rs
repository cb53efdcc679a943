//! The mathematical model of the record: what it stores for a given text, and
//! how the text, its length and its prefix are read back from what is stored.

use vstd::prelude::*;
use vstd::utf8::*;

verus! {

/// The longest text, in bytes, that is kept in the record itself.
pub const INLINE_CAPACITY: usize = 12;

/// The number of leading bytes that a spilled record keeps beside its buffer.
pub const PREFIX_LEN: usize = 4;

/// What a record holds beside the length, as one of its two variants.
pub enum Payload {
    /// The whole text, at offset 0 of a buffer of `INLINE_CAPACITY` bytes. The
    /// bytes behind the text carry no meaning.
    Inline { buf: Seq<u8> },
    /// The first `PREFIX_LEN` bytes of the text, and the buffer on the heap
    /// that holds all of it.
    Spilled { prefix: Seq<u8>, heap: Seq<u8> },
}

/// A record: the length of the text in bytes, and the payload.
pub struct Encoding {
    pub len: nat,
    pub payload: Payload,
}

/// The number of text bytes that `prefix` covers for a text of `len` bytes.
pub open spec fn prefix_len(len: nat) -> nat {
    if len < PREFIX_LEN {
        len
    } else {
        PREFIX_LEN as nat
    }
}

impl Encoding {
    /// The bytes of the text that the record stands for. Of an inline buffer
    /// only the first `len` bytes are read.
    pub open spec fn text(self) -> Seq<u8> {
        match self.payload {
            Payload::Inline { buf } => buf.take(self.len as int),
            Payload::Spilled { prefix, heap } => heap,
        }
    }

    /// The leading bytes of the text, read from the record alone: never from
    /// the heap buffer.
    pub open spec fn prefix(self) -> Seq<u8> {
        match self.payload {
            Payload::Inline { buf } => buf.take(prefix_len(self.len) as int),
            Payload::Spilled { prefix, heap } => prefix,
        }
    }

    /// The number of bytes that the record owns on the heap.
    pub open spec fn heap_len(self) -> nat {
        match self.payload {
            Payload::Inline { buf } => 0,
            Payload::Spilled { prefix, heap } => heap.len(),
        }
    }

    /// The text as characters.
    pub open spec fn chars(self) -> Seq<char> {
        decode_utf8(self.text())
    }

    /// The invariant of a record: the length is the byte count of the text and
    /// fits in 32 bits; the variant is chosen by the length; a spilled record's
    /// buffer has exactly `len` bytes and its prefix repeats the first four of
    /// them; the text is valid UTF-8.
    pub open spec fn wf(self) -> bool {
        &&& self.len <= u32::MAX
        &&& match self.payload {
            Payload::Inline { buf } => {
                &&& self.len <= INLINE_CAPACITY
                &&& buf.len() == INLINE_CAPACITY
            },
            Payload::Spilled { prefix, heap } => {
                &&& self.len > INLINE_CAPACITY
                &&& heap.len() == self.len
                &&& prefix == heap.take(PREFIX_LEN as int)
            },
        }
        &&& valid_utf8(self.text())
    }
}

/// `bytes`, followed by as many zero bytes as it takes to reach `width`.
pub open spec fn zero_padded(bytes: Seq<u8>, width: nat) -> Seq<u8> {
    bytes + Seq::new((width - bytes.len()) as nat, |i: int| 0u8)
}

/// The record that stands for `text`: an inline buffer, filled up with zero
/// bytes, for a text of at most `INLINE_CAPACITY` bytes, else the prefix and a
/// heap buffer with a copy of the text.
pub open spec fn encode(text: Seq<u8>) -> Encoding {
    if text.len() <= INLINE_CAPACITY {
        Encoding {
            len: text.len(),
            payload: Payload::Inline { buf: zero_padded(text, INLINE_CAPACITY as nat) },
        }
    } else {
        Encoding {
            len: text.len(),
            payload: Payload::Spilled { prefix: text.take(PREFIX_LEN as int), heap: text },
        }
    }
}

/// Reading a record back gives the text it was made from, and its length is
/// the text's byte count.
pub proof fn lemma_encode_round_trip(text: Seq<u8>)
    ensures
        encode(text).text() == text,
        encode(text).len == text.len(),
{
    assert(encode(text).text() =~= text);
}

/// What a record made from `text` shows as its prefix is the first four bytes
/// of `text`, or all of `text` where it is shorter.
pub proof fn lemma_encode_prefix(text: Seq<u8>)
    ensures
        encode(text).prefix() == text.take(prefix_len(text.len()) as int),
{
    assert(encode(text).prefix() =~= text.take(prefix_len(text.len()) as int));
}

/// A text of up to `INLINE_CAPACITY` bytes is stored inline and owns nothing
/// on the heap; a longer one is spilled, and its buffer has exactly as many
/// bytes as the text.
pub proof fn lemma_encode_boundary(text: Seq<u8>)
    ensures
        encode(text).payload is Inline <==> text.len() <= INLINE_CAPACITY,
        encode(text).payload is Spilled <==> text.len() > INLINE_CAPACITY,
        encode(text).heap_len() == if text.len() <= INLINE_CAPACITY {
            0
        } else {
            text.len()
        },
{
}

/// The record made from a valid UTF-8 text of fewer than 2^32 bytes meets the
/// record invariant.
pub proof fn lemma_encode_wf(text: Seq<u8>)
    requires
        valid_utf8(text),
        text.len() <= u32::MAX,
    ensures
        encode(text).wf(),
{
    lemma_encode_round_trip(text);
}

/// Encoding the UTF-8 bytes of a character sequence and reading the record
/// back as characters gives the same sequence.
pub proof fn lemma_encode_chars_round_trip(chars: Seq<char>)
    ensures
        encode(encode_utf8(chars)).chars() == chars,
        encode(encode_utf8(chars)).len == encode_utf8(chars).len(),
{
    lemma_encode_round_trip(encode_utf8(chars));
    encode_utf8_decode_utf8(chars);
}

/// In every record that meets the invariant, the length is the byte count of
/// the text, and the prefix is the first four bytes of the text, or all of it
/// where it is shorter.
pub proof fn lemma_prefix_of_text(e: Encoding)
    requires
        e.wf(),
    ensures
        e.len == e.text().len(),
        e.prefix() == e.text().take(prefix_len(e.len) as int),
{
    assert(e.prefix() =~= e.text().take(prefix_len(e.len) as int));
}

/// A record that meets the invariant has no characters exactly when its
/// length is zero.
pub proof fn lemma_text_empty(e: Encoding)
    requires
        e.wf(),
    ensures
        e.len == 0 <==> e.chars().len() == 0,
{
    lemma_prefix_of_text(e);
    decode_utf8_encode_utf8(e.text());
    if e.len == 0 {
        assert(e.text() =~= Seq::<u8>::empty());
    } else if e.chars().len() == 0 {
        assert(e.chars() =~= Seq::<char>::empty());
    }
}

} // verus!
