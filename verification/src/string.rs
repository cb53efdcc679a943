//! The executable string type.

use crate::encoding::{
    encode, lemma_prefix_of_text, lemma_text_empty, prefix_len, zero_padded, Encoding, Payload,
    INLINE_CAPACITY, PREFIX_LEN,
};
use vstd::prelude::*;
use vstd::slice::{slice_subrange, slice_to_vec};
use vstd::string::StringSliceAdditionalSpecFns;
use vstd::utf8::*;

verus! {

/// What a `GermanString` holds beside its length.
enum Store {
    Inline { buf: [u8; INLINE_CAPACITY] },
    Spilled { prefix: [u8; PREFIX_LEN], heap: Vec<u8> },
}

impl Store {
    spec fn model(self) -> Payload {
        match self {
            Store::Inline { buf } => Payload::Inline { buf: buf@ },
            Store::Spilled { prefix, heap } => Payload::Spilled { prefix: prefix@, heap: heap@ },
        }
    }
}

/// An immutable text of fewer than 2^32 bytes. It owns its heap buffer alone
/// and cannot be duplicated: it is moved, and the buffer is released when the
/// one owner goes out of scope.
pub struct GermanString {
    len: u32,
    payload: Store,
}

/// An array whose first `n` bytes are those of `src`, and whose other bytes
/// are zero.
fn filled<const N: usize>(src: &[u8], n: usize) -> (out: [u8; N])
    requires
        n <= N,
        n <= src@.len(),
    ensures
        out@ == zero_padded(src@.take(n as int), N as nat),
{
    let mut out = [0u8; N];
    let mut i: usize = 0;
    while i < n
        invariant
            i <= n <= N,
            n <= src@.len(),
            forall|j: int| 0 <= j < i ==> out@[j] == src@[j],
            forall|j: int| i <= j < N ==> out@[j] == 0u8,
        decreases n - i,
    {
        out[i] = src[i];
        i += 1;
    }
    assert(out@ =~= zero_padded(src@.take(n as int), N as nat));
    out
}

impl GermanString {
    /// The record that this value is, as the model sees it.
    pub closed spec fn encoding(&self) -> Encoding {
        Encoding { len: self.len as nat, payload: self.payload.model() }
    }

    /// Every value is a record that meets the record invariant.
    #[verifier::type_invariant]
    pub open spec fn wf(&self) -> bool {
        self.encoding().wf()
    }

    /// Makes the value that stands for `s`, with a copy of its bytes: the
    /// value borrows nothing from `s`. A text of 2^32 bytes or more has no
    /// such value.
    pub fn from(s: &str) -> (r: GermanString)
        requires
            s.spec_bytes().len() <= u32::MAX,
        ensures
            r.encoding() == encode(s.spec_bytes()),
            r@ == s@,
    {
        broadcast use encode_utf8_valid_utf8, encode_utf8_decode_utf8;

        let bytes = s.as_bytes();
        let n = bytes.len();
        let payload = if n <= INLINE_CAPACITY {
            Store::Inline { buf: filled(bytes, n) }
        } else {
            Store::Spilled { prefix: filled(bytes, PREFIX_LEN), heap: slice_to_vec(bytes) }
        };
        proof {
            let stored = Encoding { len: n as nat, payload: payload.model() };
            if n <= INLINE_CAPACITY {
                assert(bytes@.take(n as int) =~= bytes@);
            } else {
                assert(zero_padded(bytes@.take(PREFIX_LEN as int), PREFIX_LEN as nat)
                    =~= bytes@.take(PREFIX_LEN as int));
            }
            assert(stored.text() =~= bytes@);
            assert(stored == encode(bytes@));
        }
        GermanString { len: n as u32, payload }
    }

    /// The length of the text in bytes.
    pub fn len(&self) -> (n: u32)
        ensures
            n == self.encoding().len,
            n == self.encoding().text().len(),
    {
        proof {
            use_type_invariant(self);
        }
        self.len
    }

    /// Whether the text has no bytes.
    pub fn is_empty(&self) -> (b: bool)
        ensures
            b == (self.encoding().len == 0),
            b == (self@.len() == 0),
    {
        proof {
            use_type_invariant(self);
            lemma_text_empty(self.encoding());
        }
        self.len == 0
    }

    /// The first four bytes of the text, or all of it where it is shorter,
    /// read from the record and not from the heap.
    pub fn prefix(&self) -> (p: &[u8])
        ensures
            p@ == self.encoding().prefix(),
            p@ == self.encoding().text().take(prefix_len(self.encoding().len) as int),
    {
        proof {
            use_type_invariant(self);
            lemma_prefix_of_text(self.encoding());
        }
        match &self.payload {
            Store::Inline { buf } => {
                let len = self.len as usize;
                let n: usize = if len < PREFIX_LEN {
                    len
                } else {
                    PREFIX_LEN
                };
                slice_subrange(buf.as_slice(), 0, n)
            },
            Store::Spilled { prefix, heap } => prefix.as_slice(),
        }
    }

    /// The whole text, borrowed from this value.
    pub fn as_str(&self) -> (s: &str)
        ensures
            s.spec_bytes() == self.encoding().text(),
            s@ == self@,
    {
        broadcast use encode_utf8_decode_utf8;

        proof {
            use_type_invariant(self);
        }
        let bytes: &[u8] = match &self.payload {
            Store::Inline { buf } => slice_subrange(buf.as_slice(), 0, self.len as usize),
            Store::Spilled { prefix, heap } => heap.as_slice(),
        };
        core::str::from_utf8(bytes).unwrap()
    }

    /// The text as an owned `String`, with nothing added to it.
    pub fn to_string(&self) -> (s: String)
        ensures
            s@ == self@,
    {
        self.as_str().to_owned()
    }

    /// The heap buffer of a spilled value; an inline value has none.
    pub fn heap(&self) -> (h: Option<&[u8]>)
        ensures
            match h {
                Some(buffer) => self.encoding().payload is Spilled && buffer@
                    == self.encoding().text(),
                None => self.encoding().payload is Inline,
            },
            h is None <==> self.encoding().len <= INLINE_CAPACITY,
    {
        proof {
            use_type_invariant(self);
        }
        match &self.payload {
            Store::Inline { buf } => None,
            Store::Spilled { prefix, heap } => Some(heap.as_slice()),
        }
    }
}

impl View for GermanString {
    type V = Seq<char>;

    /// The text, as characters.
    open spec fn view(&self) -> Seq<char> {
        self.encoding().chars()
    }
}

} // verus!
