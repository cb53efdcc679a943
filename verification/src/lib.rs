//! A compact, immutable string value: texts of up to twelve bytes live in the
//! record itself, longer texts keep their first four bytes in the record and
//! the whole text in a heap buffer that the value alone owns.

pub mod utf8;
pub mod encoding;
pub mod string;

pub use encoding::{Encoding, Payload, INLINE_CAPACITY, PREFIX_LEN};
pub use string::GermanString;
