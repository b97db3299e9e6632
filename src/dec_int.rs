//! `DecInt`: the decimal text of an integer in a fixed stack buffer.
//!
//! The buffer is filled once, by the constructor, and is read only through
//! views that stop at the written text or just after its NUL terminator.

use vstd::prelude::*;
use vstd::slice::slice_subrange;
use vstd::utf8::*;
use vstd::string::*;

use crate::decimal::{decimal_bytes, decimal_text, lemma_text_fits, lemma_text_is_ascii, max_supported, min_supported};
use crate::integer::DecimalInteger;

verus! {

/// Room for the longest supported text, `-9223372036854775808`, and a NUL.
pub const BUF_LEN: usize = 21;

#[verifier::external_type_specification]
#[verifier::external_body]
pub struct ExBuffer(itoa::Buffer);

/// Relies on itoa::Buffer::new: a scratch buffer for one formatted integer.
pub assume_specification[ itoa::Buffer::new ]() -> itoa::Buffer;

/// Relies on itoa::Buffer::format: the returned text is the decimal form of
/// `v` (an optional `-`, then the digits without leading zeros).
#[verifier::external_body]
fn format_i128<'a>(scratch: &'a mut itoa::Buffer, v: i128) -> (r: &'a str)
    ensures
        r@ == decimal_text(v as int),
{
    scratch.format(v)
}

/// Relies on core::str::from_utf8: it succeeds exactly on valid UTF-8, and
/// then returns the text whose encoding is `b`.
#[verifier::external_body]
fn str_from_utf8(b: &[u8]) -> (r: Option<&str>)
    ensures
        r is Some <==> valid_utf8(b@),
        r matches Some(s) ==> s.spec_bytes() == b@,
{
    core::str::from_utf8(b).ok()
}

/// The decimal text of an integer, with a NUL terminator, in a buffer on the
/// stack. It is built once and never changed.
#[derive(Clone, Copy)]
pub struct DecInt {
    buf: [u8; BUF_LEN],
    len: usize,
    value: Ghost<int>,
}

impl View for DecInt {
    type V = Seq<u8>;

    /// The written text as bytes, without the terminator.
    closed spec fn view(&self) -> Seq<u8> {
        self.buf@.subrange(0, self.len as int)
    }
}

impl DecInt {
    /// The integer whose text the handle holds.
    pub closed spec fn value(&self) -> int {
        self.value@
    }

    /// The handle holds the decimal bytes of a supported value, followed by
    /// a NUL, within its buffer.
    pub closed spec fn wf(&self) -> bool {
        &&& min_supported() <= self.value@ <= max_supported()
        &&& self.len < BUF_LEN
        &&& self.buf@.subrange(0, self.len as int) == decimal_bytes(self.value@)
        &&& self.buf@[self.len as int] == 0u8
    }

    /// Writes the decimal text of `i` and a NUL terminator into a new handle.
    pub fn new<Int: DecimalInteger>(i: Int) -> (r: DecInt)
        ensures
            r.wf(),
            r.value() == i.int_value(),
            r@ == decimal_bytes(i.int_value()),
    {
        let v = i.to_i128();
        let mut scratch = itoa::Buffer::new();
        let text = format_i128(&mut scratch, v);
        let bytes = text.as_bytes();
        proof {
            lemma_text_fits(v as int);
            lemma_text_is_ascii(v as int);
        }
        let n = bytes.len();
        let mut buf = [0u8; BUF_LEN];
        let mut k: usize = 0;
        while k < n
            invariant
                n == bytes@.len(),
                n < BUF_LEN,
                k <= n,
                bytes@ == decimal_bytes(v as int),
                forall|j: int| 0 <= j < k ==> buf@[j] == bytes@[j],
            decreases n - k,
        {
            buf[k] = bytes[k];
            k = k + 1;
        }
        buf[n] = 0;
        let r = DecInt { buf, len: n, value: Ghost(v as int) };
        assert(r.buf@.subrange(0, n as int) =~= decimal_bytes(v as int));
        r
    }

    /// Writes the decimal text of a raw file descriptor; the same handle as
    /// `DecInt::new(raw_fd)`.
    pub fn from_fd(raw_fd: i32) -> (r: DecInt)
        ensures
            r.wf(),
            r.value() == raw_fd as int,
            r@ == decimal_bytes(raw_fd as int),
    {
        DecInt::new(raw_fd)
    }

    /// The handle's view is the decimal bytes of its value, which is a
    /// supported integer.
    pub proof fn lemma_view(&self)
        requires
            self.wf(),
        ensures
            self@ == decimal_bytes(self.value()),
            min_supported() <= self.value() <= max_supported(),
            self@.len() < BUF_LEN,
    {
    }

    /// The text as bytes followed by its NUL terminator: the bytes written,
    /// and not one more.
    pub fn as_bytes_with_nul(&self) -> (r: &[u8])
        requires
            self.wf(),
        ensures
            r@ == self@.push(0u8),
            forall|i: int| 0 <= i < self@.len() ==> #[trigger] r@[i] != 0u8,
    {
        proof {
            lemma_text_is_ascii(self.value@);
        }
        let r = slice_subrange(self.buf.as_slice(), 0, self.len + 1);
        assert(r@ =~= self@.push(0u8));
        r
    }

    /// The text as bytes, without the terminator.
    pub fn as_bytes(&self) -> (r: &[u8])
        requires
            self.wf(),
        ensures
            r@ == self@,
    {
        let bytes = self.as_bytes_with_nul();
        let r = slice_subrange(bytes, 0, bytes.len() - 1);
        assert(r@ =~= self@);
        r
    }

    /// The text itself.
    pub fn as_str(&self) -> (r: &str)
        requires
            self.wf(),
        ensures
            r@ == decimal_text(self.value()),
            r.spec_bytes() == self@,
    {
        let bytes = self.as_bytes();
        proof {
            lemma_text_is_ascii(self.value@);
            encode_utf8_valid_utf8(decimal_text(self.value@));
        }
        match str_from_utf8(bytes) {
            Some(s) => {
                proof {
                    encode_utf8_decode_utf8(s@);
                    encode_utf8_decode_utf8(decimal_text(self.value@));
                }
                s
            },
            None => {
                assert(false);
                ""
            },
        }
    }
}

} // verus!
