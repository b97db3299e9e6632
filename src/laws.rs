//! Properties that hold of every handle and relate its views to one another.

use vstd::prelude::*;
use vstd::utf8::{encode_utf8, encode_utf8_decode_utf8};

use crate::dec_int::{DecInt, BUF_LEN};
use crate::decimal::{
    decimal_bytes, decimal_text, lemma_parse_round_trip, lemma_text_fits, lemma_text_injective,
    lemma_text_is_ascii, max_supported, min_supported, parse_decimal,
};

verus! {

/// For every supported value, from the least `i64` to the greatest `u64`,
/// the decimal text and its terminator fit the buffer.
pub proof fn lemma_fits_capacity(v: int)
    requires
        min_supported() <= v <= max_supported(),
    ensures
        decimal_text(v).len() + 1 <= BUF_LEN,
        decimal_bytes(v).len() == decimal_text(v).len(),
{
    lemma_text_fits(v);
    lemma_text_is_ascii(v);
}

/// The text view and the byte view have the same length and agree character
/// for byte; the bytes are the UTF-8 encoding of the text.
pub proof fn lemma_text_matches_bytes(d: DecInt)
    requires
        d.wf(),
    ensures
        decimal_text(d.value()).len() == d@.len(),
        forall|i: int|
            0 <= i < d@.len() ==> #[trigger] d@[i] == decimal_text(d.value())[i] as u8,
        encode_utf8(decimal_text(d.value())) == d@,
{
    d.lemma_view();
    lemma_text_is_ascii(d.value());
}

/// Reading the text view back as a decimal number gives the handle's value.
pub proof fn lemma_round_trip(d: DecInt)
    requires
        d.wf(),
    ensures
        parse_decimal(decimal_text(d.value())) == d.value(),
{
    lemma_parse_round_trip(d.value());
}

/// Two handles hold the same bytes, with and without the terminator, exactly
/// when they were built from the same value.
pub proof fn lemma_same_value_same_views(a: DecInt, b: DecInt)
    requires
        a.wf(),
        b.wf(),
    ensures
        a.value() == b.value() <==> a@ == b@,
        a.value() == b.value() ==> a@.push(0u8) == b@.push(0u8),
{
    a.lemma_view();
    b.lemma_view();
    if a@ == b@ {
        lemma_text_matches_bytes(a);
        lemma_text_matches_bytes(b);
        encode_utf8_decode_utf8(decimal_text(a.value()));
        encode_utf8_decode_utf8(decimal_text(b.value()));
        lemma_text_injective(a.value(), b.value());
    }
}

} // verus!
