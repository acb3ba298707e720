//! Cutting a string at byte offsets, and what the cuts hold; and the two
//! conversions that make a replacement of a string.

use std::borrow::Cow;
use vstd::prelude::*;
use vstd::string::StringSliceAdditionalSpecFns;
use vstd::utf8::decode_utf8;
use vstd::utf8::is_char_boundary;
use vstd::utf8::valid_utf8;

verus! {

/// [`Cow::from`] of a string slice, which std documents as the conversion into
/// the `Borrowed` variant: the slice itself, not copied.
pub assume_specification<'a>[ <Cow<'a, str> as From<&'a str>>::from ](s: &'a str) -> (converted: Cow<'a, str>)
    ensures
        converted == Cow::<str>::Borrowed(s),
;

/// [`Cow::from`] of a `String`, which std documents as the conversion into the
/// `Owned` variant: the string itself.
pub assume_specification<'a>[ <Cow<'a, str> as From<String>>::from ](s: String) -> (converted: Cow<'a, str>)
    ensures
        converted == Cow::<str>::Owned(s),
;

/// A character boundary of a text is one of every prefix that reaches it.
proof fn lemma_boundary_of_prefix(bytes: Seq<u8>, at: int, cut: int)
    requires
        valid_utf8(bytes),
        0 <= at <= cut <= bytes.len(),
        is_char_boundary(bytes, at),
        is_char_boundary(bytes, cut),
    ensures
        valid_utf8(bytes.subrange(0, cut)),
        is_char_boundary(bytes.subrange(0, cut), at),
{
    let prefix = bytes.subrange(0, cut);
    vstd::utf8::valid_utf8_split(bytes, cut);
    if at == cut {
        vstd::utf8::is_char_boundary_start_end_of_seq(prefix);
    } else {
        vstd::utf8::is_char_boundary_iff_not_is_continuation_byte(bytes, at);
        vstd::utf8::is_char_boundary_iff_not_is_continuation_byte(prefix, at);
    }
}

/// The length of `s` in bytes.
pub(crate) fn byte_len(s: &str) -> (len: usize)
    ensures
        len == s.spec_bytes().len(),
{
    s.as_bytes().len()
}

/// The part of `s` between the byte offsets `from` and `to`, borrowed from `s`.
pub(crate) fn substr<'a>(s: &'a str, from: usize, to: usize) -> (part: &'a str)
    requires
        from <= to <= s.spec_bytes().len(),
        is_char_boundary(s.spec_bytes(), from as int),
        is_char_boundary(s.spec_bytes(), to as int),
    ensures
        part.spec_bytes() == s.spec_bytes().subrange(from as int, to as int),
        part@ == decode_utf8(s.spec_bytes().subrange(from as int, to as int)),
{
    proof {
        vstd::utf8::encode_utf8_valid_utf8(s@);
        lemma_boundary_of_prefix(s.spec_bytes(), from as int, to as int);
    }
    let (head, _) = s.split_at(to);
    let (_, part) = head.split_at(from);
    proof {
        vstd::utf8::encode_utf8_decode_utf8(part@);
    }
    part
}

} // verus!
