//! Percent-decoding of request paths.

use vstd::prelude::*;
use vstd::utf8::{encode_utf8, valid_utf8};

verus! {

/// The byte `%`, which introduces an escape.
pub const PERCENT: u8 = 0x25;

/// The value of a hexadecimal digit in either case, if `b` is one.
pub open spec fn hex_value(b: u8) -> Option<u8> {
    if 0x30 <= b <= 0x39 {
        Some((b - 0x30) as u8)
    } else if 0x41 <= b <= 0x46 {
        Some((b - 0x41 + 10) as u8)
    } else if 0x61 <= b <= 0x66 {
        Some((b - 0x61 + 10) as u8)
    } else {
        None
    }
}

/// Whether `s` begins with an escape: `%` and two hexadecimal digits.
pub open spec fn begins_with_escape(s: Seq<u8>) -> bool {
    &&& s.len() >= 3
    &&& s[0] == PERCENT
    &&& hex_value(s[1]) is Some
    &&& hex_value(s[2]) is Some
}

/// `s` with every escape replaced by the byte that it stands for. A `%`
/// that no two hexadecimal digits follow stands for itself.
pub open spec fn percent_decoded(s: Seq<u8>) -> Seq<u8>
    decreases s.len(),
{
    if s.len() == 0 {
        s
    } else if begins_with_escape(s) {
        seq![(hex_value(s[1])->0 * 16 + hex_value(s[2])->0) as u8] + percent_decoded(s.skip(3))
    } else {
        seq![s[0]] + percent_decoded(s.skip(1))
    }
}

/// Percent-decodes `key` and reads the result as UTF-8 text, if it is such.
///
/// Trusted: the body calls `percent_encoding::percent_decode` and then
/// `PercentDecode::decode_utf8`. The contract claims that the iterator of that
/// crate yields exactly [`percent_decoded`], and that `decode_utf8` succeeds
/// on exactly the byte strings that are well-formed UTF-8, handing back the
/// text that they encode.
#[verifier::external_body]
pub(crate) fn decode_utf8(key: &[u8]) -> (r: Option<String>)
    ensures
        r is Some <==> valid_utf8(percent_decoded(key@)),
        r matches Some(text) ==> encode_utf8(text@) == percent_decoded(key@),
{
    match percent_encoding::percent_decode(key).decode_utf8() {
        Ok(text) => Some(text.into_owned()),
        Err(_) => None,
    }
}

/// A path without `%` decodes to itself.
pub proof fn lemma_plain_path_decodes_to_itself(s: Seq<u8>)
    requires
        !s.contains(PERCENT),
    ensures
        percent_decoded(s) == s,
    decreases s.len(),
{
    if s.len() > 0 {
        assert(s[0] != PERCENT);
        let rest = s.skip(1);
        assert forall|i: int| 0 <= i < rest.len() implies rest[i] != PERCENT by {
            assert(rest[i] == s[i + 1]);
        }
        lemma_plain_path_decodes_to_itself(rest);
        assert(seq![s[0]] + rest =~= s);
    }
}

} // verus!
