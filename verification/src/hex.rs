//! Validation of the hash-shaped identifiers the registry stores.
//!
//! Every hash-typed field (commitment, source hash, intel hash, public-inputs
//! hash) must be exactly 64 case-insensitive hexadecimal characters.

use vstd::prelude::*;

verus! {

/// A character is a hexadecimal digit: `0-9`, `a-f` or `A-F`.
pub open spec fn spec_is_hex_char(c: char) -> bool {
    ('0' <= c && c <= '9') || ('a' <= c && c <= 'f') || ('A' <= c && c <= 'F')
}

/// A string is exactly 64 hexadecimal characters.
pub open spec fn spec_is_hex_64(s: Seq<char>) -> bool {
    s.len() == 64 && forall|i: int| 0 <= i < s.len() ==> spec_is_hex_char(#[trigger] s[i])
}

/// Hexadecimal characters are ASCII, so a hash-shaped string can be
/// sliced bytewise.
pub proof fn lemma_hex_is_ascii(s: Seq<char>)
    requires
        spec_is_hex_64(s),
    ensures
        vstd::utf8::is_ascii_chars(s),
{
    assert forall|i: int| 0 <= i < s.len() implies '\0' <= #[trigger] s[i] <= '\u{7f}' by {
        assert(spec_is_hex_char(s[i]));
    }
}

/// Checks that `s` is exactly 64 hexadecimal characters.
pub fn is_hex_64(s: &str) -> (r: bool)
    ensures
        r == spec_is_hex_64(s@),
{
    let n = s.unicode_len();
    if n != 64 {
        return false;
    }
    let mut i: usize = 0;
    while i < n
        invariant
            n == s@.len(),
            0 <= i <= n,
            forall|j: int| 0 <= j < i ==> spec_is_hex_char(#[trigger] s@[j]),
        decreases n - i,
    {
        let c = s.get_char(i);
        let ok = ('0' <= c && c <= '9') || ('a' <= c && c <= 'f') || ('A' <= c && c <= 'F');
        if !ok {
            return false;
        }
        i += 1;
    }
    true
}

} // verus!
