//! Message identifiers: what one looks like, and where a fresh one comes from.

use crate::text::chars_of;
use vstd::prelude::*;

verus! {

/// The length of a message identifier in characters.
pub const MESSAGE_ID_LEN: usize = 36;

/// Whether `c` is a hexadecimal digit in lower case.
pub open spec fn is_lower_hex(c: char) -> bool {
    ('0' <= c && c <= '9') || ('a' <= c && c <= 'f')
}

/// Whether position `i` of a message identifier holds a hyphen.
pub open spec fn is_hyphen_position(i: int) -> bool {
    i == 8 || i == 13 || i == 18 || i == 23
}

/// Whether `c` may stand at position `i` of a message identifier: a hyphen
/// between the groups, a hexadecimal digit in lower case elsewhere.
pub open spec fn fits_position(i: int, c: char) -> bool {
    if is_hyphen_position(i) {
        c == '-'
    } else {
        is_lower_hex(c)
    }
}

/// Whether `text` is a message identifier: a random (version 4) UUID written
/// in lower case as five groups of 8, 4, 4, 4 and 12 hexadecimal digits with
/// hyphens between them. The third group starts with the version, `4`; the
/// fourth starts with `8`, `9`, `a` or `b`.
pub open spec fn is_message_id(text: Seq<char>) -> bool {
    &&& text.len() == 36
    &&& forall|i: int| 0 <= i < 36 ==> fits_position(i, #[trigger] text[i])
    &&& text[14] == '4'
    &&& (text[19] == '8' || text[19] == '9' || text[19] == 'a' || text[19] == 'b')
}

/// Whether `text` has the shape of a message identifier.
pub fn is_valid_message_id(text: &str) -> (valid: bool)
    ensures
        valid == is_message_id(text@),
{
    let chars = chars_of(text);
    if chars.len() != MESSAGE_ID_LEN {
        return false;
    }
    let mut i: usize = 0;
    while i < MESSAGE_ID_LEN
        invariant
            chars@ == text@,
            chars.len() == 36,
            i <= 36,
            forall|j: int| 0 <= j < i ==> fits_position(j, #[trigger] text@[j]),
        decreases 36 - i,
    {
        let c = chars[i];
        let fits = if i == 8 || i == 13 || i == 18 || i == 23 {
            c == '-'
        } else {
            (c >= '0' && c <= '9') || (c >= 'a' && c <= 'f')
        };
        if !fits {
            return false;
        }
        i += 1;
    }
    let variant = chars[19];
    chars[14] == '4' && (variant == '8' || variant == '9' || variant == 'a' || variant == 'b')
}

/// A fresh message identifier.
///
/// Calls `uuid::Uuid::new_v4` and writes the result with `to_string`. Trusted,
/// not proved: the result has the shape of a message identifier. `new_v4`
/// fills 128 bits from the operating system's random source, then fixes the
/// version digit to `4` and the two top bits of the variant digit to `10`;
/// `to_string` writes the hyphenated form in lower case. Which identifier
/// comes back is left open, so nothing here says that two calls differ. Where
/// the operating system has no random bytes to give, `new_v4` panics.
#[verifier::external_body]
pub(crate) fn fresh_message_id() -> (id: String)
    ensures
        is_message_id(id@),
{
    uuid::Uuid::new_v4().to_string()
}

} // verus!
