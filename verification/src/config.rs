//! What the relay is configured with at startup: the values that are fixed,
//! and the settings that the environment names.

use crate::text::chars_of;
use vstd::prelude::*;

verus! {

/// The port that the relay listens on where none is given.
pub const DEFAULT_PORT: u16 = 3033;

/// How many jobs the queue holds before submissions have to wait.
pub const QUEUE_CAPACITY: usize = 100;

/// The fixed delay before every delivery attempt, in seconds.
pub const DELIVERY_DELAY_SECS: u64 = 1;

/// How long a request may take before it is answered as timed out, in seconds.
pub const REQUEST_TIMEOUT_SECS: u64 = 1;

/// The settings that are read once at startup and never change afterwards.
#[derive(Clone, Copy, Debug, PartialEq, Eq, Structural)]
pub struct Settings {
    /// The port to listen on.
    pub port: u16,
    /// Whether the relay runs inside a container.
    pub in_container: bool,
}

/// Whether `c` is a decimal digit.
pub open spec fn is_digit(c: char) -> bool {
    '0' <= c && c <= '9'
}

/// Whether `digits` holds decimal digits only.
pub open spec fn all_digits(digits: Seq<char>) -> bool {
    forall|i: int| 0 <= i < digits.len() ==> is_digit(#[trigger] digits[i])
}

/// The number that `digits` write in base ten.
pub open spec fn decimal_value(digits: Seq<char>) -> int
    decreases digits.len(),
{
    if digits.len() == 0 {
        0
    } else {
        decimal_value(digits.drop_last()) * 10 + (digits.last() as int - '0' as int)
    }
}

/// `text` without the plus sign that may stand in front of a number.
pub open spec fn unsigned_part(text: Seq<char>) -> Seq<char> {
    if text.len() > 0 && text[0] == '+' {
        text.skip(1)
    } else {
        text
    }
}

/// The port that `text` writes: a plus sign or none, then one decimal digit or
/// more and nothing else, with a value of at most 65535. Zeros may lead.
pub open spec fn port_of(text: Seq<char>) -> Option<u16> {
    let digits = unsigned_part(text);
    if digits.len() > 0 && all_digits(digits) && decimal_value(digits) <= u16::MAX {
        Some(decimal_value(digits) as u16)
    } else {
        None
    }
}

/// The settings that the environment asks for: the default port where none is
/// named, the named port where it is one, and none where the name is no port.
pub open spec fn settings_of(port: Option<Seq<char>>, in_container: bool) -> Option<Settings> {
    match port {
        None => Some(Settings { port: DEFAULT_PORT, in_container }),
        Some(text) => match port_of(text) {
            Some(port) => Some(Settings { port, in_container }),
            None => None,
        },
    }
}

/// The value of the digits read so far is never negative, and reading on does
/// not make it smaller.
proof fn lemma_value_grows(digits: Seq<char>, k: int)
    requires
        all_digits(digits),
        0 <= k <= digits.len(),
    ensures
        0 <= decimal_value(digits.take(k)) <= decimal_value(digits),
    decreases digits.len() - k,
{
    lemma_value_is_natural(digits.take(k));
    if k == digits.len() {
        assert(digits.take(k) =~= digits);
    } else {
        lemma_value_grows(digits, k + 1);
        assert(digits.take(k + 1).drop_last() =~= digits.take(k));
    }
}

/// A number written in digits is not negative.
proof fn lemma_value_is_natural(digits: Seq<char>)
    requires
        all_digits(digits),
    ensures
        0 <= decimal_value(digits),
    decreases digits.len(),
{
    if digits.len() > 0 {
        lemma_value_is_natural(digits.drop_last());
    }
}

/// Reads a port number.
pub fn parse_port(text: &str) -> (port: Option<u16>)
    ensures
        port == port_of(text@),
{
    let chars = chars_of(text);
    let n: usize = chars.len();
    let start: usize = if n > 0 && chars[0] == '+' {
        1
    } else {
        0
    };
    if start == n {
        return None;
    }
    let ghost digits = unsigned_part(text@);
    let mut value: u32 = 0;
    let mut i: usize = start;
    assert(digits.take(0) =~= Seq::<char>::empty());
    while i < n
        invariant
            chars@ == text@,
            n == chars.len(),
            start <= i <= n,
            digits == unsigned_part(text@),
            digits == text@.skip(start as int),
            all_digits(digits.take(i - start)),
            value == decimal_value(digits.take(i - start)),
            value <= u16::MAX,
        decreases n - i,
    {
        let c = chars[i];
        if !(c >= '0' && c <= '9') {
            assert(!is_digit(digits[i - start]));
            return None;
        }
        let digit: u32 = c as u32 - '0' as u32;
        value = value * 10 + digit;
        proof {
            let read = digits.take(i - start + 1);
            assert(read.drop_last() =~= digits.take(i - start));
            assert(read.last() == c);
            assert(all_digits(read)) by {
                assert forall|j: int| 0 <= j < read.len() implies is_digit(#[trigger] read[j]) by {
                    if j < i - start {
                        assert(digits.take(i - start)[j] == read[j]);
                    }
                }
            }
            if value > u16::MAX && all_digits(digits) {
                lemma_value_grows(digits, i - start + 1);
            }
        }
        if value > 65535 {
            return None;
        }
        i += 1;
    }
    assert(digits.take(n - start) =~= digits);
    Some(value as u16)
}

/// The settings that the environment asks for. `port` is the value of the
/// port variable where it is set, `in_container` whether the container flag is
/// set. Nothing comes back where the port variable holds no port.
pub fn settings(port: Option<&str>, in_container: bool) -> (chosen: Option<Settings>)
    ensures
        chosen == settings_of(
            match port {
                Some(text) => Some(text@),
                None => None,
            },
            in_container,
        ),
{
    match port {
        None => Some(Settings { port: DEFAULT_PORT, in_container }),
        Some(text) => match parse_port(text) {
            Some(port) => Some(Settings { port, in_container }),
            None => None,
        },
    }
}

} // verus!
