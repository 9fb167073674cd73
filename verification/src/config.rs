//! The decisions the service takes from its settings: defaults, the cleanup
//! of keys that nobody used, and the answer to a client that sends too much.

use vstd::prelude::*;
use vstd::string::{StringExecFns, StrSliceExecFns};
use crate::cors::same_text;
use crate::models::{api_error, is_error, ApiError, ErrorStatus};

verus! {

/// A setting: the value that was found, or the default where none was.
pub fn setting_or_default(found: Option<String>, default: &str) -> (r: String)
    ensures
        r@ == match found {
            Some(v) => v@,
            None => default@,
        },
{
    match found {
        Some(v) => v,
        None => String::from_str(default),
    }
}

/// The setting of `DELETE_UNUSED_KEYS_AFTER` that leaves the cleanup off.
pub open spec fn cleanup_disabled_marker() -> Seq<char> {
    "default_disabled"@
}

/// Whether keys that nobody used are deleted: only where a period between
/// cleanups is set (not zero) and the age after which keys go is set.
pub fn cleanup_enabled(every_s_is_zero: bool, delete_unused_keys_after: &str) -> (r: bool)
    ensures
        r == (!every_s_is_zero && delete_unused_keys_after@ != cleanup_disabled_marker()),
{
    !every_s_is_zero && !same_text(delete_unused_keys_after, "default_disabled")
}

/// The statement that deletes the keys not accessed within the interval
/// `after` (a PostgreSQL interval, as the setting writes it).
pub open spec fn cleanup_statement(after: Seq<char>) -> Seq<char> {
    "DELETE FROM keys WHERE last_accessed < CURRENT_TIMESTAMP - INTERVAL '"@ + after + "'"@
}

/// Writes the statement that deletes the keys not accessed within `after`.
pub fn unused_keys_cleanup_query(after: &str) -> (r: String)
    ensures
        r@ == cleanup_statement(after@),
{
    let mut q = String::from_str(
        "DELETE FROM keys WHERE last_accessed < CURRENT_TIMESTAMP - INTERVAL '",
    );
    q.append(after);
    q.append("'");
    q
}

/// The answer to a client over its rate limit.
pub fn rate_limited_error() -> (e: ApiError)
    ensures
        is_error(e, ErrorStatus::TooManyRequests, "Rate limit exceeded"@),
{
    api_error(ErrorStatus::TooManyRequests, String::from_str("Rate limit exceeded"))
}

/// An ASCII decimal digit.
pub open spec fn is_digit(c: char) -> bool {
    48 <= (c as u32) && (c as u32) <= 57
}

/// The value of an ASCII decimal digit.
pub open spec fn digit_value(c: char) -> nat {
    ((c as u32) - 48) as nat
}

/// The value of a run of decimal digits, most significant first.
pub open spec fn digits_value(s: Seq<char>) -> nat
    decreases s.len(),
{
    if s.len() == 0 {
        0
    } else {
        digits_value(s.drop_last()) * 10 + digit_value(s.last())
    }
}

/// The number that a setting writes as `str::parse` reads an unsigned
/// integer: an optional `+` and then one or more ASCII digits, nothing else.
pub open spec fn unsigned_text(s: Seq<char>) -> Option<nat> {
    if unsigned_digits(s).len() > 0 && all_digits(unsigned_digits(s)) {
        Some(digits_value(unsigned_digits(s)))
    } else {
        None
    }
}

/// The text without its leading `+`, if it has one.
pub open spec fn unsigned_digits(s: Seq<char>) -> Seq<char> {
    if s.len() > 0 && s[0] == '+' { s.drop_first() } else { s }
}

/// Every character is an ASCII decimal digit.
pub open spec fn all_digits(s: Seq<char>) -> bool {
    forall|i: int| 0 <= i < s.len() ==> #[trigger] is_digit(s[i])
}

/// The digits read so far count no more than all of them.
proof fn digits_value_grows(s: Seq<char>, k: int)
    requires
        0 <= k <= s.len(),
        forall|i: int| 0 <= i < s.len() ==> #[trigger] is_digit(s[i]),
    ensures
        digits_value(s.take(k)) <= digits_value(s),
    decreases s.len() - k,
{
    if k < s.len() {
        digits_value_grows(s, k + 1);
        assert(s.take(k + 1).drop_last() =~= s.take(k));
    } else {
        assert(s.take(k) =~= s);
    }
}

/// Reads an unsigned number from a setting, as `str::parse` does for an
/// unsigned integer type whose largest value is `max`: `None` where the text
/// is not an optional `+` followed by digits, or the number exceeds `max`.
pub fn parse_unsigned(text: &str, max: u64) -> (r: Option<u64>)
    ensures
        r == match unsigned_text(text@) {
            Some(v) => if v <= max { Some(v as u64) } else { None },
            None => None,
        },
{
    let n = text.unicode_len();
    let mut i: usize = 0;
    if n > 0 && text.get_char(0) == '+' {
        i = 1;
    }
    let ghost body = unsigned_digits(text@);
    let ghost start = i as int;
    assert(body =~= text@.subrange(start, n as int));
    if i == n {
        return None;
    }
    let mut value: u64 = 0;
    while i < n
        invariant
            n == text@.len(),
            body == text@.subrange(start, n as int),
            body == unsigned_digits(text@),
            0 <= start <= i <= n,
            forall|j: int| start <= j < i ==> #[trigger] is_digit(text@[j]),
            value as nat == digits_value(text@.subrange(start, i as int)),
            value <= max,
        decreases n - i,
    {
        let c = text.get_char(i);
        let code: u32 = c as u32;
        if !(48 <= code && code <= 57) {
            assert(!is_digit(body[i - start]));
            return None;
        }
        let d: u64 = (code - 48) as u64;
        assert(text@.subrange(start, i + 1).drop_last() =~= text@.subrange(start, i as int));
        if d > max || value > (max - d) / 10 {
            proof {
                let prefix = text@.subrange(start, i + 1);
                assert(digits_value(prefix) > max);
                if all_digits(body) {
                    digits_value_grows(body, i + 1 - start);
                    assert(body.take(i + 1 - start) =~= prefix);
                }
            }
            return None;
        }
        value = value * 10 + d;
        i += 1;
    }
    assert(text@.subrange(start, n as int) =~= body);
    Some(value)
}

} // verus!
