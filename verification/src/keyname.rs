//! What a key name may be made of.

use vstd::prelude::*;
use vstd::string::StrSliceExecFns;

verus! {

/// What `char::is_alphanumeric` returns for a character: whether it has the
/// Unicode property Alphabetic or the general category Nd, Nl or No.
pub uninterp spec fn char_is_alphanumeric(c: char) -> bool;

/// An ASCII letter or digit: `a`-`z`, `A`-`Z` or `0`-`9`.
pub open spec fn ascii_alphanumeric(c: char) -> bool {
    ||| 48 <= (c as u32) <= 57
    ||| 65 <= (c as u32) <= 90
    ||| 97 <= (c as u32) <= 122
}

/// Whether a character is alphanumeric: among ASCII characters the letters
/// and digits; beyond ASCII, as the Unicode tables say.
pub open spec fn alphanumeric(c: char) -> bool {
    if (c as u32) < 128 {
        ascii_alphanumeric(c)
    } else {
        char_is_alphanumeric(c)
    }
}

/// Calls `char::is_alphanumeric`. Claimed: the result is
/// `char_is_alphanumeric(c)`, a function of `c` alone; among ASCII characters
/// exactly the letters and digits are alphanumeric (the ASCII letters have
/// the property Alphabetic, the ASCII digits the category Nd, and no other
/// ASCII character has either). Which characters beyond ASCII have the
/// property is left to the Unicode tables of std and not stated here.
#[verifier::external_body]
fn is_alphanumeric(c: char) -> (r: bool)
    ensures
        r == char_is_alphanumeric(c),
        (c as u32) < 128 ==> r == ascii_alphanumeric(c),
{
    c.is_alphanumeric()
}

/// A character that may stand in a key name: an alphanumeric one, `_`, `-` or `.`.
pub open spec fn key_name_char(c: char) -> bool {
    alphanumeric(c) || c == '_' || c == '-' || c == '.'
}

/// A key name is valid when it is not empty and every character may stand in one.
pub open spec fn valid_key_name(name: Seq<char>) -> bool {
    &&& name.len() > 0
    &&& forall|i: int| 0 <= i < name.len() ==> #[trigger] key_name_char(name[i])
}

/// The character at `i` may stand in a key name, where `alnum` says for each
/// character whether it is alphanumeric (a character beyond `alnum` counts as
/// not alphanumeric).
pub open spec fn key_name_char_given(name: Seq<char>, alnum: Seq<bool>, i: int) -> bool {
    (i < alnum.len() && alnum[i]) || name[i] == '_' || name[i] == '-' || name[i] == '.'
}

/// The name is valid where `alnum` says which of its characters are alphanumeric.
pub open spec fn valid_key_name_given(name: Seq<char>, alnum: Seq<bool>) -> bool {
    &&& name.len() > 0
    &&& forall|i: int| 0 <= i < name.len() ==> #[trigger] key_name_char_given(name, alnum, i)
}

/// Checks a key name, given for each of its characters whether it is
/// alphanumeric: the name must not be empty, and each character must be
/// alphanumeric, an underscore, a dash or a dot.
pub fn is_valid_key_name_given(name: &str, alnum: &Vec<bool>) -> (r: bool)
    ensures
        r == valid_key_name_given(name@, alnum@),
{
    if name.is_empty() {
        return false;
    }
    let n = name.unicode_len();
    let mut i: usize = 0;
    for c in it: name.chars()
        invariant
            it.seq() == name@,
            n == name@.len(),
            i == it.index(),
            forall|j: int| 0 <= j < it.index() ==> #[trigger] key_name_char_given(name@, alnum@, j),
    {
        let a = i < alnum.len() && alnum[i];
        if !(a || c == '_' || c == '-' || c == '.') {
            assert(!key_name_char_given(name@, alnum@, i as int));
            return false;
        }
        assert(i < n);
        i += 1;
    }
    true
}

/// Checks a key name: it must not be empty, and it may hold only alphanumeric
/// characters, underscores, dashes and dots.
pub fn is_valid_key_name(name: &str) -> (r: bool)
    ensures
        r == valid_key_name(name@),
{
    let mut alnum: Vec<bool> = Vec::new();
    for c in it: name.chars()
        invariant
            it.seq() == name@,
            alnum@.len() == it.index(),
            forall|j: int| 0 <= j < it.index() ==> alnum@[j] == alphanumeric(#[trigger] name@[j]),
    {
        alnum.push(is_alphanumeric(c));
    }
    let r = is_valid_key_name_given(name, &alnum);
    assert(r == valid_key_name(name@)) by {
        assert forall|i: int| 0 <= i < name@.len() implies key_name_char_given(name@, alnum@, i)
            == key_name_char(#[trigger] name@[i]) by {}
        if valid_key_name(name@) {
            assert forall|i: int| 0 <= i < name@.len() implies #[trigger] key_name_char_given(
                name@,
                alnum@,
                i,
            ) by {
                assert(key_name_char(name@[i]));
            }
        }
        if valid_key_name_given(name@, alnum@) {
            assert forall|i: int| 0 <= i < name@.len() implies #[trigger] key_name_char(name@[i]) by {
                assert(key_name_char_given(name@, alnum@, i));
            }
        }
    }
    r
}

} // verus!

verus! {

/// A lower-case hexadecimal digit: `0`-`9` or `a`-`f`.
pub open spec fn lower_hex_digit(c: char) -> bool {
    (48 <= (c as u32) && (c as u32) <= 57) || (97 <= (c as u32) && (c as u32) <= 102)
}

/// A version-4 UUID as `Uuid::to_string` writes it: 36 characters, dashes at
/// 8, 13, 18 and 23, lower-case hex digits elsewhere, the version digit `4` at
/// 14 and a variant digit among `8`, `9`, `a`, `b` at 19.
pub open spec fn uuid_v4_text(s: Seq<char>) -> bool {
    &&& s.len() == 36
    &&& forall|i: int|
        0 <= i < 36 ==> (if i == 8 || i == 13 || i == 18 || i == 23 {
            #[trigger] s[i] == '-'
        } else {
            lower_hex_digit(s[i])
        })
    &&& s[14] == '4'
    &&& (s[19] == '8' || s[19] == '9' || s[19] == 'a' || s[19] == 'b')
}

/// Calls `uuid::Uuid::new_v4` and writes the UUID with `to_string`. Claimed:
/// the text has the hyphenated lower-case form of a version-4 UUID (uuid's
/// `format_hyphenated`, with the version and variant bits that `new_v4` sets).
/// Which random bits it carries is not stated. (`new_v4` panics if the system
/// gives no random bytes.)
#[verifier::external_body]
fn new_uuid_text() -> (r: String)
    ensures
        uuid_v4_text(r@),
{
    uuid::Uuid::new_v4().to_string()
}

/// `name` is the given name where one was given, and a fresh version-4 UUID
/// otherwise.
pub open spec fn given_or_generated(given: Option<String>, name: Seq<char>) -> bool {
    match given {
        Some(g) => name == g@,
        None => uuid_v4_text(name),
    }
}

/// The name that was given, or a new random UUID where none was.
pub fn get_name_or_generate(input: &Option<String>) -> (r: String)
    ensures
        given_or_generated(*input, r@),
        input is None ==> valid_key_name(r@),
{
    match input {
        Some(name) => name.clone(),
        None => new_uuid_text(),
    }
}

} // verus!
