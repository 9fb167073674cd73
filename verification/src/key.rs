//! The four requests on keys: which are refused and with what answer, what
//! each asks of the table, and what each is answered.

use vstd::prelude::*;
use vstd::string::StringExecFns;
use crate::clock::current_time;
use crate::keyname::{get_name_or_generate, given_or_generated, is_valid_key_name, valid_key_name};
use crate::models::{
    api_error, is_error, ApiError, ErrorStatus, Key, KeyCreateInput, KeyCreateResponse,
    KeyDeleteInput, KeyDeleteResponse, KeyGetInput, KeyGetResponse, KeyUpdateInput,
    KeyUpdateResponse,
};
use crate::store::KeyCommand;
use crate::text::{byte_len, decimal, decimal_text};

verus! {

/// The length of a text as `str::len` gives it: its size in bytes.
pub open spec fn text_len(s: Seq<char>) -> usize {
    byte_len(s) as usize
}

/// A value is too long when it takes more bytes than the limit.
pub open spec fn value_too_long(value: Seq<char>, max_value_length: usize) -> bool {
    text_len(value) > max_value_length
}

/// A given key name is refused when it takes more bytes than the limit or is not a valid key name.
pub open spec fn name_rejected(given: Option<String>, max_key_name_length: usize) -> bool {
    match given {
        Some(name) => text_len(name@) > max_key_name_length || !valid_key_name(name@),
        None => false,
    }
}

/// The message of a value that is too long.
pub open spec fn value_too_long_message(max_value_length: usize) -> Seq<char> {
    "Value exceeds maximum length of "@ + decimal(max_value_length as nat) + " characters"@
}

/// The message of a refused key name; `kind` says which of the two names it is.
pub open spec fn key_name_message(kind: Seq<char>, max_key_name_length: usize) -> Seq<char> {
    kind + " key name is invalid or exceeds maximum length of "@ + decimal(
        max_key_name_length as nat,
    ) + " characters"@
}

/// The message of a write that found no key of that name.
pub open spec fn not_found_message(name: Seq<char>) -> Seq<char> {
    "Key '"@ + name + "' not found or read-only key used"@
}

/// The answer to a text that is longer than `max_value_length` bytes.
fn value_too_long_error(max_value_length: usize) -> (e: ApiError)
    ensures
        is_error(e, ErrorStatus::BadRequest, value_too_long_message(max_value_length)),
{
    let mut m = String::from_str("Value exceeds maximum length of ");
    let n = decimal_text(max_value_length);
    m.append(n.as_str());
    m.append(" characters");
    api_error(ErrorStatus::BadRequest, m)
}

/// Checks the value of a write against the limit.
pub fn check_value_length(value: &String, max_value_length: usize) -> (r: Result<(), ApiError>)
    ensures
        r is Err <==> (vstd::utf8::encode_utf8(value@).len() as usize) > max_value_length,
        match r {
            Ok(()) => !value_too_long(value@, max_value_length),
            Err(e) => value_too_long(value@, max_value_length) && is_error(
                e,
                ErrorStatus::BadRequest,
                value_too_long_message(max_value_length),
            ),
        },
{
    if value.as_str().len() > max_value_length {
        Err(value_too_long_error(max_value_length))
    } else {
        Ok(())
    }
}

/// Checks a key name, if one was given, against the limit and the rule of
/// valid key names; `kind` names it in the message.
pub fn check_key_name(given: &Option<String>, kind: &str, max_key_name_length: usize) -> (r:
    Result<(), ApiError>)
    ensures
        match r {
            Ok(()) => !name_rejected(*given, max_key_name_length),
            Err(e) => name_rejected(*given, max_key_name_length) && is_error(
                e,
                ErrorStatus::BadRequest,
                key_name_message(kind@, max_key_name_length),
            ),
        },
{
    if let Some(name) = given {
        if name.as_str().len() > max_key_name_length || !is_valid_key_name(name.as_str()) {
            let mut m = String::from_str(kind);
            m.append(" key name is invalid or exceeds maximum length of ");
            let n = decimal_text(max_key_name_length);
            m.append(n.as_str());
            m.append(" characters");
            return Err(api_error(ErrorStatus::BadRequest, m));
        }
    }
    Ok(())
}

/// Why a request to create a key is refused, if it is: the first of a value
/// that is too long, a refused name and a refused read-only name, each with
/// its status and message.
pub open spec fn new_key_problem(
    max_value_length: usize,
    max_key_name_length: usize,
    input: KeyCreateInput,
) -> Option<(ErrorStatus, Seq<char>)> {
    if input.value matches Some(v) && value_too_long(v@, max_value_length) {
        Some((ErrorStatus::BadRequest, value_too_long_message(max_value_length)))
    } else if name_rejected(input.name, max_key_name_length) {
        Some((ErrorStatus::BadRequest, key_name_message("Key"@, max_key_name_length)))
    } else if name_rejected(input.name_readonly, max_key_name_length) {
        Some((ErrorStatus::BadRequest, key_name_message("Read-only"@, max_key_name_length)))
    } else {
        None
    }
}

/// `e` is the answer that `problem` describes.
pub open spec fn answers(e: ApiError, problem: Option<(ErrorStatus, Seq<char>)>) -> bool {
    problem matches Some(p) && is_error(e, p.0, p.1)
}

/// The value a created key is given: the one in the request, or the empty text.
pub open spec fn value_or_empty(value: Option<String>) -> Seq<char> {
    match value {
        Some(v) => v@,
        None => Seq::empty(),
    }
}

/// `row` is a row that a request to create a key may add: its names are the
/// given ones or fresh UUIDs, its value is the given one or empty, and it was
/// last accessed at `now`.
pub open spec fn created_row(input: KeyCreateInput, row: Key, now: i64) -> bool {
    &&& given_or_generated(input.name, row.name@)
    &&& given_or_generated(input.name_readonly, row.roname@)
    &&& row.value@ == value_or_empty(input.value)
    &&& row.last_accessed == now
}

/// Checks a request to create a key against the limits and the rule of key names.
pub fn check_new_key(
    max_value_length: usize,
    max_key_name_length: usize,
    input: &KeyCreateInput,
) -> (r: Result<(), ApiError>)
    ensures
        match r {
            Ok(()) => new_key_problem(max_value_length, max_key_name_length, *input) is None,
            Err(e) => answers(e, new_key_problem(max_value_length, max_key_name_length, *input)),
        },
{
    if let Some(value) = &input.value {
        check_value_length(value, max_value_length)?;
    }
    proof { reveal_strlit("Key"); reveal_strlit("Read-only"); }
    check_key_name(&input.name, "Key", max_key_name_length)?;
    check_key_name(&input.name_readonly, "Read-only", max_key_name_length)?;
    Ok(())
}

/// The name a created key gets: the given one, or `fresh` where none was given.
pub open spec fn given_or(given: Option<String>, fresh: Seq<char>) -> Seq<char> {
    match given {
        Some(g) => g@,
        None => fresh,
    }
}

/// What a request to create a key asks of the table, given the time `now`
/// and the names to use where none was given: the row to add, with the given
/// names or those, the given value or the empty text, and `now` as its
/// access time; or, where the request is refused, the error answer.
pub fn new_key_command_with(
    max_value_length: usize,
    max_key_name_length: usize,
    input: KeyCreateInput,
    now: i64,
    fresh_name: String,
    fresh_roname: String,
) -> (r: Result<KeyCommand, ApiError>)
    ensures
        match r {
            Ok(cmd) => {
                &&& new_key_problem(max_value_length, max_key_name_length, input) is None
                &&& cmd matches KeyCommand::Insert(row) && row.name@ == given_or(
                    input.name,
                    fresh_name@,
                ) && row.roname@ == given_or(input.name_readonly, fresh_roname@)
                    && row.value@ == value_or_empty(input.value) && row.last_accessed == now
            },
            Err(e) => answers(e, new_key_problem(max_value_length, max_key_name_length, input)),
        },
{
    check_new_key(max_value_length, max_key_name_length, &input)?;
    let name = match input.name {
        Some(n) => n,
        None => fresh_name,
    };
    let roname = match input.name_readonly {
        Some(n) => n,
        None => fresh_roname,
    };
    let value = match input.value {
        Some(v) => v,
        None => String::new(),
    };
    Ok(KeyCommand::Insert(Key { name, roname, value, last_accessed: now }))
}

/// What a request to create a key asks of the table: as
/// `new_key_command_with`, once the request passed its checks, with a fresh
/// random UUID for each name not given and the current time of the system
/// clock, which is not before the epoch.
pub fn new_key_command(
    max_value_length: usize,
    max_key_name_length: usize,
    input: KeyCreateInput,
) -> (r: Result<KeyCommand, ApiError>)
    ensures
        match r {
            Ok(cmd) => {
                &&& new_key_problem(max_value_length, max_key_name_length, input) is None
                &&& cmd matches KeyCommand::Insert(row) && created_row(input, row, row.last_accessed)
                    && row.last_accessed >= 0
            },
            Err(e) => answers(e, new_key_problem(max_value_length, max_key_name_length, input)),
        },
{
    check_new_key(max_value_length, max_key_name_length, &input)?;
    let name = get_name_or_generate(&input.name);
    let roname = get_name_or_generate(&input.name_readonly);
    let now = current_time();
    new_key_command_with(max_value_length, max_key_name_length, input, now, name, roname)
}

/// The error answer to a failed statement: its message, with status 500.
fn internal_error(message: String) -> (e: ApiError)
    ensures
        is_error(e, ErrorStatus::InternalServerError, message@),
{
    api_error(ErrorStatus::InternalServerError, message)
}

/// The answer to a request to create a key, once the table has stored the
/// row (and handed it back) or failed with a message.
pub fn new_key_reply(inserted: Result<Key, String>) -> (r: Result<KeyCreateResponse, ApiError>)
    ensures
        match inserted {
            Ok(row) => r matches Ok(resp) && resp.name == row.name && resp.name_readonly
                == row.roname && resp.success,
            Err(m) => r matches Err(e) && is_error(e, ErrorStatus::InternalServerError, m@),
        },
{
    match inserted {
        Ok(row) => Ok(KeyCreateResponse { name: row.name, name_readonly: row.roname, success: true }),
        Err(m) => Err(internal_error(m)),
    }
}

/// What a request to read a key asks of the table first: a row whose name or
/// read-only name is the one given.
pub fn get_key_command(input: &KeyGetInput) -> (r: KeyCommand)
    ensures
        r == (KeyCommand::Find { name: input.name }),
{
    KeyCommand::Find { name: input.name.clone() }
}

/// The answer a read will give once the table has handed back the row: its
/// value; or the error answer where the table failed (also where no row
/// matched) with a message.
pub fn get_key_found(found: Result<Key, String>) -> (r: Result<KeyGetResponse, ApiError>)
    ensures
        match found {
            Ok(row) => r matches Ok(resp) && resp.value == row.value && resp.success,
            Err(m) => r matches Err(e) && is_error(e, ErrorStatus::InternalServerError, m@),
        },
{
    match found {
        Ok(row) => Ok(KeyGetResponse { value: row.value, success: true }),
        Err(m) => Err(internal_error(m)),
    }
}

/// What a read at the time `now` asks of the table once the row was found:
/// that the rows the name reads were last accessed at `now`.
pub fn touch_key_command_at(input: &KeyGetInput, now: i64) -> (r: KeyCommand)
    ensures
        r == (KeyCommand::Touch { name: input.name, at: now }),
{
    KeyCommand::Touch { name: input.name.clone(), at: now }
}

/// What a read asks of the table once the row was found: as
/// `touch_key_command_at` at the current time of the system clock, which is
/// not before the epoch.
pub fn touch_key_command(input: &KeyGetInput) -> (r: KeyCommand)
    ensures
        r matches KeyCommand::Touch { name, at } && name == input.name && at >= 0,
{
    let now = current_time();
    touch_key_command_at(input, now)
}


/// The answer to a read once the access time was set: the value found, or the
/// error answer where the table failed with a message.
pub fn get_key_reply(found: KeyGetResponse, touched: Result<u64, String>) -> (r: Result<
    KeyGetResponse,
    ApiError,
>)
    ensures
        match touched {
            Ok(_) => r == Ok::<KeyGetResponse, ApiError>(found),
            Err(m) => r matches Err(e) && is_error(e, ErrorStatus::InternalServerError, m@),
        },
{
    match touched {
        Ok(_) => Ok(found),
        Err(m) => Err(internal_error(m)),
    }
}

/// What a request to set a key's value at the time `now` asks of the table:
/// the new value and `now` as access time, for the rows whose name (not
/// read-only name) is the one given; or, where the value is too long, the
/// error answer.
pub fn update_key_command_at(max_value_length: usize, input: &KeyUpdateInput, now: i64) -> (r:
    Result<KeyCommand, ApiError>)
    ensures
        match r {
            Ok(cmd) => {
                &&& !value_too_long(input.value@, max_value_length)
                &&& cmd == (KeyCommand::SetValue { name: input.name, value: input.value, at: now })
            },
            Err(e) => value_too_long(input.value@, max_value_length) && is_error(
                e,
                ErrorStatus::BadRequest,
                value_too_long_message(max_value_length),
            ),
        },
{
    check_value_length(&input.value, max_value_length)?;
    Ok(KeyCommand::SetValue { name: input.name.clone(), value: input.value.clone(), at: now })
}

/// What a request to set a key's value asks of the table: as
/// `update_key_command_at` at the current time of the system clock, which is
/// not before the epoch.
pub fn update_key_command(max_value_length: usize, input: &KeyUpdateInput) -> (r: Result<
    KeyCommand,
    ApiError,
>)
    ensures
        match r {
            Ok(cmd) => {
                &&& !value_too_long(input.value@, max_value_length)
                &&& cmd matches KeyCommand::SetValue { name, value, at } && name == input.name
                    && value == input.value && at >= 0
            },
            Err(e) => value_too_long(input.value@, max_value_length) && is_error(
                e,
                ErrorStatus::BadRequest,
                value_too_long_message(max_value_length),
            ),
        },
{
    check_value_length(&input.value, max_value_length)?;
    let now = current_time();
    update_key_command_at(max_value_length, input, now)
}

/// The answer to a write by name, given how many rows it changed: success if
/// any, 404 if none, 500 with the message where the table failed.
pub open spec fn write_answer(name: Seq<char>, changed: Result<u64, String>, r: Result<(), ApiError>) -> bool {
    match changed {
        Ok(n) => if n == 0 {
            r matches Err(e) && is_error(e, ErrorStatus::NotFound, not_found_message(name))
        } else {
            r is Ok
        },
        Err(m) => r matches Err(e) && is_error(e, ErrorStatus::InternalServerError, m@),
    }
}

/// The outcome of a write by name, given how many rows it changed.
fn write_outcome(name: &str, changed: Result<u64, String>) -> (r: Result<(), ApiError>)
    ensures
        write_answer(name@, changed, r),
{
    match changed {
        Ok(n) => if n == 0 {
            let mut m = String::from_str("Key '");
            m.append(name);
            m.append("' not found or read-only key used");
            Err(api_error(ErrorStatus::NotFound, m))
        } else {
            Ok(())
        },
        Err(m) => Err(internal_error(m)),
    }
}

/// The answer to a request to set a key's value, given how many rows the
/// table changed: 404 where none had that name, as for a read-only name.
pub fn update_key_reply(name: &str, updated: Result<u64, String>) -> (r: Result<
    KeyUpdateResponse,
    ApiError,
>)
    ensures
        write_answer(
            name@,
            updated,
            match r {
                Ok(_) => Ok(()),
                Err(e) => Err(e),
            },
        ),
        r matches Ok(resp) ==> resp.success,
{
    match write_outcome(name, updated) {
        Ok(()) => Ok(KeyUpdateResponse { success: true }),
        Err(e) => Err(e),
    }
}

/// What a request to delete a key asks of the table: to remove the rows whose
/// name (not read-only name) is the one given.
pub fn delete_key_command(input: &KeyDeleteInput) -> (r: KeyCommand)
    ensures
        r == (KeyCommand::Remove { name: input.name }),
{
    KeyCommand::Remove { name: input.name.clone() }
}

/// The answer to a request to delete a key, given how many rows the table
/// removed: 404 where none had that name, as for a read-only name.
pub fn delete_key_reply(name: &str, deleted: Result<u64, String>) -> (r: Result<
    KeyDeleteResponse,
    ApiError,
>)
    ensures
        write_answer(
            name@,
            deleted,
            match r {
                Ok(_) => Ok(()),
                Err(e) => Err(e),
            },
        ),
        r matches Ok(resp) ==> resp.success,
{
    match write_outcome(name, deleted) {
        Ok(()) => Ok(KeyDeleteResponse { success: true }),
        Err(e) => Err(e),
    }
}

} // verus!
