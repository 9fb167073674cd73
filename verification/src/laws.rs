//! What the requests do together: what a read gives back after a create, a
//! write or a delete, what a read-only name may do, and what a read changes.

use vstd::prelude::*;
use crate::config::{all_digits, digits_value, unsigned_digits, unsigned_text};
use crate::cors::{escape_wildcards, escaped_char, any_origin, origin_scan, origin_verdict, regex_compiles, wildcard_regex};
use crate::key::{created_row, value_or_empty, value_too_long};
use crate::keyname::{char_is_alphanumeric, key_name_char, lower_hex_digit, uuid_v4_text, valid_key_name};
use crate::models::{Key, KeyCreateInput};
use crate::text::{decimal, digit_char};
use crate::store::{
    found_row, owners, owns, without_idle, reads, rewritten, rows_changed, table_after, touched, without_owned,
    KeyCommand,
};

verus! {

/// Where no row answers to a name, a read by it finds nothing.
proof fn found_none_when_no_reader(table: Seq<Key>, name: Seq<char>)
    requires
        forall|i: int| 0 <= i < table.len() ==> !reads(#[trigger] table[i], name),
    ensures
        found_row(table, name) is None,
    decreases table.len(),
{
    if table.len() > 0 {
        found_none_when_no_reader(table.drop_last(), name);
    }
}

/// Where only the row at `i` answers to a name, a read by it finds that row.
proof fn found_only_reader(table: Seq<Key>, name: Seq<char>, i: int)
    requires
        0 <= i < table.len(),
        reads(table[i], name),
        forall|j: int| 0 <= j < table.len() && j != i ==> !reads(#[trigger] table[j], name),
    ensures
        found_row(table, name) == Some(table[i]),
    decreases table.len(),
{
    if i == table.len() - 1 {
        found_none_when_no_reader(table.drop_last(), name);
    } else {
        found_only_reader(table.drop_last(), name, i);
    }
}

/// A key that was created is read back, by its name and by its read-only
/// name, with the value the request gave (or the empty text), where no row
/// already answered to either name.
pub proof fn read_after_create(table: Seq<Key>, input: KeyCreateInput, row: Key, now: i64)
    requires
        created_row(input, row, now),
        forall|i: int|
            0 <= i < table.len() ==> !reads(#[trigger] table[i], row.name@) && !reads(
                table[i],
                row.roname@,
            ),
    ensures
        found_row(table_after(table, KeyCommand::Insert(row)), row.name@) == Some(row),
        found_row(table_after(table, KeyCommand::Insert(row)), row.roname@) == Some(row),
        row.value@ == value_or_empty(input.value),
{
    let after = table_after(table, KeyCommand::Insert(row));
    assert(after.drop_last() =~= table);
    found_none_when_no_reader(table, row.name@);
    found_none_when_no_reader(table, row.roname@);
}

/// A write by a name that is no key's name changes no row and leaves the
/// table as it was; so does a delete. A read-only name is such a name where
/// no key has it as its name.
pub proof fn read_only_name_cannot_write(table: Seq<Key>, name: String, value: String, at: i64)
    requires
        forall|i: int| 0 <= i < table.len() ==> !owns(#[trigger] table[i], name@),
    ensures
        rows_changed(table, KeyCommand::SetValue { name, value, at }) == 0,
        table_after(table, KeyCommand::SetValue { name, value, at }) == table,
        rows_changed(table, KeyCommand::Remove { name }) == 0,
        table_after(table, KeyCommand::Remove { name }) == table,
    decreases table.len(),
{
    if table.len() > 0 {
        read_only_name_cannot_write(table.drop_last(), name, value, at);
        assert(table.drop_last().push(table.last()) =~= table);
    }
    assert(table_after(table, KeyCommand::SetValue { name, value, at }) =~= table);
}

/// Where the name writes only the row at `i`, it writes one row.
proof fn one_owner(table: Seq<Key>, name: Seq<char>, i: int)
    requires
        0 <= i < table.len(),
        owns(table[i], name),
        forall|j: int| 0 <= j < table.len() && j != i ==> !owns(#[trigger] table[j], name),
    ensures
        owners(table, name) == 1,
    decreases table.len(),
{
    if i == table.len() - 1 {
        no_owner(table.drop_last(), name);
    } else {
        one_owner(table.drop_last(), name, i);
    }
}

/// Where the name writes no row, it writes none.
proof fn no_owner(table: Seq<Key>, name: Seq<char>)
    requires
        forall|j: int| 0 <= j < table.len() ==> !owns(#[trigger] table[j], name),
    ensures
        owners(table, name) == 0,
    decreases table.len(),
{
    if table.len() > 0 {
        no_owner(table.drop_last(), name);
    }
}

/// After a key's value is set by its name, a read by its name, or by its
/// read-only name, gives back the new value, where no other row answers to
/// either name; the write changes that one row.
pub proof fn read_after_update(table: Seq<Key>, i: int, value: String, at: i64)
    requires
        0 <= i < table.len(),
        forall|j: int|
            0 <= j < table.len() && j != i ==> !reads(#[trigger] table[j], table[i].name@)
                && !reads(table[j], table[i].roname@),
    ensures
        rows_changed(table, KeyCommand::SetValue { name: table[i].name, value, at }) == 1,
        found_row(
            table_after(table, KeyCommand::SetValue { name: table[i].name, value, at }),
            table[i].name@,
        ) == Some(rewritten(table[i], value, at)),
        found_row(
            table_after(table, KeyCommand::SetValue { name: table[i].name, value, at }),
            table[i].roname@,
        ) == Some(rewritten(table[i], value, at)),
{
    let name = table[i].name;
    let after = table_after(table, KeyCommand::SetValue { name, value, at });
    one_owner(table, name@, i);
    assert(after[i] == rewritten(table[i], value, at));
    assert forall|j: int| 0 <= j < after.len() && j != i implies !reads(
        #[trigger] after[j],
        name@,
    ) && !reads(after[j], table[i].roname@) by {
        assert(after[j] == table[j]);
    }
    found_only_reader(after, name@, i);
    found_only_reader(after, table[i].roname@, i);
}

/// A key's name reads it, where no other row answers to that name.
pub proof fn own_name_reads(table: Seq<Key>, i: int)
    requires
        0 <= i < table.len(),
        forall|j: int|
            0 <= j < table.len() && j != i ==> !reads(#[trigger] table[j], table[i].name@),
    ensures
        found_row(table, table[i].name@) == Some(table[i]),
{
    found_only_reader(table, table[i].name@, i);
}

/// Every name that the service generates for a key is a valid key name.
pub proof fn generated_names_are_valid(name: Seq<char>)
    requires
        uuid_v4_text(name),
    ensures
        valid_key_name(name),
{
    assert forall|i: int| 0 <= i < name.len() implies #[trigger] key_name_char(name[i]) by {
        if !(i == 8 || i == 13 || i == 18 || i == 23) {
            assert(lower_hex_digit(name[i]));
        }
    }
}

/// A key's read-only name reads it, where no other row answers to that name.
pub proof fn read_only_name_reads(table: Seq<Key>, i: int)
    requires
        0 <= i < table.len(),
        forall|j: int|
            0 <= j < table.len() && j != i ==> !reads(#[trigger] table[j], table[i].roname@),
    ensures
        found_row(table, table[i].roname@) == Some(table[i]),
{
    found_only_reader(table, table[i].roname@, i);
}

/// A row that a name does not write stays after a delete by that name, and
/// the rows that remain are rows of the table.
proof fn without_owned_keeps(table: Seq<Key>, name: Seq<char>)
    ensures
        forall|i: int|
            0 <= i < without_owned(table, name).len() ==> exists|j: int|
                0 <= j < table.len() && #[trigger] without_owned(table, name)[i] == table[j]
                    && !owns(table[j], name),
    decreases table.len(),
{
    if table.len() > 0 {
        without_owned_keeps(table.drop_last(), name);
        let rest = without_owned(table.drop_last(), name);
        assert forall|i: int|
            0 <= i < without_owned(table, name).len() implies exists|j: int|
                0 <= j < table.len() && #[trigger] without_owned(table, name)[i] == table[j]
                    && !owns(table[j], name) by {
            if i < rest.len() {
                let j = choose|j: int|
                    0 <= j < table.drop_last().len() && #[trigger] rest[i]
                        == table.drop_last()[j] && !owns(table.drop_last()[j], name);
                assert(table[j] == table.drop_last()[j]);
            } else {
                assert(without_owned(table, name)[i] == table[table.len() - 1]);
            }
        }
    }
}

/// After a key is deleted by its name, a read by that name finds nothing,
/// where no key that remains has that name as its read-only name.
pub proof fn read_after_delete(table: Seq<Key>, name: String)
    requires
        forall|i: int|
            0 <= i < table.len() && !owns(#[trigger] table[i], name@) ==> table[i].roname@
                != name@,
    ensures
        found_row(table_after(table, KeyCommand::Remove { name }), name@) is None,
{
    let after = without_owned(table, name@);
    without_owned_keeps(table, name@);
    assert forall|i: int| 0 <= i < after.len() implies !reads(#[trigger] after[i], name@) by {
        let j = choose|j: int|
            0 <= j < table.len() && #[trigger] after[i] == table[j] && !owns(table[j], name@);
        assert(table[j].roname@ != name@);
    }
    found_none_when_no_reader(after, name@);
}

/// A cleanup keeps exactly the rows last accessed at or after its threshold:
/// every row it keeps is such a row of the table, and every such row is kept.
pub proof fn cleanup_keeps_recent(table: Seq<Key>, before: i64)
    ensures
        forall|i: int|
            0 <= i < without_idle(table, before).len() ==> (#[trigger] without_idle(
                table,
                before,
            )[i]).last_accessed >= before && exists|j: int|
                0 <= j < table.len() && without_idle(table, before)[i] == table[j],
        forall|j: int|
            0 <= j < table.len() && (#[trigger] table[j]).last_accessed >= before ==> exists|
                i: int,
            |
                0 <= i < without_idle(table, before).len() && without_idle(table, before)[i]
                    == table[j],
    decreases table.len(),
{
    if table.len() > 0 {
        let init = table.drop_last();
        cleanup_keeps_recent(init, before);
        let rest = without_idle(init, before);
        let all = without_idle(table, before);
        assert forall|i: int| 0 <= i < all.len() implies (#[trigger] all[i]).last_accessed
            >= before && exists|j: int| 0 <= j < table.len() && all[i] == table[j] by {
            if i < rest.len() {
                assert(all[i] == rest[i]);
                let j = choose|j: int| 0 <= j < init.len() && rest[i] == init[j];
                assert(table[j] == init[j]);
            } else {
                assert(all[i] == table[table.len() - 1]);
            }
        }
        assert forall|j: int|
            0 <= j < table.len() && (#[trigger] table[j]).last_accessed >= before implies exists|
            i: int,
        | 0 <= i < all.len() && all[i] == table[j] by {
            if j < init.len() {
                assert(init[j] == table[j]);
                assert(init[j].last_accessed >= before);
                let i = choose|i: int| 0 <= i < rest.len() && rest[i] == init[j];
                assert(all[i] == rest[i]);
            } else {
                assert(all[all.len() - 1] == table[j]);
            }
        }
    }
}

/// A read keeps its keys alive: after a read at `at`, a cleanup whose
/// threshold is not after `at` keeps every row the name reads, as the read
/// left it.
pub proof fn read_keeps_key_alive(table: Seq<Key>, name: String, at: i64, before: i64)
    requires
        before <= at,
    ensures
        forall|j: int|
            0 <= j < table.len() && reads(#[trigger] table[j], name@) ==> exists|i: int|
                0 <= i < without_idle(table_after(table, KeyCommand::Touch { name, at }), before).len()
                    && without_idle(table_after(table, KeyCommand::Touch { name, at }), before)[i]
                    == touched(table[j], at),
{
    let after = table_after(table, KeyCommand::Touch { name, at });
    cleanup_keeps_recent(after, before);
    assert forall|j: int| 0 <= j < table.len() && reads(#[trigger] table[j], name@) implies exists|
        i: int,
    | 0 <= i < without_idle(after, before).len() && without_idle(after, before)[i] == touched(
        table[j],
        at,
    ) by {
        assert(after[j] == touched(table[j], at));
        assert(after[j].last_accessed >= before);
    }
}

/// A read sets, of every row its name reads and of no other, when it was
/// last accessed, and changes nothing else.
pub proof fn read_refreshes(table: Seq<Key>, name: String, at: i64)
    ensures
        table_after(table, KeyCommand::Touch { name, at }).len() == table.len(),
        forall|i: int|
            0 <= i < table.len() ==> #[trigger] table_after(table, KeyCommand::Touch { name, at })[i]
                == if reads(table[i], name@) {
                touched(table[i], at)
            } else {
                table[i]
            },
{
}

/// The scan of allowed origins reaches an exact entry for the origin, where
/// every wildcard entry before it compiles.
proof fn scan_reaches_listed(origins: Seq<Seq<char>>, k: int)
    requires
        0 <= k < origins.len(),
        !origins[k].contains('*'),
        forall|j: int|
            0 <= j < k && origins[j].contains('*') ==> regex_compiles(
                wildcard_regex(#[trigger] origins[j]),
            ),
    ensures
        origin_scan(origins, origins[k]) == Some(true),
    decreases k,
{
    if k > 0 {
        let rest = origins.drop_first();
        assert forall|j: int|
            0 <= j < k - 1 && rest[j].contains('*') implies regex_compiles(
            wildcard_regex(#[trigger] rest[j]),
        ) by {
            assert(rest[j] == origins[j + 1]);
        }
        assert(rest[k - 1] == origins[k]);
        scan_reaches_listed(rest, k - 1);
    }
}

/// An origin that the list names exactly, without a wildcard, is allowed,
/// where every wildcard entry before it is a valid regular expression.
pub proof fn listed_origin_allowed(origins: Seq<Seq<char>>, k: int)
    requires
        0 <= k < origins.len(),
        !origins[k].contains('*'),
        forall|j: int|
            0 <= j < k && origins[j].contains('*') ==> regex_compiles(
                wildcard_regex(#[trigger] origins[j]),
            ),
    ensures
        origin_verdict(origins, origins[k]) == Some(true),
{
    scan_reaches_listed(origins, k);
}

/// Every origin is allowed by a list that holds the entry `*`.
pub proof fn star_allows_every_origin(origins: Seq<Seq<char>>, origin: Seq<char>)
    requires
        origins.contains(any_origin()),
    ensures
        origin_verdict(origins, origin) == Some(true),
{
}

/// No origin is allowed by an empty list.
pub proof fn empty_list_allows_no_origin(origin: Seq<char>)
    ensures
        origin_verdict(Seq::empty(), origin) == Some(false),
{
}

/// A number written in decimal is a run of digits that counts the number.
proof fn decimal_digits(n: nat)
    ensures
        decimal(n).len() > 0,
        all_digits(decimal(n)),
        digits_value(decimal(n)) == n,
        decimal(n)[0] != '+',
    decreases n,
{
    let d = digit_char(n % 10);
    assert(d as u32 == 48 + n % 10);
    if n >= 10 {
        decimal_digits(n / 10);
        let s = decimal(n);
        assert(s.drop_last() =~= decimal(n / 10));
        assert(s[0] == decimal(n / 10)[0]);
        assert((n / 10) * 10 + n % 10 == n) by (nonlinear_arith);
    } else {
        assert(decimal(n).drop_last() =~= Seq::<char>::empty());
        assert(digits_value(Seq::<char>::empty()) == 0);
    }
}

/// A setting written as `decimal_text` writes a number is read back as that
/// number by `parse_unsigned`.
pub proof fn unsigned_reads_back_decimal(n: nat)
    ensures
        unsigned_text(decimal(n)) == Some(n),
{
    decimal_digits(n);
    assert(unsigned_digits(decimal(n)) == decimal(n));
}

} // verus!

verus! {

// ----- what the rules of values, names and wildcard entries say

/// The UTF-8 bytes of two texts one after the other are the bytes of each, in order.
proof fn encode_joins(a: Seq<char>, b: Seq<char>)
    ensures
        vstd::utf8::encode_utf8(a + b) == vstd::utf8::encode_utf8(a) + vstd::utf8::encode_utf8(b),
    decreases a.len(),
{
    if a.len() > 0 {
        encode_joins(a.drop_first(), b);
        assert((a + b).drop_first() =~= a.drop_first() + b);
        assert((a + b)[0] == a[0]);
        assert(vstd::utf8::encode_scalar(a[0] as u32) + (vstd::utf8::encode_utf8(a.drop_first())
            + vstd::utf8::encode_utf8(b)) =~= (vstd::utf8::encode_scalar(a[0] as u32)
            + vstd::utf8::encode_utf8(a.drop_first())) + vstd::utf8::encode_utf8(b));
    } else {
        assert(a + b =~= b);
        assert(vstd::utf8::encode_utf8(a) =~= Seq::<u8>::empty());
        assert(vstd::utf8::encode_utf8(a) + vstd::utf8::encode_utf8(b) =~= vstd::utf8::encode_utf8(b));
    }
}

/// A value is refused exactly when its UTF-8 encoding takes more bytes than
/// the limit, whatever its length (for any text that fits in memory).
pub proof fn value_refused_by_byte_length(value: Seq<char>, max_value_length: usize)
    requires
        vstd::utf8::encode_utf8(value).len() <= usize::MAX,
    ensures
        value_too_long(value, max_value_length) <==> vstd::utf8::encode_utf8(value).len()
            > max_value_length,
{
}

/// A value that is refused stays refused when more text is added to it.
pub proof fn longer_value_still_refused(a: Seq<char>, b: Seq<char>, max_value_length: usize)
    requires
        vstd::utf8::encode_utf8(a + b).len() <= usize::MAX,
        value_too_long(a, max_value_length),
    ensures
        value_too_long(a + b, max_value_length),
{
    encode_joins(a, b);
}

/// Among ASCII characters, exactly the letters, the digits, `_`, `-` and `.`
/// may stand in a key name.
pub proof fn ascii_key_name_chars(c: char)
    requires
        (c as u32) < 128,
    ensures
        key_name_char(c) <==> (48 <= (c as u32) <= 57 || 65 <= (c as u32) <= 90 || 97 <= (
        c as u32) <= 122 || c == '_' || c == '-' || c == '.'),
{
}

/// Beyond ASCII, a character may stand in a key name exactly when
/// `char::is_alphanumeric` says it is alphanumeric.
pub proof fn non_ascii_key_name_chars(c: char)
    requires
        (c as u32) >= 128,
    ensures
        key_name_char(c) <==> char_is_alphanumeric(c),
{
}

/// The empty name is not valid.
pub proof fn empty_name_invalid()
    ensures
        !valid_key_name(Seq::empty()),
{
}

/// A name of one character is valid exactly when that character may stand in a key name.
pub proof fn one_char_name(c: char)
    ensures
        valid_key_name(seq![c]) <==> key_name_char(c),
{
    if key_name_char(c) {
        assert forall|i: int| 0 <= i < 1 implies #[trigger] key_name_char(seq![c][i]) by {}
    } else {
        assert(!key_name_char(seq![c][0]));
    }
}

/// Two valid names written one after the other make a valid name, however
/// long it is.
pub proof fn joined_names_valid(a: Seq<char>, b: Seq<char>)
    requires
        valid_key_name(a),
        valid_key_name(b),
    ensures
        valid_key_name(a + b),
{
    assert forall|i: int| 0 <= i < (a + b).len() implies #[trigger] key_name_char((a + b)[i]) by {
        if i < a.len() {
            assert((a + b)[i] == a[i]);
        } else {
            assert((a + b)[i] == b[i - a.len()]);
        }
    }
}

/// Each non-empty part of a valid name is a valid name.
pub proof fn parts_of_valid_name_valid(a: Seq<char>, b: Seq<char>)
    requires
        a.len() > 0,
        b.len() > 0,
        valid_key_name(a + b),
    ensures
        valid_key_name(a),
        valid_key_name(b),
{
    assert forall|i: int| 0 <= i < a.len() implies #[trigger] key_name_char(a[i]) by {
        assert((a + b)[i] == a[i]);
    }
    assert forall|i: int| 0 <= i < b.len() implies #[trigger] key_name_char(b[i]) by {
        assert((a + b)[i + a.len()] == b[i]);
    }
}

/// The regular expression of two parts of a wildcard entry is that of each, in order.
pub proof fn escape_joins(a: Seq<char>, b: Seq<char>)
    ensures
        escape_wildcards(a + b) == escape_wildcards(a) + escape_wildcards(b),
    decreases b.len(),
{
    if b.len() == 0 {
        assert(a + b =~= a);
        assert(escape_wildcards(b) =~= Seq::<char>::empty());
        assert(escape_wildcards(a) + escape_wildcards(b) =~= escape_wildcards(a));
    } else {
        escape_joins(a, b.drop_last());
        assert((a + b).drop_last() =~= a + b.drop_last());
        assert((a + b).last() == b.last());
        assert(escape_wildcards(a) + escape_wildcards(b.drop_last()) + escaped_char(b.last())
            =~= escape_wildcards(a) + (escape_wildcards(b.drop_last()) + escaped_char(b.last())));
    }
}

/// In the regular expression of a wildcard entry, a dot becomes `\.`, a
/// wildcard becomes `.*`, and every other character stands for itself.
pub proof fn escape_of_one_char(c: char)
    ensures
        escape_wildcards(seq![c]) == if c == '.' {
            seq!['\\', '.']
        } else if c == '*' {
            seq!['.', '*']
        } else {
            seq![c]
        },
{
    assert(seq![c].drop_last() =~= Seq::<char>::empty());
    assert(escape_wildcards(Seq::<char>::empty()) + escaped_char(c) =~= escaped_char(c));
}

/// The regular expression of an entry without dots and wildcards is the
/// entry itself, anchored at both ends.
pub proof fn plain_entry_pattern(e: Seq<char>)
    requires
        !e.contains('.'),
        !e.contains('*'),
    ensures
        wildcard_regex(e) == seq!['^'] + e + seq!['$'],
{
    plain_entry_escape(e);
}

proof fn plain_entry_escape(e: Seq<char>)
    requires
        !e.contains('.'),
        !e.contains('*'),
    ensures
        escape_wildcards(e) == e,
    decreases e.len(),
{
    if e.len() > 0 {
        let init = e.drop_last();
        assert(!init.contains('.')) by {
            if init.contains('.') {
                let k = choose|k: int| 0 <= k < init.len() && init[k] == '.';
                assert(e[k] == '.');
            }
        }
        assert(!init.contains('*')) by {
            if init.contains('*') {
                let k = choose|k: int| 0 <= k < init.len() && init[k] == '*';
                assert(e[k] == '*');
            }
        }
        plain_entry_escape(init);
        assert(e.last() == e[e.len() - 1]);
        assert(init + seq![e.last()] =~= e);
    }
}

} // verus!
