//! What the service asks of its table of keys, and what each request does to
//! the table.

use vstd::prelude::*;
use crate::models::Key;

verus! {

/// One statement on the table of keys.
#[derive(Debug, Clone)]
pub enum KeyCommand {
    /// Adds the row, and hands it back as stored.
    Insert(Key),
    /// Reads a row whose name or read-only name is `name`.
    Find { name: String },
    /// Sets to `at` when the rows whose name or read-only name is `name` were last accessed.
    Touch { name: String, at: i64 },
    /// Sets the value, and when it was last accessed, of the rows whose name is `name`.
    SetValue { name: String, value: String, at: i64 },
    /// Removes the rows whose name is `name`.
    Remove { name: String },
}

/// The SQL statement that carries out a command on the table `keys`, with
/// its parameters: for an insert `$1`..`$4` the row's name, read-only name,
/// value and access time; for a read the name; for a touch the time, then the
/// name; for a write the value, the time, then the name; for a delete the name.
pub open spec fn statement_text(cmd: KeyCommand) -> Seq<char> {
    match cmd {
        KeyCommand::Insert(_) => "INSERT INTO keys (name, roname, value, last_accessed) VALUES ($1, $2, $3, $4) RETURNING name, roname, value, last_accessed"@,
        KeyCommand::Find { .. } => "SELECT name, roname, value, last_accessed FROM keys WHERE name = $1 OR roname = $1"@,
        KeyCommand::Touch { .. } => "UPDATE keys SET last_accessed = $1 WHERE name = $2 OR roname = $2"@,
        KeyCommand::SetValue { .. } => "UPDATE keys SET value = $1, last_accessed = $2 WHERE name = $3"@,
        KeyCommand::Remove { .. } => "DELETE FROM keys WHERE name = $1"@,
    }
}

/// Whether the statement hands back a row (an insert or a read) rather than
/// a count of changed rows.
pub open spec fn hands_back_row(cmd: KeyCommand) -> bool {
    cmd is Insert || cmd is Find
}

impl KeyCommand {
    /// The SQL statement that carries out the command.
    pub fn statement(&self) -> (r: &'static str)
        ensures
            r@ == statement_text(*self),
    {
        match self {
            KeyCommand::Insert(_) => "INSERT INTO keys (name, roname, value, last_accessed) VALUES ($1, $2, $3, $4) RETURNING name, roname, value, last_accessed",
            KeyCommand::Find { .. } => "SELECT name, roname, value, last_accessed FROM keys WHERE name = $1 OR roname = $1",
            KeyCommand::Touch { .. } => "UPDATE keys SET last_accessed = $1 WHERE name = $2 OR roname = $2",
            KeyCommand::SetValue { .. } => "UPDATE keys SET value = $1, last_accessed = $2 WHERE name = $3",
            KeyCommand::Remove { .. } => "DELETE FROM keys WHERE name = $1",
        }
    }

    /// Whether the statement hands back a row rather than a count.
    pub fn returns_row(&self) -> (r: bool)
        ensures
            r == hands_back_row(*self),
    {
        match self {
            KeyCommand::Insert(_) | KeyCommand::Find { .. } => true,
            _ => false,
        }
    }
}

/// The name `name` reads the row: it is the row's name or its read-only name.
pub open spec fn reads(row: Key, name: Seq<char>) -> bool {
    row.name@ == name || row.roname@ == name
}

/// The name `name` writes the row: it is the row's name.
pub open spec fn owns(row: Key, name: Seq<char>) -> bool {
    row.name@ == name
}

/// How many rows of the table the name reads.
pub open spec fn readers(table: Seq<Key>, name: Seq<char>) -> nat
    decreases table.len(),
{
    if table.len() == 0 {
        0
    } else {
        readers(table.drop_last(), name) + if reads(table.last(), name) { 1nat } else { 0nat }
    }
}

/// How many rows of the table the name writes.
pub open spec fn owners(table: Seq<Key>, name: Seq<char>) -> nat
    decreases table.len(),
{
    if table.len() == 0 {
        0
    } else {
        owners(table.drop_last(), name) + if owns(table.last(), name) { 1nat } else { 0nat }
    }
}

/// The table without the rows that the name writes.
pub open spec fn without_owned(table: Seq<Key>, name: Seq<char>) -> Seq<Key>
    decreases table.len(),
{
    if table.len() == 0 {
        table
    } else {
        let rest = without_owned(table.drop_last(), name);
        if owns(table.last(), name) {
            rest
        } else {
            rest.push(table.last())
        }
    }
}

/// The table after a cleanup that deletes the rows last accessed before
/// `before` (for the cleanup statement, the database's current time less the
/// configured interval), in the order they stood.
pub open spec fn without_idle(table: Seq<Key>, before: i64) -> Seq<Key>
    decreases table.len(),
{
    if table.len() == 0 {
        table
    } else {
        let rest = without_idle(table.drop_last(), before);
        if table.last().last_accessed < before {
            rest
        } else {
            rest.push(table.last())
        }
    }
}

/// The row that a read by `name` hands back: the first that the name reads.
/// (The table may hand back any of them; where one row answers to the name,
/// it is that row.)
pub open spec fn found_row(table: Seq<Key>, name: Seq<char>) -> Option<Key>
    decreases table.len(),
{
    if table.len() == 0 {
        None
    } else {
        let before = found_row(table.drop_last(), name);
        if before is Some {
            before
        } else if reads(table.last(), name) {
            Some(table.last())
        } else {
            None
        }
    }
}

/// The row as a read at `at` leaves it.
pub open spec fn touched(row: Key, at: i64) -> Key {
    Key { name: row.name, roname: row.roname, value: row.value, last_accessed: at }
}

/// The row as a write of `value` at `at` leaves it.
pub open spec fn rewritten(row: Key, value: String, at: i64) -> Key {
    Key { name: row.name, roname: row.roname, value: value, last_accessed: at }
}

/// The table after the statement.
pub open spec fn table_after(table: Seq<Key>, cmd: KeyCommand) -> Seq<Key> {
    match cmd {
        KeyCommand::Insert(row) => table.push(row),
        KeyCommand::Find { .. } => table,
        KeyCommand::Touch { name, at } => table.map_values(
            |r: Key| if reads(r, name@) { touched(r, at) } else { r },
        ),
        KeyCommand::SetValue { name, value, at } => table.map_values(
            |r: Key| if owns(r, name@) { rewritten(r, value, at) } else { r },
        ),
        KeyCommand::Remove { name } => without_owned(table, name@),
    }
}

/// How many rows the statement changes, as the table reports it.
pub open spec fn rows_changed(table: Seq<Key>, cmd: KeyCommand) -> nat {
    match cmd {
        KeyCommand::Insert(_) => 1,
        KeyCommand::Find { .. } => 0,
        KeyCommand::Touch { name, .. } => readers(table, name@),
        KeyCommand::SetValue { name, .. } => owners(table, name@),
        KeyCommand::Remove { name } => owners(table, name@),
    }
}

} // verus!
