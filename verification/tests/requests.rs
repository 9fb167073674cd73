use kvdb_rs::key::{
    check_new_key, delete_key_command, delete_key_reply, get_key_command, get_key_found,
    get_key_reply, new_key_command, new_key_command_with, new_key_reply, touch_key_command,
    touch_key_command_at, update_key_command, update_key_command_at, update_key_reply,
};
use kvdb_rs::models::{
    ApiError, ErrorStatus, Key, KeyCreateInput, KeyDeleteInput, KeyGetInput, KeyGetResponse,
    KeyUpdateInput,
};
use kvdb_rs::store::KeyCommand;

fn s(x: &str) -> String {
    x.to_string()
}

fn create(name: Option<&str>, roname: Option<&str>, value: Option<&str>) -> KeyCreateInput {
    KeyCreateInput { name: name.map(s), name_readonly: roname.map(s), value: value.map(s) }
}

fn assert_error(e: &ApiError, status: ErrorStatus, code: u16, message: &str) {
    assert!(e.status == status);
    assert_eq!(e.status.code(), code);
    assert_eq!(e.body.error, message);
    assert!(!e.body.success);
}

fn row(name: &str, roname: &str, value: &str) -> Key {
    Key { name: s(name), roname: s(roname), value: s(value), last_accessed: 0 }
}

// A table that carries out the statements as the service's SQL does.
struct Table {
    rows: Vec<Key>,
}

impl Table {
    fn fetch(&mut self, cmd: KeyCommand) -> Result<Key, String> {
        match cmd {
            KeyCommand::Insert(k) => {
                if self.rows.iter().any(|r| r.name == k.name || r.roname == k.roname) {
                    return Err(s("duplicate key value violates unique constraint"));
                }
                self.rows.push(k.clone());
                Ok(k)
            }
            KeyCommand::Find { name } => self
                .rows
                .iter()
                .find(|r| r.name == name || r.roname == name)
                .cloned()
                .ok_or_else(|| s("no rows returned by a query that expected to return at least one row")),
            _ => panic!("not a fetch"),
        }
    }

    fn execute(&mut self, cmd: KeyCommand) -> Result<u64, String> {
        let mut n = 0;
        match cmd {
            KeyCommand::Touch { name, at } => {
                for r in self.rows.iter_mut() {
                    if r.name == name || r.roname == name {
                        r.last_accessed = at;
                        n += 1;
                    }
                }
            }
            KeyCommand::SetValue { name, value, at } => {
                for r in self.rows.iter_mut() {
                    if r.name == name {
                        r.value = value.clone();
                        r.last_accessed = at;
                        n += 1;
                    }
                }
            }
            KeyCommand::Remove { name } => {
                let before = self.rows.len();
                self.rows.retain(|r| r.name != name);
                n = (before - self.rows.len()) as u64;
            }
            _ => panic!("not an execute"),
        }
        Ok(n)
    }

    fn get(&mut self, name: &str) -> Result<KeyGetResponse, ApiError> {
        let input = KeyGetInput { name: s(name) };
        let found = get_key_found(self.fetch(get_key_command(&input)))?;
        get_key_reply(found, self.execute(touch_key_command(&input)))
    }

    fn update(&mut self, name: &str, value: &str) -> Result<(), ApiError> {
        let input = KeyUpdateInput { name: s(name), value: s(value) };
        let cmd = update_key_command(100, &input)?;
        update_key_reply(&input.name, self.execute(cmd)).map(|_| ())
    }

    fn delete(&mut self, name: &str) -> Result<(), ApiError> {
        let input = KeyDeleteInput { name: s(name) };
        delete_key_reply(&input.name, self.execute(delete_key_command(&input))).map(|_| ())
    }
}

#[test]
fn value_too_long_is_refused_first() {
    let e = check_new_key(3, 10, &create(Some("a b"), None, Some("abcd"))).unwrap_err();
    assert_error(&e, ErrorStatus::BadRequest, 400, "Value exceeds maximum length of 3 characters");
}

#[test]
fn value_length_counts_bytes() {
    assert!(check_new_key(4, 10, &create(None, None, Some("éé"))).is_ok());
    let e = check_new_key(3, 10, &create(None, None, Some("éé"))).unwrap_err();
    assert_error(&e, ErrorStatus::BadRequest, 400, "Value exceeds maximum length of 3 characters");
    assert!(check_new_key(3, 10, &create(None, None, Some("abc"))).is_ok());
}

#[test]
fn invalid_names_are_refused() {
    let e = check_new_key(100, 10, &create(Some("a b"), Some("ok"), None)).unwrap_err();
    assert_error(&e, ErrorStatus::BadRequest, 400, "Key key name is invalid or exceeds maximum length of 10 characters");
    let e = check_new_key(100, 10, &create(Some("ok"), Some(""), None)).unwrap_err();
    assert_error(&e, ErrorStatus::BadRequest, 400, "Read-only key name is invalid or exceeds maximum length of 10 characters");
    let e = check_new_key(100, 3, &create(None, Some("abcd"), None)).unwrap_err();
    assert_error(&e, ErrorStatus::BadRequest, 400, "Read-only key name is invalid or exceeds maximum length of 3 characters");
    assert!(check_new_key(100, 3, &create(Some("abc"), Some("x.y"), Some(""))).is_ok());
}

#[test]
fn create_command_uses_given_or_generated_names() {
    match new_key_command(100, 50, create(Some("n"), Some("r"), Some("v"))).unwrap() {
        KeyCommand::Insert(k) => {
            assert_eq!(k.name, "n");
            assert_eq!(k.roname, "r");
            assert_eq!(k.value, "v");
            assert!(k.last_accessed > 0);
        }
        other => panic!("{:?}", other),
    }
    match new_key_command(100, 50, create(None, None, None)).unwrap() {
        KeyCommand::Insert(k) => {
            assert_eq!(k.name.len(), 36);
            assert_eq!(k.roname.len(), 36);
            assert_ne!(k.name, k.roname);
            assert_eq!(k.value, "");
        }
        other => panic!("{:?}", other),
    }
    let e = new_key_command(1, 50, create(None, None, Some("vv"))).unwrap_err();
    assert_error(&e, ErrorStatus::BadRequest, 400, "Value exceeds maximum length of 1 characters");
}

#[test]
fn create_reply() {
    let r = new_key_reply(Ok(row("n", "r", "v"))).unwrap();
    assert_eq!(r.name, "n");
    assert_eq!(r.name_readonly, "r");
    assert!(r.success);
    let e = new_key_reply(Err(s("db down"))).unwrap_err();
    assert_error(&e, ErrorStatus::InternalServerError, 500, "db down");
}

#[test]
fn read_steps() {
    let input = KeyGetInput { name: s("k") };
    assert!(matches!(get_key_command(&input), KeyCommand::Find { name } if name == "k"));
    assert!(matches!(touch_key_command(&input), KeyCommand::Touch { name, .. } if name == "k"));
    let found = get_key_found(Ok(row("k", "r", "hello"))).unwrap();
    assert_eq!(found.value, "hello");
    assert!(found.success);
    let e = get_key_found(Err(s("no rows"))).unwrap_err();
    assert_error(&e, ErrorStatus::InternalServerError, 500, "no rows");
    let done = get_key_reply(found, Ok(1)).unwrap();
    assert_eq!(done.value, "hello");
    let e = get_key_reply(KeyGetResponse { value: s("x"), success: true }, Err(s("lost"))).unwrap_err();
    assert_error(&e, ErrorStatus::InternalServerError, 500, "lost");
}

#[test]
fn update_steps() {
    let input = KeyUpdateInput { name: s("k"), value: s("abcd") };
    let e = update_key_command(3, &input).unwrap_err();
    assert_error(&e, ErrorStatus::BadRequest, 400, "Value exceeds maximum length of 3 characters");
    match update_key_command(4, &input).unwrap() {
        KeyCommand::SetValue { name, value, at } => {
            assert_eq!(name, "k");
            assert_eq!(value, "abcd");
            assert!(at > 0);
        }
        other => panic!("{:?}", other),
    }
    assert!(update_key_reply("k", Ok(1)).unwrap().success);
    let e = update_key_reply("k", Ok(0)).unwrap_err();
    assert_error(&e, ErrorStatus::NotFound, 404, "Key 'k' not found or read-only key used");
    let e = update_key_reply("k", Err(s("boom"))).unwrap_err();
    assert_error(&e, ErrorStatus::InternalServerError, 500, "boom");
}

#[test]
fn delete_steps() {
    let input = KeyDeleteInput { name: s("k") };
    assert!(matches!(delete_key_command(&input), KeyCommand::Remove { name } if name == "k"));
    assert!(delete_key_reply("k", Ok(2)).unwrap().success);
    let e = delete_key_reply("ro", Ok(0)).unwrap_err();
    assert_error(&e, ErrorStatus::NotFound, 404, "Key 'ro' not found or read-only key used");
    let e = delete_key_reply("k", Err(s("boom"))).unwrap_err();
    assert_error(&e, ErrorStatus::InternalServerError, 500, "boom");
}

#[test]
fn status_codes() {
    assert_eq!(ErrorStatus::BadRequest.code(), 400);
    assert_eq!(ErrorStatus::NotFound.code(), 404);
    assert_eq!(ErrorStatus::TooManyRequests.code(), 429);
    assert_eq!(ErrorStatus::InternalServerError.code(), 500);
}

#[test]
fn read_after_create_by_both_names() {
    let mut t = Table { rows: vec![row("other", "other_ro", "x")] };
    let cmd = new_key_command(100, 50, create(Some("k1"), Some("k1_ro"), Some("hello"))).unwrap();
    let reply = new_key_reply(t.fetch(cmd)).unwrap();
    assert_eq!(t.get(&reply.name).unwrap().value, "hello");
    assert_eq!(t.get(&reply.name_readonly).unwrap().value, "hello");
}

#[test]
fn read_after_update() {
    let mut t = Table { rows: vec![row("k", "k_ro", "old")] };
    t.update("k", "new").unwrap();
    assert_eq!(t.get("k").unwrap().value, "new");
    assert_eq!(t.get("k_ro").unwrap().value, "new");
}

#[test]
fn read_only_name_cannot_write() {
    let mut t = Table { rows: vec![row("k", "k_ro", "old")] };
    let e = t.update("k_ro", "new").unwrap_err();
    assert_error(&e, ErrorStatus::NotFound, 404, "Key 'k_ro' not found or read-only key used");
    let e = t.delete("k_ro").unwrap_err();
    assert_error(&e, ErrorStatus::NotFound, 404, "Key 'k_ro' not found or read-only key used");
    assert_eq!(t.get("k").unwrap().value, "old");
}

#[test]
fn read_after_delete() {
    let mut t = Table { rows: vec![row("k", "k_ro", "v")] };
    t.delete("k").unwrap();
    let e = t.get("k").unwrap_err();
    assert_eq!(e.status.code(), 500);
    assert!(t.get("k_ro").is_err());
}

#[test]
fn read_refreshes_access_time() {
    let mut t = Table { rows: vec![row("k", "k_ro", "v"), row("j", "j_ro", "w")] };
    t.get("k_ro").unwrap();
    assert!(t.rows[0].last_accessed > 0);
    assert_eq!(t.rows[1].last_accessed, 0);
}

#[test]
fn commands_carry_the_given_time() {
    match new_key_command_with(100, 50, create(Some("n"), None, Some("v")), 1234, s("f1"), s("f2")).unwrap() {
        KeyCommand::Insert(k) => {
            assert_eq!(k.name, "n");
            assert_eq!(k.roname, "f2");
            assert_eq!(k.value, "v");
            assert_eq!(k.last_accessed, 1234);
        }
        other => panic!("{:?}", other),
    }
    match new_key_command_with(100, 50, create(None, Some("r"), None), 5, s("f1"), s("f2")).unwrap() {
        KeyCommand::Insert(k) => {
            assert_eq!(k.name, "f1");
            assert_eq!(k.roname, "r");
            assert_eq!(k.value, "");
            assert_eq!(k.last_accessed, 5);
        }
        other => panic!("{:?}", other),
    }
    let e = new_key_command_with(100, 50, create(Some("a b"), None, None), 5, s("f1"), s("f2")).unwrap_err();
    assert_error(&e, ErrorStatus::BadRequest, 400, "Key key name is invalid or exceeds maximum length of 50 characters");
    let input = KeyGetInput { name: s("k") };
    assert!(matches!(touch_key_command_at(&input, 77), KeyCommand::Touch { name, at: 77 } if name == "k"));
    let input = KeyUpdateInput { name: s("k"), value: s("abc") };
    assert!(matches!(update_key_command_at(3, &input, 99).unwrap(),
        KeyCommand::SetValue { name, value, at: 99 } if name == "k" && value == "abc"));
    assert!(update_key_command_at(2, &input, 99).is_err());
}

#[test]
fn statements_and_their_kind() {
    let find = KeyCommand::Find { name: s("k") };
    assert_eq!(find.statement(), "SELECT name, roname, value, last_accessed FROM keys WHERE name = $1 OR roname = $1");
    assert!(find.returns_row());
    let ins = KeyCommand::Insert(row("a", "b", "c"));
    assert_eq!(ins.statement(), "INSERT INTO keys (name, roname, value, last_accessed) VALUES ($1, $2, $3, $4) RETURNING name, roname, value, last_accessed");
    assert!(ins.returns_row());
    let touch = KeyCommand::Touch { name: s("k"), at: 1 };
    assert_eq!(touch.statement(), "UPDATE keys SET last_accessed = $1 WHERE name = $2 OR roname = $2");
    assert!(!touch.returns_row());
    let set = KeyCommand::SetValue { name: s("k"), value: s("v"), at: 1 };
    assert_eq!(set.statement(), "UPDATE keys SET value = $1, last_accessed = $2 WHERE name = $3");
    assert!(!set.returns_row());
    let del = KeyCommand::Remove { name: s("k") };
    assert_eq!(del.statement(), "DELETE FROM keys WHERE name = $1");
    assert!(!del.returns_row());
}

#[test]
fn cleanup_after_read_keeps_the_key() {
    let mut t = Table { rows: vec![row("k", "k_ro", "v"), row("j", "j_ro", "w")] };
    let input = KeyGetInput { name: s("k_ro") };
    t.execute(touch_key_command_at(&input, 1000)).unwrap();
    // a cleanup deleting the rows last accessed before 500
    t.rows.retain(|r| r.last_accessed >= 500);
    assert_eq!(t.rows.len(), 1);
    assert_eq!(t.rows[0].name, "k");
    assert_eq!(t.rows[0].last_accessed, 1000);
}
