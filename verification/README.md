# kvdb_rs

A PostgreSQL-backed key-value database server with a small JSON API: create,
read, update and delete keys, read-only names that may only read, limits on
the length of names and values, optional deletion of keys that nobody used,
rate limiting and CORS.

- `src/` is the library, verified with Verus: the rules of key names, what
  each request is refused with or asks of the table of keys, what it is
  answered, a model of what those statements do to the table together with
  the laws proved over it, the list of allowed CORS origins and the decision
  whether an origin is allowed, and the decisions taken from the settings.
- `app/` is the server around it: reading the environment, the connection
  pool and the SQL statements, the HTTP handlers and routes, rate limiting,
  CORS layers and the OpenAPI page.
- `tests/` runs the library on concrete values.
