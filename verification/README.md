# octopus

A data bus: it keeps a MySQL database (and optionally a Redis cache) open
for each configured alias, and holds the data operations on their tables
(inserts, deletes, updates and queries), answering single-row queries
from the cache.

## Layout

- `src/` is the verified library (Verus).
  - `dal/table.rs`: table metadata, cache key names, typed field values,
    and the script that registers a schema in the cache.
  - `dal/access.rs`, `dal/sql.rs`: the SQL statements and parameters built
    from a JSON request body.
  - `dal/request.rs`: the checks of a request before it reaches a table.
  - `dal/lua.rs`, `db/lua.rs`: Lua scripts for the cache, their keys and
    arguments, and the digest under which a script is run.
  - `dal/mem.rs`: the cache strategy as steps that the service runs: an
    update refreshes the row it names by its whole primary key when the
    cache holds it, and otherwise loads the rows the database selects, with
    the update's values applied, resetting their time to live; a query that
    names a whole primary key is answered from the cache (loading the row
    first), any other from the database; a removal drops the rows from the
    cache before the database; a failed database update drops the rows the
    cache loaded; a cached row is typed field by field.
  - `dal/support.rs`: the plan that brings the open routes in line with a
    new configuration.
  - `discovery/register.rs`: splitting a node path into parent and name.
  - `json.rs`, `text.rs`, `error.rs`, `digest.rs`: shared models and helpers.
- `tests/`: tests of the library on concrete values.
- `app/`: the service around it: configuration from ZooKeeper, database
  and cache connections, and the operations that run the library's
  statements and scripts.

## What the service does not do

- It keeps the routes of all aliases open and in line with the
  configuration, but it has no request server: the configured port is
  not served.
- A select or a delete is built from its conditions alone (`SELECT * FROM`
  or `DELETE FROM` the table, with the `WHERE` clause of the conditions);
  the `limit`, `offset` and `order` entries of a query are not applied.
