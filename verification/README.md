# query_pro_bg_rust

A server that answers structured queries from clients with the SQL text that
serves them, under per-table permission rules. For a call from a client:

- a table with a read rule can be read only in the rows whose uid column equals
  the caller's uid, and only by a caller who is logged in; a rule for one column
  applies where the query reads that column;
- a table with no rule is public to read and cannot be written;
- table names are matched without regard to case;
- every selected field must be a plain column reference (a sub-query is
  refused), and string values are written as single SQL literals (quotes
  doubled); other names and operators are written as given.

Local calls are rendered with no permission control.

- `src/` is the verified library: the error codes and answers, the permission
  rules grouped by table, the rendering of a query as SQL (`sql_spec.rs` states
  what the SQL is, `query_service.rs` computes it), the configuration, and the
  laws that hold of every query (`laws.rs`).
- `app/` is the HTTP server around it: JSON parsing, the uid of a request, the
  serials of error answers, logging and the routes.
- `tests/` exercises the library on concrete queries.
