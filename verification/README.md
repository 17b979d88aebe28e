# dbisam_fdw

The verified core of a read-only PostgreSQL foreign data wrapper for DBISAM 4
that speaks the native Exportmaster protocol. DBISAM is the fast, simple leaf:
it hands back filtered, projected rows; Postgres does joins, CTEs, subqueries
and aggregates on top.

- `src/` is the library, verified with Verus: the DBISAM SQL renderer and its
  dialect quirks (trailing `TOP n`, NULL guards on `<>` / `NOT IN`, prefix-only
  `LIKE`), proofs over a row model (Postgres's three-valued reading of the
  quals against DBISAM's reading of the rendered text, where `NULL <> x` is
  TRUE; non-NULL comparisons are an abstract relation both engines share)
  that the pushed filter keeps every row the quals keep, that a fully pushed
  filter keeps exactly those rows, and that the predicate each qual maps to holds
  exactly when the Postgres qual does, the qual adapter, the scan statement builder, the `IMPORT FOREIGN SCHEMA` selection
  and DDL, and the Arrow-to-Postgres type mapping.
- `tests/` runs the library on concrete inputs.
- `app/` is the pgrx / Supabase Wrappers extension around it: the framework
  callbacks, the protocol client calls and the pgrx value conversions.
