//! Verified core of a read-only PostgreSQL foreign data wrapper for DBISAM 4.
//!
//! - `sql`: the pushdown contract, rendering the foldable predicate subset
//!   into a DBISAM `WHERE` expression and refusing the rest.
//! - `pushdown`: what a pushed filter means on a row under DBISAM's and
//!   Postgres's NULL semantics; pushdown keeps a superset of rows, a fully
//!   pushed filter keeps exactly the right ones, and the predicate a qual maps to holds
//!   exactly when the qual does.
//! - `quals`: Postgres quals into predicates.
//! - `ident`: DBISAM identifier quoting.
//! - `scan`: the DBISAM statement of a foreign scan and the resolution of its
//!   result columns.
//! - `schema_import`: table selection and DDL for `IMPORT FOREIGN SCHEMA`.
//! - `typemap`: Arrow result types to PostgreSQL types and cell conversions.
//! - `error`: the wrapper's errors and their messages.
//! - `text`: quoting, decimals and ASCII case folding.

pub mod error;
pub mod ident;
pub mod pushdown;
pub mod quals;
pub mod scan;
pub mod schema_import;
pub mod sql;
pub mod text;
pub mod typemap;
