//! The wrapper's error kinds and the message each one reports to Postgres.

use vstd::prelude::*;

verus! {

/// A failure of the foreign data wrapper; reported as a Postgres FDW error.
#[derive(Debug, Clone, PartialEq)]
pub enum DbisamFdwError {
    /// A required or invalid foreign-server or table option.
    Options(String),
    /// A failure of the DBISAM protocol client.
    Protocol(String),
    /// A requested column is absent from the DBISAM result: the foreign table
    /// definition does not match the live table.
    MissingColumn { column: String, table: String },
    /// A write was attempted against this read-only wrapper.
    ReadOnly,
}

impl DbisamFdwError {
    /// The message reported for this error.
    pub open spec fn spec_message(self) -> Seq<char> {
        match self {
            DbisamFdwError::Options(s) => "dbisam_fdw option error: "@ + s@,
            DbisamFdwError::Protocol(s) => "dbisam_fdw protocol error: "@ + s@,
            DbisamFdwError::MissingColumn { column, table } => "dbisam_fdw: column \""@ + column@
                + "\" is not in the DBISAM result for table \""@ + table@
                + "\"; the foreign table definition is out of date"@,
            DbisamFdwError::ReadOnly => "dbisam_fdw is read-only; DML is not supported"@,
        }
    }

    /// The message reported to Postgres for this error.
    pub fn message(&self) -> (r: String)
        ensures
            r@ == self.spec_message(),
    {
        match self {
            DbisamFdwError::Options(s) => {
                let mut m = String::from_str("dbisam_fdw option error: ");
                m.append(s.as_str());
                m
            },
            DbisamFdwError::Protocol(s) => {
                let mut m = String::from_str("dbisam_fdw protocol error: ");
                m.append(s.as_str());
                m
            },
            DbisamFdwError::MissingColumn { column, table } => {
                let mut m = String::from_str("dbisam_fdw: column \"");
                m.append(column.as_str());
                m.append("\" is not in the DBISAM result for table \"");
                m.append(table.as_str());
                m.append("\"; the foreign table definition is out of date");
                m
            },
            DbisamFdwError::ReadOnly => String::from_str("dbisam_fdw is read-only; DML is not supported"),
        }
    }
}

} // verus!
