//! DBISAM identifiers on the wire: plain names go bare, every other name is
//! double-quoted with embedded `"` doubled. DBISAM resolves both forms
//! case-insensitively.

use vstd::prelude::*;
use crate::sql::quoted;
use crate::text::{
    double_char, lemma_undouble_double, lower_seq, push_char, push_doubled, str_eq,
    to_ascii_lowercase, undouble,
};

verus! {

/// An ASCII letter or `_`.
pub open spec fn is_ident_start(c: char) -> bool {
    ('A' <= c && c <= 'Z') || ('a' <= c && c <= 'z') || c == '_'
}

/// An ASCII letter, digit or `_`.
pub open spec fn is_ident_char(c: char) -> bool {
    is_ident_start(c) || ('0' <= c && c <= '9')
}

/// A name made of identifier characters that does not start with a digit.
pub open spec fn is_plain_name(s: Seq<char>) -> bool {
    s.len() > 0 && is_ident_start(s[0]) && forall|i: int|
        1 <= i < s.len() ==> is_ident_char(#[trigger] s[i])
}

/// Words quoted as identifiers, compared in lower case: the words the
/// renderer itself emits and common SQL-92 statement, clause, type, function
/// and literal words. This list is this library's own; it is not the DBISAM
/// keyword list of the grammar the dialect is defined by, which is not
/// available here. A column of such a name is quoted so that it is read as a
/// column; quoting a name that needs none is harmless, since DBISAM resolves
/// a quoted name as it does a bare one.
#[verifier::opaque]
pub open spec fn is_keyword(s: Seq<char>) -> bool {
    let l = lower_seq(s);
    l == "select"@ ||
        l == "from"@ ||
        l == "where"@ ||
        l == "and"@ ||
        l == "or"@ ||
        l == "not"@ ||
        l == "in"@ ||
        l == "is"@ ||
        l == "null"@ ||
        l == "like"@ ||
        l == "top"@ ||
        l == "left"@ ||
        l == "right"@ ||
        l == "true"@ ||
        l == "false"@ ||
        l == "order"@ ||
        l == "by"@ ||
        l == "group"@ ||
        l == "having"@ ||
        l == "union"@ ||
        l == "all"@ ||
        l == "distinct"@ ||
        l == "as"@ ||
        l == "on"@ ||
        l == "join"@ ||
        l == "inner"@ ||
        l == "outer"@ ||
        l == "full"@ ||
        l == "cross"@ ||
        l == "insert"@ ||
        l == "into"@ ||
        l == "values"@ ||
        l == "update"@ ||
        l == "set"@ ||
        l == "delete"@ ||
        l == "create"@ ||
        l == "drop"@ ||
        l == "alter"@ ||
        l == "table"@ ||
        l == "index"@ ||
        l == "view"@ ||
        l == "between"@ ||
        l == "exists"@ ||
        l == "case"@ ||
        l == "when"@ ||
        l == "else"@ ||
        l == "end"@ ||
        l == "asc"@ ||
        l == "desc"@ ||
        l == "date"@ ||
        l == "time"@ ||
        l == "timestamp"@ ||
        l == "integer"@ ||
        l == "smallint"@ ||
        l == "char"@ ||
        l == "varchar"@ ||
        l == "boolean"@ ||
        l == "numeric"@ ||
        l == "decimal"@ ||
        l == "float"@ ||
        l == "money"@ ||
        l == "blob"@ ||
        l == "memo"@ ||
        l == "graphic"@ ||
        l == "bytes"@ ||
        l == "autoinc"@ ||
        l == "primary"@ ||
        l == "key"@ ||
        l == "unique"@ ||
        l == "default"@ ||
        l == "check"@ ||
        l == "constraint"@ ||
        l == "foreign"@ ||
        l == "references"@ ||
        l == "count"@ ||
        l == "sum"@ ||
        l == "avg"@ ||
        l == "min"@ ||
        l == "max"@ ||
        l == "upper"@ ||
        l == "lower"@ ||
        l == "trim"@ ||
        l == "substring"@ ||
        l == "extract"@ ||
        l == "cast"@ ||
        l == "escape"@ ||
        l == "with"@ ||
        l == "for"@ ||
        l == "add"@ ||
        l == "column"@ ||
        l == "database"@ ||
        l == "user"@ ||
        l == "grant"@ ||
        l == "revoke"@ ||
        l == "commit"@ ||
        l == "rollback"@ ||
        l == "transaction"@ ||
        l == "start"@ ||
        l == "nocase"@ ||
        l == "locale"@ ||
        l == "description"@ ||
        l == "compress"@ ||
        l == "any"@ ||
        l == "some"@
}

/// A DBISAM identifier as emitted: plain names bare, every other name
/// double-quoted with embedded `"` doubled (DBISAM resolves both forms
/// case-insensitively).
pub open spec fn spec_quote_ident(s: Seq<char>) -> Seq<char> {
    if is_plain_name(s) && !is_keyword(s) {
        s
    } else {
        quoted(s, '"')
    }
}

fn is_keyword_exec(s: &str) -> (r: bool)
    ensures
        r == is_keyword(s@),
{
    reveal(is_keyword);
    let l = to_ascii_lowercase(s);
    let l = l.as_str();
    str_eq(l, "select") ||
        str_eq(l, "from") ||
        str_eq(l, "where") ||
        str_eq(l, "and") ||
        str_eq(l, "or") ||
        str_eq(l, "not") ||
        str_eq(l, "in") ||
        str_eq(l, "is") ||
        str_eq(l, "null") ||
        str_eq(l, "like") ||
        str_eq(l, "top") ||
        str_eq(l, "left") ||
        str_eq(l, "right") ||
        str_eq(l, "true") ||
        str_eq(l, "false") ||
        str_eq(l, "order") ||
        str_eq(l, "by") ||
        str_eq(l, "group") ||
        str_eq(l, "having") ||
        str_eq(l, "union") ||
        str_eq(l, "all") ||
        str_eq(l, "distinct") ||
        str_eq(l, "as") ||
        str_eq(l, "on") ||
        str_eq(l, "join") ||
        str_eq(l, "inner") ||
        str_eq(l, "outer") ||
        str_eq(l, "full") ||
        str_eq(l, "cross") ||
        str_eq(l, "insert") ||
        str_eq(l, "into") ||
        str_eq(l, "values") ||
        str_eq(l, "update") ||
        str_eq(l, "set") ||
        str_eq(l, "delete") ||
        str_eq(l, "create") ||
        str_eq(l, "drop") ||
        str_eq(l, "alter") ||
        str_eq(l, "table") ||
        str_eq(l, "index") ||
        str_eq(l, "view") ||
        str_eq(l, "between") ||
        str_eq(l, "exists") ||
        str_eq(l, "case") ||
        str_eq(l, "when") ||
        str_eq(l, "else") ||
        str_eq(l, "end") ||
        str_eq(l, "asc") ||
        str_eq(l, "desc") ||
        str_eq(l, "date") ||
        str_eq(l, "time") ||
        str_eq(l, "timestamp") ||
        str_eq(l, "integer") ||
        str_eq(l, "smallint") ||
        str_eq(l, "char") ||
        str_eq(l, "varchar") ||
        str_eq(l, "boolean") ||
        str_eq(l, "numeric") ||
        str_eq(l, "decimal") ||
        str_eq(l, "float") ||
        str_eq(l, "money") ||
        str_eq(l, "blob") ||
        str_eq(l, "memo") ||
        str_eq(l, "graphic") ||
        str_eq(l, "bytes") ||
        str_eq(l, "autoinc") ||
        str_eq(l, "primary") ||
        str_eq(l, "key") ||
        str_eq(l, "unique") ||
        str_eq(l, "default") ||
        str_eq(l, "check") ||
        str_eq(l, "constraint") ||
        str_eq(l, "foreign") ||
        str_eq(l, "references") ||
        str_eq(l, "count") ||
        str_eq(l, "sum") ||
        str_eq(l, "avg") ||
        str_eq(l, "min") ||
        str_eq(l, "max") ||
        str_eq(l, "upper") ||
        str_eq(l, "lower") ||
        str_eq(l, "trim") ||
        str_eq(l, "substring") ||
        str_eq(l, "extract") ||
        str_eq(l, "cast") ||
        str_eq(l, "escape") ||
        str_eq(l, "with") ||
        str_eq(l, "for") ||
        str_eq(l, "add") ||
        str_eq(l, "column") ||
        str_eq(l, "database") ||
        str_eq(l, "user") ||
        str_eq(l, "grant") ||
        str_eq(l, "revoke") ||
        str_eq(l, "commit") ||
        str_eq(l, "rollback") ||
        str_eq(l, "transaction") ||
        str_eq(l, "start") ||
        str_eq(l, "nocase") ||
        str_eq(l, "locale") ||
        str_eq(l, "description") ||
        str_eq(l, "compress") ||
        str_eq(l, "any") ||
        str_eq(l, "some")
}

fn is_plain_name_exec(s: &str) -> (r: bool)
    ensures
        r == is_plain_name(s@),
{
    let n = s.unicode_len();
    if n == 0 {
        return false;
    }
    let c0 = s.get_char(0);
    if !(('A' <= c0 && c0 <= 'Z') || ('a' <= c0 && c0 <= 'z') || c0 == '_') {
        return false;
    }
    let mut i: usize = 1;
    while i < n
        invariant
            n == s@.len(),
            1 <= i <= n,
            forall|j: int| 1 <= j < i ==> is_ident_char(#[trigger] s@[j]),
        decreases n - i,
    {
        let c = s.get_char(i);
        if !(('A' <= c && c <= 'Z') || ('a' <= c && c <= 'z') || c == '_' || ('0' <= c && c
            <= '9')) {
            assert(!is_ident_char(s@[i as int]));
            return false;
        }
        i = i + 1;
    }
    true
}

/// Appends a DBISAM identifier: bare when plain, else double-quoted.
pub fn push_ident(out: &mut String, name: &str)
    ensures
        final(out)@ == old(out)@ + spec_quote_ident(name@),
{
    if is_plain_name_exec(name) && !is_keyword_exec(name) {
        out.append(name);
    } else {
        push_char(out, '"');
        push_doubled(out, name, '"');
        push_char(out, '"');
    }
}

/// Quotes a DBISAM identifier for the wire: plain names bare, every other
/// name double-quoted with embedded `"` doubled.
pub fn quote_ident(name: &str) -> (r: String)
    ensures
        r@ == spec_quote_ident(name@),
{
    let mut out = String::new();
    push_ident(&mut out, name);
    out
}

/// An emitted identifier always names the column it was made from: a plain
/// name that is not a reserved word goes out bare, and any other name goes
/// out between double quotes, whose body reads back as exactly that name.
pub proof fn lemma_quote_ident_reads_back(name: Seq<char>)
    ensures
        is_plain_name(name) && !is_keyword(name) ==> spec_quote_ident(name) == name,
        !(is_plain_name(name) && !is_keyword(name)) ==> {
            let r = spec_quote_ident(name);
            &&& r.len() >= 2
            &&& r[0] == '"'
            &&& r[r.len() - 1] == '"'
            &&& undouble(r.subrange(1, r.len() - 1), '"') == Some(name)
        },
{
    if !(is_plain_name(name) && !is_keyword(name)) {
        let d = double_char(name, '"');
        let r = spec_quote_ident(name);
        assert(r.subrange(1, r.len() - 1) =~= d);
        lemma_undouble_double(name, '"');
    }
}

} // verus!
