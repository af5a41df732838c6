//! Statements for the ledger: their text, and the values bound to it.

use vstd::prelude::*;

use crate::text::opt_text;

verus! {

/// A value bound to a statement.
pub enum SqlValue {
    Null,
    Integer(i64),
    Text(String),
}

/// A value bound to a statement, as a mathematical value.
pub enum Bound {
    Null,
    Integer(int),
    Text(Seq<char>),
}

impl View for SqlValue {
    type V = Bound;

    open spec fn view(&self) -> Bound {
        match self {
            SqlValue::Null => Bound::Null,
            SqlValue::Integer(n) => Bound::Integer(*n as int),
            SqlValue::Text(s) => Bound::Text(s@),
        }
    }
}

/// The values bound to a statement, in order; the first is `?1`.
pub open spec fn bound(params: Seq<SqlValue>) -> Seq<Bound> {
    params.map_values(|p: SqlValue| p@)
}

/// A statement and what is bound to it.
pub struct Statement {
    pub sql: String,
    pub params: Vec<SqlValue>,
}

impl Statement {
    /// The statement reads so, with so much bound to it.
    pub open spec fn is(self, sql: Seq<char>, params: Seq<Bound>) -> bool {
        self.sql@ == sql && bound(self.params@) == params
    }
}

/// A text where there is one, and null where there is none.
pub open spec fn text_or_null(v: Option<Seq<char>>) -> Bound {
    match v {
        Some(s) => Bound::Text(s),
        None => Bound::Null,
    }
}

/// Binds a text where there is one, and null where there is none.
pub fn bind_opt(v: &Option<String>) -> (r: SqlValue)
    ensures
        r@ == text_or_null(opt_text(*v)),
{
    match v {
        Some(s) => SqlValue::Text(s.clone()),
        None => SqlValue::Null,
    }
}

/// Binds a text.
pub fn bind_text(v: &str) -> (r: SqlValue)
    ensures
        r@ == Bound::Text(v@),
{
    SqlValue::Text(v.to_owned())
}

/// Adds one more bound value.
pub fn push_param(params: &mut Vec<SqlValue>, value: SqlValue)
    ensures
        bound(final(params)@) == bound(old(params)@).push(value@),
        final(params)@.len() == old(params)@.len() + 1,
{
    params.push(value);
    assert(bound(params@) =~= bound(old(params)@).push(value@));
}

/// Whether a statement that touched so many rows changed anything.
pub fn changed_any(rows: usize) -> (r: bool)
    ensures
        r == (rows > 0),
{
    rows > 0
}

} // verus!
