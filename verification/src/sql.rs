//! SQL statements with their bound values.

use crate::json::{Json, JsonView};
use vstd::prelude::*;

verus! {

/// A value bound to a placeholder of a statement.
#[derive(Debug, PartialEq, Eq)]
pub enum SqlValue {
    Null,
    Num(i128),
    Text(String),
}

/// The mathematical value of a [`SqlValue`].
pub enum SqlView {
    Null,
    Num(int),
    Text(Seq<char>),
}

impl View for SqlValue {
    type V = SqlView;

    open spec fn view(&self) -> SqlView {
        match self {
            SqlValue::Null => SqlView::Null,
            SqlValue::Num(n) => SqlView::Num(*n as int),
            SqlValue::Text(t) => SqlView::Text(t@),
        }
    }
}

/// A statement and the values of its placeholders, in order.
#[derive(Debug, PartialEq, Eq)]
pub struct Statement {
    pub sql: String,
    pub binds: Vec<SqlValue>,
}

/// The mathematical value of a [`Statement`].
pub struct StatementView {
    pub sql: Seq<char>,
    pub binds: Seq<SqlView>,
}

/// The values of a list of bound values.
pub open spec fn bind_views(binds: Seq<SqlValue>) -> Seq<SqlView> {
    binds.map_values(|b: SqlValue| b@)
}

/// The values of a list of statements.
pub open spec fn statement_views(list: Seq<Statement>) -> Seq<StatementView> {
    list.map_values(|s: Statement| s@)
}

impl View for Statement {
    type V = StatementView;

    open spec fn view(&self) -> StatementView {
        StatementView { sql: self.sql@, binds: bind_views(self.binds@) }
    }
}

/// Whether a statement has a text and binds some values, in order.
pub open spec fn says(statement: StatementView, sql: Seq<char>, binds: Seq<SqlView>) -> bool {
    &&& statement.sql == sql
    &&& statement.binds =~= binds
}

/// An optional text as a bound value.
pub open spec fn optional_text(t: Option<Seq<char>>) -> SqlView {
    match t {
        Some(t) => SqlView::Text(t),
        None => SqlView::Null,
    }
}

/// A truth value as the number it is stored as.
pub open spec fn flag(b: bool) -> SqlView {
    SqlView::Num(
        if b {
            1
        } else {
            0
        },
    )
}

/// A statement without bound values.
pub open spec fn statement(sql: Seq<char>) -> StatementView {
    StatementView { sql, binds: Seq::empty() }
}

impl StatementView {
    /// Binds one more value.
    pub open spec fn bind(self, value: SqlView) -> StatementView {
        StatementView { sql: self.sql, binds: self.binds.push(value) }
    }

    /// Binds a text.
    pub open spec fn text(self, value: Seq<char>) -> StatementView {
        self.bind(SqlView::Text(value))
    }

    /// Binds a number.
    pub open spec fn num(self, value: int) -> StatementView {
        self.bind(SqlView::Num(value))
    }

    /// Binds a truth value as one or zero.
    pub open spec fn flag(self, value: bool) -> StatementView {
        self.bind(flag(value))
    }

    /// Binds a text, or null where there is none.
    pub open spec fn optional(self, value: Option<Seq<char>>) -> StatementView {
        self.bind(optional_text(value))
    }

    /// Binds the text of a JSON document.
    pub open spec fn document(self, value: JsonView) -> StatementView {
        self.text(crate::json::json_text(value))
    }
}

impl Statement {
    /// A statement without bound values.
    pub fn new(sql: &str) -> (r: Statement)
        ensures
            r@ == statement(sql@),
    {
        let r = Statement { sql: sql.to_owned(), binds: Vec::new() };
        assert(bind_views(r.binds@) =~= Seq::<SqlView>::empty());
        r
    }

    /// Binds one more value.
    pub fn bind(self, value: SqlValue) -> (r: Statement)
        ensures
            r@ == self@.bind(value@),
    {
        let sql = self.sql;
        let mut binds = self.binds;
        let ghost before = bind_views(binds@);
        binds.push(value);
        assert(bind_views(binds@) =~= before.push(value@));
        Statement { sql, binds }
    }

    /// Binds a text.
    pub fn text(self, value: &str) -> (r: Statement)
        ensures
            r@ == self@.text(value@),
    {
        self.bind(SqlValue::Text(value.to_owned()))
    }

    /// Binds a number.
    pub fn num(self, value: i128) -> (r: Statement)
        ensures
            r@ == self@.num(value as int),
    {
        self.bind(SqlValue::Num(value))
    }

    /// Binds a truth value as one or zero.
    pub fn flag(self, value: bool) -> (r: Statement)
        ensures
            r@ == self@.flag(value),
    {
        if value {
            self.bind(SqlValue::Num(1))
        } else {
            self.bind(SqlValue::Num(0))
        }
    }

    /// Binds a text, or null where there is none.
    pub fn optional(self, value: Option<&str>) -> (r: Statement)
        ensures
            r@ == self@.optional(
                match value {
                    Some(v) => Some(v@),
                    None => None,
                },
            ),
    {
        match value {
            Some(v) => self.bind(SqlValue::Text(v.to_owned())),
            None => self.bind(SqlValue::Null),
        }
    }
}

impl Statement {
    /// Binds the text of a JSON document.
    pub fn document(self, value: Json) -> (r: Statement)
        ensures
            r@ == self@.document(value@),
    {
        self.bind(SqlValue::Text(value.print()))
    }
}

/// One more statement behind the others.
pub fn add_statement(list: &mut Vec<Statement>, s: Statement)
    ensures
        statement_views(final(list)@) == statement_views(old(list)@).push(s@),
{
    let ghost before = statement_views(list@);
    list.push(s);
    assert(statement_views(list@) =~= before.push(s@));
}

/// All statements of `more` behind the others.
pub fn add_statements(list: &mut Vec<Statement>, more: Vec<Statement>)
    ensures
        statement_views(final(list)@) == statement_views(old(list)@) + statement_views(more@),
{
    let mut more = more;
    let ghost before = statement_views(list@);
    let ghost extra = statement_views(more@);
    list.append(&mut more);
    assert(statement_views(list@) =~= before + extra);
}

/// No statements.
pub fn no_statements() -> (r: Vec<Statement>)
    ensures
        statement_views(r@) == Seq::<StatementView>::empty(),
{
    let r: Vec<Statement> = Vec::new();
    assert(statement_views(r@) =~= Seq::<StatementView>::empty());
    r
}

/// Each value is bound behind those before it, as what it is: a text, a number, one
/// for true and zero for false, and null for a text that is absent.
pub proof fn law_values_are_bound(s: StatementView, t: Seq<char>, n: int, document: JsonView)
    ensures
        says(statement(t), t, Seq::empty()),
        says(s.text(t), s.sql, s.binds + seq![SqlView::Text(t)]),
        says(s.num(n), s.sql, s.binds + seq![SqlView::Num(n)]),
        says(s.flag(true), s.sql, s.binds + seq![SqlView::Num(1)]),
        says(s.flag(false), s.sql, s.binds + seq![SqlView::Num(0)]),
        says(s.optional(Some(t)), s.sql, s.binds + seq![SqlView::Text(t)]),
        says(s.optional(None), s.sql, s.binds + seq![SqlView::Null]),
        says(
            s.document(document),
            s.sql,
            s.binds + seq![SqlView::Text(crate::json::json_text(document))],
        ),
{
}

} // verus!
