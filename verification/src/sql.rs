//! The parts of a parsed SQL statement that planning reads.
//!
//! A statement is held here as plain values; each variant names the shape of
//! the SQL syntax tree it stands for, and the `Other` variants stand for every
//! shape that planning does not distinguish.

use vstd::prelude::*;

verus! {

/// A binary operator of SQL.
#[derive(Debug, Clone, Copy, PartialEq, Eq, Structural)]
pub enum SqlBinaryOperator {
    Eq,
    NotEq,
    Gt,
    GtEq,
    Lt,
    LtEq,
    And,
    Or,
    Plus,
    Minus,
    Multiply,
    Divide,
    Modulo,
    /// Any operator not listed above.
    Other,
}

/// A literal value.
#[derive(Debug)]
pub enum SqlValue {
    /// A numeric literal, carrying the text that the `f64` it denotes prints
    /// as (`1000.0` carries `1000`); `None` when the literal is no `f64`.
    Number(Option<String>),
    /// A string in single quotes, without the quotes.
    SingleQuotedString(String),
    /// Any other kind of literal.
    Other,
}

/// One part of a dotted object name.
#[derive(Debug)]
pub enum SqlNamePart {
    Identifier(String),
    Other,
}

/// The expression given as a function argument.
#[derive(Debug)]
pub enum SqlFunctionArgExpr {
    /// A plain identifier.
    Identifier(String),
    /// Any expression that is not a plain identifier.
    OtherExpr,
    /// `*`.
    Wildcard,
    /// A wildcard other than a plain `*`, such as `table.*`.
    OtherWildcard,
}

/// One argument of a function call.
#[derive(Debug)]
pub enum SqlFunctionArg {
    Unnamed(SqlFunctionArgExpr),
    /// An argument given with a name.
    Named,
}

/// The arguments of a function call.
#[derive(Debug)]
pub enum SqlFunctionArguments {
    /// A parenthesised argument list.
    List(Vec<SqlFunctionArg>),
    /// No argument list, or a subquery.
    Other,
}

/// A function call, such as `SUM(salary)`.
#[derive(Debug)]
pub struct SqlFunction {
    pub name: Vec<SqlNamePart>,
    pub args: SqlFunctionArguments,
}

/// An SQL expression.
#[derive(Debug)]
pub enum SqlExpr {
    Value(SqlValue),
    /// An expression in parentheses.
    Nested(Box<SqlExpr>),
    Identifier(String),
    Function(SqlFunction),
    BinaryOp { left: Box<SqlExpr>, op: SqlBinaryOperator, right: Box<SqlExpr> },
    /// Any other kind of expression.
    Other,
}

/// One item of a select list.
#[derive(Debug)]
pub enum SqlSelectItem {
    UnnamedExpr(SqlExpr),
    ExprWithAlias { expr: SqlExpr, alias: String },
    /// A wildcard, or an expression with several aliases.
    Other,
}

/// What a `FROM` item reads.
#[derive(Debug)]
pub enum SqlTableFactor {
    /// A named table.
    Table { name: Vec<SqlNamePart> },
    /// A subquery, a table function, or anything else.
    Other,
}

/// One item of a `FROM` clause.
#[derive(Debug)]
pub struct SqlTableWithJoins {
    pub relation: SqlTableFactor,
}

/// A `GROUP BY` clause.
#[derive(Debug)]
pub enum SqlGroupBy {
    /// `GROUP BY ALL`.
    All,
    /// `GROUP BY e1, e2, ...`; an absent clause is an empty list.
    Expressions(Vec<SqlExpr>),
}

/// A `SELECT` block.
#[derive(Debug)]
pub struct SqlSelect {
    pub projection: Vec<SqlSelectItem>,
    pub from: Vec<SqlTableWithJoins>,
    pub selection: Option<SqlExpr>,
    pub group_by: SqlGroupBy,
    pub having: Option<SqlExpr>,
}

/// The body of a query.
#[derive(Debug)]
pub enum SqlSetExpr {
    Select(Box<SqlSelect>),
    /// A set operation, `VALUES`, or anything else.
    Other,
}

/// A query.
#[derive(Debug)]
pub struct SqlQuery {
    pub body: Box<SqlSetExpr>,
}

/// An SQL statement.
#[derive(Debug)]
pub enum SqlStatement {
    Query(Box<SqlQuery>),
    /// Any statement that is not a query.
    Other,
}

} // verus!
