//! How expressions are written out as text.

use vstd::prelude::*;

use crate::expressions::{
    binary_symbol, operator_name, Alias, Binary, BinaryOperator, Column, ColumnIndex, ExprView,
    Expression, LiteralDouble, LiteralLong, LiteralString, Operator,
};
use crate::text::{decimal, i64_text, signed_decimal, text_of, usize_text};

verus! {

/// The text of an expression: a column as `#name` or `#position`, an alias
/// as `e as name`, a string literal in single quotes, a number as its text,
/// an aggregate as `SUM(e)`, and a binary operation as `l op r`.
pub open spec fn expr_text(e: ExprView) -> Seq<char>
    decreases e,
{
    match e {
        ExprView::Column { name } => "#"@ + name,
        ExprView::ColumnIndex { index } => "#"@ + decimal(index as nat),
        ExprView::Alias { expr, alias } => expr_text(*expr) + " as "@ + alias,
        ExprView::LiteralString { value } => "'"@ + value + "'"@,
        ExprView::LiteralDouble { text } => text,
        ExprView::Aggregate { func, arg } => operator_name(func) + "("@ + expr_text(*arg) + ")"@,
        ExprView::Binary { op, left, right } => expr_text(*left) + " "@ + binary_symbol(op) + " "@
            + expr_text(*right),
    }
}

impl Expression {
    /// The text of the expression (see [`expr_text`]).
    pub fn to_string(&self) -> (r: String)
        ensures
            r@ == expr_text(self@),
        decreases self,
    {
        match self {
            Expression::Column(c) => c.to_string(),
            Expression::ColumnIndex(c) => c.to_string(),
            Expression::Alias(a) => {
                let mut r = a.expression.to_string();
                r.append(" as ");
                r.append(a.alias.as_str());
                r
            },
            Expression::LiteralString(s) => s.to_string(),
            Expression::LiteralDouble(d) => d.to_string(),
            Expression::Aggregate(a) => {
                let mut r = text_of(a.operator.name());
                r.append("(");
                let inner = a.expression.to_string();
                r.append(inner.as_str());
                r.append(")");
                r
            },
            Expression::Binary(b) => {
                let mut r = b.L.to_string();
                r.append(" ");
                r.append(b.operator.symbol());
                r.append(" ");
                let right = b.R.to_string();
                r.append(right.as_str());
                r
            },
        }
    }
}

impl Operator {
    /// The name under which the function is written, such as `SUM`.
    pub fn to_string(&self) -> (r: String)
        ensures
            r@ == operator_name(*self),
    {
        text_of(self.name())
    }
}

impl BinaryOperator {
    /// The symbol with which the operator is written, such as `>=` or `AND`.
    pub fn to_string(&self) -> (r: String)
        ensures
            r@ == binary_symbol(*self),
    {
        text_of(self.symbol())
    }
}

impl Column {
    /// `#` followed by the column's name.
    pub fn to_string(&self) -> (r: String)
        ensures
            r@ == "#"@ + self.name@,
    {
        let mut r = text_of("#");
        r.append(self.name.as_str());
        r
    }
}

impl ColumnIndex {
    /// `#` followed by the column's position.
    pub fn to_string(&self) -> (r: String)
        ensures
            r@ == "#"@ + decimal(self.index as nat),
    {
        let mut r = text_of("#");
        let digits = usize_text(self.index);
        r.append(digits.as_str());
        r
    }
}

impl Alias {
    /// The aliased expression, ` as ` and the alias.
    pub fn to_string(&self) -> (r: String)
        ensures
            r@ == expr_text(self.expression@) + " as "@ + self.alias@,
    {
        let mut r = self.expression.to_string();
        r.append(" as ");
        r.append(self.alias.as_str());
        r
    }
}

impl LiteralString {
    /// The string in single quotes.
    pub fn to_string(&self) -> (r: String)
        ensures
            r@ == "'"@ + self.value@ + "'"@,
    {
        let mut r = text_of("'");
        r.append(self.value.as_str());
        r.append("'");
        r
    }
}

impl LiteralDouble {
    /// The number's text.
    pub fn to_string(&self) -> (r: String)
        ensures
            r@ == self.value@,
    {
        self.value.clone()
    }
}

impl LiteralLong {
    /// The number in decimal.
    pub fn to_string(&self) -> (r: String)
        ensures
            r@ == signed_decimal(self.value as int),
    {
        i64_text(self.value)
    }
}

impl Binary {
    /// The left operand, the operator's symbol and the right operand,
    /// separated by single spaces.
    pub fn to_string(&self) -> (r: String)
        ensures
            r@ == expr_text(self.L@) + " "@ + binary_symbol(self.operator) + " "@ + expr_text(
                self.R@,
            ),
    {
        let mut r = self.L.to_string();
        r.append(" ");
        r.append(self.operator.symbol());
        r.append(" ");
        let right = self.R.to_string();
        r.append(right.as_str());
        r
    }
}

} // verus!
