//! Expressions: the symbols a query computes with, such as aggregates like
//! `SUM`, column names, binary operations and literals.

use vstd::prelude::*;

use crate::datatypes::{DataType, DataTypeView};
use crate::error::{PlanError, PlanErrorView};
use crate::schema::{Field, FieldView, Schema};
use crate::sql::SqlBinaryOperator;
use crate::text::text_of;

verus! {

/// An arrangement of symbols that denotes one value of SQL: an aggregate
/// such as `SUM(salary)`, a column, a binary operation, an alias or a literal.
#[derive(Debug)]
pub enum Expression {
    Aggregate(Aggregate),
    Binary(Binary),
    Column(Column),
    ColumnIndex(ColumnIndex),
    Alias(Alias),
    LiteralString(LiteralString),
    LiteralDouble(LiteralDouble),
}

/// An aggregate function applied to an expression, such as `SUM(salary)`.
#[derive(Debug)]
pub struct Aggregate {
    pub operator: Operator,
    pub expression: Box<Expression>,
}

/// The aggregate functions.
#[derive(Debug, Clone, Copy, PartialEq, Eq, Hash, Structural)]
pub enum Operator {
    SUM,
    MIN,
    MAX,
    AVG,
    COUNT,
    AGG,
}

/// An operation on two operands, such as `salary * 2`.
#[derive(Debug)]
#[allow(non_snake_case)]
pub struct Binary {
    pub operator: BinaryOperator,
    pub L: Box<Expression>,
    pub R: Box<Expression>,
}

/// The binary operators: comparisons, logical connectives and arithmetic.
#[derive(Debug, Clone, Copy, PartialEq, Eq, Hash, Structural)]
pub enum BinaryOperator {
    Eq,
    Neq,
    Gt,
    GtEq,
    Lt,
    LtEq,
    And,
    Or,
    Add,
    Subtract,
    Multiply,
    Divide,
    Modulus,
}

/// A column referenced by name.
#[derive(Debug)]
pub struct Column {
    pub name: String,
}

/// A column referenced by its position in the input.
#[derive(Debug)]
pub struct ColumnIndex {
    pub index: usize,
}

/// An expression given another name.
#[derive(Debug)]
pub struct Alias {
    pub expression: Box<Expression>,
    pub alias: String,
}

/// A string literal.
#[derive(Debug)]
pub struct LiteralString {
    pub value: String,
}

/// A floating-point literal, held as the text its `f64` value prints as
/// (so `1000.0` is held as `1000`); two such literals are equal when they
/// denote the same number.
#[derive(Debug)]
pub struct LiteralDouble {
    pub value: String,
}

/// An integer literal.
#[derive(Debug)]
pub struct LiteralLong {
    pub value: i64,
}

/// The value of an [`Expression`]: its tree, with text taken as characters.
pub enum ExprView {
    Aggregate { func: Operator, arg: Box<ExprView> },
    Binary { op: BinaryOperator, left: Box<ExprView>, right: Box<ExprView> },
    Column { name: Seq<char> },
    ColumnIndex { index: usize },
    Alias { expr: Box<ExprView>, alias: Seq<char> },
    LiteralString { value: Seq<char> },
    LiteralDouble { text: Seq<char> },
}

impl Expression {
    /// The tree this expression denotes.
    pub open spec fn model(&self) -> ExprView
        decreases self,
    {
        match self {
            Expression::Aggregate(a) => ExprView::Aggregate {
                func: a.operator,
                arg: Box::new(a.expression.model()),
            },
            Expression::Binary(b) => ExprView::Binary {
                op: b.operator,
                left: Box::new(b.L.model()),
                right: Box::new(b.R.model()),
            },
            Expression::Column(c) => ExprView::Column { name: c.name@ },
            Expression::ColumnIndex(c) => ExprView::ColumnIndex { index: c.index },
            Expression::Alias(a) => ExprView::Alias {
                expr: Box::new(a.expression.model()),
                alias: a.alias@,
            },
            Expression::LiteralString(s) => ExprView::LiteralString { value: s.value@ },
            Expression::LiteralDouble(d) => ExprView::LiteralDouble { text: d.value@ },
        }
    }
}

impl View for Expression {
    type V = ExprView;

    open spec fn view(&self) -> ExprView {
        self.model()
    }
}

/// A list of expressions, each taken by its view.
pub open spec fn exprs_view(s: Seq<Expression>) -> Seq<ExprView> {
    s.map_values(|e: Expression| e@)
}

/// Pushing an expression pushes its view.
pub proof fn lemma_exprs_view_push(s: Seq<Expression>, e: Expression)
    ensures
        exprs_view(s.push(e)) == exprs_view(s).push(e@),
{
    assert(exprs_view(s.push(e)) =~= exprs_view(s).push(e@));
}

/// The name under which an aggregate function is written.
pub open spec fn operator_name(op: Operator) -> Seq<char> {
    match op {
        Operator::SUM => "SUM"@,
        Operator::MIN => "MIN"@,
        Operator::MAX => "MAX"@,
        Operator::AVG => "AVG"@,
        Operator::COUNT => "COUNT"@,
        Operator::AGG => "AGG"@,
    }
}

/// The aggregate function written with the name `s`, if any.
pub open spec fn operator_named(s: Seq<char>) -> Option<Operator> {
    if s == "SUM"@ {
        Some(Operator::SUM)
    } else if s == "MIN"@ {
        Some(Operator::MIN)
    } else if s == "MAX"@ {
        Some(Operator::MAX)
    } else if s == "AVG"@ {
        Some(Operator::AVG)
    } else if s == "COUNT"@ {
        Some(Operator::COUNT)
    } else if s == "AGG"@ {
        Some(Operator::AGG)
    } else {
        None
    }
}

/// The symbol with which a binary operator is written.
pub open spec fn binary_symbol(op: BinaryOperator) -> Seq<char> {
    match op {
        BinaryOperator::Eq => "="@,
        BinaryOperator::Neq => "!="@,
        BinaryOperator::Gt => ">"@,
        BinaryOperator::GtEq => ">="@,
        BinaryOperator::Lt => "<"@,
        BinaryOperator::LtEq => "<="@,
        BinaryOperator::And => "AND"@,
        BinaryOperator::Or => "OR"@,
        BinaryOperator::Add => "+"@,
        BinaryOperator::Subtract => "-"@,
        BinaryOperator::Multiply => "*"@,
        BinaryOperator::Divide => "/"@,
        BinaryOperator::Modulus => "%"@,
    }
}

/// Whether a binary operator yields a truth value (a comparison or a
/// logical connective) rather than a number.
pub open spec fn is_predicate(op: BinaryOperator) -> bool {
    match op {
        BinaryOperator::Eq | BinaryOperator::Neq | BinaryOperator::Gt | BinaryOperator::GtEq
        | BinaryOperator::Lt | BinaryOperator::LtEq | BinaryOperator::And
        | BinaryOperator::Or => true,
        _ => false,
    }
}

/// The operator of this library that an SQL binary operator stands for.
pub open spec fn binary_of_sql(op: SqlBinaryOperator) -> BinaryOperator {
    match op {
        SqlBinaryOperator::Eq => BinaryOperator::Eq,
        SqlBinaryOperator::NotEq => BinaryOperator::Neq,
        SqlBinaryOperator::Gt => BinaryOperator::Gt,
        SqlBinaryOperator::GtEq => BinaryOperator::GtEq,
        SqlBinaryOperator::Lt => BinaryOperator::Lt,
        SqlBinaryOperator::LtEq => BinaryOperator::LtEq,
        SqlBinaryOperator::And => BinaryOperator::And,
        SqlBinaryOperator::Or => BinaryOperator::Or,
        SqlBinaryOperator::Plus => BinaryOperator::Add,
        SqlBinaryOperator::Minus => BinaryOperator::Subtract,
        SqlBinaryOperator::Multiply => BinaryOperator::Multiply,
        SqlBinaryOperator::Divide => BinaryOperator::Divide,
        _ => BinaryOperator::Modulus,
    }
}

/// The position of the first field named `name` among the first `n` fields.
pub open spec fn first_named(fields: Seq<FieldView>, name: Seq<char>, n: nat) -> Option<int>
    decreases n,
{
    if n == 0 {
        None
    } else {
        match first_named(fields, name, (n - 1) as nat) {
            Some(i) => Some(i),
            None => if fields[n - 1].0 == name {
                Some(n - 1)
            } else {
                None
            },
        }
    }
}

/// A found position is a field of that name, and no earlier field has it.
pub proof fn lemma_first_named(fields: Seq<FieldView>, name: Seq<char>, n: nat)
    requires
        n <= fields.len(),
    ensures
        first_named(fields, name, n) matches Some(i) ==> 0 <= i < n && fields[i].0 == name && forall|j: int|
            0 <= j < i ==> (#[trigger] fields[j]).0 != name,
        first_named(fields, name, n) is None <==> forall|j: int| 0 <= j < n ==> fields[j].0 != name,
    decreases n,
{
    if n > 0 {
        lemma_first_named(fields, name, (n - 1) as nat);
    }
}

/// Once a field of that name is found, looking further finds the same one.
pub proof fn lemma_first_named_stable(fields: Seq<FieldView>, name: Seq<char>, n: nat, m: nat)
    requires
        n <= m,
    ensures
        first_named(fields, name, n) is Some ==> first_named(fields, name, m) == first_named(
            fields,
            name,
            n,
        ),
    decreases m,
{
    if n < m {
        lemma_first_named_stable(fields, name, n, (m - 1) as nat);
    }
}

/// The field that an expression yields over an input schema: its name and
/// type, or why it has none.
pub open spec fn expr_field(e: ExprView, input: Seq<FieldView>) -> Result<FieldView, PlanErrorView>
    decreases e,
{
    match e {
        ExprView::Aggregate { func, arg } => {
            if func == Operator::COUNT {
                Ok((operator_name(func), DataTypeView::Int32))
            } else {
                match expr_field(*arg, input) {
                    Ok(f) => Ok((operator_name(func), f.1)),
                    Err(x) => Err(x),
                }
            }
        },
        ExprView::Binary { op, left, right } => {
            if is_predicate(op) {
                Ok((binary_symbol(op), DataTypeView::Boolean))
            } else {
                match expr_field(*left, input) {
                    Ok(f) => Ok((binary_symbol(op), f.1)),
                    Err(x) => Err(x),
                }
            }
        },
        ExprView::Column { name } => match first_named(input, name, input.len()) {
            Some(i) => Ok(input[i]),
            None => Err(
                PlanErrorView::NoSuchColumn {
                    name,
                    available: input.map_values(|f: FieldView| f.0),
                },
            ),
        },
        ExprView::ColumnIndex { index } => {
            if index < input.len() {
                Ok(input[index as int])
            } else {
                Err(
                    PlanErrorView::ColumnIndexOutOfRange {
                        index,
                        last: if input.len() == 0 {
                            0
                        } else {
                            (input.len() - 1) as usize
                        },
                    },
                )
            }
        },
        ExprView::Alias { expr, alias } => match expr_field(*expr, input) {
            Ok(f) => Ok((alias, f.1)),
            Err(x) => Err(x),
        },
        ExprView::LiteralString { value } => Ok((value, DataTypeView::Utf8)),
        ExprView::LiteralDouble { text } => Ok((text, DataTypeView::Float64)),
    }
}

/// A result of typing an expression, taken by its view.
pub open spec fn field_result_view(r: Result<Field, PlanError>) -> Result<FieldView, PlanErrorView> {
    match r {
        Ok(f) => Ok(f@),
        Err(e) => Err(e@),
    }
}

/// The column references an expression holds, in the order in which they
/// are written.
pub open spec fn columns_of(e: ExprView) -> Seq<ExprView>
    decreases e,
{
    match e {
        ExprView::Column { .. } => seq![e],
        ExprView::Aggregate { arg, .. } => columns_of(*arg),
        ExprView::Binary { left, right, .. } => columns_of(*left) + columns_of(*right),
        ExprView::Alias { expr, .. } => columns_of(*expr),
        _ => Seq::empty(),
    }
}

/// Whether an expression is an aggregate.
pub open spec fn is_aggregate(e: ExprView) -> bool {
    e is Aggregate
}

impl Clone for Expression {
    fn clone(&self) -> (r: Self)
        ensures
            r == *self,
        decreases self,
    {
        match self {
            Expression::Aggregate(a) => Expression::Aggregate(
                Aggregate { operator: a.operator, expression: Box::new((*a.expression).clone()) },
            ),
            Expression::Binary(b) => Expression::Binary(
                Binary {
                    operator: b.operator,
                    L: Box::new((*b.L).clone()),
                    R: Box::new((*b.R).clone()),
                },
            ),
            Expression::Column(c) => Expression::Column(Column { name: c.name.clone() }),
            Expression::ColumnIndex(c) => Expression::ColumnIndex(ColumnIndex { index: c.index }),
            Expression::Alias(a) => Expression::Alias(
                Alias { expression: Box::new((*a.expression).clone()), alias: a.alias.clone() },
            ),
            Expression::LiteralString(s) => Expression::LiteralString(
                LiteralString { value: s.value.clone() },
            ),
            Expression::LiteralDouble(d) => Expression::LiteralDouble(
                LiteralDouble { value: d.value.clone() },
            ),
        }
    }
}

impl Clone for Aggregate {
    fn clone(&self) -> (r: Self)
        ensures
            r == *self,
    {
        Aggregate { operator: self.operator, expression: Box::new((*self.expression).clone()) }
    }
}

impl Clone for Binary {
    fn clone(&self) -> (r: Self)
        ensures
            r == *self,
    {
        Binary { operator: self.operator, L: Box::new((*self.L).clone()), R: Box::new((*self.R).clone()) }
    }
}

impl Clone for Column {
    fn clone(&self) -> (r: Self)
        ensures
            r == *self,
    {
        Column { name: self.name.clone() }
    }
}

impl Clone for ColumnIndex {
    fn clone(&self) -> (r: Self)
        ensures
            r == *self,
    {
        ColumnIndex { index: self.index }
    }
}

impl Clone for Alias {
    fn clone(&self) -> (r: Self)
        ensures
            r == *self,
    {
        Alias { expression: Box::new((*self.expression).clone()), alias: self.alias.clone() }
    }
}

impl Clone for LiteralString {
    fn clone(&self) -> (r: Self)
        ensures
            r == *self,
    {
        LiteralString { value: self.value.clone() }
    }
}

impl Clone for LiteralDouble {
    fn clone(&self) -> (r: Self)
        ensures
            r == *self,
    {
        LiteralDouble { value: self.value.clone() }
    }
}

impl Clone for LiteralLong {
    fn clone(&self) -> (r: Self)
        ensures
            r == *self,
    {
        LiteralLong { value: self.value }
    }
}

impl Expression {
    /// Whether two expressions denote the same tree.
    pub fn equals(&self, other: &Expression) -> (r: bool)
        ensures
            r == (self@ == other@),
        decreases self,
    {
        match (self, other) {
            (Expression::Aggregate(a), Expression::Aggregate(b)) => {
                a.operator == b.operator && a.expression.equals(&b.expression)
            },
            (Expression::Binary(a), Expression::Binary(b)) => {
                a.operator == b.operator && a.L.equals(&b.L) && a.R.equals(&b.R)
            },
            (Expression::Column(a), Expression::Column(b)) => a.name == b.name,
            (Expression::ColumnIndex(a), Expression::ColumnIndex(b)) => a.index == b.index,
            (Expression::Alias(a), Expression::Alias(b)) => {
                a.alias == b.alias && a.expression.equals(&b.expression)
            },
            (Expression::LiteralString(a), Expression::LiteralString(b)) => a.value == b.value,
            (Expression::LiteralDouble(a), Expression::LiteralDouble(b)) => a.value == b.value,
            _ => false,
        }
    }

    /// Converts the expression to the field it yields over `input`, the
    /// schema of the relation it is evaluated against: columns are looked up
    /// there by name or position, aggregates are named after their function
    /// and `COUNT` is `Int32`, comparisons and connectives are `Boolean`,
    /// arithmetic keeps the type of its left operand, an alias renames, and a
    /// literal is named by its text.
    pub fn to_field(&self, input: &Schema) -> (r: Result<Field, PlanError>)
        ensures
            field_result_view(r) == expr_field(self@, input@),
        decreases self,
    {
        match self {
            Expression::Aggregate(a) => {
                let datatype = if a.operator == Operator::COUNT {
                    DataType::Int32
                } else {
                    match a.expression.to_field(input) {
                        Ok(f) => f.datatype,
                        Err(e) => {
                            return Err(e);
                        },
                    }
                };
                Ok(Field { name: text_of(a.operator.name()), datatype })
            },
            Expression::Binary(b) => {
                let datatype = match b.operator {
                    BinaryOperator::Eq | BinaryOperator::Neq | BinaryOperator::Gt
                    | BinaryOperator::GtEq | BinaryOperator::Lt | BinaryOperator::LtEq
                    | BinaryOperator::And | BinaryOperator::Or => DataType::Boolean,
                    BinaryOperator::Add | BinaryOperator::Subtract | BinaryOperator::Multiply
                    | BinaryOperator::Divide | BinaryOperator::Modulus => {
                        match b.L.to_field(input) {
                            Ok(f) => f.datatype,
                            Err(e) => {
                                return Err(e);
                            },
                        }
                    },
                };
                Ok(Field { name: text_of(b.operator.symbol()), datatype })
            },
            Expression::Column(c) => {
                let fields = &input.fields;
                let mut i: usize = 0;
                while i < fields.len()
                    invariant
                        i <= fields.len(),
                        fields == input.fields,
                        self@ == (ExprView::Column { name: c.name@ }),
                        first_named(input@, c.name@, i as nat) is None,
                    decreases fields.len() - i,
                {
                    if fields[i].name == c.name {
                        proof {
                            assert(input@[i as int] == input.fields@[i as int]@);
                            assert(first_named(input@, c.name@, (i + 1) as nat) == Some(i as int));
                            lemma_first_named_stable(input@, c.name@, (i + 1) as nat, input@.len());
                            assert(expr_field(self@, input@) == Ok::<FieldView, PlanErrorView>(input@[i as int]));
                        }
                        return Ok(fields[i].clone());
                    }
                    i = i + 1;
                }
                let mut available: Vec<String> = Vec::new();
                let mut k: usize = 0;
                while k < fields.len()
                    invariant
                        k <= fields.len(),
                        fields == input.fields,
                        available@.map_values(|s: String| s@) =~= input@.take(k as int).map_values(
                            |f: FieldView| f.0,
                        ),
                    decreases fields.len() - k,
                {
                    let ghost before = available@;
                    available.push(fields[k].name.clone());
                    proof {
                        assert(input@.take(k + 1) =~= input@.take(k as int).push(input@[k as int]));
                        assert(available@ =~= before.push(fields@[k as int].name));
                        assert(available@.map_values(|s: String| s@) =~= before.map_values(
                            |s: String| s@,
                        ).push(fields@[k as int].name@));
                    }
                    k = k + 1;
                }
                proof {
                    assert(input@.take(fields.len() as int) =~= input@);
                }
                Err(PlanError::NoSuchColumn { name: c.name.clone(), available })
            },
            Expression::ColumnIndex(c) => {
                if c.index < input.fields.len() {
                    Ok(input.fields[c.index].clone())
                } else {
                    let last: usize = if input.fields.len() == 0 {
                        0
                    } else {
                        input.fields.len() - 1
                    };
                    Err(PlanError::ColumnIndexOutOfRange { index: c.index, last })
                }
            },
            Expression::Alias(a) => {
                match a.expression.to_field(input) {
                    Ok(f) => Ok(Field { name: a.alias.clone(), datatype: f.datatype }),
                    Err(e) => Err(e),
                }
            },
            Expression::LiteralString(s) => Ok(
                Field { name: s.value.clone(), datatype: DataType::Utf8 },
            ),
            Expression::LiteralDouble(d) => Ok(
                Field { name: d.value.clone(), datatype: DataType::Float64 },
            ),
        }
    }

    /// Appends to `cols` the column references this expression holds, in the
    /// order in which they are written.
    pub fn collect_columns(&self, cols: &mut Vec<Expression>)
        ensures
            exprs_view(final(cols)@) == exprs_view(old(cols)@) + columns_of(self@),
        decreases self,
    {
        match self {
            Expression::Column(_) => {
                let ghost before = cols@;
                cols.push(self.clone());
                proof {
                    lemma_exprs_view_push(before, *self);
                    assert(exprs_view(before) + columns_of(self@) =~= exprs_view(before).push(self@));
                }
            },
            Expression::Aggregate(a) => {
                a.expression.collect_columns(cols);
            },
            Expression::Binary(b) => {
                let ghost before = exprs_view(cols@);
                b.L.collect_columns(cols);
                b.R.collect_columns(cols);
                proof {
                    assert(before + columns_of(b.L@) + columns_of(b.R@) =~= before + (columns_of(
                        b.L@,
                    ) + columns_of(b.R@)));
                }
            },
            Expression::Alias(a) => {
                a.expression.collect_columns(cols);
            },
            _ => {
                assert(exprs_view(old(cols)@) + columns_of(self@) =~= exprs_view(old(cols)@));
            },
        }
    }
}

impl Operator {
    /// The aggregate function written with the name `op`, if any.
    pub fn from_str(op: &str) -> (r: Option<Operator>)
        ensures
            r == operator_named(op@),
    {
        let s = op.to_owned();
        if s == text_of("SUM") {
            Some(Operator::SUM)
        } else if s == text_of("MIN") {
            Some(Operator::MIN)
        } else if s == text_of("MAX") {
            Some(Operator::MAX)
        } else if s == text_of("AVG") {
            Some(Operator::AVG)
        } else if s == text_of("COUNT") {
            Some(Operator::COUNT)
        } else if s == text_of("AGG") {
            Some(Operator::AGG)
        } else {
            None
        }
    }

    /// The name under which the function is written.
    pub fn name(&self) -> (r: &'static str)
        ensures
            r@ == operator_name(*self),
    {
        match self {
            Operator::SUM => "SUM",
            Operator::MIN => "MIN",
            Operator::MAX => "MAX",
            Operator::AVG => "AVG",
            Operator::COUNT => "COUNT",
            Operator::AGG => "AGG",
        }
    }
}

impl BinaryOperator {
    /// The operator of this library that an SQL binary operator stands for.
    /// Any other SQL operator is unsupported and is not accepted here.
    pub fn from_sql_binary_op(binop: &SqlBinaryOperator) -> (r: BinaryOperator)
        requires
            *binop != SqlBinaryOperator::Other,
        ensures
            r == binary_of_sql(*binop),
    {
        match binop {
            SqlBinaryOperator::Eq => BinaryOperator::Eq,
            SqlBinaryOperator::NotEq => BinaryOperator::Neq,
            SqlBinaryOperator::Gt => BinaryOperator::Gt,
            SqlBinaryOperator::GtEq => BinaryOperator::GtEq,
            SqlBinaryOperator::Lt => BinaryOperator::Lt,
            SqlBinaryOperator::LtEq => BinaryOperator::LtEq,
            SqlBinaryOperator::And => BinaryOperator::And,
            SqlBinaryOperator::Or => BinaryOperator::Or,
            SqlBinaryOperator::Plus => BinaryOperator::Add,
            SqlBinaryOperator::Minus => BinaryOperator::Subtract,
            SqlBinaryOperator::Multiply => BinaryOperator::Multiply,
            SqlBinaryOperator::Divide => BinaryOperator::Divide,
            _ => BinaryOperator::Modulus,
        }
    }

    /// The symbol with which the operator is written.
    pub fn symbol(&self) -> (r: &'static str)
        ensures
            r@ == binary_symbol(*self),
    {
        match self {
            BinaryOperator::Eq => "=",
            BinaryOperator::Neq => "!=",
            BinaryOperator::Gt => ">",
            BinaryOperator::GtEq => ">=",
            BinaryOperator::Lt => "<",
            BinaryOperator::LtEq => "<=",
            BinaryOperator::And => "AND",
            BinaryOperator::Or => "OR",
            BinaryOperator::Add => "+",
            BinaryOperator::Subtract => "-",
            BinaryOperator::Multiply => "*",
            BinaryOperator::Divide => "/",
            BinaryOperator::Modulus => "%",
        }
    }
}

/// An aggregate function's name reads back as that function.
pub proof fn law_operator_name_roundtrip(op: Operator)
    ensures
        operator_named(operator_name(op)) == Some(op),
{
    reveal_strlit("SUM");
    reveal_strlit("MIN");
    reveal_strlit("MAX");
    reveal_strlit("AVG");
    reveal_strlit("COUNT");
    reveal_strlit("AGG");
    let s = operator_name(op);
    if op != Operator::SUM {
        assert(s != "SUM"@) by {
            if s.len() == 3 {
                assert(s[0] != 'S' || s[1] != 'U');
            }
        }
    }
    if op != Operator::SUM && op != Operator::MIN {
        assert(s != "MIN"@) by {
            if s.len() == 3 {
                assert(s[0] != 'M' || s[1] != 'I');
            }
        }
    }
    if op == Operator::AVG || op == Operator::COUNT || op == Operator::AGG {
        assert(s != "MAX"@) by {
            if s.len() == 3 {
                assert(s[0] != 'M');
            }
        }
    }
    if op == Operator::COUNT || op == Operator::AGG {
        assert(s != "AVG"@) by {
            if s.len() == 3 {
                assert(s[0] != 'A' || s[1] != 'V');
            }
        }
    }
    if op == Operator::AGG {
        assert(s != "COUNT"@) by {
            assert("COUNT"@.len() == 5);
        }
    }
}

/// A name that reads as an aggregate function is that function's name.
pub proof fn law_operator_named_is_name(s: Seq<char>)
    ensures
        operator_named(s) matches Some(op) ==> operator_name(op) == s,
{
}

/// What `collect_columns` gathers are column references only, and every
/// column an expression references by name is among them.
pub proof fn law_columns_are_columns(e: ExprView)
    ensures
        forall|i: int| 0 <= i < columns_of(e).len() ==> (#[trigger] columns_of(e)[i]) is Column,
        e is Column ==> columns_of(e) == seq![e],
    decreases e,
{
    match e {
        ExprView::Aggregate { arg, .. } => law_columns_are_columns(*arg),
        ExprView::Binary { left, right, .. } => {
            law_columns_are_columns(*left);
            law_columns_are_columns(*right);
            let l = columns_of(*left);
            let r = columns_of(*right);
            assert forall|i: int| 0 <= i < (l + r).len() implies (#[trigger] (l + r)[i]) is Column by {
                if i < l.len() {
                    assert((l + r)[i] == l[i]);
                } else {
                    assert((l + r)[i] == r[i - l.len()]);
                }
            }
        },
        ExprView::Alias { expr, .. } => law_columns_are_columns(*expr),
        _ => {},
    }
}

/// A column reference is typed by looking it up in the input schema: it
/// yields the first field of that name, and fails, listing the input's
/// names, exactly when there is no such field.
pub proof fn law_column_field_resolves(input: Seq<FieldView>, name: Seq<char>)
    ensures
        expr_field(ExprView::Column { name }, input) matches Ok(f) ==> {
            &&& f.0 == name
            &&& exists|i: int| 0 <= i < input.len() && input[i] == f && forall|j: int| 0 <= j < i ==> (#[trigger] input[j]).0 != name
        },
        expr_field(ExprView::Column { name }, input) is Err <==> forall|j: int| 0 <= j < input.len() ==> (#[trigger] input[j]).0 != name,
{
    lemma_first_named(input, name, input.len());
    if let Some(i) = first_named(input, name, input.len()) {
        assert(input[i] == input[i]);
    }
}

/// `COUNT` always yields an `Int32` field; every other aggregate function
/// yields a field of the type of the field its argument yields over the
/// same input, and fails exactly when its argument does.
pub proof fn law_aggregate_field_type(func: Operator, arg: ExprView, input: Seq<FieldView>)
    ensures
        func == Operator::COUNT ==> expr_field(ExprView::Aggregate { func, arg: Box::new(arg) }, input)
            == Ok::<FieldView, PlanErrorView>((operator_name(func), DataTypeView::Int32)),
        func != Operator::COUNT ==> match expr_field(arg, input) {
            Ok(a) => expr_field(ExprView::Aggregate { func, arg: Box::new(arg) }, input)
                == Ok::<FieldView, PlanErrorView>((operator_name(func), a.1)),
            Err(e) => expr_field(ExprView::Aggregate { func, arg: Box::new(arg) }, input)
                == Err::<FieldView, PlanErrorView>(e),
        },
{
}

/// Every comparison (`=`, `!=`, `>`, `>=`, `<`, `<=`) and every logical
/// connective (`AND`, `OR`) yields a `Boolean` field, whatever its operands
/// are; each arithmetic operator (`+`, `-`, `*`, `/`, `%`) yields a field of
/// the type of its left operand's field, and fails exactly when its left
/// operand does.
pub proof fn law_binary_field_type(op: BinaryOperator, left: ExprView, right: ExprView, input: Seq<FieldView>)
    ensures
        op == BinaryOperator::Eq || op == BinaryOperator::Neq || op == BinaryOperator::Gt || op
            == BinaryOperator::GtEq || op == BinaryOperator::Lt || op == BinaryOperator::LtEq || op
            == BinaryOperator::And || op == BinaryOperator::Or ==> expr_field(
            ExprView::Binary { op, left: Box::new(left), right: Box::new(right) },
            input,
        ) == Ok::<FieldView, PlanErrorView>((binary_symbol(op), DataTypeView::Boolean)),
        op == BinaryOperator::Add || op == BinaryOperator::Subtract || op == BinaryOperator::Multiply
            || op == BinaryOperator::Divide || op == BinaryOperator::Modulus ==> match expr_field(left, input) {
            Ok(l) => expr_field(ExprView::Binary { op, left: Box::new(left), right: Box::new(right) }, input)
                == Ok::<FieldView, PlanErrorView>((binary_symbol(op), l.1)),
            Err(e) => expr_field(ExprView::Binary { op, left: Box::new(left), right: Box::new(right) }, input)
                == Err::<FieldView, PlanErrorView>(e),
        },
{
}

} // verus!
