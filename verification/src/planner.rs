//! Planning: a SQL statement is converted to an intermediate form, analysed
//! and validated, and turned into a data frame over a table of the catalog.

use vstd::prelude::*;

use crate::expressions::{
    binary_of_sql, columns_of, expr_field, exprs_view, first_named, lemma_first_named, is_aggregate, lemma_exprs_view_push, operator_named, Aggregate, Binary,
    BinaryOperator, Column, ColumnIndex, ExprView, Expression, LiteralDouble, LiteralString, Operator,
};
use crate::catalog::TableCatalog;
use crate::dataframe::{
    exprs_fields, law_aggregate_schema_layout, law_projection_schema, lemma_exprs_fields, plan_schema,
    schema_unsupported, DataFrame, PlanView,
};
use crate::error::{PlanError, PlanErrorView};
use crate::schema::FieldView;
use crate::sql::{
    SqlBinaryOperator, SqlExpr, SqlFunction, SqlFunctionArg, SqlFunctionArgExpr,
    SqlFunctionArguments, SqlGroupBy, SqlNamePart, SqlQuery, SqlSelect, SqlSelectItem, SqlSetExpr,
    SqlStatement, SqlTableFactor, SqlValue,
};
use crate::text::text_of;

verus! {

/// An optional expression, taken by its view.
pub open spec fn opt_view(o: Option<Expression>) -> Option<ExprView> {
    match o {
        Some(e) => Some(e@),
        None => None,
    }
}

/// The column name that the arguments of an aggregate call name: that of
/// the last unnamed argument among the first `n` that is an identifier or
/// `*`, or empty when there is none.
pub open spec fn argument_column(args: Seq<SqlFunctionArg>, n: nat) -> Seq<char>
    decreases n,
{
    if n == 0 {
        Seq::empty()
    } else {
        match args[n - 1] {
            SqlFunctionArg::Unnamed(SqlFunctionArgExpr::Identifier(s)) => s@,
            SqlFunctionArg::Unnamed(SqlFunctionArgExpr::Wildcard) => "*"@,
            _ => argument_column(args, (n - 1) as nat),
        }
    }
}

/// Whether an argument is of a kind that aggregate calls do not support: an
/// unnamed argument that is neither an identifier nor `*`.
pub open spec fn unsupported_argument(a: SqlFunctionArg) -> bool {
    match a {
        SqlFunctionArg::Unnamed(SqlFunctionArgExpr::OtherExpr) => true,
        SqlFunctionArg::Unnamed(SqlFunctionArgExpr::OtherWildcard) => true,
        _ => false,
    }
}

/// Whether converting a function call reaches an unsupported argument:
/// its name starts with an identifier and its argument list holds one.
pub open spec fn function_unsupported(f: SqlFunction) -> bool {
    &&& f.name@.len() > 0
    &&& f.name@[0] is Identifier
    &&& f.args matches SqlFunctionArguments::List(args) && exists|i: int|
        0 <= i < args@.len() && unsupported_argument(#[trigger] args@[i])
}

/// The expression a function call converts to: the aggregate its first name
/// part names, applied to the column its arguments name.
pub open spec fn function_expr(f: SqlFunction) -> Option<ExprView> {
    if f.name@.len() == 0 {
        None
    } else {
        match f.name@[0] {
            SqlNamePart::Identifier(id) => match f.args {
                SqlFunctionArguments::List(args) => match operator_named(id@) {
                    Some(op) => Some(
                        ExprView::Aggregate {
                            func: op,
                            arg: Box::new(
                                ExprView::Column { name: argument_column(args@, args@.len()) },
                            ),
                        },
                    ),
                    None => None,
                },
                SqlFunctionArguments::Other => None,
            },
            SqlNamePart::Other => None,
        }
    }
}

/// Whether converting an SQL expression reaches something this library does
/// not support: a literal other than a number or a single-quoted string, an
/// unsupported argument of an aggregate call, or an unsupported binary
/// operator whose operands both convert.
pub open spec fn convert_unsupported(e: SqlExpr) -> bool
    decreases e,
{
    match e {
        SqlExpr::Value(SqlValue::Other) => true,
        SqlExpr::Nested(inner) => convert_unsupported(*inner),
        SqlExpr::Function(f) => function_unsupported(f),
        SqlExpr::BinaryOp { left, op, right } => {
            ||| convert_unsupported(*left)
            ||| (sql_expr(*left) is Some && convert_unsupported(*right))
            ||| (sql_expr(*left) is Some && sql_expr(*right) is Some && op == SqlBinaryOperator::Other)
        },
        _ => false,
    }
}

/// The expression an SQL expression converts to, if any: numbers and
/// single-quoted strings become literals, parentheses are dropped,
/// identifiers become columns, calls of aggregate functions become
/// aggregates of a column, and binary operations whose operands both
/// convert become binary expressions.
pub open spec fn sql_expr(e: SqlExpr) -> Option<ExprView>
    decreases e,
{
    match e {
        SqlExpr::Value(v) => match v {
            SqlValue::Number(Some(t)) => Some(ExprView::LiteralDouble { text: t@ }),
            SqlValue::SingleQuotedString(s) => Some(ExprView::LiteralString { value: s@ }),
            _ => None,
        },
        SqlExpr::Nested(inner) => sql_expr(*inner),
        SqlExpr::Identifier(s) => Some(ExprView::Column { name: s@ }),
        SqlExpr::Function(f) => function_expr(f),
        SqlExpr::BinaryOp { left, op, right } => match (sql_expr(*left), sql_expr(*right)) {
            (Some(l), Some(r)) => Some(
                ExprView::Binary { op: binary_of_sql(op), left: Box::new(l), right: Box::new(r) },
            ),
            _ => None,
        },
        SqlExpr::Other => None,
    }
}

fn convert_function(f: &SqlFunction) -> (r: Option<Expression>)
    requires
        !function_unsupported(*f),
    ensures
        opt_view(r) == function_expr(*f),
{
    if f.name.len() == 0 {
        return None;
    }
    let aggregate_name = match &f.name[0] {
        SqlNamePart::Identifier(ident) => ident.clone(),
        SqlNamePart::Other => {
            return None;
        },
    };
    let args = match &f.args {
        SqlFunctionArguments::List(l) => l,
        SqlFunctionArguments::Other => {
            return None;
        },
    };
    let mut column_name = String::new();
    let mut i: usize = 0;
    while i < args.len()
        invariant
            i <= args@.len(),
            forall|m: int| 0 <= m < args@.len() ==> !unsupported_argument(#[trigger] args@[m]),
            column_name@ == argument_column(args@, i as nat),
        decreases args@.len() - i,
    {
        match &args[i] {
            SqlFunctionArg::Unnamed(SqlFunctionArgExpr::Identifier(ide)) => {
                column_name = ide.clone();
            },
            SqlFunctionArg::Unnamed(SqlFunctionArgExpr::Wildcard) => {
                column_name = text_of("*");
            },
            _ => {
                assert(!unsupported_argument(args@[i as int]));
            },
        }
        i = i + 1;
    }
    assert(f.name@[0] == SqlNamePart::Identifier(aggregate_name));
    assert(f.args == SqlFunctionArguments::List(*args));
    assert(column_name@ == argument_column(args@, args@.len()));
    match Operator::from_str(aggregate_name.as_str()) {
        Some(op) => {
            let col = Expression::Column(Column { name: column_name });
            assert(col@ == ExprView::Column { name: argument_column(args@, args@.len()) });
            let agg = Expression::Aggregate(Aggregate { operator: op, expression: Box::new(col) });
            assert(agg@ == ExprView::Aggregate { func: op, arg: Box::new(col@) });
            Some(agg)
        },
        None => None,
    }
}

fn function_supported(f: &SqlFunction) -> (r: bool)
    ensures
        r == !function_unsupported(*f),
{
    if f.name.len() == 0 {
        return true;
    }
    match &f.name[0] {
        SqlNamePart::Identifier(_) => {},
        SqlNamePart::Other => {
            return true;
        },
    }
    let args = match &f.args {
        SqlFunctionArguments::List(l) => l,
        SqlFunctionArguments::Other => {
            return true;
        },
    };
    let mut i: usize = 0;
    while i < args.len()
        invariant
            i <= args@.len(),
            f.name@.len() > 0,
            f.name@[0] is Identifier,
            f.args == SqlFunctionArguments::List(*args),
            forall|m: int| 0 <= m < i ==> !unsupported_argument(#[trigger] args@[m]),
        decreases args@.len() - i,
    {
        let bad = match &args[i] {
            SqlFunctionArg::Unnamed(SqlFunctionArgExpr::OtherExpr) => true,
            SqlFunctionArg::Unnamed(SqlFunctionArgExpr::OtherWildcard) => true,
            _ => false,
        };
        if bad {
            assert(unsupported_argument(args@[i as int]));
            assert(f.args matches SqlFunctionArguments::List(a) && a == *args);
            return false;
        }
        i = i + 1;
    }
    true
}

impl SqlExpr {
    /// Whether converting the expression stays within what this library
    /// supports (see [`convert_unsupported`]).
    pub fn conversion_supported(&self) -> (r: bool)
        ensures
            r == !convert_unsupported(*self),
        decreases self,
    {
        match self {
            SqlExpr::Value(SqlValue::Other) => false,
            SqlExpr::Nested(inner) => inner.conversion_supported(),
            SqlExpr::Function(f) => function_supported(f),
            SqlExpr::BinaryOp { left, op, right } => {
                if !left.conversion_supported() {
                    return false;
                }
                if left.convert().is_none() {
                    return true;
                }
                if !right.conversion_supported() {
                    return false;
                }
                if right.convert().is_none() {
                    return true;
                }
                *op != SqlBinaryOperator::Other
            },
            _ => true,
        }
    }

    /// Converts the SQL expression to an expression of this library (see
    /// [`sql_expr`]); `None` where it has no counterpart. Inputs on which
    /// the conversion reaches an unsupported construct are not accepted (see
    /// [`convert_unsupported`]).
    pub fn convert(&self) -> (r: Option<Expression>)
        requires
            !convert_unsupported(*self),
        ensures
            opt_view(r) == sql_expr(*self),
        decreases self,
    {
        match self {
            SqlExpr::Value(v) => match v {
                SqlValue::Number(n) => match n {
                    Some(t) => Some(Expression::LiteralDouble(LiteralDouble { value: t.clone() })),
                    None => None,
                },
                SqlValue::SingleQuotedString(s) => Some(
                    Expression::LiteralString(LiteralString { value: s.clone() }),
                ),
                SqlValue::Other => None,
            },
            SqlExpr::Nested(inner) => inner.convert(),
            SqlExpr::Identifier(ident) => Some(Expression::Column(Column { name: ident.clone() })),
            SqlExpr::Function(f) => convert_function(f),
            SqlExpr::BinaryOp { left, op, right } => {
                let l = match left.convert() {
                    Some(l) => l,
                    None => {
                        return None;
                    },
                };
                let r = match right.convert() {
                    Some(r) => r,
                    None => {
                        return None;
                    },
                };
                let op = BinaryOperator::from_sql_binary_op(op);
                Some(Expression::Binary(Binary { operator: op, L: Box::new(l), R: Box::new(r) }))
            },
            SqlExpr::Other => None,
        }
    }
}


/// A statement converted to expressions of this library: the intermediate
/// form that analysis works on.
#[derive(Debug)]
pub struct QueryIR {
    pub select: Vec<Expression>,
    pub wherec: Option<Expression>,
    pub groupby: Vec<Expression>,
    pub having: Option<Expression>,
}

/// The value of a [`QueryIR`].
pub struct QueryIRView {
    pub select: Seq<ExprView>,
    pub wherec: Option<ExprView>,
    pub groupby: Seq<ExprView>,
    pub having: Option<ExprView>,
}

impl View for QueryIR {
    type V = QueryIRView;

    open spec fn view(&self) -> QueryIRView {
        QueryIRView {
            select: exprs_view(self.select@),
            wherec: opt_view(self.wherec),
            groupby: exprs_view(self.groupby@),
            having: opt_view(self.having),
        }
    }
}

impl QueryIR {
    /// An intermediate form with nothing in it.
    pub fn new() -> (r: Self)
        ensures
            r@ == (QueryIRView { select: Seq::empty(), wherec: None, groupby: Seq::empty(), having: None }),
    {
        let r = QueryIR { select: Vec::new(), groupby: Vec::new(), having: None, wherec: None };
        assert(exprs_view(r.select@) =~= Seq::empty());
        assert(exprs_view(r.groupby@) =~= Seq::empty());
        r
    }
}

/// The expression a select item holds.
pub open spec fn item_expr(item: SqlSelectItem) -> SqlExpr {
    match item {
        SqlSelectItem::UnnamedExpr(e) => e,
        SqlSelectItem::ExprWithAlias { expr, .. } => expr,
        SqlSelectItem::Other => SqlExpr::Other,
    }
}

/// The expressions that the first `n` of `exprs` convert to, dropping those
/// that do not convert.
pub open spec fn converted(exprs: Seq<SqlExpr>, n: nat) -> Seq<ExprView>
    decreases n,
{
    if n == 0 {
        Seq::empty()
    } else {
        match sql_expr(exprs[n - 1]) {
            Some(x) => converted(exprs, (n - 1) as nat).push(x),
            None => converted(exprs, (n - 1) as nat),
        }
    }
}

/// The expressions of a select list, each converted; an alias is dropped
/// and items that do not convert are left out.
pub open spec fn converted_items(items: Seq<SqlSelectItem>) -> Seq<ExprView> {
    converted(items.map_values(|i: SqlSelectItem| item_expr(i)), items.len())
}

/// An optional SQL expression, converted.
pub open spec fn converted_opt(e: Option<SqlExpr>) -> Option<ExprView> {
    match e {
        Some(x) => sql_expr(x),
        None => None,
    }
}

/// Whether an optional SQL expression reaches something unsupported.
pub open spec fn opt_unsupported(e: Option<SqlExpr>) -> bool {
    match e {
        Some(x) => convert_unsupported(x),
        None => false,
    }
}

/// Whether building the intermediate form reaches something unsupported: a
/// wildcard in the select list, or an unsupported construct in a select
/// item, in the `WHERE` clause or, unless the query groups by `ALL`, in the
/// `GROUP BY` or `HAVING` clause.
pub open spec fn ir_unsupported(ast: SqlStatement) -> bool {
    match ast {
        SqlStatement::Query(q) => match *q.body {
            SqlSetExpr::Select(sel) => {
                ||| exists|i: int|
                    0 <= i < sel.projection@.len() && {
                        let item = #[trigger] sel.projection@[i];
                        item is Other || convert_unsupported(item_expr(item))
                    }
                ||| opt_unsupported(sel.selection)
                ||| match sel.group_by {
                    SqlGroupBy::All => false,
                    SqlGroupBy::Expressions(g) => {
                        ||| exists|i: int| 0 <= i < g@.len() && convert_unsupported(#[trigger] g@[i])
                        ||| opt_unsupported(sel.having)
                    },
                }
            },
            SqlSetExpr::Other => false,
        },
        SqlStatement::Other => false,
    }
}

/// The intermediate form of a statement: for a `SELECT`, its select list,
/// `WHERE`, `GROUP BY` and `HAVING` clauses converted. Any other statement,
/// a query whose body is not a `SELECT`, and `GROUP BY ALL` are errors.
pub open spec fn statement_ir(ast: SqlStatement) -> Result<QueryIRView, PlanErrorView> {
    match ast {
        SqlStatement::Query(q) => match *q.body {
            SqlSetExpr::Select(sel) => match sel.group_by {
                SqlGroupBy::All => Err(PlanErrorView::GroupByAll),
                SqlGroupBy::Expressions(g) => Ok(
                    QueryIRView {
                        select: converted_items(sel.projection@),
                        wherec: converted_opt(sel.selection),
                        groupby: converted(g@, g@.len()),
                        having: converted_opt(sel.having),
                    },
                ),
            },
            SqlSetExpr::Other => Err(PlanErrorView::NoSelectBody),
        },
        SqlStatement::Other => Err(PlanErrorView::NotASelect),
    }
}

/// The name of the table a statement reads: the last part of the name of
/// the first item of the `FROM` clause of a `SELECT` query, when that item
/// is a named table and that part an identifier.
pub open spec fn table_name(ast: SqlStatement) -> Option<Seq<char>> {
    match ast {
        SqlStatement::Query(q) => match *q.body {
            SqlSetExpr::Select(sel) => if sel.from@.len() == 0 {
                None
            } else {
                match sel.from@[0].relation {
                    SqlTableFactor::Table { name } => if name@.len() == 0 {
                        None
                    } else {
                        match name@.last() {
                            SqlNamePart::Identifier(id) => Some(id@),
                            SqlNamePart::Other => None,
                        }
                    },
                    SqlTableFactor::Other => None,
                }
            },
            SqlSetExpr::Other => None,
        },
        SqlStatement::Other => None,
    }
}

/// An intermediate-form result, taken by its view.
pub open spec fn ir_result_view(r: Result<QueryIR, PlanError>) -> Result<QueryIRView, PlanErrorView> {
    match r {
        Ok(ir) => Ok(ir@),
        Err(e) => Err(e@),
    }
}

/// Converts `exprs` and appends those that convert to `out`.
fn convert_all(exprs: &Vec<SqlExpr>, out: &mut Vec<Expression>)
    requires
        forall|i: int| 0 <= i < exprs@.len() ==> !convert_unsupported(#[trigger] exprs@[i]),
    ensures
        exprs_view(final(out)@) == exprs_view(old(out)@) + converted(exprs@, exprs@.len()),
{
    let ghost start = exprs_view(out@);
    let mut i: usize = 0;
    proof {
        assert(start + converted(exprs@, 0) =~= start);
    }
    while i < exprs.len()
        invariant
            i <= exprs@.len(),
            forall|m: int| 0 <= m < exprs@.len() ==> !convert_unsupported(#[trigger] exprs@[m]),
            exprs_view(out@) == start + converted(exprs@, i as nat),
        decreases exprs@.len() - i,
    {
        let ghost before = out@;
        match exprs[i].convert() {
            Some(e) => {
                out.push(e);
                proof {
                    lemma_exprs_view_push(before, e);
                    assert(start + converted(exprs@, i as nat).push(e@) =~= (start + converted(
                        exprs@,
                        i as nat,
                    )).push(e@));
                }
            },
            None => {},
        }
        i = i + 1;
    }
}

/// Whether a query computes aggregates.
#[derive(Debug, Clone, Copy, PartialEq, Eq, Structural)]
pub enum QueryClass {
    Relational,
    Aggregate,
}

/// The analysed, validated and enriched form of a query's intermediate
/// form, from which its plan is built.
#[derive(Debug)]
pub struct AnalyzedQuery {
    pub class: QueryClass,
    pub select: Vec<Expression>,
    pub wherec: Option<Expression>,
    pub groupby: Vec<Expression>,
    pub having: Option<Expression>,
    pub interim_projections: Option<Vec<Expression>>,
    pub aggregates: Vec<Expression>,
    /// For an aggregate query: for each select item, the position of its
    /// column in the aggregation's output.
    pub output_references: Option<Vec<Expression>>,
}

/// The value of an [`AnalyzedQuery`].
pub struct AnalyzedView {
    pub class: QueryClass,
    pub select: Seq<ExprView>,
    pub wherec: Option<ExprView>,
    pub groupby: Seq<ExprView>,
    pub having: Option<ExprView>,
    pub interim: Option<Seq<ExprView>>,
    pub aggregates: Seq<ExprView>,
    pub output_refs: Option<Seq<ExprView>>,
}

/// An optional list of expressions, taken by its view.
pub open spec fn opt_exprs_view(o: Option<Vec<Expression>>) -> Option<Seq<ExprView>> {
    match o {
        Some(v) => Some(exprs_view(v@)),
        None => None,
    }
}

impl View for AnalyzedQuery {
    type V = AnalyzedView;

    open spec fn view(&self) -> AnalyzedView {
        AnalyzedView {
            class: self.class,
            select: exprs_view(self.select@),
            wherec: opt_view(self.wherec),
            groupby: exprs_view(self.groupby@),
            having: opt_view(self.having),
            interim: opt_exprs_view(self.interim_projections),
            aggregates: exprs_view(self.aggregates@),
            output_refs: opt_exprs_view(self.output_references),
        }
    }
}

/// The aggregates among the first `n` expressions, in order.
pub open spec fn aggregates_in(s: Seq<ExprView>, n: nat) -> Seq<ExprView>
    decreases n,
{
    if n == 0 {
        Seq::empty()
    } else if is_aggregate(s[n - 1]) {
        aggregates_in(s, (n - 1) as nat).push(s[n - 1])
    } else {
        aggregates_in(s, (n - 1) as nat)
    }
}

/// The position of the first occurrence of `x` among the first `n`
/// expressions.
pub open spec fn first_index(s: Seq<ExprView>, x: ExprView, n: nat) -> Option<int>
    decreases n,
{
    if n == 0 {
        None
    } else {
        match first_index(s, x, (n - 1) as nat) {
            Some(i) => Some(i),
            None => if s[n - 1] == x {
                Some(n - 1)
            } else {
                None
            },
        }
    }
}

/// The position of the first occurrence of `x` in `s` (zero when absent).
pub open spec fn index_in(s: Seq<ExprView>, x: ExprView) -> int {
    match first_index(s, x, s.len()) {
        Some(i) => i,
        None => 0,
    }
}

/// The column, in the output of an aggregation grouped by `groupby` and
/// computing `aggs`, that a select item refers to: an aggregate refers to its
/// place among the aggregates, after the group columns; anything else to its
/// place among the group expressions.
pub open spec fn output_reference(e: ExprView, groupby: Seq<ExprView>, aggs: Seq<ExprView>) -> ExprView {
    ExprView::ColumnIndex {
        index: if is_aggregate(e) {
            (groupby.len() + index_in(aggs, e)) as usize
        } else {
            index_in(groupby, e) as usize
        },
    }
}

/// The analysed form of an intermediate form. A query without aggregates is
/// relational, and may not group. A query with aggregates is an aggregate
/// query: each of its other select items must be one of its group
/// expressions, and each select item is given its output reference.
pub open spec fn analyzed(ir: QueryIRView) -> Result<AnalyzedView, PlanErrorView> {
    let aggs = aggregates_in(ir.select, ir.select.len());
    if aggs.len() == 0 {
        if ir.groupby.len() > 0 {
            Err(PlanErrorView::GroupByWithoutAggregate)
        } else {
            Ok(
                AnalyzedView {
                    class: QueryClass::Relational,
                    select: ir.select,
                    wherec: ir.wherec,
                    groupby: ir.groupby,
                    having: ir.having,
                    interim: None,
                    aggregates: aggs,
                    output_refs: None,
                },
            )
        }
    } else if exists|i: int|
        0 <= i < ir.select.len() && !is_aggregate(#[trigger] ir.select[i]) && !ir.groupby.contains(
            ir.select[i],
        ) {
        Err(PlanErrorView::SelectNotInGroupBy)
    } else {
        Ok(
            AnalyzedView {
                class: QueryClass::Aggregate,
                select: ir.select,
                wherec: ir.wherec,
                groupby: ir.groupby,
                having: ir.having,
                interim: None,
                aggregates: aggs,
                output_refs: Some(
                    ir.select.map_values(|e: ExprView| output_reference(e, ir.groupby, aggs)),
                ),
            },
        )
    }
}

/// An analysis result, taken by its view.
pub open spec fn analyzed_result_view(r: Result<AnalyzedQuery, PlanError>) -> Result<AnalyzedView, PlanErrorView> {
    match r {
        Ok(a) => Ok(a@),
        Err(e) => Err(e@),
    }
}

/// The aggregates among the first `n` are among the first `n`.
pub proof fn lemma_aggregates_in(s: Seq<ExprView>, n: nat)
    requires
        n <= s.len(),
    ensures
        aggregates_in(s, n).len() <= n,
        forall|k: int| 0 <= k < aggregates_in(s, n).len() ==> is_aggregate(#[trigger] aggregates_in(s, n)[k]),
        forall|i: int| 0 <= i < n && is_aggregate(s[i]) ==> aggregates_in(s, n).contains(#[trigger] s[i]),
    decreases n,
{
    if n > 0 {
        lemma_aggregates_in(s, (n - 1) as nat);
        let prev = aggregates_in(s, (n - 1) as nat);
        if is_aggregate(s[n - 1]) {
            assert forall|i: int| 0 <= i < n && is_aggregate(s[i]) implies aggregates_in(s, n).contains(#[trigger] s[i]) by {
                if i < n - 1 {
                    let k = choose|k: int| 0 <= k < prev.len() && prev[k] == s[i];
                    assert(prev.push(s[n - 1])[k] == s[i]);
                } else {
                    assert(prev.push(s[n - 1])[prev.len() as int] == s[i]);
                }
            }
        }
    }
}

/// A first occurrence is an occurrence, and nothing before it is `x`; there
/// is one exactly when `x` occurs.
pub proof fn lemma_first_index(s: Seq<ExprView>, x: ExprView, n: nat)
    requires
        n <= s.len(),
    ensures
        first_index(s, x, n) matches Some(i) ==> 0 <= i < n && s[i] == x && forall|j: int| 0 <= j < i ==> s[j] != x,
        first_index(s, x, n) is None <==> forall|j: int| 0 <= j < n ==> s[j] != x,
    decreases n,
{
    if n > 0 {
        lemma_first_index(s, x, (n - 1) as nat);
    }
}

/// Whether `e` occurs in `v`, compared by value.
pub fn contains_expr(v: &Vec<Expression>, e: &Expression) -> (r: bool)
    ensures
        r == exprs_view(v@).contains(e@),
{
    match position_of(v, e) {
        Some(_) => true,
        None => false,
    }
}

/// The position of the first occurrence of `e` in `v`, compared by value.
pub fn position_of(v: &Vec<Expression>, e: &Expression) -> (r: Option<usize>)
    ensures
        match r {
            Some(i) => first_index(exprs_view(v@), e@, v@.len()) == Some(i as int),
            None => first_index(exprs_view(v@), e@, v@.len()) is None,
        },
        r is Some <==> exprs_view(v@).contains(e@),
{
    let ghost s = exprs_view(v@);
    let mut i: usize = 0;
    while i < v.len()
        invariant
            i <= v@.len(),
            s == exprs_view(v@),
            first_index(s, e@, i as nat) is None,
        decreases v@.len() - i,
    {
        if v[i].equals(e) {
            proof {
                assert(first_index(s, e@, (i + 1) as nat) == Some(i as int));
                lemma_first_index_stable(s, e@, (i + 1) as nat, v@.len());
                assert(s[i as int] == e@);
            }
            return Some(i);
        }
        i = i + 1;
    }
    proof {
        lemma_first_index(s, e@, v@.len());
        if s.contains(e@) {
            let k = choose|k: int| 0 <= k < s.len() && s[k] == e@;
        }
    }
    None
}

/// Once an occurrence is found, looking further finds the same one.
pub proof fn lemma_first_index_stable(s: Seq<ExprView>, x: ExprView, n: nat, m: nat)
    requires
        n <= m,
    ensures
        first_index(s, x, n) is Some ==> first_index(s, x, m) == first_index(s, x, n),
    decreases m,
{
    if n < m {
        lemma_first_index_stable(s, x, n, (m - 1) as nat);
    }
}

fn clone_exprs(v: &Vec<Expression>) -> (r: Vec<Expression>)
    ensures
        r@ == v@,
{
    let mut out: Vec<Expression> = Vec::new();
    let mut i: usize = 0;
    while i < v.len()
        invariant
            i <= v@.len(),
            out@ =~= v@.take(i as int),
        decreases v@.len() - i,
    {
        out.push(v[i].clone());
        proof {
            assert(v@.take(i + 1) =~= v@.take(i as int).push(v@[i as int]));
        }
        i = i + 1;
    }
    proof {
        assert(v@.take(v@.len() as int) =~= v@);
    }
    out
}

/// Each expression occurring in `s`, once, in the order of its first
/// occurrence.
pub open spec fn distinct(s: Seq<ExprView>) -> Seq<ExprView>
    decreases s.len(),
{
    if s.len() == 0 {
        Seq::empty()
    } else {
        let d = distinct(s.drop_last());
        if d.contains(s.last()) {
            d
        } else {
            d.push(s.last())
        }
    }
}

/// The column references held by the first `n` expressions, in order.
pub open spec fn columns_in(s: Seq<ExprView>, n: nat) -> Seq<ExprView>
    decreases n,
{
    if n == 0 {
        Seq::empty()
    } else {
        columns_in(s, (n - 1) as nat) + columns_of(s[n - 1])
    }
}

/// The column references an optional expression holds.
pub open spec fn opt_columns(e: Option<ExprView>) -> Seq<ExprView> {
    match e {
        Some(x) => columns_of(x),
        None => Seq::empty(),
    }
}

/// The projection placed under the selection and aggregation of an
/// aggregate query: the group expressions first (their order is that of the
/// aggregation's output), then the columns the aggregates read, then the
/// columns the `WHERE` clause reads, each once.
pub open spec fn interim_exprs(groupby: Seq<ExprView>, aggregates: Seq<ExprView>, wherec: Option<ExprView>) -> Seq<ExprView> {
    distinct(groupby + columns_in(aggregates, aggregates.len()) + opt_columns(wherec))
}

/// Appends `e` to `v` unless an equal expression is already there.
fn push_distinct(v: &mut Vec<Expression>, e: &Expression)
    ensures
        exprs_view(final(v)@) == if exprs_view(old(v)@).contains(e@) {
            exprs_view(old(v)@)
        } else {
            exprs_view(old(v)@).push(e@)
        },
{
    if !contains_expr(v, e) {
        let ghost before = v@;
        let c = e.clone();
        v.push(c);
        proof {
            lemma_exprs_view_push(before, c);
        }
    }
}

/// The interim projection of an aggregate query (see [`interim_exprs`]).
pub fn interim_projection(
    groupby: &Vec<Expression>,
    aggregates: &Vec<Expression>,
    wherec: &Option<Expression>,
) -> (r: Vec<Expression>)
    ensures
        exprs_view(r@) == interim_exprs(exprs_view(groupby@), exprs_view(aggregates@), opt_view(*wherec)),
{
    let ghost aggs = exprs_view(aggregates@);
    let mut candidates = clone_exprs(groupby);
    let mut j: usize = 0;
    proof {
        assert(exprs_view(groupby@) + columns_in(aggs, 0) =~= exprs_view(groupby@));
    }
    while j < aggregates.len()
        invariant
            j <= aggregates@.len(),
            aggs == exprs_view(aggregates@),
            exprs_view(candidates@) == exprs_view(groupby@) + columns_in(aggs, j as nat),
        decreases aggregates@.len() - j,
    {
        aggregates[j].collect_columns(&mut candidates);
        proof {
            assert(exprs_view(groupby@) + columns_in(aggs, (j + 1) as nat) =~= exprs_view(groupby@)
                + columns_in(aggs, j as nat) + columns_of(aggs[j as int]));
        }
        j = j + 1;
    }
    let ghost before_where = exprs_view(candidates@);
    match wherec {
        Some(w) => {
            w.collect_columns(&mut candidates);
        },
        None => {
            assert(before_where + opt_columns(opt_view(*wherec)) =~= before_where);
        },
    }
    let ghost cand = exprs_view(candidates@);
    let mut interim: Vec<Expression> = Vec::new();
    let mut i: usize = 0;
    proof {
        assert(cand.take(0) =~= Seq::<ExprView>::empty());
        assert(exprs_view(interim@) =~= Seq::<ExprView>::empty());
    }
    while i < candidates.len()
        invariant
            i <= candidates@.len(),
            cand == exprs_view(candidates@),
            exprs_view(interim@) == distinct(cand.take(i as int)),
        decreases candidates@.len() - i,
    {
        push_distinct(&mut interim, &candidates[i]);
        proof {
            assert(cand.take(i + 1).drop_last() =~= cand.take(i as int));
            assert(cand.take(i + 1).last() == cand[i as int]);
        }
        i = i + 1;
    }
    proof {
        assert(cand.take(cand.len() as int) =~= cand);
    }
    interim
}

/// `p`, under a selection by `w` when there is one.
pub open spec fn filtered(p: PlanView, w: Option<ExprView>) -> PlanView {
    match w {
        Some(e) => PlanView::Filter { input: Box::new(p), predicate: e },
        None => p,
    }
}

/// The plan of a relational query over `leaf`, before its select list is
/// restored: the interim projection, if any, then the selection.
pub open spec fn relational_base(ar: AnalyzedView, leaf: PlanView) -> PlanView {
    filtered(
        match ar.interim {
            Some(i) => PlanView::Project { input: Box::new(leaf), exprs: i },
            None => leaf,
        },
        ar.wherec,
    )
}

/// The plan of a relational query over `leaf`: its base plan when that
/// yields as many fields as the query selects, and otherwise a projection
/// of the base plan onto its first fields, one per select item, by name.
/// When the base plan has no schema the query cannot be built.
pub open spec fn relational_plan(ar: AnalyzedView, leaf: PlanView) -> Result<PlanView, PlanErrorView> {
    let base = relational_base(ar, leaf);
    match plan_schema(base) {
        Err(_) => Err(PlanErrorView::RelationalPlanFailed),
        Ok(fes) => if ar.select.len() == fes.len() {
            Ok(base)
        } else {
            Ok(
                PlanView::Project {
                    input: Box::new(base),
                    exprs: Seq::new(ar.select.len(), |i: int| ExprView::Column { name: fes[i].0 }),
                },
            )
        },
    }
}

/// Whether building a relational query over `leaf` reaches an unsupported
/// join, or a base plan with fewer fields than the query selects.
pub open spec fn relational_unsupported(ar: AnalyzedView, leaf: PlanView) -> bool {
    let base = relational_base(ar, leaf);
    ||| schema_unsupported(base)
    ||| (plan_schema(base) matches Ok(fes) && ar.select.len() > fes.len())
}

/// The plan of an aggregate query over `leaf`: the interim projection, the
/// selection if any, the aggregation, and on top the projection onto the
/// output references.
pub open spec fn aggregate_plan(ar: AnalyzedView, leaf: PlanView) -> PlanView {
    PlanView::Project {
        input: Box::new(
            PlanView::Aggregate {
                input: Box::new(aggregate_base(ar, leaf)),
                group: ar.groupby,
                aggr: ar.aggregates,
            },
        ),
        exprs: ar.output_refs.unwrap(),
    }
}

/// The plan a statement yields over the tables of `catalog`: the statement
/// must name its table, convert, and pass analysis; its table must be in
/// the catalog; and the plan is that of a relational or an aggregate query
/// over the table's plan.
pub open spec fn sql_plan(ast: SqlStatement, catalog: Map<Seq<char>, PlanView>) -> Result<PlanView, PlanErrorView> {
    match table_name(ast) {
        None => Err(PlanErrorView::NoFromClause),
        Some(t) => match statement_ir(ast) {
            Err(e) => Err(e),
            Ok(ir) => match analyzed(ir) {
                Err(e) => Err(e),
                Ok(ar) => if ar.class == QueryClass::Relational {
                    if catalog.contains_key(t) {
                        relational_plan(ar, catalog[t])
                    } else {
                        Err(PlanErrorView::RelationalPlanFailed)
                    }
                } else {
                    if catalog.contains_key(t) {
                        Ok(aggregate_plan(ar, catalog[t]))
                    } else {
                        Err(PlanErrorView::AggregatePlanFailed)
                    }
                },
            },
        },
    }
}

/// Whether planning a statement reaches an unsupported construct: in
/// converting it, or in building a relational query over its table.
pub open spec fn sql_plan_unsupported(ast: SqlStatement, catalog: Map<Seq<char>, PlanView>) -> bool {
    match table_name(ast) {
        None => false,
        Some(t) => {
            ||| ir_unsupported(ast)
            ||| (statement_ir(ast) matches Ok(ir) && analyzed(ir) matches Ok(ar) && ar.class
                == QueryClass::Relational && catalog.contains_key(t) && relational_unsupported(
                ar,
                catalog[t],
            ))
        },
    }
}

/// Whether the select list and the group expressions of a statement can be
/// counted together in a `usize`.
pub open spec fn plan_sizes_fit(ast: SqlStatement) -> bool {
    table_name(ast) is Some ==> (statement_ir(ast) matches Ok(ir) ==> ir.groupby.len() + ir.select.len()
        <= usize::MAX)
}

/// A planning result, taken by its view.
pub open spec fn frame_result_view(r: Result<DataFrame, PlanError>) -> Result<PlanView, PlanErrorView> {
    match r {
        Ok(df) => Ok(df@),
        Err(e) => Err(e@),
    }
}

/// Every aggregate collected from the first `n` expressions is one of them.
pub proof fn lemma_aggregates_from(s: Seq<ExprView>, n: nat)
    requires
        n <= s.len(),
    ensures
        forall|k: int|
            0 <= k < aggregates_in(s, n).len() ==> exists|i: int| 0 <= i < n && s[i] == #[trigger] aggregates_in(s, n)[k],
    decreases n,
{
    if n > 0 {
        lemma_aggregates_from(s, (n - 1) as nat);
        let prev = aggregates_in(s, (n - 1) as nat);
        assert forall|k: int| 0 <= k < aggregates_in(s, n).len() implies exists|i: int| 0 <= i < n && s[i] == #[trigger] aggregates_in(s, n)[k] by {
            if k < prev.len() {
                assert(aggregates_in(s, n)[k] == prev[k]);
                let i = choose|i: int| 0 <= i < n - 1 && s[i] == prev[k];
                assert(s[i] == aggregates_in(s, n)[k]);
            } else {
                assert(s[n - 1] == aggregates_in(s, n)[k]);
            }
        }
    }
}

/// Analysis keeps the select list, the group expressions and the `WHERE`
/// clause; its aggregates are exactly the aggregates of the select list; a
/// query is relational exactly when it selects no aggregate, and then it
/// does not group; an aggregate query selects nothing but aggregates and
/// its group expressions. Analysis fails exactly when a query groups without
/// aggregates, or selects, beside aggregates, something it does not group by.
pub proof fn law_analysis(ir: QueryIRView)
    ensures
        analyzed(ir) matches Ok(ar) ==> {
            &&& ar.select == ir.select
            &&& ar.groupby == ir.groupby
            &&& ar.wherec == ir.wherec
            &&& forall|k: int| 0 <= k < ar.aggregates.len() ==> is_aggregate(#[trigger] ar.aggregates[k]) && ir.select.contains(ar.aggregates[k])
            &&& forall|i: int| 0 <= i < ir.select.len() && is_aggregate(#[trigger] ir.select[i]) ==> ar.aggregates.contains(ir.select[i])
            &&& (ar.class == QueryClass::Relational <==> forall|i: int| 0 <= i < ir.select.len() ==> !is_aggregate(#[trigger] ir.select[i]))
            &&& (ar.class == QueryClass::Relational ==> ir.groupby.len() == 0)
            &&& (ar.class == QueryClass::Aggregate ==> forall|i: int|
                0 <= i < ir.select.len() && !is_aggregate(#[trigger] ir.select[i]) ==> ir.groupby.contains(ir.select[i]))
        },
        analyzed(ir) is Err <==> {
            ||| ((forall|i: int| 0 <= i < ir.select.len() ==> !is_aggregate(#[trigger] ir.select[i])) && ir.groupby.len() > 0)
            ||| ((exists|i: int| 0 <= i < ir.select.len() && is_aggregate(#[trigger] ir.select[i]))
                && exists|i: int| 0 <= i < ir.select.len() && !is_aggregate(#[trigger] ir.select[i]) && !ir.groupby.contains(ir.select[i]))
        },
{
    let aggs = aggregates_in(ir.select, ir.select.len());
    lemma_aggregates_in(ir.select, ir.select.len());
    lemma_aggregates_from(ir.select, ir.select.len());
    if aggs.len() == 0 {
        assert forall|i: int| 0 <= i < ir.select.len() implies !is_aggregate(#[trigger] ir.select[i]) by {
            if is_aggregate(ir.select[i]) {
                assert(aggs.contains(ir.select[i]));
            }
        }
    } else {
        let k = 0int;
        let i = choose|i: int| 0 <= i < ir.select.len() && ir.select[i] == aggs[k];
        assert(is_aggregate(ir.select[i]));
    }
    assert forall|k: int| 0 <= k < aggs.len() implies is_aggregate(#[trigger] aggs[k]) && ir.select.contains(aggs[k]) by {
        let i = choose|i: int| 0 <= i < ir.select.len() && ir.select[i] == aggs[k];
        assert(ir.select[i] == aggs[k]);
    }
}

/// In an aggregate query, each select item's output reference names a
/// column of the aggregation's output (its group columns, then its
/// aggregates) that holds exactly that item; so the final projection
/// yields the select list in order.
pub proof fn law_output_references(ir: QueryIRView)
    requires
        ir.groupby.len() + ir.select.len() <= usize::MAX,
    ensures
        analyzed(ir) matches Ok(ar) ==> ar.class == QueryClass::Aggregate ==> {
            &&& ar.output_refs matches Some(refs)
            &&& refs.len() == ar.select.len()
            &&& forall|i: int|
                0 <= i < refs.len() ==> (#[trigger] refs[i] matches ExprView::ColumnIndex { index } && index
                    < ar.groupby.len() + ar.aggregates.len() && (ar.groupby + ar.aggregates)[index as int]
                    == ar.select[i])
        },
{
    if let Ok(ar) = analyzed(ir) {
        if ar.class == QueryClass::Aggregate {
            let aggs = ar.aggregates;
            let grp = ar.groupby;
            let refs = ar.output_refs.unwrap();
            lemma_aggregates_in(ir.select, ir.select.len());
            assert forall|i: int| 0 <= i < refs.len() implies (#[trigger] refs[i] matches ExprView::ColumnIndex { index } && index
                < grp.len() + aggs.len() && (grp + aggs)[index as int] == ar.select[i]) by {
                let e = ir.select[i];
                assert(refs[i] == output_reference(e, grp, aggs));
                if is_aggregate(e) {
                    lemma_first_index(aggs, e, aggs.len());
                    let k = index_in(aggs, e);
                    assert((grp + aggs)[grp.len() + k] == aggs[k]);
                } else {
                    lemma_first_index(grp, e, grp.len());
                }
            }
        }
    }
}

/// `distinct` keeps each expression once: its result has no repeats, and it
/// holds exactly the expressions of its argument.
pub proof fn lemma_distinct(s: Seq<ExprView>)
    ensures
        forall|i: int, j: int| 0 <= i < j < distinct(s).len() ==> distinct(s)[i] != distinct(s)[j],
        forall|e: ExprView| distinct(s).contains(e) <==> s.contains(e),
    decreases s.len(),
{
    if s.len() > 0 {
        let init = s.drop_last();
        lemma_distinct(init);
        let d = distinct(init);
        assert forall|e: ExprView| distinct(s).contains(e) <==> s.contains(e) by {
            if s.contains(e) {
                let k = choose|k: int| 0 <= k < s.len() && s[k] == e;
                if k < s.len() - 1 {
                    assert(init[k] == e);
                    assert(init.contains(e));
                    let m = choose|m: int| 0 <= m < d.len() && d[m] == e;
                    if !d.contains(s.last()) {
                        assert(d.push(s.last())[m] == e);
                    }
                } else if !d.contains(s.last()) {
                    assert(d.push(s.last())[d.len() as int] == e);
                }
            }
            if distinct(s).contains(e) {
                let m = choose|m: int| 0 <= m < distinct(s).len() && distinct(s)[m] == e;
                if m < d.len() {
                    assert(distinct(s)[m] == d[m]);
                    assert(d.contains(e));
                    assert(init.contains(e));
                    let k = choose|k: int| 0 <= k < init.len() && init[k] == e;
                    assert(s[k] == e);
                } else {
                    assert(s[s.len() - 1] == e);
                }
            }
        }
    }
}

/// The distinct expressions of `a` come first, in order, among those of
/// `a + b`.
pub proof fn lemma_distinct_prefix(a: Seq<ExprView>, b: Seq<ExprView>)
    ensures
        distinct(a).len() <= distinct(a + b).len(),
        distinct(a + b).subrange(0, distinct(a).len() as int) == distinct(a),
    decreases b.len(),
{
    if b.len() == 0 {
        assert(a + b =~= a);
    } else {
        let b0 = b.drop_last();
        lemma_distinct_prefix(a, b0);
        assert((a + b).drop_last() =~= a + b0);
        assert((a + b).last() == b.last());
        let d0 = distinct(a + b0);
        if !d0.contains(b.last()) {
            assert(d0.push(b.last()).subrange(0, distinct(a).len() as int) =~= d0.subrange(
                0,
                distinct(a).len() as int,
            ));
        }
    }
}

/// The interim projection of an aggregate query holds each expression once;
/// it begins with the group expressions, each once and in order; and it
/// holds exactly the group expressions, the columns the aggregates read and
/// the columns the `WHERE` clause reads.
pub proof fn law_interim_projection(groupby: Seq<ExprView>, aggregates: Seq<ExprView>, wherec: Option<ExprView>)
    ensures
        ({
            let r = interim_exprs(groupby, aggregates, wherec);
            &&& forall|i: int, j: int| 0 <= i < j < r.len() ==> r[i] != r[j]
            &&& r.subrange(0, distinct(groupby).len() as int) == distinct(groupby)
            &&& forall|e: ExprView|
                r.contains(e) <==> (groupby.contains(e) || columns_in(aggregates, aggregates.len()).contains(e)
                    || opt_columns(wherec).contains(e))
        }),
{
    let cols = columns_in(aggregates, aggregates.len());
    let wc = opt_columns(wherec);
    let all = groupby + cols + wc;
    lemma_distinct(all);
    lemma_distinct(groupby);
    assert(all =~= groupby + (cols + wc));
    lemma_distinct_prefix(groupby, cols + wc);
    assert forall|e: ExprView| all.contains(e) <==> (groupby.contains(e) || cols.contains(e) || wc.contains(e)) by {
        if all.contains(e) {
            let k = choose|k: int| 0 <= k < all.len() && all[k] == e;
            if k < groupby.len() {
                assert(groupby[k] == e);
            } else if k < groupby.len() + cols.len() {
                assert(cols[k - groupby.len()] == e);
            } else {
                assert(wc[k - groupby.len() - cols.len()] == e);
            }
        }
        if groupby.contains(e) {
            let k = choose|k: int| 0 <= k < groupby.len() && groupby[k] == e;
            assert(all[k] == e);
        }
        if cols.contains(e) {
            let k = choose|k: int| 0 <= k < cols.len() && cols[k] == e;
            assert(all[groupby.len() + k] == e);
        }
        if wc.contains(e) {
            let k = choose|k: int| 0 <= k < wc.len() && wc[k] == e;
            assert(all[groupby.len() + cols.len() + k] == e);
        }
    }
}

/// The rows an aggregate query aggregates: its table's plan under the
/// interim projection and the selection.
pub open spec fn aggregate_base(ar: AnalyzedView, leaf: PlanView) -> PlanView {
    filtered(
        PlanView::Project {
            input: Box::new(leaf),
            exprs: interim_exprs(ar.groupby, ar.aggregates, ar.wherec),
        },
        ar.wherec,
    )
}

/// The output of an aggregate query is its select list: when the plan has
/// an output schema, it has one field per select item, in order, each the
/// field that item yields over the rows the query aggregates; and the plan
/// has an output schema exactly when its aggregation does.
pub proof fn law_aggregate_query_schema(ir: QueryIRView, leaf: PlanView)
    requires
        ir.groupby.len() + ir.select.len() <= usize::MAX,
    ensures
        analyzed(ir) matches Ok(ar) ==> ar.class == QueryClass::Aggregate ==> {
            &&& (plan_schema(aggregate_plan(ar, leaf)) is Ok <==> plan_schema(
                PlanView::Aggregate {
                    input: Box::new(aggregate_base(ar, leaf)),
                    group: ar.groupby,
                    aggr: ar.aggregates,
                },
            ) is Ok)
            &&& plan_schema(aggregate_plan(ar, leaf)) matches Ok(out) ==> {
                &&& plan_schema(aggregate_base(ar, leaf)) matches Ok(s)
                &&& out.len() == ar.select.len()
                &&& forall|i: int| 0 <= i < out.len() ==> expr_field(#[trigger] ar.select[i], s) == Ok::<FieldView, PlanErrorView>(out[i])
            }
        },
{
    if let Ok(ar) = analyzed(ir) {
        if ar.class == QueryClass::Aggregate {
            let base = aggregate_base(ar, leaf);
            let grp = ar.groupby;
            let aggs = ar.aggregates;
            let node = PlanView::Aggregate { input: Box::new(base), group: grp, aggr: aggs };
            let refs = ar.output_refs.unwrap();
            law_output_references(ir);
            law_aggregate_schema_layout(base, grp, aggs);
            law_projection_schema(node, refs);
            if let Ok(fs) = plan_schema(node) {
                lemma_exprs_fields(refs, fs);
                assert forall|i: int| 0 <= i < refs.len() implies (#[trigger] expr_field(refs[i], fs)) is Ok by {
                    assert(refs[i] matches ExprView::ColumnIndex { index } && index < grp.len() + aggs.len());
                }
                if let Ok(out) = plan_schema(aggregate_plan(ar, leaf)) {
                    let s = plan_schema(base)->Ok_0;
                    assert forall|i: int| 0 <= i < out.len() implies expr_field(#[trigger] ar.select[i], s) == Ok::<FieldView, PlanErrorView>(out[i]) by {
                        assert(refs[i] matches ExprView::ColumnIndex { index } && index < grp.len() + aggs.len());
                        let k = refs[i]->ColumnIndex_index as int;
                        assert(expr_field(refs[i], fs) == Ok::<FieldView, PlanErrorView>(fs[k]));
                        if k < grp.len() {
                            assert((grp + aggs)[k] == grp[k]);
                            assert(expr_field(grp[k], s) == Ok::<FieldView, PlanErrorView>(fs[k]));
                        } else {
                            assert((grp + aggs)[k] == aggs[k - grp.len()]);
                            assert(expr_field(aggs[k - grp.len()], s) == Ok::<FieldView, PlanErrorView>(fs[grp.len() + (k - grp.len())]));
                        }
                    }
                }
            }
        }
    }
}

/// A relational query yields exactly as many columns as it selects: its
/// plan's output has one field per select item, named as the fields of the
/// rows it selects from, in order.
pub proof fn law_relational_query_schema(ar: AnalyzedView, leaf: PlanView)
    requires
        !relational_unsupported(ar, leaf),
    ensures
        relational_plan(ar, leaf) matches Ok(p) ==> {
            &&& plan_schema(relational_base(ar, leaf)) matches Ok(fes)
            &&& plan_schema(p) matches Ok(out)
            &&& out.len() == ar.select.len()
            &&& forall|i: int| 0 <= i < out.len() ==> (#[trigger] out[i]).0 == fes[i].0
        },
{
    let base = relational_base(ar, leaf);
    if let Ok(fes) = plan_schema(base) {
        if ar.select.len() != fes.len() {
            let cols = Seq::new(ar.select.len(), |i: int| ExprView::Column { name: fes[i].0 });
            lemma_exprs_fields(cols, fes);
            assert forall|i: int| 0 <= i < cols.len() implies (#[trigger] expr_field(cols[i], fes)) is Ok && expr_field(cols[i], fes)->Ok_0.0 == fes[i].0 by {
                lemma_first_named(fes, fes[i].0, fes.len());
                assert(first_named(fes, fes[i].0, fes.len()) is Some);
            }
            let p = PlanView::Project { input: Box::new(base), exprs: cols };
            assert(relational_plan(ar, leaf) == Ok::<PlanView, PlanErrorView>(p));
            assert(plan_schema(p) == exprs_fields(cols, fes));
            let out = exprs_fields(cols, fes)->Ok_0;
            assert forall|i: int| 0 <= i < out.len() implies (#[trigger] out[i]).0 == fes[i].0 by {
                assert(expr_field(cols[i], fes) == Ok::<FieldView, PlanErrorView>(out[i]));
            }
        }
    }
}

/// Whether building the intermediate form of the statement stays within
/// what this library supports (see [`ir_unsupported`]).
pub fn statement_supported(ast: &SqlStatement) -> (r: bool)
    ensures
        r == !ir_unsupported(*ast),
{
    let q = match ast {
        SqlStatement::Query(q) => q,
        SqlStatement::Other => {
            return true;
        },
    };
    let sel = match &*q.body {
        SqlSetExpr::Select(s) => s,
        SqlSetExpr::Other => {
            return true;
        },
    };
    let mut i: usize = 0;
    while i < sel.projection.len()
        invariant
            i <= sel.projection@.len(),
            *ast == SqlStatement::Query(*q),
            *q.body == SqlSetExpr::Select(*sel),
            forall|m: int|
                0 <= m < i ==> {
                    let item = #[trigger] sel.projection@[m];
                    !(item is Other || convert_unsupported(item_expr(item)))
                },
        decreases sel.projection@.len() - i,
    {
        let ok = match &sel.projection[i] {
            SqlSelectItem::UnnamedExpr(e) => e.conversion_supported(),
            SqlSelectItem::ExprWithAlias { expr, .. } => expr.conversion_supported(),
            SqlSelectItem::Other => false,
        };
        if !ok {
            assert({
                let item = sel.projection@[i as int];
                item is Other || convert_unsupported(item_expr(item))
            });
            return false;
        }
        i = i + 1;
    }
    match &sel.selection {
        Some(e) => {
            if !e.conversion_supported() {
                return false;
            }
        },
        None => {},
    }
    let g = match &sel.group_by {
        SqlGroupBy::All => {
            return true;
        },
        SqlGroupBy::Expressions(g) => g,
    };
    let mut j: usize = 0;
    while j < g.len()
        invariant
            j <= g@.len(),
            *ast == SqlStatement::Query(*q),
            *q.body == SqlSetExpr::Select(*sel),
            sel.group_by == SqlGroupBy::Expressions(*g),
            forall|m: int| 0 <= m < j ==> !convert_unsupported(#[trigger] g@[m]),
        decreases g@.len() - j,
    {
        if !g[j].conversion_supported() {
            assert(convert_unsupported(g@[j as int]));
            assert(sel.group_by is Expressions);
            assert(sel.group_by->Expressions_0 == *g);
            return false;
        }
        j = j + 1;
    }
    match &sel.having {
        Some(h) => h.conversion_supported(),
        None => true,
    }
}

/// A planner of SQL queries.
#[derive(Debug)]
pub struct Planner {}

impl Planner {
    pub fn new() -> (r: Self) {
        Planner {}
    }

    /// Analyses the intermediate form (see [`analyzed`]): classifies the
    /// query, collects its aggregates, checks that an aggregate query selects
    /// only aggregates and group expressions, and gives each select item of
    /// an aggregate query its place in the aggregation's output.
    pub fn analyze(&self, ir: QueryIR) -> (r: Result<AnalyzedQuery, PlanError>)
        requires
            ir.groupby@.len() + ir.select@.len() <= usize::MAX,
        ensures
            analyzed_result_view(r) == analyzed(ir@),
    {
        let ghost irv = ir@;
        let QueryIR { select, wherec, groupby, having } = ir;
        let ghost sel = exprs_view(select@);
        let ghost grp = exprs_view(groupby@);
        let mut aggregates: Vec<Expression> = Vec::new();
        let mut i: usize = 0;
        proof {
            assert(exprs_view(aggregates@) =~= Seq::<ExprView>::empty());
        }
        while i < select.len()
            invariant
                i <= select@.len(),
                sel == exprs_view(select@),
                exprs_view(aggregates@) == aggregates_in(sel, i as nat),
            decreases select@.len() - i,
        {
            let is_agg = match &select[i] {
                Expression::Aggregate(_) => true,
                _ => false,
            };
            if is_agg {
                let ghost before = aggregates@;
                let c = select[i].clone();
                aggregates.push(c);
                proof {
                    lemma_exprs_view_push(before, c);
                }
            }
            i = i + 1;
        }
        let ghost aggs = exprs_view(aggregates@);
        proof {
            lemma_aggregates_in(sel, sel.len());
        }
        if aggregates.len() == 0 {
            if groupby.len() > 0 {
                return Err(PlanError::GroupByWithoutAggregate);
            }
            return Ok(
                AnalyzedQuery {
                    class: QueryClass::Relational,
                    select,
                    wherec,
                    groupby,
                    having,
                    interim_projections: None,
                    aggregates,
                    output_references: None,
                },
            );
        }
        let mut k: usize = 0;
        while k < select.len()
            invariant
                k <= select@.len(),
                sel == exprs_view(select@),
                grp == exprs_view(groupby@),
                forall|j: int| 0 <= j < k ==> is_aggregate(#[trigger] sel[j]) || grp.contains(sel[j]),
                irv == ir@,
                irv.select == sel,
                irv.groupby == grp,
                aggregates_in(sel, sel.len()).len() > 0,
            decreases select@.len() - k,
        {
            let is_agg = match &select[k] {
                Expression::Aggregate(_) => true,
                _ => false,
            };
            if !is_agg && !contains_expr(&groupby, &select[k]) {
                proof {
                    assert(!is_aggregate(sel[k as int]) && !grp.contains(sel[k as int]));
                }
                return Err(PlanError::SelectNotInGroupBy);
            }
            k = k + 1;
        }
        let mut output_refs: Vec<Expression> = Vec::new();
        let mut m: usize = 0;
        proof {
            assert(exprs_view(output_refs@) =~= Seq::<ExprView>::empty());
        }
        while m < select.len()
            invariant
                m <= select@.len(),
                sel == exprs_view(select@),
                grp == exprs_view(groupby@),
                aggs == exprs_view(aggregates@),
                aggs == aggregates_in(sel, sel.len()),
                aggs.len() <= sel.len(),
                groupby@.len() + select@.len() <= usize::MAX,
                forall|j: int| 0 <= j < sel.len() ==> is_aggregate(#[trigger] sel[j]) || grp.contains(sel[j]),
                forall|j: int| 0 <= j < sel.len() && is_aggregate(sel[j]) ==> aggs.contains(#[trigger] sel[j]),
                exprs_view(output_refs@) =~= sel.take(m as int).map_values(
                    |e: ExprView| output_reference(e, grp, aggs),
                ),
            decreases select@.len() - m,
        {
            let is_agg = match &select[m] {
                Expression::Aggregate(_) => true,
                _ => false,
            };
            assert(is_agg == is_aggregate(sel[m as int]));
            let index: usize = if is_agg {
                let pos = position_of(&aggregates, &select[m]);
                let p = pos.unwrap();
                proof {
                    lemma_first_index(aggs, sel[m as int], aggs.len());
                }
                groupby.len() + p
            } else {
                let pos = position_of(&groupby, &select[m]);
                pos.unwrap()
            };
            let ghost before = output_refs@;
            let r = Expression::ColumnIndex(ColumnIndex { index });
            output_refs.push(r);
            proof {
                lemma_exprs_view_push(before, r);
                assert(r@ == output_reference(sel[m as int], grp, aggs));
                assert(sel.take(m + 1) =~= sel.take(m as int).push(sel[m as int]));
            }
            m = m + 1;
        }
        proof {
            assert(sel.take(sel.len() as int) =~= sel);
        }
        Ok(
            AnalyzedQuery {
                class: QueryClass::Aggregate,
                select,
                wherec,
                groupby,
                having,
                interim_projections: None,
                aggregates,
                output_references: Some(output_refs),
            },
        )
    }

    /// The name of the table the statement reads (see [`table_name`]).
    pub fn parse_table_name(&self, ast: &SqlStatement) -> (r: Option<String>)
        ensures
            match r {
                Some(s) => table_name(*ast) == Some(s@),
                None => table_name(*ast) is None,
            },
    {
        let q = match ast {
            SqlStatement::Query(q) => q,
            SqlStatement::Other => {
                return None;
            },
        };
        let selast = match &*q.body {
            SqlSetExpr::Select(s) => s,
            SqlSetExpr::Other => {
                return None;
            },
        };
        if selast.from.len() == 0 {
            return None;
        }
        let name = match &selast.from[0].relation {
            SqlTableFactor::Table { name } => name,
            SqlTableFactor::Other => {
                return None;
            },
        };
        if name.len() == 0 {
            return None;
        }
        match &name[name.len() - 1] {
            SqlNamePart::Identifier(ident) => Some(ident.clone()),
            SqlNamePart::Other => None,
        }
    }

    /// The intermediate form of the statement (see [`statement_ir`]).
    /// Statements on which it reaches an unsupported construct are not
    /// accepted (see [`ir_unsupported`]).
    pub fn query_ir(&self, ast: &SqlStatement) -> (r: Result<QueryIR, PlanError>)
        requires
            !ir_unsupported(*ast),
        ensures
            ir_result_view(r) == statement_ir(*ast),
    {
        let mut ir = QueryIR::new();
        assert(ir.groupby@.len() == exprs_view(ir.groupby@).len());
        let q = match ast {
            SqlStatement::Query(q) => q,
            SqlStatement::Other => {
                return Err(PlanError::NotASelect);
            },
        };
        let selast = match &*q.body {
            SqlSetExpr::Select(s) => s,
            SqlSetExpr::Other => {
                return Err(PlanError::NoSelectBody);
            },
        };
        let ghost items = selast.projection@.map_values(|i: SqlSelectItem| item_expr(i));
        let mut i: usize = 0;
        while i < selast.projection.len()
            invariant
                i <= selast.projection@.len(),
                items == selast.projection@.map_values(|i: SqlSelectItem| item_expr(i)),
                forall|m: int|
                    0 <= m < selast.projection@.len() ==> {
                        let item = #[trigger] selast.projection@[m];
                        !(item is Other || convert_unsupported(item_expr(item)))
                    },
                exprs_view(ir.select@) == converted(items, i as nat),
                ir.wherec is None,
                ir.groupby@.len() == 0,
                ir.having is None,
            decreases selast.projection@.len() - i,
        {
            let ghost before = ir.select@;
            let ex = match &selast.projection[i] {
                SqlSelectItem::UnnamedExpr(ex) => ex,
                SqlSelectItem::ExprWithAlias { expr, .. } => expr,
                SqlSelectItem::Other => {
                    assert(false);
                    return Err(PlanError::NotASelect);
                },
            };
            assert(items[i as int] == *ex);
            match ex.convert() {
                Some(c) => {
                    ir.select.push(c);
                    proof {
                        lemma_exprs_view_push(before, c);
                    }
                },
                None => {},
            }
            i = i + 1;
        }
        match &selast.selection {
            Some(wh) => {
                ir.wherec = wh.convert();
            },
            None => {},
        }
        match &selast.group_by {
            SqlGroupBy::All => {
                return Err(PlanError::GroupByAll);
            },
            SqlGroupBy::Expressions(exprs) => {
                convert_all(exprs, &mut ir.groupby);
            },
        }
        match &selast.having {
            Some(h) => {
                ir.having = h.convert();
            },
            None => {},
        }
        proof {
            assert(exprs_view(Seq::<Expression>::empty()) =~= Seq::<ExprView>::empty());
        }
        Ok(ir)
    }

    /// Plans a SQL statement over the tables of `table_catalog` (see
    /// [`sql_plan`]): only `SELECT` queries are supported. A relational
    /// query selects and filters its table; an aggregate query projects the
    /// columns it needs, filters, aggregates, and projects the aggregation's
    /// output onto its select list. Statements on which planning reaches an
    /// unsupported construct are not accepted (see [`sql_plan_unsupported`]).
    pub fn dataframe_from_sql(&self, ast: &SqlStatement, table_catalog: &TableCatalog) -> (r: Result<DataFrame, PlanError>)
        requires
            !sql_plan_unsupported(*ast, table_catalog@),
            plan_sizes_fit(*ast),
        ensures
            frame_result_view(r) == sql_plan(*ast, table_catalog@),
    {
        let table_name = match self.parse_table_name(ast) {
            Some(t) => t,
            None => {
                return Err(PlanError::NoFromClause);
            },
        };
        let ir = match self.query_ir(ast) {
            Ok(ir) => ir,
            Err(e) => {
                return Err(e);
            },
        };
        let ar = match self.analyze(ir) {
            Ok(ar) => ar,
            Err(e) => {
                return Err(e);
            },
        };
        let ghost arv = ar@;
        let AnalyzedQuery {
            class,
            select,
            wherec,
            groupby,
            having: _,
            interim_projections,
            aggregates,
            output_references,
        } = ar;
        match class {
            QueryClass::Relational => {
                let leaf_df = match table_catalog.get(&table_name) {
                    Some(d) => d,
                    None => {
                        return Err(PlanError::RelationalPlanFailed);
                    },
                };
                let mut final_df = leaf_df.clone();
                match interim_projections {
                    Some(interim) => {
                        final_df = final_df.project(interim);
                    },
                    None => {},
                }
                match wherec {
                    Some(filter_expr) => {
                        final_df = final_df.filter(filter_expr);
                    },
                    None => {},
                }
                assert(final_df@ == relational_base(arv, table_catalog@[table_name@]));
                let l = select.len();
                let fes = match final_df.schema() {
                    Ok(s) => s,
                    Err(_) => {
                        return Err(PlanError::RelationalPlanFailed);
                    },
                };
                if l == fes.fields.len() {
                    return Ok(final_df);
                }
                let ghost names = Seq::new(l as nat, |i: int| ExprView::Column { name: fes@[i].0 });
                let mut deflattened_select_exprs: Vec<Expression> = Vec::new();
                let mut i: usize = 0;
                while i < l
                    invariant
                        i <= l,
                        l <= fes.fields@.len(),
                        names == Seq::new(l as nat, |i: int| ExprView::Column { name: fes@[i].0 }),
                        exprs_view(deflattened_select_exprs@) =~= names.take(i as int),
                    decreases l - i,
                {
                    let ghost before = deflattened_select_exprs@;
                    let column_expr = Expression::Column(Column { name: fes.fields[i].name.clone() });
                    deflattened_select_exprs.push(column_expr);
                    proof {
                        lemma_exprs_view_push(before, column_expr);
                        assert(names.take(i + 1) =~= names.take(i as int).push(names[i as int]));
                    }
                    i = i + 1;
                }
                proof {
                    assert(names.take(l as int) =~= names);
                }
                Ok(final_df.project(deflattened_select_exprs))
            },
            QueryClass::Aggregate => {
                let leaf_df = match table_catalog.get(&table_name) {
                    Some(d) => d,
                    None => {
                        return Err(PlanError::AggregatePlanFailed);
                    },
                };
                let mut final_df = leaf_df.clone();
                let interim = interim_projection(&groupby, &aggregates, &wherec);
                final_df = final_df.project(interim);
                match wherec {
                    Some(w) => {
                        final_df = final_df.filter(w);
                    },
                    None => {},
                }
                let refs = output_references.unwrap();
                final_df = final_df.aggregate(groupby, aggregates).project(refs);
                Ok(final_df)
            },
        }
    }

    /// Plans the statement as [`Planner::dataframe_from_sql`] does when
    /// planning it stays within what this library supports and its lists can
    /// be counted; `None` otherwise.
    pub fn dataframe_from_sql_checked(&self, ast: &SqlStatement, table_catalog: &TableCatalog) -> (r: Option<Result<DataFrame, PlanError>>)
        ensures
            r is None <==> (sql_plan_unsupported(*ast, table_catalog@) || !plan_sizes_fit(*ast)),
            r matches Some(x) ==> frame_result_view(x) == sql_plan(*ast, table_catalog@),
    {
        let table_name = match self.parse_table_name(ast) {
            Some(t) => t,
            None => {
                return Some(self.dataframe_from_sql(ast, table_catalog));
            },
        };
        if !statement_supported(ast) {
            return None;
        }
        let ir = match self.query_ir(ast) {
            Ok(ir) => ir,
            Err(_) => {
                return Some(self.dataframe_from_sql(ast, table_catalog));
            },
        };
        if ir.groupby.len() > usize::MAX - ir.select.len() {
            return None;
        }
        let ar = match self.analyze(ir) {
            Ok(ar) => ar,
            Err(_) => {
                return Some(self.dataframe_from_sql(ast, table_catalog));
            },
        };
        let ghost arv = ar@;
        if ar.class == QueryClass::Relational {
            match table_catalog.get(&table_name) {
                Some(leaf_df) => {
                    let AnalyzedQuery { select, wherec, interim_projections, .. } = ar;
                    let mut base = leaf_df.clone();
                    match interim_projections {
                        Some(interim) => {
                            base = base.project(interim);
                        },
                        None => {},
                    }
                    match wherec {
                        Some(w) => {
                            base = base.filter(w);
                        },
                        None => {},
                    }
                    assert(base@ == relational_base(arv, table_catalog@[table_name@]));
                    if !base.schema_supported() {
                        return None;
                    }
                    match base.schema() {
                        Ok(fes) => {
                            if select.len() > fes.fields.len() {
                                return None;
                            }
                        },
                        Err(_) => {},
                    }
                },
                None => {},
            }
        }
        Some(self.dataframe_from_sql(ast, table_catalog))
    }
}

/// The statement that is the query `sel`.
pub open spec fn select_statement(sel: SqlSelect) -> SqlStatement {
    SqlStatement::Query(Box::new(SqlQuery { body: Box::new(SqlSetExpr::Select(Box::new(sel))) }))
}

/// The table a query reads is named by the first item of its `FROM`
/// clause, by the last part of that item's name when it is an identifier:
/// two queries whose first `FROM` items agree read the same table, whatever
/// items follow; and a query without `FROM` items names no table.
pub proof fn law_table_from_first_item(a: SqlSelect, b: SqlSelect)
    ensures
        a.from@.len() == 0 ==> table_name(select_statement(a)) is None,
        a.from@.len() > 0 && b.from@.len() > 0 && a.from@[0] == b.from@[0] ==> table_name(select_statement(a))
            == table_name(select_statement(b)),
        a.from@.len() > 0 ==> match a.from@[0].relation {
            SqlTableFactor::Table { name } => name@.len() > 0 ==> match name@.last() {
                SqlNamePart::Identifier(id) => table_name(select_statement(a)) == Some(id@),
                SqlNamePart::Other => table_name(select_statement(a)) is None,
            },
            SqlTableFactor::Other => table_name(select_statement(a)) is None,
        },
{
}

/// The intermediate form keeps the `HAVING` clause, converted as any
/// expression is: its `having` is the conversion of the query's `HAVING`
/// expression, and a query whose `HAVING` and `WHERE` clauses are the same
/// expression has the same condition for both.
pub proof fn law_having_converted(sel: SqlSelect)
    ensures
        statement_ir(select_statement(sel)) is Ok <==> sel.group_by !is All,
        statement_ir(select_statement(sel)) matches Ok(ir) ==> match sel.having {
            Some(h) => ir.having == sql_expr(h),
            None => ir.having is None,
        },
        sel.having == sel.selection ==> (statement_ir(select_statement(sel)) matches Ok(ir) ==> ir.having
            == ir.wherec),
{
}

} // verus!
