//! The ways in which planning a query can fail.

use vstd::prelude::*;

use crate::text::{debug_quoted, debug_text, decimal, join, lemma_join_push, push_joined, text_of, usize_text};

verus! {

/// Why a query could not be planned, or an expression could not be typed.
#[derive(Debug)]
pub enum PlanError {
    /// The statement names no table to read from.
    NoFromClause,
    /// The query's body is not a plain `SELECT`.
    NoSelectBody,
    /// The query groups by `ALL`.
    GroupByAll,
    /// The statement is not a query.
    NotASelect,
    /// The query groups without computing any aggregate.
    GroupByWithoutAggregate,
    /// An aggregate query selects something it does not group by.
    SelectNotInGroupBy,
    /// A query without aggregates could not be built over its table.
    RelationalPlanFailed,
    /// A query with aggregates could not be built over its table.
    AggregatePlanFailed,
    /// A column is referenced by a name the input does not have.
    NoSuchColumn { name: String, available: Vec<String> },
    /// A column is referenced by a position the input does not have.
    ColumnIndexOutOfRange { index: usize, last: usize },
}

/// The value of a [`PlanError`], with its text taken as characters.
pub enum PlanErrorView {
    NoFromClause,
    NoSelectBody,
    GroupByAll,
    NotASelect,
    GroupByWithoutAggregate,
    SelectNotInGroupBy,
    RelationalPlanFailed,
    AggregatePlanFailed,
    NoSuchColumn { name: Seq<char>, available: Seq<Seq<char>> },
    ColumnIndexOutOfRange { index: usize, last: usize },
}

/// The strings of a list, each taken by its view.
pub open spec fn strings_view(v: Seq<String>) -> Seq<Seq<char>> {
    v.map_values(|s: String| s@)
}

impl View for PlanError {
    type V = PlanErrorView;

    open spec fn view(&self) -> PlanErrorView {
        match self {
            PlanError::NoFromClause => PlanErrorView::NoFromClause,
            PlanError::NoSelectBody => PlanErrorView::NoSelectBody,
            PlanError::GroupByAll => PlanErrorView::GroupByAll,
            PlanError::NotASelect => PlanErrorView::NotASelect,
            PlanError::GroupByWithoutAggregate => PlanErrorView::GroupByWithoutAggregate,
            PlanError::SelectNotInGroupBy => PlanErrorView::SelectNotInGroupBy,
            PlanError::RelationalPlanFailed => PlanErrorView::RelationalPlanFailed,
            PlanError::AggregatePlanFailed => PlanErrorView::AggregatePlanFailed,
            PlanError::NoSuchColumn { name, available } => PlanErrorView::NoSuchColumn {
                name: name@,
                available: strings_view(available@),
            },
            PlanError::ColumnIndexOutOfRange { index, last } => PlanErrorView::ColumnIndexOutOfRange {
                index: *index,
                last: *last,
            },
        }
    }
}

/// A list of names as std's `{:?}` renders it: `["a", "b"]`.
pub open spec fn debug_list(names: Seq<Seq<char>>) -> Seq<char> {
    seq!['['] + join(names.map_values(|n: Seq<char>| debug_text(n)), ", "@) + seq![']']
}

/// The message that describes an error.
pub open spec fn error_message(e: PlanErrorView) -> Seq<char> {
    match e {
        PlanErrorView::NoFromClause => "query should have a FROM clause"@,
        PlanErrorView::NoSelectBody => "select statement has no body"@,
        PlanErrorView::GroupByAll => "GROUP BY ALL syntax not supported"@,
        PlanErrorView::NotASelect => "only select statements supported"@,
        PlanErrorView::GroupByWithoutAggregate => "GROUP BY without aggregate expressions is not supported"@,
        PlanErrorView::SelectNotInGroupBy => "select expression must be present in groupby"@,
        PlanErrorView::RelationalPlanFailed => "could not create Dataframe for relational class query"@,
        PlanErrorView::AggregatePlanFailed => "could not create Dataframe for aggregate class query"@,
        PlanErrorView::NoSuchColumn { name, available } =>
            "No column named '"@ + name + "' in "@ + debug_list(available),
        PlanErrorView::ColumnIndexOutOfRange { index, last } =>
            "column index "@ + decimal(index as nat) + " out of range (0.."@ + decimal(last as nat) + ")"@,
    }
}

/// Renders a list of names as std's `{:?}` does.
pub fn debug_names(names: &Vec<String>) -> (r: String)
    ensures
        r@ == debug_list(strings_view(names@)),
{
    let ghost views = strings_view(names@);
    let ghost quoted = views.map_values(|n: Seq<char>| debug_text(n));
    let mut body = String::new();
    let mut i: usize = 0;
    while i < names.len()
        invariant
            i <= names.len(),
            views == strings_view(names@),
            quoted == views.map_values(|n: Seq<char>| debug_text(n)),
            body@ == join(quoted.take(i as int), ", "@),
        decreases names.len() - i,
    {
        let q = debug_quoted(names[i].as_str());
        proof {
            lemma_join_push(quoted.take(i as int), ", "@, q@);
            assert(quoted.take(i as int).push(q@) =~= quoted.take(i + 1));
        }
        push_joined(&mut body, q.as_str(), ", ", i == 0);
        i = i + 1;
    }
    proof {
        assert(quoted.take(names.len() as int) =~= quoted);
        reveal_strlit("[");
        reveal_strlit("]");
    }
    let mut r = text_of("[");
    r.append(body.as_str());
    r.append("]");
    r
}

impl PlanError {
    /// The message that describes this error.
    pub fn to_string(&self) -> (r: String)
        ensures
            r@ == error_message(self@),
    {
        match self {
            PlanError::NoFromClause => text_of("query should have a FROM clause"),
            PlanError::NoSelectBody => text_of("select statement has no body"),
            PlanError::GroupByAll => text_of("GROUP BY ALL syntax not supported"),
            PlanError::NotASelect => text_of("only select statements supported"),
            PlanError::GroupByWithoutAggregate => text_of(
                "GROUP BY without aggregate expressions is not supported",
            ),
            PlanError::SelectNotInGroupBy => text_of("select expression must be present in groupby"),
            PlanError::RelationalPlanFailed => text_of(
                "could not create Dataframe for relational class query",
            ),
            PlanError::AggregatePlanFailed => text_of(
                "could not create Dataframe for aggregate class query",
            ),
            PlanError::NoSuchColumn { name, available } => {
                let mut r = text_of("No column named '");
                r.append(name.as_str());
                r.append("' in ");
                let names = debug_names(available);
                r.append(names.as_str());
                r
            },
            PlanError::ColumnIndexOutOfRange { index, last } => {
                let mut r = text_of("column index ");
                let i = usize_text(*index);
                r.append(i.as_str());
                r.append(" out of range (0..");
                let l = usize_text(*last);
                r.append(l.as_str());
                r.append(")");
                r
            },
        }
    }
}

} // verus!
