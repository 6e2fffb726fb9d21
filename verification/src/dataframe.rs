//! Data frames: logical plans, trees of computation nodes over a data source.

use std::rc::Rc;

use vstd::prelude::*;

use crate::datasource::{Csv, CsvView};
use crate::error::{PlanError, PlanErrorView};
use crate::expressions::{expr_field, exprs_view, field_result_view, ExprView, Expression};
use crate::expressions_display::expr_text;
use crate::schema::{fields_view, Field, FieldView, Schema};
use crate::text::{
    debug_quoted, debug_text, ends_line, join, lemma_join_push, lemma_repeat_tab_front, lemma_tab_line,
    lemma_tab_lines_append, no_newline, push_joined, repeat, repeat_text, tab_lines, text_of,
};

verus! {

/// A representation of a logical plan: a tree of nodes, each of which
/// describes one part of a query's computation against a schema without
/// saying how it is to be executed. The leaf of the tree is always a scan of
/// a data source; each other node takes its children's output as input.
///
/// Data frames are cheap to clone: the plan is shared, not copied.
#[derive(Debug)]
pub struct DataFrame {
    plan: Rc<LogicalPlanNode>,
}

/// A computation node of a logical plan.
#[derive(Debug)]
pub enum LogicalPlanNode {
    ProjectNode(Box<Projection>),
    FilterNode(Box<Filter>),
    AggregateNode(Box<Aggregation>),
    JoinNode(Box<Join>),
    ScanNode(Box<Scan>),
}

/// Computes one output column per expression.
#[derive(Debug)]
pub struct Projection {
    input: Rc<LogicalPlanNode>,
    exprs: Vec<Expression>,
}

/// Keeps the rows for which the expression holds.
#[derive(Debug)]
pub struct Filter {
    input: Rc<LogicalPlanNode>,
    exprs: Expression,
}

/// Groups the input by the group expressions and computes the aggregate
/// expressions per group; the output has the group columns first, then the
/// aggregates.
#[derive(Debug)]
pub struct Aggregation {
    input: Rc<LogicalPlanNode>,
    group_exprs: Vec<Expression>,
    aggr_exprs: Vec<Expression>,
}

/// How a join pairs the rows of its inputs.
#[derive(Debug, Clone, Copy, PartialEq, Eq, Structural)]
pub enum JoinType {
    Inner,
    Left,
    Right,
}

/// Joins two inputs on pairs of key columns.
#[derive(Debug)]
pub struct Join {
    join_type: JoinType,
    left: Rc<LogicalPlanNode>,
    right: Rc<LogicalPlanNode>,
    on: Vec<JoinKey>,
}

/// A pair of columns, one of each input of a join, that must match.
#[derive(Debug)]
pub struct JoinKey {
    left: String,
    right: String,
}

/// The data sources a scan can read.
#[derive(Debug)]
pub enum ScanSource {
    Csv(Csv),
}

/// Reads a data source: always the leaf of a plan.
#[derive(Debug)]
pub struct Scan {
    pub datasource: ScanSource,
}

/// The value of a logical plan: its tree, with expressions and text taken by
/// their views.
pub enum PlanView {
    Project { input: Box<PlanView>, exprs: Seq<ExprView> },
    Filter { input: Box<PlanView>, predicate: ExprView },
    Aggregate { input: Box<PlanView>, group: Seq<ExprView>, aggr: Seq<ExprView> },
    Join {
        join_type: JoinType,
        left: Box<PlanView>,
        right: Box<PlanView>,
        on: Seq<(Seq<char>, Seq<char>)>,
    },
    Scan { source: CsvView },
}

/// The join keys, each taken as the pair of its column names.
pub closed spec fn keys_view(on: Seq<JoinKey>) -> Seq<(Seq<char>, Seq<char>)> {
    on.map_values(|k: JoinKey| (k.left@, k.right@))
}

impl LogicalPlanNode {
    /// The tree this node is the root of.
    pub closed spec fn model(&self) -> PlanView
        decreases self,
    {
        match self {
            LogicalPlanNode::ProjectNode(p) => PlanView::Project {
                input: Box::new(p.input.model()),
                exprs: exprs_view(p.exprs@),
            },
            LogicalPlanNode::FilterNode(f) => PlanView::Filter {
                input: Box::new(f.input.model()),
                predicate: f.exprs@,
            },
            LogicalPlanNode::AggregateNode(a) => PlanView::Aggregate {
                input: Box::new(a.input.model()),
                group: exprs_view(a.group_exprs@),
                aggr: exprs_view(a.aggr_exprs@),
            },
            LogicalPlanNode::JoinNode(j) => PlanView::Join {
                join_type: j.join_type,
                left: Box::new(j.left.model()),
                right: Box::new(j.right.model()),
                on: keys_view(j.on@),
            },
            LogicalPlanNode::ScanNode(s) => match &s.datasource {
                ScanSource::Csv(c) => PlanView::Scan { source: c@ },
            },
        }
    }
}

/// A scan node is the leaf that scans its data source: its tree is the scan
/// of that source.
pub proof fn law_scan_view(scan: Scan)
    ensures
        LogicalPlanNode::ScanNode(Box::new(scan))@ == match scan.datasource {
            ScanSource::Csv(c) => PlanView::Scan { source: c@ },
        },
{
}

impl View for LogicalPlanNode {
    type V = PlanView;

    open spec fn view(&self) -> PlanView {
        self.model()
    }
}

impl View for DataFrame {
    type V = PlanView;

    closed spec fn view(&self) -> PlanView {
        self.plan@
    }
}

/// The fields a list of expressions yields over an input schema, or the
/// first error among them.
pub open spec fn exprs_fields(exprs: Seq<ExprView>, input: Seq<FieldView>) -> Result<Seq<FieldView>, PlanErrorView>
    decreases exprs.len(),
{
    if exprs.len() == 0 {
        Ok(Seq::empty())
    } else {
        match exprs_fields(exprs.drop_last(), input) {
            Err(e) => Err(e),
            Ok(fs) => match expr_field(exprs.last(), input) {
                Ok(f) => Ok(fs.push(f)),
                Err(e) => Err(e),
            },
        }
    }
}

/// The output schema of a plan: a projection yields the fields of its
/// expressions over its input, a selection its input's fields, an
/// aggregation the fields of its group expressions followed by those of its
/// aggregates, a left join the fields of its left input, and a scan the
/// schema of its source.
pub open spec fn plan_schema(p: PlanView) -> Result<Seq<FieldView>, PlanErrorView>
    decreases p,
{
    match p {
        PlanView::Project { input, exprs } => match plan_schema(*input) {
            Err(e) => Err(e),
            Ok(s) => exprs_fields(exprs, s),
        },
        PlanView::Filter { input, .. } => plan_schema(*input),
        PlanView::Aggregate { input, group, aggr } => match plan_schema(*input) {
            Err(e) => Err(e),
            Ok(s) => match exprs_fields(group, s) {
                Err(e) => Err(e),
                Ok(g) => match exprs_fields(aggr, s) {
                    Err(e) => Err(e),
                    Ok(a) => Ok(g + a),
                },
            },
        },
        PlanView::Join { left, right, .. } => match plan_schema(*left) {
            Err(e) => Err(e),
            Ok(l) => match plan_schema(*right) {
                Err(e) => Err(e),
                Ok(_) => Ok(l),
            },
        },
        PlanView::Scan { source } => Ok(source.schema),
    }
}

/// Whether computing the schema of a plan reaches a join that is not a left
/// join once the schemas of both its inputs are known: the output schema of
/// inner and right joins is not implemented.
pub open spec fn schema_unsupported(p: PlanView) -> bool
    decreases p,
{
    match p {
        PlanView::Project { input, .. } => schema_unsupported(*input),
        PlanView::Filter { input, .. } => schema_unsupported(*input),
        PlanView::Aggregate { input, .. } => schema_unsupported(*input),
        PlanView::Join { join_type, left, right, .. } => {
            ||| schema_unsupported(*left)
            ||| (plan_schema(*left) is Ok && schema_unsupported(*right))
            ||| (plan_schema(*left) is Ok && plan_schema(*right) is Ok && join_type != JoinType::Left)
        },
        PlanView::Scan { .. } => false,
    }
}

/// A schema result, taken by its view.
pub open spec fn schema_result_view(r: Result<Schema, PlanError>) -> Result<Seq<FieldView>, PlanErrorView> {
    match r {
        Ok(s) => Ok(s@),
        Err(e) => Err(e@),
    }
}

/// The name of a join type.
pub open spec fn join_type_name(t: JoinType) -> Seq<char> {
    match t {
        JoinType::Inner => "Inner"@,
        JoinType::Left => "Left"@,
        JoinType::Right => "Right"@,
    }
}

/// One join key as std's `{:?}` renders it.
pub open spec fn join_key_text(k: (Seq<char>, Seq<char>)) -> Seq<char> {
    "JoinKey { left: "@ + debug_text(k.0) + ", right: "@ + debug_text(k.1) + " }"@
}

/// The join keys as std's `{:?}` renders the list.
pub open spec fn join_keys_text(on: Seq<(Seq<char>, Seq<char>)>) -> Seq<char> {
    "["@ + join(on.map_values(|k: (Seq<char>, Seq<char>)| join_key_text(k)), ", "@) + "]"@
}

/// The texts of a list of expressions, joined by `, `.
pub open spec fn exprs_text(exprs: Seq<ExprView>) -> Seq<char> {
    join(exprs.map_values(|e: ExprView| expr_text(e)), ", "@)
}

/// The line that describes one plan node.
pub open spec fn node_line(p: PlanView) -> Seq<char> {
    match p {
        PlanView::Project { exprs, .. } => "Projection: "@ + exprs_text(exprs),
        PlanView::Filter { predicate, .. } => "Selection: "@ + expr_text(predicate),
        PlanView::Aggregate { group, aggr, .. } => "Aggregate: groupExpr=["@ + exprs_text(group)
            + "], aggregateExpr=["@ + exprs_text(aggr) + "]"@,
        PlanView::Join { join_type, on, .. } => "Join: type="@ + join_type_name(join_type)
            + ", on="@ + join_keys_text(on),
        PlanView::Scan { source } => "Scan: "@ + source.path + "; projection=None"@,
    }
}

/// The text of a plan: the line of its root, indented by `indent` tabs and
/// ended by a newline, followed by the text of each input (left before
/// right) indented by one more tab.
pub open spec fn plan_text(p: PlanView, indent: nat) -> Seq<char>
    decreases p,
{
    repeat("\t"@, indent) + node_line(p) + "\n"@ + match p {
        PlanView::Project { input, .. } => plan_text(*input, indent + 1),
        PlanView::Filter { input, .. } => plan_text(*input, indent + 1),
        PlanView::Aggregate { input, .. } => plan_text(*input, indent + 1),
        PlanView::Join { left, right, .. } => plan_text(*left, indent + 1) + plan_text(
            *right,
            indent + 1,
        ),
        PlanView::Scan { .. } => Seq::empty(),
    }
}


/// Whether the line of every node of the plan is free of newlines, so that
/// each node takes exactly one line of the plan's text.
pub open spec fn single_line_nodes(p: PlanView) -> bool
    decreases p,
{
    &&& no_newline(node_line(p))
    &&& match p {
        PlanView::Project { input, .. } => single_line_nodes(*input),
        PlanView::Filter { input, .. } => single_line_nodes(*input),
        PlanView::Aggregate { input, .. } => single_line_nodes(*input),
        PlanView::Join { left, right, .. } => single_line_nodes(*left) && single_line_nodes(*right),
        PlanView::Scan { .. } => true,
    }
}

/// The text of a plan is never empty and ends with a newline.
pub proof fn lemma_plan_text_ends_line(p: PlanView, indent: nat)
    ensures
        plan_text(p, indent).len() > 0,
        plan_text(p, indent).last() == '\n',
    decreases p,
{
    reveal_strlit("\n");
    let head = repeat("\t"@, indent) + node_line(p) + "\n"@;
    assert(head.last() == '\n');
    match p {
        PlanView::Project { input, .. } => lemma_plan_text_ends_line(*input, indent + 1),
        PlanView::Filter { input, .. } => lemma_plan_text_ends_line(*input, indent + 1),
        PlanView::Aggregate { input, .. } => lemma_plan_text_ends_line(*input, indent + 1),
        PlanView::Join { left, right, .. } => {
            lemma_plan_text_ends_line(*left, indent + 1);
            lemma_plan_text_ends_line(*right, indent + 1);
        },
        PlanView::Scan { .. } => {
            assert(plan_text(p, indent) =~= head);
        },
    }
}

/// The text of a plan one level deeper is its text with a tab put before
/// each line, when no node's line holds a newline.
pub proof fn law_plan_text_indent(p: PlanView, indent: nat)
    requires
        single_line_nodes(p),
    ensures
        plan_text(p, indent + 1) == tab_lines(plan_text(p, indent)),
    decreases p,
{
    let w = repeat("\t"@, indent) + node_line(p);
    let head = w + "\n"@;
    lemma_repeat_tab_front(indent);
    assert forall|i: int| 0 <= i < w.len() implies w[i] != '\n' by {
        if i < repeat("\t"@, indent).len() {
            assert(w[i] == repeat("\t"@, indent)[i]);
        } else {
            assert(w[i] == node_line(p)[i - repeat("\t"@, indent).len()]);
        }
    }
    lemma_tab_line(w);
    reveal_strlit("\n");
    assert(ends_line(head, true));
    let rest: Seq<char> = match p {
        PlanView::Project { input, .. } => plan_text(*input, indent + 1),
        PlanView::Filter { input, .. } => plan_text(*input, indent + 1),
        PlanView::Aggregate { input, .. } => plan_text(*input, indent + 1),
        PlanView::Join { left, right, .. } => plan_text(*left, indent + 1) + plan_text(*right, indent + 1),
        PlanView::Scan { .. } => Seq::empty(),
    };
    let rest2: Seq<char> = match p {
        PlanView::Project { input, .. } => plan_text(*input, indent + 2),
        PlanView::Filter { input, .. } => plan_text(*input, indent + 2),
        PlanView::Aggregate { input, .. } => plan_text(*input, indent + 2),
        PlanView::Join { left, right, .. } => plan_text(*left, indent + 2) + plan_text(*right, indent + 2),
        PlanView::Scan { .. } => Seq::empty(),
    };
    assert(plan_text(p, indent) == head + rest);
    assert(plan_text(p, indent + 1) == repeat("\t"@, indent + 1) + node_line(p) + "\n"@ + rest2);
    lemma_tab_lines_append(head, rest, true);
    match p {
        PlanView::Project { input, .. } => law_plan_text_indent(*input, indent + 1),
        PlanView::Filter { input, .. } => law_plan_text_indent(*input, indent + 1),
        PlanView::Aggregate { input, .. } => law_plan_text_indent(*input, indent + 1),
        PlanView::Join { left, right, .. } => {
            law_plan_text_indent(*left, indent + 1);
            law_plan_text_indent(*right, indent + 1);
            lemma_plan_text_ends_line(*left, indent + 1);
            lemma_tab_lines_append(plan_text(*left, indent + 1), plan_text(*right, indent + 1), true);
        },
        PlanView::Scan { .. } => {
            assert(tab_lines(rest) =~= Seq::<char>::empty());
        },
    }
    assert(tab_lines(rest) == rest2);
    assert(seq!['\t'] + w + "\n"@ + rest2 =~= repeat("\t"@, indent + 1) + node_line(p) + "\n"@ + rest2);
}

/// The text of a projection is its line followed by the text of its input
/// with a tab before each line.
pub proof fn law_project_text(input: PlanView, exprs: Seq<ExprView>)
    requires
        single_line_nodes(input),
    ensures
        plan_text(PlanView::Project { input: Box::new(input), exprs }, 0) == "Projection: "@ + exprs_text(exprs)
            + "\n"@ + tab_lines(plan_text(input, 0)),
{
    law_plan_text_indent(input, 0);
    assert(repeat("\t"@, 0) =~= Seq::<char>::empty());
    assert(Seq::<char>::empty() + node_line(PlanView::Project { input: Box::new(input), exprs }) =~= node_line(
        PlanView::Project { input: Box::new(input), exprs },
    ));
}

/// The text of a selection is its line followed by the text of its input
/// with a tab before each line.
pub proof fn law_filter_text(input: PlanView, predicate: ExprView)
    requires
        single_line_nodes(input),
    ensures
        plan_text(PlanView::Filter { input: Box::new(input), predicate }, 0) == "Selection: "@ + expr_text(predicate)
            + "\n"@ + tab_lines(plan_text(input, 0)),
{
    law_plan_text_indent(input, 0);
    assert(repeat("\t"@, 0) =~= Seq::<char>::empty());
    assert(Seq::<char>::empty() + node_line(PlanView::Filter { input: Box::new(input), predicate }) =~= node_line(
        PlanView::Filter { input: Box::new(input), predicate },
    ));
}

/// The text of an aggregation is its line, listing the group expressions
/// and then the aggregates, followed by the text of its input with a tab
/// before each line.
pub proof fn law_aggregate_text(input: PlanView, group: Seq<ExprView>, aggr: Seq<ExprView>)
    requires
        single_line_nodes(input),
    ensures
        plan_text(PlanView::Aggregate { input: Box::new(input), group, aggr }, 0) == "Aggregate: groupExpr=["@
            + exprs_text(group) + "], aggregateExpr=["@ + exprs_text(aggr) + "]"@ + "\n"@ + tab_lines(
            plan_text(input, 0),
        ),
{
    law_plan_text_indent(input, 0);
    let p = PlanView::Aggregate { input: Box::new(input), group, aggr };
    assert(repeat("\t"@, 0) =~= Seq::<char>::empty());
    assert(Seq::<char>::empty() + node_line(p) =~= node_line(p));
}

/// The text of a join is its line followed by the texts of its left and
/// then its right input, each with a tab before each line.
pub proof fn law_join_text(
    join_type: JoinType,
    left: PlanView,
    right: PlanView,
    on: Seq<(Seq<char>, Seq<char>)>,
)
    requires
        single_line_nodes(left),
        single_line_nodes(right),
    ensures
        plan_text(PlanView::Join { join_type, left: Box::new(left), right: Box::new(right), on }, 0) == "Join: type="@
            + join_type_name(join_type) + ", on="@ + join_keys_text(on) + "\n"@ + tab_lines(plan_text(left, 0))
            + tab_lines(plan_text(right, 0)),
{
    law_plan_text_indent(left, 0);
    law_plan_text_indent(right, 0);
    let p = PlanView::Join { join_type, left: Box::new(left), right: Box::new(right), on };
    assert(repeat("\t"@, 0) =~= Seq::<char>::empty());
    assert(Seq::<char>::empty() + node_line(p) =~= node_line(p));
    let h = node_line(p) + "\n"@;
    assert(h + (tab_lines(plan_text(left, 0)) + tab_lines(plan_text(right, 0))) =~= h + tab_lines(
        plan_text(left, 0),
    ) + tab_lines(plan_text(right, 0)));
}

/// When a list of expressions types, it yields one field per expression,
/// each the field that expression yields; and it types exactly when each
/// of its expressions does.
pub proof fn lemma_exprs_fields(exprs: Seq<ExprView>, input: Seq<FieldView>)
    ensures
        exprs_fields(exprs, input) matches Ok(fs) ==> fs.len() == exprs.len() && forall|i: int|
            0 <= i < exprs.len() ==> expr_field(#[trigger] exprs[i], input) == Ok::<FieldView, PlanErrorView>(fs[i]),
        exprs_fields(exprs, input) is Ok <==> forall|i: int| 0 <= i < exprs.len() ==> (#[trigger] expr_field(exprs[i], input)) is Ok,
    decreases exprs.len(),
{
    if exprs.len() > 0 {
        let init = exprs.drop_last();
        lemma_exprs_fields(init, input);
        assert forall|i: int| 0 <= i < init.len() implies #[trigger] init[i] == exprs[i] by {}
        if exprs_fields(exprs, input) is Ok {
            let fs = exprs_fields(exprs, input)->Ok_0;
            let prev = exprs_fields(init, input)->Ok_0;
            assert forall|i: int| 0 <= i < exprs.len() implies expr_field(#[trigger] exprs[i], input) == Ok::<FieldView, PlanErrorView>(fs[i]) by {
                if i < exprs.len() - 1 {
                    assert(init[i] == exprs[i]);
                    assert(fs[i] == prev[i]);
                }
            }
        }
        if forall|i: int| 0 <= i < exprs.len() ==> (#[trigger] expr_field(exprs[i], input)) is Ok {
            assert forall|i: int| 0 <= i < init.len() implies (#[trigger] expr_field(init[i], input)) is Ok by {
                assert(init[i] == exprs[i]);
            }
            assert(expr_field(exprs[exprs.len() - 1], input) is Ok);
        }
    }
}

/// The output schema of an aggregation is its group columns followed by
/// its aggregate columns: one field per group expression, then one per
/// aggregate, each the field that expression yields over the aggregation's
/// input.
pub proof fn law_aggregate_schema_layout(input: PlanView, group: Seq<ExprView>, aggr: Seq<ExprView>)
    ensures
        plan_schema(PlanView::Aggregate { input: Box::new(input), group, aggr }) matches Ok(fs) ==> {
            &&& plan_schema(input) matches Ok(s)
            &&& fs.len() == group.len() + aggr.len()
            &&& forall|i: int| 0 <= i < group.len() ==> expr_field(#[trigger] group[i], s) == Ok::<FieldView, PlanErrorView>(fs[i])
            &&& forall|j: int| 0 <= j < aggr.len() ==> expr_field(#[trigger] aggr[j], s) == Ok::<FieldView, PlanErrorView>(fs[group.len() + j])
        },
{
    if let Ok(s) = plan_schema(input) {
        lemma_exprs_fields(group, s);
        lemma_exprs_fields(aggr, s);
    }
}

/// The output schema of a projection has one field per expression, each the
/// field that expression yields over the projection's input.
pub proof fn law_projection_schema(input: PlanView, exprs: Seq<ExprView>)
    ensures
        plan_schema(PlanView::Project { input: Box::new(input), exprs }) matches Ok(fs) ==> {
            &&& plan_schema(input) matches Ok(s)
            &&& fs.len() == exprs.len()
            &&& forall|i: int| 0 <= i < exprs.len() ==> expr_field(#[trigger] exprs[i], s) == Ok::<FieldView, PlanErrorView>(fs[i])
        },
{
    if let Ok(s) = plan_schema(input) {
        lemma_exprs_fields(exprs, s);
    }
}

/// A selection keeps the schema of its input.
pub proof fn law_filter_keeps_schema(input: PlanView, predicate: ExprView)
    ensures
        plan_schema(PlanView::Filter { input: Box::new(input), predicate }) == plan_schema(input),
        schema_unsupported(PlanView::Filter { input: Box::new(input), predicate }) == schema_unsupported(input),
{
}

/// A join types both its inputs, left first: it fails with the left
/// input's error when the left input does not type, and otherwise with the
/// right input's error when the right input does not; a left join of two
/// inputs that type yields the fields of its left input.
pub proof fn law_join_schema(
    join_type: JoinType,
    left: PlanView,
    right: PlanView,
    on: Seq<(Seq<char>, Seq<char>)>,
)
    ensures
        plan_schema(left) is Err ==> plan_schema(
            PlanView::Join { join_type, left: Box::new(left), right: Box::new(right), on },
        ) == plan_schema(left),
        plan_schema(left) is Ok && plan_schema(right) is Err ==> plan_schema(
            PlanView::Join { join_type, left: Box::new(left), right: Box::new(right), on },
        ) == plan_schema(right),
        join_type == JoinType::Left && plan_schema(left) is Ok && plan_schema(right) is Ok ==> plan_schema(
            PlanView::Join { join_type, left: Box::new(left), right: Box::new(right), on },
        ) == plan_schema(left),
{
}

/// Shares a plan: another pointer to the same node (`Rc::clone`).
#[verifier::external_body]
fn share_plan(plan: &Rc<LogicalPlanNode>) -> (r: Rc<LogicalPlanNode>)
    ensures
        r == *plan,
{
    Rc::clone(plan)
}

impl Clone for DataFrame {
    /// A cheap clone: the plan is shared.
    fn clone(&self) -> (r: Self)
        ensures
            r@ == self@,
    {
        DataFrame { plan: share_plan(&self.plan) }
    }
}

/// The fields of `exprs` over `input`, or the first error among them.
pub fn exprs_to_fields(exprs: &Vec<Expression>, input: &Schema) -> (r: Result<Vec<Field>, PlanError>)
    ensures
        match r {
            Ok(fs) => exprs_fields(exprs_view(exprs@), input@) == Ok::<Seq<FieldView>, PlanErrorView>(fields_view(fs@)),
            Err(e) => exprs_fields(exprs_view(exprs@), input@) == Err::<Seq<FieldView>, PlanErrorView>(e@),
        },
{
    let mut fields: Vec<Field> = Vec::new();
    let mut i: usize = 0;
    proof {
        assert(exprs_view(exprs@).take(0) =~= Seq::<ExprView>::empty());
        assert(fields_view(fields@) =~= Seq::<FieldView>::empty());
    }
    while i < exprs.len()
        invariant
            i <= exprs@.len(),
            exprs_fields(exprs_view(exprs@).take(i as int), input@) == Ok::<Seq<FieldView>, PlanErrorView>(fields_view(fields@)),
        decreases exprs@.len() - i,
    {
        let ghost prefix = exprs_view(exprs@).take(i + 1);
        proof {
            assert(prefix.drop_last() =~= exprs_view(exprs@).take(i as int));
            assert(prefix.last() == exprs@[i as int]@);
        }
        match exprs[i].to_field(input) {
            Ok(f) => {
                let ghost before = fields@;
                fields.push(f);
                proof {
                    assert(fields_view(fields@) =~= fields_view(before).push(f@));
                }
            },
            Err(e) => {
                proof {
                    lemma_exprs_fields_err_stays(exprs_view(exprs@), input@, i + 1);
                }
                return Err(e);
            },
        }
        i = i + 1;
    }
    proof {
        assert(exprs_view(exprs@).take(exprs@.len() as int) =~= exprs_view(exprs@));
    }
    Ok(fields)
}

/// Once a prefix of the expressions fails to type, the whole list fails
/// with the same error.
pub proof fn lemma_exprs_fields_err_stays(exprs: Seq<ExprView>, input: Seq<FieldView>, n: int)
    requires
        0 <= n <= exprs.len(),
        exprs_fields(exprs.take(n), input) is Err,
    ensures
        exprs_fields(exprs, input) == exprs_fields(exprs.take(n), input),
    decreases exprs.len() - n,
{
    if n < exprs.len() {
        assert(exprs.take(n + 1).drop_last() =~= exprs.take(n));
        lemma_exprs_fields_err_stays(exprs, input, n + 1);
    } else {
        assert(exprs.take(n) =~= exprs);
    }
}

fn copy_fields(fields: &Vec<Field>) -> (r: Vec<Field>)
    ensures
        fields_view(r@) == fields_view(fields@),
{
    let mut out: Vec<Field> = Vec::new();
    let mut i: usize = 0;
    while i < fields.len()
        invariant
            i <= fields@.len(),
            fields_view(out@) =~= fields_view(fields@).take(i as int),
        decreases fields@.len() - i,
    {
        let ghost before = out@;
        out.push(fields[i].clone());
        proof {
            assert(fields_view(out@) =~= fields_view(before).push(fields@[i as int]@));
        }
        i = i + 1;
    }
    proof {
        assert(fields_view(fields@).take(fields@.len() as int) =~= fields_view(fields@));
    }
    out
}

impl LogicalPlanNode {
    /// Whether the output schema of this node can be computed: it cannot
    /// when that reaches an inner or right join (see
    /// [`schema_unsupported`]).
    pub fn schema_supported(&self) -> (r: bool)
        ensures
            r == !schema_unsupported(self@),
        decreases self,
    {
        match self {
            LogicalPlanNode::ProjectNode(n) => n.input.schema_supported(),
            LogicalPlanNode::FilterNode(n) => n.input.schema_supported(),
            LogicalPlanNode::AggregateNode(n) => n.input.schema_supported(),
            LogicalPlanNode::JoinNode(n) => {
                if !n.left.schema_supported() {
                    return false;
                }
                if n.left.schema().is_err() {
                    return true;
                }
                if !n.right.schema_supported() {
                    return false;
                }
                if n.right.schema().is_err() {
                    return true;
                }
                n.join_type == JoinType::Left
            },
            LogicalPlanNode::ScanNode(_) => true,
        }
    }

    /// The output schema of this node (see [`plan_schema`]): the fields that
    /// the node's computation produces. Inner and right joins have none
    /// implemented and are not accepted.
    pub fn schema(&self) -> (r: Result<Schema, PlanError>)
        requires
            !schema_unsupported(self@),
        ensures
            schema_result_view(r) == plan_schema(self@),
        decreases self,
    {
        match self {
            LogicalPlanNode::AggregateNode(n) => {
                let input = match n.input.schema() {
                    Ok(s) => s,
                    Err(e) => {
                        return Err(e);
                    },
                };
                let mut fields = match exprs_to_fields(&n.group_exprs, &input) {
                    Ok(fs) => fs,
                    Err(e) => {
                        return Err(e);
                    },
                };
                let mut aggrs = match exprs_to_fields(&n.aggr_exprs, &input) {
                    Ok(fs) => fs,
                    Err(e) => {
                        return Err(e);
                    },
                };
                let ghost g = fields@;
                let ghost a = aggrs@;
                fields.append(&mut aggrs);
                proof {
                    assert(fields_view(fields@) =~= fields_view(g) + fields_view(a));
                }
                Ok(Schema { fields })
            },
            LogicalPlanNode::ProjectNode(n) => {
                let input = match n.input.schema() {
                    Ok(s) => s,
                    Err(e) => {
                        return Err(e);
                    },
                };
                match exprs_to_fields(&n.exprs, &input) {
                    Ok(fields) => Ok(Schema { fields }),
                    Err(e) => Err(e),
                }
            },
            LogicalPlanNode::FilterNode(n) => n.input.schema(),
            LogicalPlanNode::JoinNode(n) => {
                let left = match n.left.schema() {
                    Ok(s) => s,
                    Err(e) => {
                        return Err(e);
                    },
                };
                match n.right.schema() {
                    Ok(_) => {},
                    Err(e) => {
                        return Err(e);
                    },
                }
                Ok(left)
            },
            LogicalPlanNode::ScanNode(s) => match &s.datasource {
                ScanSource::Csv(c) => Ok(Schema { fields: copy_fields(&c.schema().fields) }),
            },
        }
    }
}


impl DataFrame {
    /// Whether the output schema of the plan can be computed (see
    /// [`schema_unsupported`]).
    pub fn schema_supported(&self) -> (r: bool)
        ensures
            r == !schema_unsupported(self@),
    {
        self.plan.schema_supported()
    }

    /// The output schema of the plan (see [`plan_schema`]). Inner and right
    /// joins have none implemented and are not accepted.
    pub fn schema(&self) -> (r: Result<Schema, PlanError>)
        requires
            !schema_unsupported(self@),
        ensures
            schema_result_view(r) == plan_schema(self@),
    {
        self.plan.schema()
    }

    /// A data frame whose plan is `plan`.
    pub fn with(plan: LogicalPlanNode) -> (r: Self)
        ensures
            r@ == plan@,
    {
        DataFrame { plan: Rc::new(plan) }
    }

    /// The root node of the plan.
    pub fn logical_plan(self) -> (r: Rc<LogicalPlanNode>)
        ensures
            r@ == self@,
    {
        self.plan
    }

    /// A projection of this plan onto `expressions`: the current plan becomes
    /// the input of the new root.
    pub fn project(self, expressions: Vec<Expression>) -> (r: DataFrame)
        ensures
            r@ == (PlanView::Project { input: Box::new(self@), exprs: exprs_view(expressions@) }),
    {
        DataFrame {
            plan: Rc::new(LogicalPlanNode::ProjectNode(Box::new(Projection { input: self.plan, exprs: expressions }))),
        }
    }

    /// A selection of the rows of this plan for which `expression` holds.
    pub fn filter(self, expression: Expression) -> (r: DataFrame)
        ensures
            r@ == (PlanView::Filter { input: Box::new(self@), predicate: expression@ }),
    {
        DataFrame {
            plan: Rc::new(LogicalPlanNode::FilterNode(Box::new(Filter { input: self.plan, exprs: expression }))),
        }
    }

    /// A join of this plan, on the left, with `right`.
    pub fn join(self, right: DataFrame, join_type: JoinType, on: Vec<JoinKey>) -> (r: DataFrame)
        ensures
            r@ == (PlanView::Join {
                join_type,
                left: Box::new(self@),
                right: Box::new(right@),
                on: keys_view(on@),
            }),
    {
        DataFrame {
            plan: Rc::new(
                LogicalPlanNode::JoinNode(
                    Box::new(Join { left: self.plan, right: right.logical_plan(), join_type, on }),
                ),
            ),
        }
    }

    /// An aggregation of this plan: grouped by `group_exprs`, computing
    /// `aggr_exprs` per group.
    pub fn aggregate(self, group_exprs: Vec<Expression>, aggr_exprs: Vec<Expression>) -> (r: DataFrame)
        ensures
            r@ == (PlanView::Aggregate {
                input: Box::new(self@),
                group: exprs_view(group_exprs@),
                aggr: exprs_view(aggr_exprs@),
            }),
    {
        DataFrame {
            plan: Rc::new(
                LogicalPlanNode::AggregateNode(
                    Box::new(Aggregation { input: self.plan, group_exprs, aggr_exprs }),
                ),
            ),
        }
    }

    /// The text of the plan (see [`plan_text`]): one line per node, each
    /// indented by one tab per level below the root.
    pub fn to_string(&self) -> (r: String)
        ensures
            r@ == plan_text(self@, 0),
    {
        format_plan(&self.plan, 0)
    }
}

impl JoinType {
    /// The name of the join type.
    pub fn to_string(&self) -> (r: String)
        ensures
            r@ == join_type_name(*self),
    {
        match self {
            JoinType::Inner => text_of("Inner"),
            JoinType::Left => text_of("Left"),
            JoinType::Right => text_of("Right"),
        }
    }
}

/// The texts of `exprs`, joined by `, `.
pub fn exprs_to_text(exprs: &Vec<Expression>) -> (r: String)
    ensures
        r@ == exprs_text(exprs_view(exprs@)),
{
    let ghost texts = exprs_view(exprs@).map_values(|e: ExprView| expr_text(e));
    let mut out = String::new();
    let mut i: usize = 0;
    while i < exprs.len()
        invariant
            i <= exprs@.len(),
            texts == exprs_view(exprs@).map_values(|e: ExprView| expr_text(e)),
            out@ == join(texts.take(i as int), ", "@),
        decreases exprs@.len() - i,
    {
        let t = exprs[i].to_string();
        proof {
            lemma_join_push(texts.take(i as int), ", "@, t@);
            assert(texts.take(i as int).push(t@) =~= texts.take(i + 1));
        }
        push_joined(&mut out, t.as_str(), ", ", i == 0);
        i = i + 1;
    }
    proof {
        assert(texts.take(exprs@.len() as int) =~= texts);
    }
    out
}

fn join_keys_to_text(on: &Vec<JoinKey>) -> (r: String)
    ensures
        r@ == join_keys_text(keys_view(on@)),
{
    let ghost texts = keys_view(on@).map_values(|k: (Seq<char>, Seq<char>)| join_key_text(k));
    let mut body = String::new();
    let mut i: usize = 0;
    while i < on.len()
        invariant
            i <= on@.len(),
            texts == keys_view(on@).map_values(|k: (Seq<char>, Seq<char>)| join_key_text(k)),
            body@ == join(texts.take(i as int), ", "@),
        decreases on@.len() - i,
    {
        let mut t = text_of("JoinKey { left: ");
        let l = debug_quoted(on[i].left.as_str());
        t.append(l.as_str());
        t.append(", right: ");
        let r = debug_quoted(on[i].right.as_str());
        t.append(r.as_str());
        t.append(" }");
        proof {
            assert(t@ == texts[i as int]);
            lemma_join_push(texts.take(i as int), ", "@, t@);
            assert(texts.take(i as int).push(t@) =~= texts.take(i + 1));
        }
        push_joined(&mut body, t.as_str(), ", ", i == 0);
        i = i + 1;
    }
    proof {
        assert(texts.take(on@.len() as int) =~= texts);
    }
    let mut r = text_of("[");
    r.append(body.as_str());
    r.append("]");
    r
}

impl LogicalPlanNode {
    /// The line that describes this node (see [`node_line`]).
    pub fn to_string(&self) -> (r: String)
        ensures
            r@ == node_line(self@),
    {
        match self {
            LogicalPlanNode::ProjectNode(p) => {
                let mut r = text_of("Projection: ");
                let e = exprs_to_text(&p.exprs);
                r.append(e.as_str());
                r
            },
            LogicalPlanNode::FilterNode(f) => {
                let mut r = text_of("Selection: ");
                let e = f.exprs.to_string();
                r.append(e.as_str());
                r
            },
            LogicalPlanNode::AggregateNode(a) => {
                let mut r = text_of("Aggregate: groupExpr=[");
                let g = exprs_to_text(&a.group_exprs);
                r.append(g.as_str());
                r.append("], aggregateExpr=[");
                let e = exprs_to_text(&a.aggr_exprs);
                r.append(e.as_str());
                r.append("]");
                r
            },
            LogicalPlanNode::JoinNode(j) => {
                let mut r = text_of("Join: type=");
                let t = j.join_type.to_string();
                r.append(t.as_str());
                r.append(", on=");
                let k = join_keys_to_text(&j.on);
                r.append(k.as_str());
                r
            },
            LogicalPlanNode::ScanNode(s) => match &s.datasource {
                ScanSource::Csv(csv) => {
                    let mut r = text_of("Scan: ");
                    r.append(csv.path().as_str());
                    r.append("; projection=None");
                    r
                },
            },
        }
    }
}

/// The text of `plan` with its root indented by `pad`, which is `indent`
/// tabs.
fn format_plan_padded(plan: &LogicalPlanNode, pad: &String, Ghost(indent): Ghost<nat>) -> (r: String)
    requires
        pad@ == repeat("\t"@, indent),
    ensures
        r@ == plan_text(plan@, indent),
    decreases plan,
{
    let mut out = pad.clone();
    let line = plan.to_string();
    out.append(line.as_str());
    out.append("\n");
    let mut child_pad = pad.clone();
    child_pad.append("\t");
    assert(child_pad@ == repeat("\t"@, indent + 1));
    match plan {
        LogicalPlanNode::ProjectNode(p) => {
            let rest = format_plan_padded(&p.input, &child_pad, Ghost(indent + 1));
            out.append(rest.as_str());
        },
        LogicalPlanNode::FilterNode(p) => {
            let rest = format_plan_padded(&p.input, &child_pad, Ghost(indent + 1));
            out.append(rest.as_str());
        },
        LogicalPlanNode::AggregateNode(p) => {
            let rest = format_plan_padded(&p.input, &child_pad, Ghost(indent + 1));
            out.append(rest.as_str());
        },
        LogicalPlanNode::JoinNode(j) => {
            let l = format_plan_padded(&j.left, &child_pad, Ghost(indent + 1));
            out.append(l.as_str());
            let r = format_plan_padded(&j.right, &child_pad, Ghost(indent + 1));
            out.append(r.as_str());
        },
        LogicalPlanNode::ScanNode(_) => {},
    }
    out
}

/// The text of `plan` with its root indented by `indent` tabs (see
/// [`plan_text`]).
pub fn format_plan(plan: &LogicalPlanNode, indent: usize) -> (r: String)
    ensures
        r@ == plan_text(plan@, indent as nat),
{
    let pad = repeat_text("\t", indent);
    format_plan_padded(plan, &pad, Ghost(indent as nat))
}

} // verus!
