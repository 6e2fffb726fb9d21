use std::rc::Rc;

use query_planner::catalog::TableCatalog;
use query_planner::dataframe::{DataFrame, LogicalPlanNode, Scan, ScanSource};
use query_planner::datasource::Csv;
use query_planner::datatypes::DataType;
use query_planner::error::PlanError;
use query_planner::expressions::Expression;
use query_planner::planner::{statement_supported, Planner, QueryClass, QueryIR};
use query_planner::schema::{Field, Schema};
use query_planner::sql::{
    SqlBinaryOperator, SqlExpr, SqlFunction, SqlFunctionArg, SqlFunctionArgExpr, SqlFunctionArguments,
    SqlGroupBy, SqlNamePart, SqlQuery, SqlSelect, SqlSelectItem, SqlSetExpr, SqlStatement,
    SqlTableFactor, SqlTableWithJoins, SqlValue,
};

fn ident(name: &str) -> SqlExpr {
    SqlExpr::Identifier(name.to_string())
}

/// A numeric literal, with the text its `f64` value prints as.
fn number(printed: &str) -> SqlExpr {
    SqlExpr::Value(SqlValue::Number(Some(printed.to_string())))
}

fn string(s: &str) -> SqlExpr {
    SqlExpr::Value(SqlValue::SingleQuotedString(s.to_string()))
}

fn binop(left: SqlExpr, op: SqlBinaryOperator, right: SqlExpr) -> SqlExpr {
    SqlExpr::BinaryOp { left: Box::new(left), op, right: Box::new(right) }
}

fn nested(e: SqlExpr) -> SqlExpr {
    SqlExpr::Nested(Box::new(e))
}

fn call(name: &str, arg: SqlFunctionArgExpr) -> SqlExpr {
    SqlExpr::Function(SqlFunction {
        name: vec![SqlNamePart::Identifier(name.to_string())],
        args: SqlFunctionArguments::List(vec![SqlFunctionArg::Unnamed(arg)]),
    })
}

fn call_on(name: &str, column: &str) -> SqlExpr {
    call(name, SqlFunctionArgExpr::Identifier(column.to_string()))
}

fn select(
    projection: Vec<SqlSelectItem>,
    table: &str,
    selection: Option<SqlExpr>,
    group_by: Vec<SqlExpr>,
) -> SqlStatement {
    SqlStatement::Query(Box::new(SqlQuery {
        body: Box::new(SqlSetExpr::Select(Box::new(SqlSelect {
            projection,
            from: vec![SqlTableWithJoins {
                relation: SqlTableFactor::Table { name: vec![SqlNamePart::Identifier(table.to_string())] },
            }],
            selection,
            group_by: SqlGroupBy::Expressions(group_by),
            having: None,
        }))),
    }))
}

fn item(e: SqlExpr) -> SqlSelectItem {
    SqlSelectItem::UnnamedExpr(e)
}

fn aliased(e: SqlExpr, alias: &str) -> SqlSelectItem {
    SqlSelectItem::ExprWithAlias { expr: e, alias: alias.to_string() }
}

fn employee_table(fields: Vec<(&str, DataType)>, projections: &[&str]) -> TableCatalog {
    let schema = Schema {
        fields: fields.iter().map(|(n, t)| Field { name: n.to_string(), datatype: t.clone() }).collect(),
    };
    let headers: Vec<String> = fields.iter().map(|(n, _)| n.to_string()).collect();
    let path = String::from("employees.csv");
    let scan = Scan {
        datasource: ScanSource::Csv(Csv::new(&path, projections, 3, Rc::new(schema), &headers)),
    };
    let mut tables = TableCatalog::new();
    tables.insert("employee".to_string(), DataFrame::with(LogicalPlanNode::ScanNode(Box::new(scan))));
    tables
}

fn group_keys() -> Vec<SqlExpr> {
    vec![
        ident("state"),
        ident("first_name"),
        binop(ident("salary"), SqlBinaryOperator::Minus, number("100")),
        binop(ident("salary"), SqlBinaryOperator::Multiply, number("1.1")),
        binop(
            nested(binop(ident("salary"), SqlBinaryOperator::Plus, number("500"))),
            SqlBinaryOperator::Divide,
            number("12"),
        ),
    ]
}

#[test]
fn test_dataframe_from_sql() -> Result<(), PlanError> {
    // SELECT state, first_name, salary - 100 AS adjusted, salary * 1.1 AS boosted,
    //   (salary + 500) / 12 AS monthly, SUM(salary) AS total_salary, MIN(salary) AS min_salary,
    //   MAX(salary) AS max_salary, AVG(salary) AS avg_salary, COUNT(*) AS row_count,
    //   COUNT(first_name) AS name_count
    // FROM employee
    // WHERE (state = 'CO' OR (state != 'TX' AND salary > 1000.0)) AND salary >= 500
    //   AND salary < 200000 AND salary <= 150000 AND id % 2 = 0
    // GROUP BY state, first_name, salary - 100, salary * 1.1, (salary + 500) / 12;
    let keys = group_keys();
    let mut projection = vec![item(ident("state")), item(ident("first_name"))];
    let mut rest = group_keys().into_iter().skip(2);
    projection.push(aliased(rest.next().unwrap(), "adjusted"));
    projection.push(aliased(rest.next().unwrap(), "boosted"));
    projection.push(aliased(rest.next().unwrap(), "monthly"));
    projection.push(aliased(call_on("SUM", "salary"), "total_salary"));
    projection.push(aliased(call_on("MIN", "salary"), "min_salary"));
    projection.push(aliased(call_on("MAX", "salary"), "max_salary"));
    projection.push(aliased(call_on("AVG", "salary"), "avg_salary"));
    projection.push(aliased(call("COUNT", SqlFunctionArgExpr::Wildcard), "row_count"));
    projection.push(aliased(call_on("COUNT", "first_name"), "name_count"));
    let disjunction = nested(binop(
        binop(ident("state"), SqlBinaryOperator::Eq, string("CO")),
        SqlBinaryOperator::Or,
        nested(binop(
            binop(ident("state"), SqlBinaryOperator::NotEq, string("TX")),
            SqlBinaryOperator::And,
            binop(ident("salary"), SqlBinaryOperator::Gt, number("1000")),
        )),
    ));
    let mut wherec = binop(disjunction, SqlBinaryOperator::And, binop(ident("salary"), SqlBinaryOperator::GtEq, number("500")));
    wherec = binop(wherec, SqlBinaryOperator::And, binop(ident("salary"), SqlBinaryOperator::Lt, number("200000")));
    wherec = binop(wherec, SqlBinaryOperator::And, binop(ident("salary"), SqlBinaryOperator::LtEq, number("150000")));
    wherec = binop(
        wherec,
        SqlBinaryOperator::And,
        binop(binop(ident("id"), SqlBinaryOperator::Modulo, number("2")), SqlBinaryOperator::Eq, number("0")),
    );
    let ast = select(projection, "employee", Some(wherec), keys);

    let tables = employee_table(
        vec![
            ("id", DataType::Int64),
            ("state", DataType::Utf8),
            ("first_name", DataType::Utf8),
            ("salary", DataType::Float64),
        ],
        &["id", "state", "first_name", "salary"],
    );
    let planner = Planner::new();

    let fdf = planner.dataframe_from_sql(&ast, &tables)?;

    // Project(outputRefs) → Aggregate(group, aggs) → Filter(where) → Project(interim) → Scan
    let expected = "\
Projection: #0, #1, #2, #3, #4, #5, #6, #7, #8, #9, #10
\tAggregate: groupExpr=[#state, #first_name, #salary - 100, #salary * 1.1, #salary + 500 / 12], aggregateExpr=[SUM(#salary), MIN(#salary), MAX(#salary), AVG(#salary), COUNT(#*), COUNT(#first_name)]
\t\tSelection: #state = 'CO' OR #state != 'TX' AND #salary > 1000 AND #salary >= 500 AND #salary < 200000 AND #salary <= 150000 AND #id % 2 = 0
\t\t\tProjection: #state, #first_name, #salary - 100, #salary * 1.1, #salary + 500 / 12, #salary, #*, #id
\t\t\t\tScan: employees.csv; projection=None
";
    assert_eq!(expected, fdf.to_string());

    Ok(())
}

/// Aggregate output schema must be [group keys..., aggs...].
#[test]
fn aggregate_schema_is_groupby_then_aggs() -> Result<(), PlanError> {
    let tables = employee_table(vec![("state", DataType::Utf8), ("salary", DataType::Float64)], &["state", "salary"]);

    // SELECT state, SUM(salary) FROM employee WHERE salary > 0 GROUP BY state
    let ast = select(
        vec![item(ident("state")), item(call_on("SUM", "salary"))],
        "employee",
        Some(binop(ident("salary"), SqlBinaryOperator::Gt, number("0"))),
        vec![ident("state")],
    );
    let df = Planner::new().dataframe_from_sql(&ast, &tables)?;

    let out = df.schema()?;
    assert_eq!(2, out.fields.len());
    assert_eq!("state", out.fields[0].name);
    assert_eq!("SUM", out.fields[1].name);
    Ok(())
}

#[test]
fn aggregate_select_expr_must_be_in_groupby() -> Result<(), PlanError> {
    let tables = employee_table(
        vec![("state", DataType::Utf8), ("first_name", DataType::Utf8), ("salary", DataType::Float64)],
        &["state", "first_name", "salary"],
    );

    // first_name is in SELECT but not GROUP BY
    // SELECT state, first_name, SUM(salary) FROM employee GROUP BY state
    let ast = select(
        vec![item(ident("state")), item(ident("first_name")), item(call_on("SUM", "salary"))],
        "employee",
        None,
        vec![ident("state")],
    );
    let err = Planner::new()
        .dataframe_from_sql(&ast, &tables)
        .err()
        .expect("non-groupby SELECT expr must be rejected");
    assert!(
        err.to_string().contains("select expression must be present in groupby"),
        "unexpected error: {}",
        err.to_string()
    );
    Ok(())
}

fn four_columns() -> TableCatalog {
    employee_table(
        vec![
            ("id", DataType::Int64),
            ("state", DataType::Utf8),
            ("first_name", DataType::Utf8),
            ("salary", DataType::Float64),
        ],
        &["id", "state", "first_name", "salary"],
    )
}

#[test]
fn relational_query_is_cut_down_to_select_list_length() {
    // SELECT state FROM employee WHERE salary > 0
    let ast = select(
        vec![item(ident("state"))],
        "employee",
        Some(binop(ident("salary"), SqlBinaryOperator::Gt, number("0"))),
        vec![],
    );
    let df = Planner::new().dataframe_from_sql(&ast, &four_columns()).unwrap();
    assert_eq!(
        "Projection: #id\n\tSelection: #salary > 0\n\t\tScan: employees.csv; projection=None\n",
        df.to_string()
    );
    assert_eq!(1, df.schema().unwrap().fields.len());
}

#[test]
fn relational_query_with_full_width_keeps_base_plan() {
    // SELECT id, state, first_name, salary FROM employee
    let ast = select(
        vec![item(ident("id")), item(ident("state")), item(ident("first_name")), item(ident("salary"))],
        "employee",
        None,
        vec![],
    );
    let df = Planner::new().dataframe_from_sql(&ast, &four_columns()).unwrap();
    assert_eq!("Scan: employees.csv; projection=None\n", df.to_string());
}

#[test]
fn missing_table_errors() {
    let relational = select(vec![item(ident("state"))], "nobody", None, vec![]);
    let err = Planner::new().dataframe_from_sql(&relational, &four_columns()).err().unwrap();
    assert_eq!("could not create Dataframe for relational class query", err.to_string());
    let aggregate = select(vec![item(call_on("SUM", "salary"))], "nobody", None, vec![]);
    let err = Planner::new().dataframe_from_sql(&aggregate, &four_columns()).err().unwrap();
    assert_eq!("could not create Dataframe for aggregate class query", err.to_string());
}

#[test]
fn relational_predicate_is_not_typed() {
    let ast = select(vec![item(ident("state"))], "employee", Some(ident("nothing")), vec![]);
    let df = Planner::new().dataframe_from_sql(&ast, &four_columns()).unwrap();
    assert_eq!(
        "Projection: #id\n\tSelection: #nothing\n\t\tScan: employees.csv; projection=None\n",
        df.to_string()
    );
}

#[test]
fn relational_query_without_schema_errors() {
    let schema = Schema { fields: vec![Field { name: "a".to_string(), datatype: DataType::Int32 }] };
    let csv = Csv::new(&"t.csv".to_string(), &["a"], 3, Rc::new(schema), &vec!["a".to_string()]);
    let leaf = DataFrame::with(LogicalPlanNode::ScanNode(Box::new(Scan { datasource: ScanSource::Csv(csv) })))
        .project(vec![ident("nothing").convert().unwrap()]);
    let mut tables = TableCatalog::new();
    tables.insert("t".to_string(), leaf);
    let ast = select(vec![item(ident("a"))], "t", None, vec![]);
    let err = Planner::new().dataframe_from_sql(&ast, &tables).err().unwrap();
    assert_eq!("could not create Dataframe for relational class query", err.to_string());
}

#[test]
fn statement_without_from_errors() {
    let planner = Planner::new();
    let err = planner.dataframe_from_sql(&SqlStatement::Other, &four_columns()).err().unwrap();
    assert_eq!("query should have a FROM clause", err.to_string());
    let no_from = SqlStatement::Query(Box::new(SqlQuery {
        body: Box::new(SqlSetExpr::Select(Box::new(SqlSelect {
            projection: vec![item(ident("a"))],
            from: vec![],
            selection: None,
            group_by: SqlGroupBy::Expressions(vec![]),
            having: None,
        }))),
    }));
    assert!(planner.parse_table_name(&no_from).is_none());
    let err = planner.dataframe_from_sql(&no_from, &four_columns()).err().unwrap();
    assert_eq!("query should have a FROM clause", err.to_string());
}

#[test]
fn table_name_is_last_name_part() {
    let ast = SqlStatement::Query(Box::new(SqlQuery {
        body: Box::new(SqlSetExpr::Select(Box::new(SqlSelect {
            projection: vec![],
            from: vec![SqlTableWithJoins {
                relation: SqlTableFactor::Table {
                    name: vec![SqlNamePart::Identifier("hr".to_string()), SqlNamePart::Identifier("employee".to_string())],
                },
            }],
            selection: None,
            group_by: SqlGroupBy::Expressions(vec![]),
            having: None,
        }))),
    }));
    assert_eq!(Some("employee".to_string()), Planner::new().parse_table_name(&ast));
}

#[test]
fn query_ir_errors() {
    let planner = Planner::new();
    assert!(matches!(planner.query_ir(&SqlStatement::Other), Err(PlanError::NotASelect)));
    let values = SqlStatement::Query(Box::new(SqlQuery { body: Box::new(SqlSetExpr::Other) }));
    let err = planner.query_ir(&values).err().unwrap();
    assert_eq!("select statement has no body", err.to_string());
    let all = SqlStatement::Query(Box::new(SqlQuery {
        body: Box::new(SqlSetExpr::Select(Box::new(SqlSelect {
            projection: vec![item(ident("a"))],
            from: vec![],
            selection: None,
            group_by: SqlGroupBy::All,
            having: None,
        }))),
    }));
    let err = planner.query_ir(&all).err().unwrap();
    assert_eq!("GROUP BY ALL syntax not supported", err.to_string());
    let err = planner.query_ir(&SqlStatement::Other).err().unwrap();
    assert_eq!("only select statements supported", err.to_string());
}

#[test]
fn query_ir_converts_clauses() {
    let ast = select(
        vec![aliased(ident("a"), "x"), item(SqlExpr::Other), item(number("3"))],
        "t",
        Some(binop(ident("a"), SqlBinaryOperator::GtEq, string("z"))),
        vec![ident("a"), SqlExpr::Value(SqlValue::Number(None))],
    );
    let ir = Planner::new().query_ir(&ast).unwrap();
    let select: Vec<String> = ir.select.iter().map(|e| e.to_string()).collect();
    assert_eq!(vec!["#a", "3"], select);
    assert_eq!("#a >= 'z'", ir.wherec.unwrap().to_string());
    assert_eq!(1, ir.groupby.len());
    assert!(ir.having.is_none());
}

#[test]
fn group_by_without_aggregates_errors() {
    let ast = select(vec![item(ident("state"))], "employee", None, vec![ident("state")]);
    let err = Planner::new().dataframe_from_sql(&ast, &four_columns()).err().unwrap();
    assert_eq!("GROUP BY without aggregate expressions is not supported", err.to_string());
}

#[test]
fn analysis_gives_output_references() {
    let planner = Planner::new();
    let mut ir = QueryIR::new();
    for e in [
        call_on("MAX", "salary"),
        ident("state"),
        call_on("MIN", "salary"),
        call_on("MAX", "salary"),
    ] {
        ir.select.push(e.convert().unwrap());
    }
    ir.groupby.push(ident("city").convert().unwrap());
    ir.groupby.push(ident("state").convert().unwrap());
    let ar = planner.analyze(ir).unwrap();
    assert_eq!(QueryClass::Aggregate, ar.class);
    let refs: Vec<String> = ar.output_references.unwrap().iter().map(|e| e.to_string()).collect();
    assert_eq!(vec!["#2", "#1", "#3", "#2"], refs);
    let aggs: Vec<String> = ar.aggregates.iter().map(|e| e.to_string()).collect();
    assert_eq!(vec!["MAX(#salary)", "MIN(#salary)", "MAX(#salary)"], aggs);
    assert!(ar.interim_projections.is_none());
}

#[test]
fn relational_analysis() {
    let mut ir = QueryIR::new();
    ir.select.push(ident("a").convert().unwrap());
    let ar = Planner::new().analyze(ir).unwrap();
    assert_eq!(QueryClass::Relational, ar.class);
    assert!(ar.output_references.is_none());
    assert!(ar.aggregates.is_empty());
}

#[test]
fn conversion_of_expressions() {
    assert!(SqlExpr::Value(SqlValue::Number(None)).convert().is_none());
    assert!(SqlExpr::Other.convert().is_none());
    assert_eq!("'x'", string("x").convert().unwrap().to_string());
    assert_eq!("#a", nested(nested(ident("a"))).convert().unwrap().to_string());
    assert!(call_on("MEDIAN", "a").convert().is_none());
    assert!(binop(ident("a"), SqlBinaryOperator::Plus, SqlExpr::Other).convert().is_none());
    assert!(binop(SqlExpr::Other, SqlBinaryOperator::Other, ident("a")).convert().is_none());
    let no_args = SqlExpr::Function(SqlFunction {
        name: vec![SqlNamePart::Identifier("SUM".to_string())],
        args: SqlFunctionArguments::List(vec![]),
    });
    assert_eq!("SUM(#)", no_args.convert().unwrap().to_string());
    let last_wins = SqlExpr::Function(SqlFunction {
        name: vec![SqlNamePart::Identifier("COUNT".to_string())],
        args: SqlFunctionArguments::List(vec![
            SqlFunctionArg::Unnamed(SqlFunctionArgExpr::Identifier("a".to_string())),
            SqlFunctionArg::Named,
            SqlFunctionArg::Unnamed(SqlFunctionArgExpr::Identifier("b".to_string())),
        ]),
    });
    assert_eq!("COUNT(#b)", last_wins.convert().unwrap().to_string());
    let unnamed = SqlExpr::Function(SqlFunction { name: vec![], args: SqlFunctionArguments::Other });
    assert!(unnamed.convert().is_none());
    let e: Expression = binop(ident("a"), SqlBinaryOperator::Modulo, number("2")).convert().unwrap();
    assert_eq!("#a % 2", e.to_string());
}

#[test]
fn interim_projection_lists_needed_columns_once() {
    // SELECT state, COUNT(*) FROM employee WHERE id > 3 AND state = 'CO' GROUP BY state
    let ast = select(
        vec![item(ident("state")), item(call("COUNT", SqlFunctionArgExpr::Wildcard))],
        "employee",
        Some(binop(
            binop(ident("id"), SqlBinaryOperator::Gt, number("3")),
            SqlBinaryOperator::And,
            binop(ident("state"), SqlBinaryOperator::Eq, string("CO")),
        )),
        vec![ident("state")],
    );
    let df = Planner::new().dataframe_from_sql(&ast, &four_columns()).unwrap();
    assert_eq!(
        "Projection: #0, #1\n\tAggregate: groupExpr=[#state], aggregateExpr=[COUNT(#*)]\n\t\tSelection: #id > 3 AND #state = 'CO'\n\t\t\tProjection: #state, #*, #id\n\t\t\t\tScan: employees.csv; projection=None\n",
        df.to_string()
    );
}

#[test]
fn checked_planning_declines_unsupported_statements() {
    let planner = Planner::new();
    let wildcard = select(vec![SqlSelectItem::Other], "employee", None, vec![]);
    assert!(!statement_supported(&wildcard));
    assert!(planner.dataframe_from_sql_checked(&wildcard, &four_columns()).is_none());
    let unknown_op = select(vec![item(binop(ident("a"), SqlBinaryOperator::Other, ident("b")))], "employee", None, vec![]);
    assert!(!statement_supported(&unknown_op));
    assert!(planner.dataframe_from_sql_checked(&unknown_op, &four_columns()).is_none());
    let plain = select(vec![item(ident("state"))], "employee", None, vec![]);
    assert!(statement_supported(&plain));
    let df = planner.dataframe_from_sql_checked(&plain, &four_columns()).unwrap().unwrap();
    assert_eq!(planner.dataframe_from_sql(&plain, &four_columns()).unwrap().to_string(), df.to_string());
    let missing = select(vec![item(ident("state"))], "nobody", None, vec![]);
    let err = planner.dataframe_from_sql_checked(&missing, &four_columns()).unwrap().err().unwrap();
    assert_eq!("could not create Dataframe for relational class query", err.to_string());
}
