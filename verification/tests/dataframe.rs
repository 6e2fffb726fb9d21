use std::rc::Rc;

use query_planner::dataframe::{format_plan, DataFrame, JoinType, LogicalPlanNode, Scan, ScanSource};
use query_planner::datasource::Csv;
use query_planner::datatypes::DataType;
use query_planner::expressions::{
    Aggregate, Alias, Binary, BinaryOperator, Column, ColumnIndex, Expression, LiteralDouble, Operator,
};
use query_planner::schema::{Field, Schema};

fn col(name: &str) -> Expression {
    Expression::Column(Column { name: name.to_string() })
}

fn employee_scan() -> DataFrame {
    let schema = Schema {
        fields: vec![
            Field { name: "id".to_string(), datatype: DataType::Int64 },
            Field { name: "state".to_string(), datatype: DataType::Utf8 },
            Field { name: "salary".to_string(), datatype: DataType::Float64 },
        ],
    };
    let headers = vec!["id".to_string(), "state".to_string(), "salary".to_string()];
    let csv = Csv::new(&"employees.csv".to_string(), &["id", "state", "salary"], 3, Rc::new(schema), &headers);
    DataFrame::with(LogicalPlanNode::ScanNode(Box::new(Scan { datasource: ScanSource::Csv(csv) })))
}

#[test]
fn dataframe_basic_usage() {
    let f = Field { name: String::from("name"), datatype: DataType::Utf8 };

    let mut fs = Vec::new();
    fs.push(f);

    let sc = Schema { fields: fs };

    let pa = String::from("employees.csv");
    let pros = vec!["s1", "s2"];
    let headers = vec![String::from("name"), String::from("s1"), String::from("s2")];

    let scan = Scan {
        datasource: ScanSource::Csv(Csv::new(&pa, pros.as_slice(), 3, Rc::new(sc), &headers)),
    };

    let lf = LogicalPlanNode::ScanNode(Box::new(scan));
    let df = DataFrame::with(lf);

    let mut agg_exps = Vec::new();
    agg_exps.push(Expression::Aggregate(Aggregate {
        operator: Operator::SUM,
        expression: Box::new(Expression::Column(Column { name: String::from("salary") })),
    }));

    let filter_exps = Expression::Column(Column { name: String::from("age") });

    let dataframe = df.aggregate(Vec::new(), agg_exps).filter(filter_exps);
    assert_eq!(
        "Selection: #age\n\tAggregate: groupExpr=[], aggregateExpr=[SUM(#salary)]\n\t\tScan: employees.csv; projection=None\n",
        dataframe.to_string()
    );
}

#[test]
fn scan_node_basic() {
    let f = Field { name: String::from("name"), datatype: DataType::Utf8 };

    let mut fs = Vec::new();
    fs.push(f);

    let sc = Schema { fields: fs };

    let pa = String::from("employees.csv");
    let pros = vec!["s1", "s2"];
    let headers = vec![String::from("s2"), String::from("name"), String::from("s1")];

    let scan = Scan {
        datasource: ScanSource::Csv(Csv::new(&pa, pros.as_slice(), 3, Rc::new(sc), &headers)),
    };
    match &scan.datasource {
        ScanSource::Csv(csv) => assert_eq!(&vec![0usize, 2], csv.col_indices()),
    }
}

#[test]
fn scan_schema_is_the_source_schema() {
    let s = employee_scan().schema().unwrap();
    let names: Vec<&str> = s.fields.iter().map(|f| f.name.as_str()).collect();
    assert_eq!(vec!["id", "state", "salary"], names);
}

#[test]
fn projection_and_filter_schemas() {
    let df = employee_scan()
        .filter(Expression::Binary(Binary {
            operator: BinaryOperator::Gt,
            L: Box::new(col("salary")),
            R: Box::new(Expression::LiteralDouble(LiteralDouble { value: "0".to_string() })),
        }))
        .project(vec![
            col("salary"),
            Expression::Alias(Alias { expression: Box::new(col("id")), alias: "key".to_string() }),
        ]);
    let s = df.schema().unwrap();
    assert_eq!(2, s.fields.len());
    assert_eq!("salary", s.fields[0].name);
    assert_eq!(DataType::Float64, s.fields[0].datatype);
    assert_eq!("key", s.fields[1].name);
    assert_eq!(DataType::Int64, s.fields[1].datatype);
}

#[test]
fn projection_schema_reports_first_error() {
    let err = employee_scan().project(vec![col("state"), col("a"), col("b")]).schema().unwrap_err();
    assert_eq!("No column named 'a' in [\"id\", \"state\", \"salary\"]", err.to_string());
}

#[test]
fn aggregate_schema_is_group_then_aggregates() {
    let df = employee_scan().aggregate(
        vec![col("state")],
        vec![
            Expression::Aggregate(Aggregate { operator: Operator::AVG, expression: Box::new(col("salary")) }),
            Expression::Aggregate(Aggregate { operator: Operator::COUNT, expression: Box::new(col("id")) }),
        ],
    );
    let s = df.schema().unwrap();
    let got: Vec<(String, DataType)> = s.fields.iter().map(|f| (f.name.clone(), f.datatype.clone())).collect();
    assert_eq!(
        vec![
            ("state".to_string(), DataType::Utf8),
            ("AVG".to_string(), DataType::Float64),
            ("COUNT".to_string(), DataType::Int32),
        ],
        got
    );
    let out = df.project(vec![Expression::ColumnIndex(ColumnIndex { index: 2 })]).schema().unwrap();
    assert_eq!("COUNT", out.fields[0].name);
}

#[test]
fn left_join_schema_is_the_left_schema() {
    let right = employee_scan().project(vec![col("salary")]);
    let df = employee_scan().project(vec![col("state")]).join(right, JoinType::Left, Vec::new());
    let s = df.schema().unwrap();
    assert_eq!(1, s.fields.len());
    assert_eq!("state", s.fields[0].name);
}

#[test]
fn join_text() {
    let df = employee_scan().join(employee_scan(), JoinType::Inner, Vec::new());
    assert_eq!(
        "Join: type=Inner, on=[]\n\tScan: employees.csv; projection=None\n\tScan: employees.csv; projection=None\n",
        df.to_string()
    );
    assert_eq!("Left", JoinType::Left.to_string());
    assert_eq!("Right", JoinType::Right.to_string());
}

#[test]
fn plan_text_indents_each_level() {
    let df = employee_scan().project(vec![col("id"), col("state")]).filter(col("id"));
    let copy = df.clone();
    let expected = "Selection: #id\n\tProjection: #id, #state\n\t\tScan: employees.csv; projection=None\n";
    assert_eq!(expected, df.to_string());
    assert_eq!(expected, copy.to_string());
    let root = copy.logical_plan();
    assert_eq!("Selection: #id", root.to_string());
}

#[test]
fn only_left_joins_have_a_schema() {
    let left = employee_scan().join(employee_scan(), JoinType::Left, Vec::new());
    assert!(left.schema_supported());
    let inner = employee_scan().join(employee_scan(), JoinType::Inner, Vec::new());
    assert!(!inner.schema_supported());
    let right = employee_scan().join(employee_scan(), JoinType::Right, Vec::new());
    assert!(!right.schema_supported());
    assert!(employee_scan().filter(col("id")).schema_supported());
}

#[test]
fn plan_text_with_starting_indent() {
    let df = employee_scan().filter(col("id"));
    let root = df.logical_plan();
    assert_eq!("\t\tSelection: #id\n\t\t\tScan: employees.csv; projection=None\n", format_plan(&root, 2));
    assert_eq!("Selection: #id\n\tScan: employees.csv; projection=None\n", format_plan(&root, 0));
}

#[test]
fn each_new_root_tabs_the_text_below_it() {
    let df = employee_scan().filter(col("id"));
    let below = df.clone().to_string();
    let tabbed: String = below.lines().map(|l| format!("\t{}\n", l)).collect();
    let projected = df.clone().project(vec![col("id"), col("state")]);
    assert_eq!(format!("Projection: #id, #state\n{}", tabbed), projected.to_string());
    let selected = df.clone().filter(col("state"));
    assert_eq!(format!("Selection: #state\n{}", tabbed), selected.to_string());
    let grouped = df.clone().aggregate(vec![col("state")], vec![col("id")]);
    assert_eq!(format!("Aggregate: groupExpr=[#state], aggregateExpr=[#id]\n{}", tabbed), grouped.to_string());
    let joined = df.clone().join(df.clone(), JoinType::Left, Vec::new());
    assert_eq!(format!("Join: type=Left, on=[]\n{}{}", tabbed, tabbed), joined.to_string());
    assert_eq!(below, df.to_string());
}
