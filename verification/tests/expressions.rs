use query_planner::datatypes::DataType;
use query_planner::expressions::{
    Aggregate, Alias, Binary, BinaryOperator, Column, ColumnIndex, Expression, LiteralDouble,
    LiteralLong, LiteralString, Operator,
};
use query_planner::schema::{Field, Schema};
use query_planner::sql::SqlBinaryOperator;

fn col(name: &str) -> Expression {
    Expression::Column(Column { name: name.to_string() })
}

fn num(text: &str) -> Expression {
    Expression::LiteralDouble(LiteralDouble { value: text.to_string() })
}

fn bin(op: BinaryOperator, l: Expression, r: Expression) -> Expression {
    Expression::Binary(Binary { operator: op, L: Box::new(l), R: Box::new(r) })
}

fn agg(op: Operator, e: Expression) -> Expression {
    Expression::Aggregate(Aggregate { operator: op, expression: Box::new(e) })
}

fn field(name: &str, datatype: DataType) -> Field {
    Field { name: name.to_string(), datatype }
}

fn employees() -> Schema {
    Schema {
        fields: vec![
            field("id", DataType::Int64),
            field("state", DataType::Utf8),
            field("salary", DataType::Float64),
        ],
    }
}

#[test]
fn column_to_field_resolves_from_input_schema() {
    let input = Schema {
        fields: vec![Field { name: "salary".to_string(), datatype: DataType::Float64 }],
    };
    let expr = Expression::Column(Column { name: "salary".to_string() });
    let field = expr.to_field(&input).expect("to_field");
    assert_eq!("salary", field.name);
    assert_eq!(DataType::Float64, field.datatype);
}

#[test]
fn column_lookup_takes_first_field_of_that_name() {
    let input = Schema {
        fields: vec![field("a", DataType::Int32), field("a", DataType::Utf8)],
    };
    let f = col("a").to_field(&input).unwrap();
    assert_eq!(DataType::Int32, f.datatype);
}

#[test]
fn unknown_column_lists_the_input_names() {
    let err = col("age").to_field(&employees()).unwrap_err();
    assert_eq!(
        "No column named 'age' in [\"id\", \"state\", \"salary\"]",
        err.to_string()
    );
}

#[test]
fn column_index_resolves_by_position() {
    let f = Expression::ColumnIndex(ColumnIndex { index: 1 }).to_field(&employees()).unwrap();
    assert_eq!("state", f.name);
    assert_eq!(DataType::Utf8, f.datatype);
}

#[test]
fn column_index_out_of_range() {
    let err = Expression::ColumnIndex(ColumnIndex { index: 5 }).to_field(&employees()).unwrap_err();
    assert_eq!("column index 5 out of range (0..2)", err.to_string());
    let empty = Schema { fields: vec![] };
    let err = Expression::ColumnIndex(ColumnIndex { index: 0 }).to_field(&empty).unwrap_err();
    assert_eq!("column index 0 out of range (0..0)", err.to_string());
}

#[test]
fn aggregate_fields() {
    let input = employees();
    let count = agg(Operator::COUNT, col("nothing")).to_field(&input).unwrap();
    assert_eq!("COUNT", count.name);
    assert_eq!(DataType::Int32, count.datatype);
    let sum = agg(Operator::SUM, col("salary")).to_field(&input).unwrap();
    assert_eq!("SUM", sum.name);
    assert_eq!(DataType::Float64, sum.datatype);
    let err = agg(Operator::MAX, col("nothing")).to_field(&input).unwrap_err();
    assert!(err.to_string().starts_with("No column named 'nothing'"));
}

#[test]
fn binary_fields() {
    let input = employees();
    let gt = bin(BinaryOperator::Gt, col("nothing"), num("1")).to_field(&input).unwrap();
    assert_eq!(">", gt.name);
    assert_eq!(DataType::Boolean, gt.datatype);
    let add = bin(BinaryOperator::Add, col("id"), num("1")).to_field(&input).unwrap();
    assert_eq!("+", add.name);
    assert_eq!(DataType::Int64, add.datatype);
    let modulus = bin(BinaryOperator::Modulus, num("7"), col("id")).to_field(&input).unwrap();
    assert_eq!("%", modulus.name);
    assert_eq!(DataType::Float64, modulus.datatype);
}

#[test]
fn alias_and_literal_fields() {
    let input = employees();
    let a = Expression::Alias(Alias { expression: Box::new(col("state")), alias: "st".to_string() })
        .to_field(&input)
        .unwrap();
    assert_eq!("st", a.name);
    assert_eq!(DataType::Utf8, a.datatype);
    let s = Expression::LiteralString(LiteralString { value: "CO".to_string() })
        .to_field(&input)
        .unwrap();
    assert_eq!("CO", s.name);
    assert_eq!(DataType::Utf8, s.datatype);
    let d = num("1.1").to_field(&input).unwrap();
    assert_eq!("1.1", d.name);
    assert_eq!(DataType::Float64, d.datatype);
}

#[test]
fn operator_from_str() {
    assert_eq!(Some(Operator::SUM), Operator::from_str("SUM"));
    assert_eq!(Some(Operator::MIN), Operator::from_str("MIN"));
    assert_eq!(Some(Operator::MAX), Operator::from_str("MAX"));
    assert_eq!(Some(Operator::AVG), Operator::from_str("AVG"));
    assert_eq!(Some(Operator::COUNT), Operator::from_str("COUNT"));
    assert_eq!(Some(Operator::AGG), Operator::from_str("AGG"));
    assert_eq!(None, Operator::from_str("sum"));
    assert_eq!(None, Operator::from_str(""));
}

#[test]
fn operator_names_read_back() {
    for op in [Operator::SUM, Operator::MIN, Operator::MAX, Operator::AVG, Operator::COUNT, Operator::AGG] {
        assert_eq!(Some(op), Operator::from_str(op.to_string().as_str()));
    }
}

#[test]
fn sql_binary_operators() {
    let pairs = [
        (SqlBinaryOperator::Eq, BinaryOperator::Eq, "="),
        (SqlBinaryOperator::NotEq, BinaryOperator::Neq, "!="),
        (SqlBinaryOperator::Gt, BinaryOperator::Gt, ">"),
        (SqlBinaryOperator::GtEq, BinaryOperator::GtEq, ">="),
        (SqlBinaryOperator::Lt, BinaryOperator::Lt, "<"),
        (SqlBinaryOperator::LtEq, BinaryOperator::LtEq, "<="),
        (SqlBinaryOperator::And, BinaryOperator::And, "AND"),
        (SqlBinaryOperator::Or, BinaryOperator::Or, "OR"),
        (SqlBinaryOperator::Plus, BinaryOperator::Add, "+"),
        (SqlBinaryOperator::Minus, BinaryOperator::Subtract, "-"),
        (SqlBinaryOperator::Multiply, BinaryOperator::Multiply, "*"),
        (SqlBinaryOperator::Divide, BinaryOperator::Divide, "/"),
        (SqlBinaryOperator::Modulo, BinaryOperator::Modulus, "%"),
    ];
    for (sql, op, symbol) in pairs {
        let got = BinaryOperator::from_sql_binary_op(&sql);
        assert_eq!(op, got);
        assert_eq!(symbol, got.to_string());
    }
}

#[test]
fn expression_text() {
    let e = bin(
        BinaryOperator::Divide,
        bin(BinaryOperator::Add, col("salary"), num("500")),
        num("12"),
    );
    assert_eq!("#salary + 500 / 12", e.to_string());
    assert_eq!("SUM(#salary)", agg(Operator::SUM, col("salary")).to_string());
    assert_eq!("#3", Expression::ColumnIndex(ColumnIndex { index: 3 }).to_string());
    assert_eq!("#10", ColumnIndex { index: 10 }.to_string());
    assert_eq!("'CO'", Expression::LiteralString(LiteralString { value: "CO".to_string() }).to_string());
    let a = Alias { expression: Box::new(col("x")), alias: "y".to_string() };
    assert_eq!("#x as y", a.to_string());
    assert_eq!("#x as y", Expression::Alias(a).to_string());
    assert_eq!("#x", Column { name: "x".to_string() }.to_string());
    assert_eq!("1.1", LiteralDouble { value: "1.1".to_string() }.to_string());
    assert_eq!("'a'", LiteralString { value: "a".to_string() }.to_string());
    let b = Binary { operator: BinaryOperator::Neq, L: Box::new(col("a")), R: Box::new(num("0")) };
    assert_eq!("#a != 0", b.to_string());
}

#[test]
fn integer_literal_text() {
    assert_eq!("0", LiteralLong { value: 0 }.to_string());
    assert_eq!("1234567", LiteralLong { value: 1234567 }.to_string());
    assert_eq!("-42", LiteralLong { value: -42 }.to_string());
    assert_eq!("-9223372036854775808", LiteralLong { value: i64::MIN }.to_string());
    assert_eq!("9223372036854775807", LiteralLong { value: i64::MAX }.to_string());
}

#[test]
fn collect_columns_in_written_order() {
    let e = bin(
        BinaryOperator::And,
        bin(BinaryOperator::Eq, col("state"), Expression::LiteralString(LiteralString { value: "CO".to_string() })),
        bin(BinaryOperator::Gt, agg(Operator::SUM, col("salary")), col("state")),
    );
    let mut cols = vec![col("first")];
    e.collect_columns(&mut cols);
    let names: Vec<String> = cols.iter().map(|c| c.to_string()).collect();
    assert_eq!(vec!["#first", "#state", "#salary", "#state"], names);
    let mut none = Vec::new();
    num("1").collect_columns(&mut none);
    Expression::ColumnIndex(ColumnIndex { index: 0 }).collect_columns(&mut none);
    assert!(none.is_empty());
}

#[test]
fn equality_by_value() {
    let a = bin(BinaryOperator::Add, col("x"), num("1"));
    let b = bin(BinaryOperator::Add, col("x"), num("1"));
    let c = bin(BinaryOperator::Add, col("x"), num("2"));
    assert!(a.equals(&b));
    assert!(!a.equals(&c));
    assert!(!col("x").equals(&Expression::LiteralString(LiteralString { value: "x".to_string() })));
    let copy = c.clone();
    assert!(copy.equals(&c));
}

#[test]
fn other_column_types_are_carried() {
    let date = DataType::Other { name: "Date32".to_string() };
    let input = Schema { fields: vec![field("day", date.clone()), field("n", DataType::Int64)] };
    let f = col("day").to_field(&input).unwrap();
    assert_eq!(date, f.datatype);
    let latest = agg(Operator::MAX, col("day")).to_field(&input).unwrap();
    assert_eq!("MAX", latest.name);
    assert_eq!(date, latest.datatype);
    let renamed = Expression::Alias(Alias { expression: Box::new(col("day")), alias: "d".to_string() })
        .to_field(&input)
        .unwrap();
    assert_eq!(date, renamed.datatype);
    assert_eq!(DataType::Int32, agg(Operator::COUNT, col("day")).to_field(&input).unwrap().datatype);
    assert_eq!(DataType::Boolean, bin(BinaryOperator::Lt, col("day"), col("n")).to_field(&input).unwrap().datatype);
}
