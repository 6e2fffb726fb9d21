use std::rc::Rc;

use query_planner::datasource::Csv;
use query_planner::datatypes::DataType;
use query_planner::schema::{Field, Schema};

fn schema() -> Rc<Schema> {
    Rc::new(Schema {
        fields: vec![
            Field { name: "id".to_string(), datatype: DataType::Int64 },
            Field { name: "state".to_string(), datatype: DataType::Utf8 },
            Field { name: "first_name".to_string(), datatype: DataType::Utf8 },
            Field { name: "salary".to_string(), datatype: DataType::Float64 },
        ],
    })
}

fn headers() -> Vec<String> {
    vec!["id".to_string(), "state".to_string(), "first_name".to_string(), "salary".to_string()]
}

fn row(values: &[&str]) -> Vec<String> {
    values.iter().map(|v| v.to_string()).collect()
}

#[test]
fn csv_keeps_projected_columns_in_file_order() {
    let csv = Csv::new(&"employees.csv".to_string(), &["salary", "state", "missing"], 3, schema(), &headers());
    assert_eq!(&vec![1usize, 3], csv.col_indices());
    assert_eq!(3, csv.batch_size());
    assert_eq!("employees.csv", csv.path());
    assert_eq!(4, csv.schema().fields.len());
    let none = Csv::new(&"e.csv".to_string(), &[], 3, schema(), &headers());
    assert!(none.col_indices().is_empty());
}

#[test]
fn csv_batch_columns() {
    let csv = Csv::new(&"employees.csv".to_string(), &["state", "salary"], 3, schema(), &headers());
    let records = vec![row(&["1", "CO", "Ann", "10.5"]), row(&["2", "TX", "Bob", "20"])];
    assert!(csv.can_batch(&records));
    let cols = csv.batch_columns(&records);
    assert_eq!(2, cols.len());
    assert_eq!(vec!["CO".to_string(), "TX".to_string()], cols[0].values);
    assert_eq!(DataType::Utf8, cols[0].datatype);
    assert_eq!(vec!["10.5".to_string(), "20".to_string()], cols[1].values);
    assert_eq!(DataType::Float64, cols[1].datatype);
}

#[test]
fn csv_cannot_batch_short_records_or_unknown_columns() {
    let csv = Csv::new(&"employees.csv".to_string(), &["salary"], 3, schema(), &headers());
    assert!(!csv.can_batch(&vec![row(&["1", "CO"])]));
    let wide = Csv::new(
        &"wide.csv".to_string(),
        &["extra"],
        3,
        schema(),
        &vec!["id".to_string(), "state".to_string(), "first_name".to_string(), "salary".to_string(), "extra".to_string()],
    );
    assert!(!wide.can_batch(&vec![row(&["1", "CO", "Ann", "1", "x"])]));
    assert!(csv.can_batch(&vec![]));
}
