use std::rc::Rc;

use query_planner::catalog::TableCatalog;
use query_planner::dataframe::{DataFrame, LogicalPlanNode, Scan, ScanSource};
use query_planner::datasource::Csv;
use query_planner::datatypes::DataType;
use query_planner::schema::{Field, Schema};

fn frame(path: &str) -> DataFrame {
    let schema = Schema { fields: vec![Field { name: "a".to_string(), datatype: DataType::Int32 }] };
    let csv = Csv::new(&path.to_string(), &["a"], 3, Rc::new(schema), &vec!["a".to_string()]);
    DataFrame::with(LogicalPlanNode::ScanNode(Box::new(Scan { datasource: ScanSource::Csv(csv) })))
}

#[test]
fn catalog_reads_back_what_was_registered() {
    let mut tables = TableCatalog::new();
    assert!(tables.get(&"t".to_string()).is_none());
    assert!(tables.insert("t".to_string(), frame("one.csv")).is_none());
    assert!(tables.insert("u".to_string(), frame("two.csv")).is_none());
    assert_eq!("Scan: one.csv; projection=None\n", tables.get(&"t".to_string()).unwrap().to_string());
    let prev = tables.insert("t".to_string(), frame("three.csv")).unwrap();
    assert_eq!("Scan: one.csv; projection=None\n", prev.to_string());
    assert_eq!("Scan: three.csv; projection=None\n", tables.get(&"t".to_string()).unwrap().to_string());
    assert_eq!("Scan: two.csv; projection=None\n", tables.get(&"u".to_string()).unwrap().to_string());
    assert!(tables.get(&"v".to_string()).is_none());
}
