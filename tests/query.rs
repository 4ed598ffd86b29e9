use sql_dump::parser::MyParser;
use sql_dump::types::{summarize_database, find_pass_columns, ColumnType, Database};

#[test]
fn first_matching_column_per_table() {
    let p = MyParser::with_parse(
        "CREATE DATABASE d; CREATE TABLE a (id INT, Password VARCHAR(5), pass_hint TEXT); CREATE TABLE b (id INT, name TEXT);",
    )
    .unwrap();
    let dbs: Vec<Database> = p.get_databases().iter().map(summarize_database).collect();
    let r = find_pass_columns(&dbs, "PASS");
    assert_eq!(r.len(), 1);
    assert_eq!(r[0].db_name, "d");
    assert_eq!(r[0].table_name, "a");
    assert_eq!(r[0].column_name, "Password");
}

#[test]
fn summary_tags() {
    let p = MyParser::with_parse(
        "CREATE DATABASE d; CREATE TABLE a (i INT, b BIGINT, t TINYINT(1), v VARCHAR(3), c CHAR(2), ts TIMESTAMP, j JSON);",
    )
    .unwrap();
    let s = summarize_database(&p.get_databases()[0]);
    let tags: Vec<ColumnType> = s.tables[0].columns.iter().map(|c| c.type_).collect();
    assert_eq!(
        tags,
        vec![
            ColumnType::Int,
            ColumnType::BigInt,
            ColumnType::Decimal,
            ColumnType::String,
            ColumnType::Char,
            ColumnType::Timestamp,
            ColumnType::String
        ]
    );
}

#[test]
fn empty_database_summary() {
    let d = Database::new(String::from("x"));
    assert_eq!(d.db_name, "x");
    assert!(find_pass_columns(&vec![d], "a").is_empty());
}
