use sql_dump::lexer::ParseError;
use sql_dump::model::{DataType, DecimalKind, IntKind, SizedKind, ChoiceKind, TimeKind, InsertValue};
use sql_dump::parser::MyParser;
use sql_dump::schema::Table;
use sql_dump::statement::{parse_statements, Statement};

fn only_table(p: &MyParser, name: &str) -> Table {
    let dbs = p.get_databases();
    dbs[0].tables.iter().find(|t| t.name == name).unwrap().clone()
}

#[test]
fn create_database_name_is_stripped_and_empty() {
    let sts = parse_statements("CREATE DATABASE IF NOT EXISTS `shop`;").unwrap();
    match &sts[0] {
        Statement::CreateDatabase(db) => {
            assert_eq!(db.name, "shop");
            assert!(db.tables.is_empty());
        }
        other => panic!("unexpected {:?}", other),
    }
}

#[test]
fn create_table_keeps_columns_in_order() {
    let p = MyParser::with_parse(
        "CREATE DATABASE d; CREATE TABLE t (`b` INT, c VARCHAR(10) NOT NULL DEFAULT 'x', `a` DECIMAL(10,2), KEY (`b`), UNIQUE KEY `u` (`c`));",
    )
    .unwrap();
    let t = only_table(&p, "t");
    let names: Vec<&str> = t.columns.iter().map(|c| c.name.as_str()).collect();
    assert_eq!(names, vec!["b", "c", "a"]);
    assert!(matches!(t.columns[0].data_type, DataType::Integer(IntKind::Int, None)));
    assert!(matches!(t.columns[1].data_type, DataType::Sized(SizedKind::Varchar, 10)));
    assert!(!t.columns[1].nullable);
    assert_eq!(t.columns[1].default.as_deref(), Some("x"));
    assert!(matches!(t.columns[2].data_type, DataType::Fixed(DecimalKind::Decimal, Some((10, 2)))));
    assert_eq!(t.indexes.len(), 2);
    assert!(t.indexes[0].name.starts_with("index_"));
    assert_eq!(t.indexes[0].name.len(), 42);
    assert!(!t.indexes[0].unique);
    assert_eq!(t.indexes[1].name, "u");
    assert!(t.indexes[1].unique);
}

#[test]
fn enum_and_temporal_types() {
    let p = MyParser::with_parse(
        "CREATE DATABASE d; CREATE TABLE t (s ENUM('a','b'), w DATETIME(3), y SET('x'));",
    )
    .unwrap();
    let t = only_table(&p, "t");
    match &t.columns[0].data_type {
        DataType::Choice(ChoiceKind::Enum, v) => assert_eq!(v, &vec![String::from("a"), String::from("b")]),
        other => panic!("unexpected {:?}", other),
    }
    assert!(matches!(t.columns[1].data_type, DataType::Temporal(TimeKind::DateTime, Some(3))));
    assert!(matches!(t.columns[2].data_type, DataType::Choice(ChoiceKind::SetOf, _)));
}

#[test]
fn unknown_type_is_an_error() {
    let r = MyParser::with_parse("CREATE DATABASE d; CREATE TABLE t (a FOO);");
    match r {
        Err(ParseError::UnknownType { name }) => assert_eq!(name, "FOO"),
        _ => panic!("expected an unknown type"),
    }
}

#[test]
fn unknown_statement_is_rejected() {
    let r = MyParser::with_parse("GRANT ALL ON x TO y;");
    assert!(matches!(r, Err(ParseError::Syntax { position: 0, .. })));
}

#[test]
fn unterminated_literal_is_rejected() {
    assert!(matches!(parse_statements("INSERT INTO t VALUES ('abc);"), Err(ParseError::Syntax { .. })));
}

#[test]
fn add_then_drop_column_restores_columns() {
    let base = "CREATE DATABASE d; CREATE TABLE t (a INT, b INT);";
    let before = MyParser::with_parse(base).unwrap();
    let after = MyParser::with_parse(&format!(
        "{} ALTER TABLE t ADD COLUMN c TEXT; ALTER TABLE t DROP COLUMN c;",
        base
    ))
    .unwrap();
    let n1: Vec<String> = only_table(&before, "t").columns.iter().map(|c| c.name.clone()).collect();
    let n2: Vec<String> = only_table(&after, "t").columns.iter().map(|c| c.name.clone()).collect();
    assert_eq!(n1, n2);
}

#[test]
fn alter_modify_and_drop_index() {
    let p = MyParser::with_parse(
        "CREATE DATABASE d; CREATE TABLE t (a INT, b INT, KEY `k` (`a`)); ALTER TABLE t MODIFY b BIGINT NOT NULL, DROP INDEX `k`, ADD UNIQUE KEY `u` (`b`);",
    )
    .unwrap();
    let t = only_table(&p, "t");
    assert_eq!(t.columns[1].name, "b");
    assert!(matches!(t.columns[1].data_type, DataType::Integer(IntKind::BigInt, None)));
    assert!(!t.columns[1].nullable);
    assert_eq!(t.indexes.len(), 1);
    assert_eq!(t.indexes[0].name, "u");
}

#[test]
fn drop_table_and_unknown_targets() {
    let p = MyParser::with_parse(
        "CREATE DATABASE d; CREATE TABLE a (x INT); CREATE TABLE b (y INT); DROP TABLE IF EXISTS a; INSERT INTO zz VALUES (1); DELETE FROM zz;",
    )
    .unwrap();
    let dbs = p.get_databases();
    assert_eq!(dbs[0].tables.len(), 1);
    assert_eq!(dbs[0].tables[0].name, "b");
}

#[test]
fn create_database_commits_previous() {
    let p = MyParser::with_parse("CREATE DATABASE a; CREATE TABLE t (x INT); CREATE DATABASE b;").unwrap();
    let dbs = p.get_databases();
    assert_eq!(dbs.len(), 2);
    assert_eq!(dbs[0].name, "a");
    assert_eq!(dbs[0].tables.len(), 1);
    assert_eq!(dbs[1].name, "b");
    assert_eq!(p.current_database.as_ref().unwrap().name, "b");
}

#[test]
fn use_starts_a_fresh_database() {
    let p = MyParser::with_parse("CREATE DATABASE a; CREATE TABLE t (x INT); USE a;").unwrap();
    let dbs = p.get_databases();
    assert_eq!(dbs.len(), 1);
    assert!(dbs[0].tables.is_empty());
}

#[test]
fn set_current_database_absent_name() {
    let p = MyParser::with_parse("CREATE DATABASE a;").unwrap().set_current_database("nope");
    assert!(p.current_database.is_none());
}

#[test]
fn multi_statement_records_one_of_each() {
    let p = MyParser::with_parse(
        "CREATE DATABASE d; CREATE TABLE users (id INT, name TEXT); INSERT INTO users (id, name) VALUES (1, 'a'), (2, NULL); UPDATE users SET name = 'b', name = 'c' WHERE id = 1; DELETE FROM users WHERE id = 2; SET @x=1;",
    )
    .unwrap();
    let t = only_table(&p, "users");
    assert_eq!(t.inserts.len(), 1);
    assert_eq!(t.inserts[0].values.len(), 2);
    assert_eq!(t.updates.len(), 1);
    assert_eq!(t.updates[0].values.len(), 1);
    assert_eq!(t.updates[0].values[0].value, "c");
    assert_eq!(t.deletes.len(), 1);
    assert!(t.deletes[0].where_clause.is_none());
}

#[test]
fn foreign_key_in_create_table() {
    let p = MyParser::with_parse(
        "CREATE DATABASE d; CREATE TABLE t (a INT, CONSTRAINT `fk` FOREIGN KEY (`a`) REFERENCES `o` (`id`) ON DELETE CASCADE ON UPDATE SET NULL, PRIMARY KEY (`a`));",
    )
    .unwrap();
    let t = only_table(&p, "t");
    assert_eq!(t.foreign_keys.len(), 1);
    assert_eq!(t.foreign_keys[0].on_update.as_deref(), Some("SET NULL"));
    assert_eq!(t.primary_key.as_ref().unwrap().columns, vec![String::from("a")]);
}

#[test]
fn seeded_reading_names_indexes_the_same_way() {
    let text = "CREATE DATABASE d; CREATE TABLE t (a INT, KEY (`a`));";
    let p1 = MyParser::new().parse_mysqldump_seeded(text, 7).unwrap();
    let p2 = MyParser::new().parse_mysqldump_seeded(text, 7).unwrap();
    let n1 = only_table(&p1, "t").indexes[0].name.clone();
    let n2 = only_table(&p2, "t").indexes[0].name.clone();
    assert_eq!(n1, n2);
    assert!(n1.starts_with("index_"));
    assert_eq!(n1.len(), 42);
}

#[test]
fn multi_row_insert_with_null_and_negative_values() {
    let p = MyParser::with_parse(
        "CREATE DATABASE d; CREATE TABLE t (a INT, b TEXT); INSERT INTO t (a, b) VALUES (-5, NULL), (7, 'x'), (NOW(), 'y');",
    )
    .unwrap();
    let t = only_table(&p, "t");
    let rows = &t.inserts[0].values;
    assert_eq!(rows.len(), 3);
    assert_eq!(rows[0].0[0], InsertValue::Number { value: String::from("-5") });
    assert_eq!(rows[0].0[1], InsertValue::Null);
    assert_eq!(rows[1].0[1], InsertValue::Text { value: String::from("x") });
    assert_eq!(rows[2].0[0], InsertValue::Raw { value: String::from("NOW()") });
}

#[test]
fn malformed_statement_is_rejected() {
    assert!(MyParser::with_parse("CREATE DATABASE d; CREATE TABLE t (a INT,);").is_err());
    assert!(MyParser::with_parse("CREATE DATABASE d; INSERT INTO t (a) VALUES (1) junk;").is_err());
}

#[test]
fn synthesized_name_is_the_uuid_text() {
    let n = sql_dump::ddl::synthesized_index_name(0x0123456789abcdef0123456789abcdef, 0);
    assert_eq!(n, "index_01234567-89ab-cdef-0123-456789abcdef");
}

#[test]
fn numeric_is_decimal_and_where_is_read() {
    let p = MyParser::with_parse(
        "CREATE DATABASE d; CREATE TABLE t (a NUMERIC(10,2)); UPDATE t SET a = 1 WHERE a > 0; DELETE FROM t WHERE a = 1;",
    )
    .unwrap();
    let t = only_table(&p, "t");
    assert!(matches!(t.columns[0].data_type, DataType::Fixed(DecimalKind::Decimal, Some((10, 2)))));
    assert_eq!(t.updates.len(), 1);
    assert_eq!(t.deletes.len(), 1);
    assert!(MyParser::with_parse("CREATE DATABASE d; CREATE TABLE t (a INT); DELETE FROM t WHERE;").is_err());
    assert!(MyParser::with_parse("CREATE DATABASE d; CREATE TABLE t (a INT); UPDATE t SET a = 1 WHERE a = 1 junk;").is_err());
}
