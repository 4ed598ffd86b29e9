use sql_dump::model::Where;

#[test]
fn can_parse_a_valid_where_stmt() {
    let sql = "WHERE id = 1";
    let where_stmt = Where::parse(sql).unwrap();
    assert_eq!(where_stmt.column, "id");
    assert_eq!(where_stmt.operator, "=");
    assert_eq!(where_stmt.value, "1");
}

#[test]
fn where_with_two_character_operator() {
    let w = Where::parse("WHERE `age` >= 18").unwrap();
    assert_eq!(w.column, "age");
    assert_eq!(w.operator, ">=");
    assert_eq!(w.value, "18");
}

#[test]
fn where_with_not_equal_operator() {
    let w = Where::parse("WHERE name <> 'bob';").unwrap();
    assert_eq!(w.operator, "<>");
    assert_eq!(w.value, "bob");
    assert!(Where::parse("WHERE a ! 1").is_err());
}
