use sql_dump::model::ForeignKey;
use sql_dump::render::Sql;

#[test]
fn can_parse_single_foreign_key_without_name() {
    let foreign_key = ForeignKey::parse("FOREIGN KEY (`column_id`) REFERENCES `column` (`id`),")
        .expect("Invalid input");
    assert!(foreign_key.name.is_none());
    assert_eq!(foreign_key.local_column_names, vec![String::from("column_id")]);
    assert_eq!(foreign_key.foreign_column_names, vec![String::from("id")]);
}

#[test]
fn can_parse_multiple_foreign_key_without_name() {
    let foreign_key = ForeignKey::parse(
        "FOREIGN KEY (`column_id`, `column_name`) REFERENCES `column` (`id`, `name`),",
    )
    .expect("Invalid input");
    assert!(foreign_key.name.is_none());
    assert_eq!(
        foreign_key.local_column_names,
        vec![String::from("column_id"), String::from("column_name")]
    );
    assert_eq!(foreign_key.foreign_column_names, vec![String::from("id"), String::from("name")]);
}

#[test]
fn can_parse_single_foreign_key_with_name() {
    let foreign_key = ForeignKey::parse(
        "CONSTRAINT `fk_column_id` FOREIGN KEY (`column_id`) REFERENCES `column` (`id`),",
    )
    .expect("Invalid input");
    assert_eq!(foreign_key.name.unwrap().as_str(), "fk_column_id");
    assert_eq!(foreign_key.local_column_names, vec![String::from("column_id")]);
    assert_eq!(foreign_key.foreign_column_names, vec![String::from("id")]);
}

#[test]
fn can_parse_multiple_foreign_key_with_name() {
    let foreign_key = ForeignKey::parse(
        "CONSTRAINT `fk_column` FOREIGN KEY (`column_id`, `column_name`) REFERENCES `column` (`id`, `name`),",
    )
    .expect("Invalid input");
    assert_eq!(foreign_key.name.unwrap().as_str(), "fk_column");
    assert_eq!(
        foreign_key.local_column_names,
        vec![String::from("column_id"), String::from("column_name")]
    );
    assert_eq!(foreign_key.foreign_column_names, vec![String::from("id"), String::from("name")]);
}

#[test]
fn can_parse_foreign_key_with_on_update() {
    let foreign_key = ForeignKey::parse(
        "CONSTRAINT `fk_column` FOREIGN KEY (`column_id`) REFERENCES `column` (`id`) ON UPDATE CASCADE,",
    )
    .expect("Invalid input");
    assert_eq!(foreign_key.on_update.unwrap().as_str(), "CASCADE");
}

#[test]
fn can_write_foreign_key_without_name() {
    let foreign_key = ForeignKey {
        name: None,
        local_column_names: vec![String::from("column_id"), String::from("column_name")],
        foreign_column_names: vec![String::from("id"), String::from("name")],
        foreign_table_name: String::from("column"),
        on_update: None,
    };
    assert_eq!(
        foreign_key.as_sql().trim(),
        "FOREIGN KEY (`column_id`,`column_name`) REFERENCES `column` (`id`,`name`)",
    );
}

#[test]
fn can_write_foreign_key_with_name() {
    let foreign_key = ForeignKey {
        name: Some(String::from("fk_column")),
        local_column_names: vec![String::from("column_id"), String::from("column_name")],
        foreign_column_names: vec![String::from("id"), String::from("name")],
        foreign_table_name: String::from("column"),
        on_update: None,
    };
    assert_eq!(
        foreign_key.as_sql().trim(),
        "CONSTRAINT `fk_column` FOREIGN KEY (`column_id`,`column_name`) REFERENCES `column` (`id`,`name`)",
    );
}

#[test]
fn can_write_foreign_key_with_on_update() {
    assert_eq!(
        ForeignKey {
            name: Some(String::from("fk_column")),
            local_column_names: vec![String::from("column_id"), String::from("column_name")],
            foreign_column_names: vec![String::from("id"), String::from("name")],
            foreign_table_name: String::from("column"),
            on_update: Some(String::from("CASCADE")),
        }
        .as_sql()
        .trim(),
        "CONSTRAINT `fk_column` FOREIGN KEY (`column_id`,`column_name`) REFERENCES `column` (`id`,`name`) ON UPDATE CASCADE",
    );
}

#[test]
fn foreign_key_name_only_adds_prefix() {
    let unnamed = ForeignKey::new(
        None,
        vec![String::from("a")],
        vec![String::from("b")],
        String::from("t"),
        Some(String::from("SET NULL")),
    );
    let named = ForeignKey::new(
        Some(String::from("fk")),
        vec![String::from("a")],
        vec![String::from("b")],
        String::from("t"),
        Some(String::from("SET NULL")),
    );
    assert_eq!(named.as_sql(), format!("CONSTRAINT `fk` {}", unnamed.as_sql()));
}

#[test]
fn foreign_key_rendering_is_idempotent() {
    let k = ForeignKey::new(
        Some(String::from("fk_column")),
        vec![String::from("column_id"), String::from("column_name")],
        vec![String::from("id"), String::from("name")],
        String::from("column"),
        Some(String::from("SET NULL")),
    );
    let once = k.as_sql();
    let again = ForeignKey::parse(&once).unwrap().as_sql();
    assert_eq!(once, again);
    let plain = ForeignKey::new(None, vec![String::from("x")], vec![String::from("y")], String::from("z"), None);
    assert_eq!(ForeignKey::parse(&plain.as_sql()).unwrap().as_sql(), plain.as_sql());
}

#[test]
fn foreign_key_with_delete_and_two_word_update() {
    let k = ForeignKey::parse(
        "FOREIGN KEY (`a`) REFERENCES `t` (`b`) ON DELETE CASCADE ON UPDATE SET NULL",
    )
    .unwrap();
    assert_eq!(k.on_update.as_deref(), Some("SET NULL"));
    assert_eq!(k.foreign_table_name, "t");
}
