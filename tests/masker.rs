use regex::Regex;
use sql_dump::masker::{MaskError, MaskingConfig, Pattern, Rule, Transform};
use sql_dump::model::InsertValue;
use sql_dump::statement::parse_insert_statement;

const EMAIL: &str = r"^[a-zA-Z0-9_.+-]+@[a-zA-Z0-9-]+\.[a-zA-Z0-9-.]+$";

fn config(columns: &[&str]) -> MaskingConfig {
    MaskingConfig {
        columns: columns.iter().map(|c| c.to_string()).collect(),
        patterns: vec![Pattern { name: Some(String::from("email")), regex: String::from(EMAIL) }],
        rules: vec![Rule { key: String::from("email"), generator: String::from("contact::email()") }],
    }
}

#[test]
fn test_mask_dml_stmts() {
    let cfg = config(&["contact"]);
    let transform = Transform::new(&cfg);
    let mut dmls = vec![parse_insert_statement(
        "INSERT INTO `my_table` (`contact`, `email`) VALUES ('John Doe', 'jdoe@gmail.com');",
    )
    .expect("Invalid input")];
    transform.mask_dml_stmts(&mut dmls).unwrap();
    let email_regex = Regex::new(
        &cfg.patterns.iter().find(|p| p.name.as_ref().unwrap() == "email").unwrap().regex,
    )
    .unwrap();
    assert_ne!(dmls[0].values[0].0[0], InsertValue::Text { value: "John Doe".to_owned() });
    assert_ne!(dmls[0].values[0].0[1], InsertValue::Text { value: "jdoe@gmail.com".to_owned() });
    match &dmls[0].values[0].0[1] {
        InsertValue::Text { value } => assert!(email_regex.is_match(value)),
        other => panic!("not text: {:?}", other),
    }
}

#[test]
fn masks_listed_column_and_email_value() {
    let cfg = MaskingConfig {
        columns: vec![String::from("account")],
        patterns: vec![Pattern {
            name: Some(String::from("email")),
            regex: String::from(r"^[\w.+-]+@[\w-]+\.[\w.-]+$"),
        }],
        rules: vec![Rule { key: String::from("email"), generator: String::from("contact::email()") }],
    };
    let t = Transform::new(&cfg);
    let mut dmls =
        vec![parse_insert_statement("INSERT INTO t (account,email) VALUES (1234, 'a@b.com');").unwrap()];
    t.mask_dml_stmts(&mut dmls).unwrap();
    let row = &dmls[0].values[0].0;
    assert_ne!(row[0], InsertValue::Number { value: String::from("1234") });
    assert_ne!(row[1], InsertValue::Text { value: String::from("a@b.com") });
    let re = Regex::new(r"^[\w.+-]+@[\w-]+\.[\w.-]+$").unwrap();
    match &row[1] {
        InsertValue::Text { value } => assert!(re.is_match(value)),
        other => panic!("not text: {:?}", other),
    }
}

#[test]
fn seeded_masking_is_exact() {
    let cfg = config(&["contact"]);
    let t = Transform::new(&cfg);
    let mut dmls = vec![parse_insert_statement(
        "INSERT INTO `t` (`contact`, `email`, `id`) VALUES ('John', 'x@y.org', 7);",
    )
    .unwrap()];
    t.mask_dml_stmts_seeded(&mut dmls, 41).unwrap();
    let row = &dmls[0].values[0].0;
    // contact: no rule, default generator by name; seed 41 + 0
    assert_eq!(row[0], InsertValue::Text { value: String::from("masked-41") });
    // email: rule contact::email(); seed 41 + 1
    assert_eq!(row[1], InsertValue::Text { value: String::from("user42@example.com") });
    assert_eq!(row[2], InsertValue::Number { value: String::from("7") });
}

#[test]
fn replacement_differs_from_prior_value() {
    let cfg = config(&["contact"]);
    let t = Transform::new(&cfg);
    let mut dmls = vec![parse_insert_statement("INSERT INTO t (contact) VALUES ('masked-5');").unwrap()];
    t.mask_dml_stmts_seeded(&mut dmls, 5).unwrap();
    assert_eq!(dmls[0].values[0].0[0], InsertValue::Text { value: String::from("xmasked-5") });
}

#[test]
fn invalid_pattern_is_an_error() {
    let cfg = MaskingConfig {
        columns: vec![],
        patterns: vec![Pattern { name: None, regex: String::from("(") }],
        rules: vec![],
    };
    let t = Transform::new(&cfg);
    let mut dmls = vec![parse_insert_statement("INSERT INTO t (a) VALUES (1);").unwrap()];
    let r = t.mask_dml_stmts(&mut dmls);
    assert_eq!(r, Err(MaskError::InvalidPattern { regex: String::from("(") }));
    assert_eq!(dmls[0].values[0].0[0], InsertValue::Number { value: String::from("1") });
}

#[test]
fn unknown_generator_is_an_error() {
    let cfg = MaskingConfig {
        columns: vec![String::from("a")],
        patterns: vec![],
        rules: vec![Rule { key: String::from("a"), generator: String::from("misc::unknown()") }],
    };
    let t = Transform::new(&cfg);
    let mut dmls = vec![parse_insert_statement("INSERT INTO t (a) VALUES (1);").unwrap()];
    assert_eq!(
        t.mask_dml_stmts(&mut dmls),
        Err(MaskError::UnknownGenerator { rule: String::from("misc::unknown()") })
    );
}

#[test]
fn column_list_match_ignores_case() {
    let cfg = config(&["Account"]);
    assert_eq!(cfg.filter_column(&String::from("ACCOUNT")), Ok(true));
    assert_eq!(cfg.filter_column(&String::from("other")), Ok(false));
    assert_eq!(cfg.filter_column(&String::from("me@mail.com")), Ok(true));
}

#[test]
fn phone_and_name_generators() {
    let cfg = MaskingConfig {
        columns: vec![String::from("phone"), String::from("full_name")],
        patterns: vec![],
        rules: vec![],
    };
    let t = Transform::new(&cfg);
    let mut dmls = vec![parse_insert_statement(
        "INSERT INTO t (phone, full_name) VALUES ('123', 'Bob');",
    )
    .unwrap()];
    t.mask_dml_stmts_seeded(&mut dmls, 0).unwrap();
    let row = &dmls[0].values[0].0;
    assert_eq!(row[0], InsertValue::Text { value: String::from("555-1000") });
    assert_eq!(row[1], InsertValue::Text { value: String::from("Sam Taylor") });
}
