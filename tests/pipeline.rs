use sql_dump::masker::{MaskingConfig, Pattern, Rule, Transform};
use sql_dump::pipeline::{is_insert_line, mask_lines, mask_lines_seeded, split_blocks, Block};

fn cfg() -> MaskingConfig {
    MaskingConfig {
        columns: vec![String::from("name")],
        patterns: vec![Pattern { name: Some(String::from("email")), regex: String::from(r"^[\w.+-]+@[\w-]+\.[\w.-]+$") }],
        rules: vec![Rule { key: String::from("email"), generator: String::from("contact::email()") }],
    }
}

#[test]
fn uppercase_insert_is_not_detected() {
    let lines = vec![String::from("INSERT INTO t (a) VALUES (1);\n"), String::from("\n")];
    assert!(!is_insert_line(&lines[0]));
    let c = cfg();
    let t = Transform::new(&c);
    let out = mask_lines(&t, &lines).unwrap();
    assert_eq!(out, lines);
}

#[test]
fn lowercase_insert_block_is_masked() {
    let lines = vec![
        String::from("USE `users`;\n"),
        String::from("insert into users (id, name) \n"),
        String::from("VALUES (1, 'John Doe');\n"),
        String::from("-- end\n"),
    ];
    let blocks = split_blocks(&lines);
    assert_eq!(blocks.len(), 3);
    assert_eq!(blocks[1], Block::Insert(String::from("insert into users (id, name) VALUES (1, 'John Doe');")));
    let c = cfg();
    let t = Transform::new(&c);
    let out = mask_lines_seeded(&t, &lines, 3).unwrap();
    assert_eq!(out[0], "USE `users`;\n");
    assert_eq!(out[1], "INSERT INTO `users` (`id`,`name`) VALUES (1,'Alex Morgan');\n");
    assert_eq!(out[2], "-- end\n");
}

#[test]
fn last_line_insert_stands_alone() {
    let lines = vec![String::from("insert into t (a) values (2);")];
    let blocks = split_blocks(&lines);
    assert_eq!(blocks, vec![Block::Insert(String::from("insert into t (a) values (2);"))]);
}

#[test]
fn malformed_insert_block_fails() {
    let lines = vec![String::from("insert nonsense\n"), String::from("\n")];
    let c = cfg();
    let t = Transform::new(&c);
    assert!(mask_lines(&t, &lines).is_err());
}

#[test]
fn invalid_pattern_fails_the_pass() {
    let c = MaskingConfig {
        columns: vec![],
        patterns: vec![Pattern { name: None, regex: String::from("[") }],
        rules: vec![],
    };
    let t = Transform::new(&c);
    let lines = vec![String::from("insert into t (a) values (1);\n"), String::from("\n")];
    assert!(matches!(
        mask_lines(&t, &lines),
        Err(sql_dump::pipeline::PipelineError::Mask(sql_dump::masker::MaskError::InvalidPattern { .. }))
    ));
    let plain = vec![String::from("select 1;\n")];
    assert_eq!(mask_lines(&t, &plain).unwrap(), plain);
}
