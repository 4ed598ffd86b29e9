use sql_dump::parser::MyParser;
use sql_dump::render::Sql;
use sql_dump::schema::{Database, Table};

fn table<'a>(db: &'a Database, name: &str) -> Option<&'a Table> {
    db.tables.iter().find(|t| t.name == name)
}

fn get_test_database_and_table() -> MyParser {
    let input = r#"
        CREATE DATABASE `test_db`;
        USE `test_db`;
        CREATE TABLE `users` (
            `id` INT NOT NULL AUTO_INCREMENT,
            `name` VARCHAR(255) NOT NULL,
            `email` VARCHAR(255) NOT NULL,
            `password` VARCHAR(255) NOT NULL,
            PRIMARY KEY (`id`)
        );
        "#;
    let mut my_parser = MyParser::new();
    my_parser = my_parser.parse(input).unwrap();
    my_parser
}

#[test]
fn test_create_database() {
    let input = "CREATE DATABASE `test_db`;";
    let result = MyParser::with_parse(input).unwrap();
    assert_eq!(result.databases.len(), 1, "Expected 1 database, got {}", result.databases.len());
    let databases = result.get_databases();
    if !databases.is_empty() {
        assert_eq!(databases[0].name, "test_db", "Database name mismatch");
        assert!(databases[0].tables.is_empty(), "Expected no tables");
        println!("OPTS> {:?}", databases[0].options);
        assert!(databases[0].options.len() == 0, "Expected no options");
    }
}

#[test]
fn test_create_database_with_constraints() {
    let input = "CREATE DATABASE `namedmanager` DEFAULT CHARACTER SET utf8 COLLATE utf8_general_ci;";
    let result = MyParser::with_parse(input).unwrap();
    assert_eq!(result.databases.len(), 1, "Expected 1 database, got {}", result.databases.len());
    let databases = result.get_databases();
    let database = databases.first().unwrap();
    assert!(database.options.len() == 2);
    let options = &database.options;
    assert_eq!(options.len(), 2, "Expected 2 set variables, got {}", options.len());
    assert_eq!(
        options[0].as_sql(),
        "CHARACTER_SET utf8",
        "Expected CHARACTER_SET to be utf8, got {}",
        options[0].as_sql(),
    );
}

#[test]
fn test_create_table() {
    let input = r#"
        --
        -- Table structure for table `config`
        --
        CREATE DATABASE `test_db`;
        USE `test_db`;
        CREATE TABLE IF NOT EXISTS `config` (
          `name` varchar(255) NOT NULL,
          `value` text NOT NULL,
          PRIMARY KEY  (`name`)
        ) ENGINE=InnoDB DEFAULT CHARSET=utf8;
        "#;
    let result = MyParser::with_parse(input).unwrap();
    assert_eq!(result.databases.len(), 1, "Expected 1 database, got {}", result.databases.len());
    let databases = result.get_databases();
    if !databases.is_empty() {
        assert_eq!(databases[0].name, "test_db", "Database name mismatch");
    }
    let db = databases[0].clone();
    assert_eq!(db.tables.len(), 1, "Expected 1 table, got {}", db.tables.len());
    if let Some(table) = table(&db, "config") {
        assert_eq!(table.columns.len(), 2, "Expected 2 columns, got {}", table.columns.len());
    }
}

#[test]
fn test_create_table_with_primary_key() {
    let sql = r#"
        --
        -- Table structure for table `dns_record_types`
        --
        CREATE DATABASE `test_db`;
        USE `test_db`;

        CREATE TABLE IF NOT EXISTS `dns_record_types` (
          `id` int(10) unsigned NOT NULL auto_increment,
          `type` varchar(6) NOT NULL,
          `user_selectable` tinyint(1) NOT NULL default '0',
          PRIMARY KEY  (`id`)
        ) ENGINE=InnoDB  DEFAULT CHARSET=utf8 AUTO_INCREMENT=8 ;
        "#;
    let result = MyParser::with_parse(sql).unwrap();
    assert_eq!(result.databases.len(), 1, "Expected 1 database, got {}", result.databases.len());
    let databases = result.get_databases();
    if !databases.is_empty() {
        assert_eq!(databases[0].name, "test_db", "Database name mismatch");
    }
    let db = databases[0].clone();
    assert_eq!(db.tables.len(), 1, "Expected 1 table, got {}", db.tables.len());
    if let Some(table) = table(&db, "dns_record_types") {
        assert_eq!(table.columns.len(), 3, "Expected 3 columns, got {}", table.columns.len());
    }
}

#[test]
fn test_insert_into_table() {
    let input = r#"
        CREATE DATABASE `test_db`;
        USE `test_db`;
        CREATE TABLE `users` (
            `id` INT NOT NULL AUTO_INCREMENT,
            `name` VARCHAR(255) NOT NULL,
            `email` VARCHAR(255) NOT NULL,
            PRIMARY KEY (`id`)
        );
        INSERT INTO `users` (`name`, `email`) VALUES ('John Doe', 'john.doe@example.com');
        "#;
    let result = MyParser::with_parse(input).unwrap();
    let databases = result.get_databases();
    assert_eq!(databases.len(), 1);
    let db = &databases[0];
    assert_eq!(db.name, "test_db");
    assert_eq!(db.tables.len(), 1);
    let table = table(db, "users").unwrap();
    assert_eq!(table.columns.len(), 3);
    assert_eq!(table.inserts.len(), 1);
}

#[test]
fn test_update_record_in_table() {
    let input = "UPDATE `users` SET `name` = 'Jane Doe' WHERE `id` = 1;";
    let parsed = get_test_database_and_table()
        .set_current_database("test_db")
        .parse(input)
        .unwrap();
    let databases = parsed.get_databases();
    assert_eq!(databases.len(), 1);
    let db = &databases[0];
    assert_eq!(db.name, "test_db");
    assert_eq!(db.tables.len(), 1);
    let table = table(db, "users").unwrap();
    assert_eq!(table.updates.len(), 1);
}

#[test]
fn test_delete_record_from_table() {
    let input = "DELETE FROM `users` WHERE `id` = 1;";
    let parsed = get_test_database_and_table()
        .set_current_database("test_db")
        .parse(input)
        .unwrap();
    let databases = parsed.get_databases();
    assert_eq!(databases.len(), 1);
    let db = &databases[0];
    assert_eq!(db.name, "test_db");
    assert_eq!(db.tables.len(), 1);
    let table = table(db, "users").unwrap();
    assert_eq!(table.deletes.len(), 1);
}

#[test]
fn test_multiple_statements() {
    let input = r#"
        INSERT INTO `users` (`name`, `email`, `password`) VALUES ('John Doe', 'john.doe@example.com', 'password');
        UPDATE `users` SET `name` = 'Jane Doe' WHERE `id` = 1;
        DELETE FROM `users` WHERE `id` = 1;
        SET @last_id = 1;
        "#;
    let result = get_test_database_and_table().parse(input).unwrap();
    let databases = result.get_databases();
    assert_eq!(databases.len(), 1);
    let db = &databases[0];
    assert_eq!(db.name, "test_db");
    assert_eq!(db.tables.len(), 1);
    let table = table(db, "users").unwrap();
    assert_eq!(table.columns.len(), 4);
    assert_eq!(table.inserts.len(), 1);
    println!("insert in multiple_Statements test: {:#?}", table.inserts);
    assert_eq!(table.updates.len(), 1);
    assert_eq!(table.deletes.len(), 1);
}

#[test]
fn test_more_complicated_table() {
    let input = r#"
        CREATE TABLE IF NOT EXISTS `journal` (
            `id` int(11) NOT NULL auto_increment,
            `locked` tinyint(1) NOT NULL default '0',
            `journalname` varchar(50) NOT NULL,
            `type` varchar(20) NOT NULL,
            `userid` int(11) NOT NULL default '0',
            `customid` int(11) NOT NULL default '0',
            `timestamp` bigint(20) unsigned NOT NULL default '0',
            `content` text NOT NULL,
            `title` varchar(255) NOT NULL,
            PRIMARY KEY  (`id`),
            KEY `journalname` (`journalname`)
          ) ENGINE=InnoDB DEFAULT CHARSET=utf8 AUTO_INCREMENT=1 ;
        "#;
    let result = get_test_database_and_table().parse(input).unwrap();
    let databases = result.get_databases();
    assert_eq!(databases.len(), 1);
}

#[test]
fn test_character_following_varchar() {
    let input = r#"
        CREATE TABLE IF NOT EXISTS `name_servers` (
            `id` int(11) NOT NULL auto_increment,
            `server_primary` tinyint(1) NOT NULL,
            `server_name` varchar(255) character set latin1 NOT NULL,
            `server_description` text character set latin1 NOT NULL,
            `server_type` varchar(20) NOT NULL,
            `api_auth_key` varchar(255) character set latin1 NOT NULL,
            `api_sync_config` bigint(20) NOT NULL,
            `api_sync_log` bigint(20) NOT NULL,
            PRIMARY KEY  (`id`)
          ) ENGINE=InnoDB  DEFAULT CHARSET=utf8 AUTO_INCREMENT=1 ;
          "#;
    let result = get_test_database_and_table().parse(input).unwrap();
    let databases = result.get_databases();
    assert_eq!(databases.len(), 1);
}
