use ib::migrations::migration_statements;

#[test]
fn script_is_cut_at_semicolons_without_comments() {
    let sql = "-- tables\nCREATE TABLE A (X INTEGER);\r\n  -- note\nCREATE TABLE B (\n  Y TEXT -- inline stays\n);\n\n;  ";
    assert_eq!(
        migration_statements(sql),
        vec![
            "CREATE TABLE A (X INTEGER)".to_string(),
            "CREATE TABLE B (\n  Y TEXT -- inline stays\n)".to_string(),
        ]
    );
}

#[test]
fn empty_script_has_no_statements() {
    assert!(migration_statements("").is_empty());
    assert!(migration_statements("-- only a comment\n;\n").is_empty());
}

#[test]
fn carriage_returns_of_line_endings_are_dropped() {
    assert_eq!(
        migration_statements("SELECT 1\r\nFROM T\r\n"),
        vec!["SELECT 1\nFROM T".to_string()]
    );
}
