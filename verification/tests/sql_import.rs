use stellux::handlers::sql_import::{
    classify_sql_statement, convert_mysql_to_postgres, plan_sql_import, split_sql_statements,
    SqlImportResult, SqlStatementAction,
};

#[test]
fn splits_on_semicolons_outside_quotes_and_dollar_bodies() {
    let sql = "INSERT INTO t VALUES ('a;b'); CREATE FUNCTION f() RETURNS int AS $$ BEGIN RETURN 1; END; $$ LANGUAGE plpgsql;\n SELECT 1";
    let parts = split_sql_statements(sql);
    assert_eq!(parts.len(), 3);
    assert_eq!(parts[0], "INSERT INTO t VALUES ('a;b');");
    assert!(parts[1].starts_with("CREATE FUNCTION"));
    assert!(parts[1].contains("RETURN 1; END;"));
    assert_eq!(parts[2], "SELECT 1");
}

#[test]
fn blank_input_has_no_statements() {
    assert!(split_sql_statements("   \n ; ").is_empty());
    assert!(split_sql_statements("").is_empty());
}

#[test]
fn mysql_dump_lines_are_converted() {
    let out = convert_mysql_to_postgres("SET NAMES utf8mb4;\nINSERT INTO `blogs` VALUES (1);\n");
    assert!(!out.contains('`'));
    assert!(out.contains("INSERT INTO blogs VALUES (1);"));
    assert!(!out.contains("SET NAMES"));
}

fn action_text(a: &SqlStatementAction) -> (u8, String) {
    match a {
        SqlStatementAction::Skip => (0, String::new()),
        SqlStatementAction::Reject(m) => (1, m.clone()),
        SqlStatementAction::Execute(s) => (2, s.clone()),
    }
}

#[test]
fn statements_are_classified() {
    assert_eq!(action_text(&classify_sql_statement(0, "  ")), (0, String::new()));
    assert_eq!(action_text(&classify_sql_statement(0, "begin")), (0, String::new()));
    assert_eq!(action_text(&classify_sql_statement(0, "create table x (id int)")), (0, String::new()));
    assert_eq!(
        action_text(&classify_sql_statement(2, "drop table blogs")),
        (1, "Statement 3: Skipped dangerous operation".to_string())
    );
    assert_eq!(
        action_text(&classify_sql_statement(0, "insert into users values (1)")),
        (1, "Statement 1: Skipped user data operation (use setup page to create admin)".to_string())
    );
    assert_eq!(
        action_text(&classify_sql_statement(4, "  insert into tags values (1) ")),
        (2, "insert into tags values (1)".to_string())
    );
}

#[test]
fn plan_covers_every_statement() {
    // Statements keep their `;`, so `BEGIN;` is not the bare `BEGIN` that is skipped.
    let plan = plan_sql_import("BEGIN; INSERT INTO tags VALUES (1); DROP TABLE tags; COMMIT");
    let kinds: Vec<u8> = plan.iter().map(|a| action_text(a).0).collect();
    assert_eq!(kinds, vec![2, 2, 1, 0]);
}

#[test]
fn outcomes_are_tallied() {
    let mut r = SqlImportResult::new();
    r.record_outcome(0, Ok(()));
    r.record_outcome(1, Err("relation \"x\" already exists".to_string()));
    assert!(r.success);
    assert_eq!(r.statements_executed, 2);
    r.record_outcome(2, Err("syntax error".to_string()));
    assert!(!r.success);
    assert_eq!(r.errors, vec!["Statement 3: syntax error".to_string()]);
    r.record_rejection("Statement 4: Skipped dangerous operation".to_string());
    assert_eq!(r.errors.len(), 2);
    assert_eq!(r.statements_executed, 2);
}

#[test]
fn named_dollar_bodies_are_kept_as_written() {
    let sql = "DO $body$ BEGIN PERFORM 1; END $body$; SELECT 1";
    assert_eq!(
        split_sql_statements(sql),
        vec!["DO $body$ BEGIN PERFORM 1; END $body$;".to_string(), "SELECT 1".to_string()]
    );
    let inner = "CREATE FUNCTION g() AS $fn$ SELECT $x$a;b$x$; $fn$; SELECT 2";
    assert_eq!(
        split_sql_statements(inner),
        vec!["CREATE FUNCTION g() AS $fn$ SELECT $x$a;b$x$; $fn$;".to_string(), "SELECT 2".to_string()]
    );
}
