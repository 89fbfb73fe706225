use rusqlite::types::ValueRef;
use rusqlite::{params_from_iter, Connection};
use sqlite_xlsx::export::{export_table, Column, SqlValue, Table};
use sqlite_xlsx::import::{plan_import, statements, Statement, Worksheet};
use sqlite_xlsx::sql::{list_tables_sql, select_all_sql, table_info_sql};
use sqlite_xlsx::transaction::{advance, next_action, start, succeeded, Action};

fn sheet(name: &str, rows: &[&[&str]]) -> Worksheet {
    Worksheet {
        name: name.to_string(),
        rows: Some(rows.iter().map(|r| r.iter().map(|s| s.to_string()).collect()).collect()),
    }
}

fn run_in_one_transaction(conn: &Connection, list: &[Statement]) -> bool {
    let mut txn = Some(conn.unchecked_transaction().unwrap());
    let mut state = start();
    loop {
        let ok = match next_action(list.len(), state) {
            Action::Execute(k) => txn
                .as_ref()
                .unwrap()
                .execute(&list[k].sql, params_from_iter(list[k].parameters.iter()))
                .is_ok(),
            Action::Commit => txn.take().unwrap().commit().is_ok(),
            Action::RollBack => match txn.take() {
                Some(open) => open.rollback().is_ok(),
                None => true,
            },
            Action::Finish => return succeeded(state),
        };
        state = advance(list.len(), state, ok);
    }
}

fn import(conn: &Connection, sheets: &Vec<Worksheet>) -> bool {
    run_in_one_transaction(conn, &statements(&plan_import(sheets)))
}

fn table_names(conn: &Connection) -> Vec<String> {
    let mut stmt = conn.prepare(&list_tables_sql()).unwrap();
    let names = stmt.query_map([], |row| row.get::<_, String>(0)).unwrap();
    names.map(|n| n.unwrap()).collect()
}

fn read_table(conn: &Connection, name: &str) -> Table {
    let mut info = conn.prepare(&table_info_sql(name)).unwrap();
    let columns: Vec<Column> = info
        .query_map([], |row| Ok(Column { name: row.get(1)?, declared_type: row.get(2)? }))
        .unwrap()
        .map(|c| c.unwrap())
        .collect();
    let mut select = conn.prepare(&select_all_sql(name)).unwrap();
    let width = select.column_count();
    let mut found = select.query([]).unwrap();
    let mut rows = Vec::new();
    while let Some(row) = found.next().unwrap() {
        let mut values = Vec::new();
        for j in 0..width {
            values.push(match row.get_ref(j).unwrap() {
                ValueRef::Null => SqlValue::Null,
                ValueRef::Integer(i) => SqlValue::Integer(i),
                ValueRef::Text(t) => SqlValue::Text(String::from_utf8_lossy(t).into_owned()),
                _ => panic!("unexpected value"),
            });
        }
        rows.push(values);
    }
    Table { name: name.to_string(), columns, rows }
}

fn column_text(conn: &Connection, sql: &str) -> Vec<String> {
    let mut stmt = conn.prepare(sql).unwrap();
    let found = stmt.query_map([], |row| row.get::<_, String>(0)).unwrap();
    found.map(|v| v.unwrap()).collect()
}

fn column_numbers(conn: &Connection, sql: &str) -> Vec<i64> {
    let mut stmt = conn.prepare(sql).unwrap();
    let found = stmt.query_map([], |row| row.get::<_, i64>(0)).unwrap();
    found.map(|v| v.unwrap()).collect()
}

#[test]
fn exported_table_has_header_and_rows_as_text() {
    let conn = Connection::open_in_memory().unwrap();
    conn.execute("CREATE TABLE T (a INTEGER, b TEXT)", []).unwrap();
    conn.execute("INSERT INTO T VALUES (1, 'x')", []).unwrap();
    conn.execute("INSERT INTO T VALUES (2, NULL)", []).unwrap();
    assert_eq!(table_names(&conn), vec!["T"]);
    let table = read_table(&conn, "T");
    assert_eq!(table.columns[0].declared_type, "INTEGER");
    assert_eq!(table.columns[1].declared_type, "TEXT");
    let exported = export_table(&table).unwrap();
    assert_eq!(exported.name, "T");
    let cells: Vec<(u32, u16, &str)> =
        exported.cells.iter().map(|c| (c.row, c.col, c.text.as_str())).collect();
    assert_eq!(
        cells,
        vec![(0, 0, "a"), (0, 1, "b"), (1, 0, "1"), (1, 1, "x"), (2, 0, "2"), (2, 1, "")]
    );
}

#[test]
fn bracketed_queries_reach_a_table_whose_name_has_a_space() {
    let conn = Connection::open_in_memory().unwrap();
    conn.execute("CREATE TABLE [my table] ([first name] TEXT)", []).unwrap();
    conn.execute("INSERT INTO [my table] VALUES ('Ada')", []).unwrap();
    let table = read_table(&conn, "my table");
    assert_eq!(table.columns.len(), 1);
    assert_eq!(table.columns[0].name, "first name");
    assert_eq!(table.rows.len(), 1);
}

#[test]
fn imported_rows_carry_integer_row_numbers_in_source_order() {
    let conn = Connection::open_in_memory().unwrap();
    let sheets = vec![sheet("S", &[&["a", "b"], &["p", "q"], &["r", "s"], &["t", "u"]])];
    assert!(import(&conn, &sheets));
    assert_eq!(column_numbers(&conn, "SELECT row_number FROM S ORDER BY rowid"), vec![1, 2, 3]);
    assert_eq!(
        column_text(&conn, "SELECT typeof(row_number) FROM S"),
        vec!["integer", "integer", "integer"]
    );
    assert_eq!(column_text(&conn, "SELECT a FROM S ORDER BY row_number"), vec!["p", "r", "t"]);
    assert_eq!(column_text(&conn, "SELECT b FROM S ORDER BY row_number"), vec!["q", "s", "u"]);
}

#[test]
fn imported_table_has_renamed_columns_and_row_number() {
    let conn = Connection::open_in_memory().unwrap();
    assert!(import(&conn, &vec![sheet("S", &[&["x", "x", "y"], &["1", "2", "3"]])]));
    assert_eq!(
        column_text(&conn, "SELECT name FROM pragma_table_info('S') ORDER BY cid"),
        vec!["x", "col1", "y", "row_number"]
    );
    assert_eq!(
        column_text(&conn, "SELECT type FROM pragma_table_info('S') ORDER BY cid"),
        vec!["TEXT", "TEXT", "TEXT", "INTEGER"]
    );
    assert_eq!(column_text(&conn, "SELECT col1 FROM S"), vec!["2"]);
}

#[test]
fn worksheets_of_one_name_fill_one_table() {
    let conn = Connection::open_in_memory().unwrap();
    let sheets = vec![
        sheet("T", &[&["a"], &["first"]]),
        sheet("T", &[&["a"], &["second"], &["third"]]),
    ];
    assert!(import(&conn, &sheets));
    assert_eq!(table_names(&conn), vec!["T"]);
    assert_eq!(
        column_text(&conn, "SELECT a FROM T ORDER BY rowid"),
        vec!["first", "second", "third"]
    );
    assert_eq!(column_numbers(&conn, "SELECT row_number FROM T ORDER BY rowid"), vec![1, 1, 2]);
}

#[test]
fn importing_twice_into_one_database_keeps_both_sets_of_rows() {
    let conn = Connection::open_in_memory().unwrap();
    assert!(import(&conn, &vec![sheet("T", &[&["a"], &["one"]])]));
    assert!(import(&conn, &vec![sheet("T", &[&["a"], &["two"]])]));
    assert_eq!(column_text(&conn, "SELECT a FROM T ORDER BY rowid"), vec!["one", "two"]);
}

#[test]
fn failure_on_the_last_worksheet_keeps_nothing() {
    let conn = Connection::open_in_memory().unwrap();
    conn.execute("CREATE TABLE B (z TEXT)", []).unwrap();
    let sheets = vec![
        sheet("A", &[&["a"], &["a1"], &["a2"]]),
        sheet("B", &[&["b"], &["b1"]]),
    ];
    assert!(!import(&conn, &sheets));
    assert_eq!(table_names(&conn), vec!["B"]);
    assert_eq!(column_numbers(&conn, "SELECT count(*) FROM B"), vec![0]);
}

#[test]
fn failure_leaves_earlier_rows_of_an_existing_table_untouched() {
    let conn = Connection::open_in_memory().unwrap();
    assert!(import(&conn, &vec![sheet("A", &[&["a"], &["kept"]])]));
    conn.execute("CREATE TABLE B (z TEXT)", []).unwrap();
    let sheets = vec![
        sheet("A", &[&["a"], &["lost"]]),
        sheet("B", &[&["b"], &["b1"]]),
    ];
    assert!(!import(&conn, &sheets));
    assert_eq!(column_text(&conn, "SELECT a FROM A"), vec!["kept"]);
}

#[test]
fn unreadable_worksheet_gives_no_table_and_no_failure() {
    let conn = Connection::open_in_memory().unwrap();
    let sheets = vec![Worksheet { name: "Gone".to_string(), rows: None }];
    assert!(import(&conn, &sheets));
    assert!(table_names(&conn).is_empty());
}

#[test]
fn row_of_another_width_fails_the_import() {
    let conn = Connection::open_in_memory().unwrap();
    let sheets = vec![sheet("S", &[&["a", "b"], &["only"]])];
    assert!(!import(&conn, &sheets));
    assert!(table_names(&conn).is_empty());
}
