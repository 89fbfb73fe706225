use sqlite_xlsx::sql::{
    create_table_sql, insert_sql, list_tables_sql, select_all_sql, table_info_sql,
};

fn columns_of(items: &[&str]) -> Vec<String> {
    items.iter().map(|s| s.to_string()).collect()
}

#[test]
fn list_tables_query() {
    assert_eq!(list_tables_sql(), "SELECT name FROM sqlite_master WHERE type='table'");
}

#[test]
fn table_info_query_brackets_the_name() {
    assert_eq!(table_info_sql("people"), "PRAGMA table_info([people])");
    assert_eq!(table_info_sql("my table"), "PRAGMA table_info([my table])");
}

#[test]
fn select_all_query_brackets_the_name() {
    assert_eq!(select_all_sql("people"), "SELECT * FROM [people]");
}

#[test]
fn create_table_with_two_columns() {
    assert_eq!(
        create_table_sql("Sheet1", &columns_of(&["a", "b"])),
        "CREATE TABLE IF NOT EXISTS [Sheet1] ([a] TEXT, [b] TEXT, [row_number] INTEGER)"
    );
}

#[test]
fn create_table_with_one_column() {
    assert_eq!(
        create_table_sql("t", &columns_of(&["only"])),
        "CREATE TABLE IF NOT EXISTS [t] ([only] TEXT, [row_number] INTEGER)"
    );
}

#[test]
fn create_table_without_columns_keeps_the_separator() {
    assert_eq!(
        create_table_sql("t", &Vec::new()),
        "CREATE TABLE IF NOT EXISTS [t] (, [row_number] INTEGER)"
    );
}

#[test]
fn insert_with_two_columns_has_three_parameters() {
    assert_eq!(
        insert_sql("Sheet1", &columns_of(&["a", "b"])),
        "INSERT INTO [Sheet1] ([a], [b], [row_number]) VALUES (?, ?, ?)"
    );
}

#[test]
fn insert_with_one_column_has_two_parameters() {
    assert_eq!(
        insert_sql("t", &columns_of(&["only"])),
        "INSERT INTO [t] ([only], [row_number]) VALUES (?, ?)"
    );
}

#[test]
fn insert_without_columns_has_one_parameter() {
    assert_eq!(insert_sql("t", &Vec::new()), "INSERT INTO [t] (, [row_number]) VALUES (?)");
}

#[test]
fn insert_has_one_parameter_more_than_columns() {
    for n in 0..20usize {
        let columns: Vec<String> = (0..n).map(|i| format!("c{}", i)).collect();
        let sql = insert_sql("t", &columns);
        assert_eq!(sql.matches('?').count(), n + 1);
    }
}
