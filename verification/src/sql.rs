//! The SQL statements that the conversions run.
//!
//! Table and column names are written between square brackets. Every
//! imported table gets one `TEXT` column per header entry and a trailing
//! `INTEGER` column named `row_number`.

use vstd::prelude::*;
use crate::text::{texts, Text};

verus! {

/// `name` between square brackets.
pub open spec fn bracketed(name: Text) -> Text {
    seq!['['] + name + seq![']']
}

/// `parts`, with `sep` between each two neighbours.
pub open spec fn joined(parts: Seq<Text>, sep: Text) -> Text
    decreases parts.len(),
{
    if parts.len() == 0 {
        Seq::empty()
    } else if parts.len() == 1 {
        parts[0]
    } else {
        joined(parts.drop_last(), sep) + sep + parts.last()
    }
}

/// The definition of each column: its bracketed name and the type `TEXT`.
pub open spec fn column_definitions(columns: Seq<Text>) -> Seq<Text> {
    Seq::new(columns.len(), |i: int| bracketed(columns[i]) + " TEXT"@)
}

/// Each column name between square brackets.
pub open spec fn bracketed_columns(columns: Seq<Text>) -> Seq<Text> {
    Seq::new(columns.len(), |i: int| bracketed(columns[i]))
}

/// `count` parameter markers.
pub open spec fn placeholders(count: nat) -> Seq<Text> {
    Seq::new(count, |i: int| "?"@)
}

/// The query that lists the tables of a database.
pub open spec fn list_tables_text() -> Text {
    "SELECT name FROM sqlite_master WHERE type='table'"@
}

/// The query that describes the columns of `table`.
pub open spec fn table_info_text(table: Text) -> Text {
    "PRAGMA table_info("@ + bracketed(table) + ")"@
}

/// The query that reads every row of `table`.
pub open spec fn select_all_text(table: Text) -> Text {
    "SELECT * FROM "@ + bracketed(table)
}

/// The statement that creates `table` with `columns`, unless it exists.
pub open spec fn create_table_text(table: Text, columns: Seq<Text>) -> Text {
    "CREATE TABLE IF NOT EXISTS "@ + bracketed(table) + " ("@ + joined(
        column_definitions(columns),
        ", "@,
    ) + ", [row_number] INTEGER)"@
}

/// The statement that inserts one row into `table`: a parameter for each
/// of `columns`, then one for the row number.
pub open spec fn insert_text(table: Text, columns: Seq<Text>) -> Text {
    "INSERT INTO "@ + bracketed(table) + " ("@ + joined(bracketed_columns(columns), ", "@)
        + ", [row_number]) VALUES ("@ + joined(placeholders(columns.len() + 1), ", "@) + ")"@
}

/// Appends `name` between square brackets.
fn append_bracketed(sql: &mut String, name: &str)
    ensures
        final(sql)@ == old(sql)@ + bracketed(name@),
{
    proof {
        reveal_strlit("[");
        reveal_strlit("]");
    }
    sql.append("[");
    sql.append(name);
    sql.append("]");
    assert(sql@ =~= old(sql)@ + bracketed(name@));
}

/// The query that lists the tables of a database.
pub fn list_tables_sql() -> (sql: String)
    ensures
        sql@ == list_tables_text(),
{
    String::from_str("SELECT name FROM sqlite_master WHERE type='table'")
}

/// The query that describes the columns of `table`.
pub fn table_info_sql(table: &str) -> (sql: String)
    ensures
        sql@ == table_info_text(table@),
{
    let mut sql = String::from_str("PRAGMA table_info(");
    append_bracketed(&mut sql, table);
    sql.append(")");
    sql
}

/// The query that reads every row of `table`.
pub fn select_all_sql(table: &str) -> (sql: String)
    ensures
        sql@ == select_all_text(table@),
{
    let mut sql = String::from_str("SELECT * FROM ");
    append_bracketed(&mut sql, table);
    sql
}

/// The statement that creates `table` with `columns`, unless it exists.
pub fn create_table_sql(table: &str, columns: &Vec<String>) -> (sql: String)
    ensures
        sql@ == create_table_text(table@, texts(columns@)),
{
    let mut sql = String::from_str("CREATE TABLE IF NOT EXISTS ");
    append_bracketed(&mut sql, table);
    sql.append(" (");
    let ghost head = sql@;
    let ghost names = texts(columns@);
    let mut i: usize = 0;
    proof {
        assert(column_definitions(names.take(0)) =~= Seq::<Text>::empty());
        assert(sql@ =~= head + joined(column_definitions(names.take(0)), ", "@));
    }
    while i < columns.len()
        invariant
            i <= columns.len(),
            names == texts(columns@),
            sql@ == head + joined(column_definitions(names.take(i as int)), ", "@),
        decreases columns.len() - i,
    {
        let ghost so_far = joined(column_definitions(names.take(i as int)), ", "@);
        let ghost next = column_definitions(names.take(i + 1));
        proof {
            assert(next.drop_last() =~= column_definitions(names.take(i as int)));
            assert(next.last() == bracketed(columns[i as int]@) + " TEXT"@);
        }
        if i > 0 {
            sql.append(", ");
        }
        append_bracketed(&mut sql, columns[i].as_str());
        sql.append(" TEXT");
        proof {
            if i == 0 {
                assert(so_far =~= Seq::<char>::empty());
                assert(sql@ =~= head + joined(next, ", "@));
            } else {
                assert(sql@ =~= head + joined(next, ", "@));
            }
        }
        i += 1;
    }
    proof {
        assert(names.take(i as int) =~= names);
    }
    sql.append(", [row_number] INTEGER)");
    sql
}

/// The statement that inserts one row into `table`: a parameter for each
/// of `columns`, then one for the row number.
pub fn insert_sql(table: &str, columns: &Vec<String>) -> (sql: String)
    ensures
        sql@ == insert_text(table@, texts(columns@)),
{
    let mut sql = String::from_str("INSERT INTO ");
    append_bracketed(&mut sql, table);
    sql.append(" (");
    let ghost head = sql@;
    let ghost names = texts(columns@);
    let mut i: usize = 0;
    proof {
        assert(bracketed_columns(names.take(0)) =~= Seq::<Text>::empty());
        assert(sql@ =~= head + joined(bracketed_columns(names.take(0)), ", "@));
    }
    while i < columns.len()
        invariant
            i <= columns.len(),
            names == texts(columns@),
            sql@ == head + joined(bracketed_columns(names.take(i as int)), ", "@),
        decreases columns.len() - i,
    {
        let ghost so_far = joined(bracketed_columns(names.take(i as int)), ", "@);
        let ghost next = bracketed_columns(names.take(i + 1));
        proof {
            assert(next.drop_last() =~= bracketed_columns(names.take(i as int)));
            assert(next.last() == bracketed(columns[i as int]@));
        }
        if i > 0 {
            sql.append(", ");
        }
        append_bracketed(&mut sql, columns[i].as_str());
        proof {
            if i == 0 {
                assert(so_far =~= Seq::<char>::empty());
                assert(sql@ =~= head + joined(next, ", "@));
            } else {
                assert(sql@ =~= head + joined(next, ", "@));
            }
        }
        i += 1;
    }
    proof {
        assert(names.take(i as int) =~= names);
    }
    sql.append(", [row_number]) VALUES (");
    let ghost middle = sql@;
    sql.append("?");
    proof {
        assert(placeholders(1).len() == 1);
        assert(sql@ =~= middle + joined(placeholders(1), ", "@));
    }
    let mut k: usize = 0;
    while k < columns.len()
        invariant
            k <= columns.len(),
            sql@ == middle + joined(placeholders((k + 1) as nat), ", "@),
        decreases columns.len() - k,
    {
        proof {
            let next = placeholders((k + 2) as nat);
            assert(next.drop_last() =~= placeholders((k + 1) as nat));
            assert(next.last() == "?"@);
        }
        sql.append(", ");
        sql.append("?");
        proof {
            assert(sql@ =~= middle + joined(placeholders((k + 2) as nat), ", "@));
        }
        k += 1;
    }
    sql.append(")");
    sql
}

} // verus!
