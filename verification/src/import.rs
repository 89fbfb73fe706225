//! From worksheets to tables.
//!
//! Each worksheet becomes one table of the same name. Its first row gives
//! the column names; every later row becomes one table row, numbered from
//! 1 within its worksheet. A worksheet without a readable range, or
//! without a header, gives no table.

use vstd::prelude::*;
use crate::decimal::{decimal, lemma_decimal_injective, u64_to_decimal};
use crate::header::{column_names, lemma_column_names_len, rename_duplicates};
use crate::sql::{create_table_sql, create_table_text, insert_sql, insert_text};
use crate::text::{grid, lemma_grid_push, lemma_texts_push, texts, Text};

verus! {

/// A worksheet as it was read: its name and its cells as text, row by
/// row. `rows` is `None` where the worksheet has no readable range.
pub struct Worksheet {
    pub name: String,
    pub rows: Option<Vec<Vec<String>>>,
}

/// The mathematical view of a [`Worksheet`].
pub struct WorksheetView {
    pub name: Text,
    pub rows: Option<Seq<Seq<Text>>>,
}

impl View for Worksheet {
    type V = WorksheetView;

    open spec fn view(&self) -> WorksheetView {
        WorksheetView {
            name: self.name@,
            rows: match self.rows {
                Some(rows) => Some(grid(rows@)),
                None => None,
            },
        }
    }
}

/// What importing one worksheet runs: the statement that creates the
/// table, the statement that inserts a row, and the parameters of each
/// insertion, in order.
pub struct TableImport {
    pub create_sql: String,
    pub insert_sql: String,
    pub rows: Vec<Vec<String>>,
}

/// The mathematical view of a [`TableImport`].
pub struct TableImportView {
    pub create_sql: Text,
    pub insert_sql: Text,
    pub rows: Seq<Seq<Text>>,
}

impl View for TableImport {
    type V = TableImportView;

    open spec fn view(&self) -> TableImportView {
        TableImportView {
            create_sql: self.create_sql@,
            insert_sql: self.insert_sql@,
            rows: grid(self.rows@),
        }
    }
}

/// The views of a sequence of worksheets.
pub open spec fn worksheet_views(sheets: Seq<Worksheet>) -> Seq<WorksheetView> {
    Seq::new(sheets.len(), |i: int| sheets[i]@)
}

/// The views of a sequence of table imports.
pub open spec fn table_import_views(tables: Seq<TableImport>) -> Seq<TableImportView> {
    Seq::new(tables.len(), |i: int| tables[i]@)
}

/// Whether `rows` starts with a header: a first row with at least one
/// cell.
pub open spec fn has_header(rows: Seq<Seq<Text>>) -> bool {
    rows.len() > 0 && rows[0].len() > 0
}

/// The parameters of one insertion: the row's cells, then its number.
pub open spec fn row_parameters(cells: Seq<Text>, number: nat) -> Seq<Text> {
    cells.push(decimal(number))
}

/// The parameters of the insertions for a worksheet: one list for each
/// row after the header, numbered 1, 2, 3, ... in worksheet order.
pub open spec fn insert_parameters(rows: Seq<Seq<Text>>) -> Seq<Seq<Text>> {
    let below = if rows.len() > 0 {
        (rows.len() - 1) as nat
    } else {
        0
    };
    Seq::new(below, |i: int| row_parameters(rows[i + 1], (i + 1) as nat))
}

/// What importing `sheet` runs, or `None` where it gives no table.
pub open spec fn table_import(sheet: WorksheetView) -> Option<TableImportView> {
    match sheet.rows {
        Some(rows) if has_header(rows) => {
            let columns = column_names(rows[0]);
            Some(
                TableImportView {
                    create_sql: create_table_text(sheet.name, columns),
                    insert_sql: insert_text(sheet.name, columns),
                    rows: insert_parameters(rows),
                },
            )
        },
        _ => None,
    }
}

/// What importing `sheets` runs: the import of each worksheet that gives
/// a table, in worksheet order.
pub open spec fn import_plan(sheets: Seq<WorksheetView>) -> Seq<TableImportView>
    decreases sheets.len(),
{
    if sheets.len() == 0 {
        Seq::empty()
    } else {
        match table_import(sheets.last()) {
            Some(table) => import_plan(sheets.drop_last()).push(table),
            None => import_plan(sheets.drop_last()),
        }
    }
}

/// A worksheet with `n` rows below its header gives `n` insertions, and
/// the `i`-th of them (from 0) carries the cells of that row followed by
/// the number `i + 1`: the rows are numbered 1, 2, 3, ... in worksheet
/// order, whatever other worksheets hold.
pub proof fn lemma_row_numbering(rows: Seq<Seq<Text>>, i: int)
    requires
        0 <= i < rows.len() - 1,
    ensures
        insert_parameters(rows).len() == rows.len() - 1,
        insert_parameters(rows)[i] == rows[i + 1].push(decimal((i + 1) as nat)),
        insert_parameters(rows)[i].drop_last() == rows[i + 1],
        insert_parameters(rows)[i].last() == decimal((i + 1) as nat),
{
    assert(rows[i + 1].push(decimal((i + 1) as nat)).drop_last() =~= rows[i + 1]);
}

/// Two different rows of a worksheet never get the same number.
pub proof fn lemma_row_numbers_distinct(rows: Seq<Seq<Text>>, i: int, j: int)
    requires
        0 <= i < rows.len() - 1,
        0 <= j < rows.len() - 1,
        i != j,
    ensures
        insert_parameters(rows)[i].last() != insert_parameters(rows)[j].last(),
{
    if decimal((i + 1) as nat) == decimal((j + 1) as nat) {
        lemma_decimal_injective((i + 1) as nat, (j + 1) as nat);
    }
}

/// In a worksheet whose rows are all as wide as its header, every
/// insertion has one parameter for each column and one for the row
/// number: as many as its statement has parameter markers.
pub proof fn lemma_parameters_match_columns(rows: Seq<Seq<Text>>, i: int)
    requires
        has_header(rows),
        forall|r: int| 0 <= r < rows.len() ==> (#[trigger] rows[r]).len() == rows[0].len(),
        0 <= i < rows.len() - 1,
    ensures
        insert_parameters(rows)[i].len() == column_names(rows[0]).len() + 1,
{
    lemma_column_names_len(rows[0]);
    assert(rows[i + 1].len() == rows[0].len());
}

/// A workbook gives at most one table for each worksheet.
pub proof fn lemma_import_plan_len(sheets: Seq<WorksheetView>)
    ensures
        import_plan(sheets).len() <= sheets.len(),
    decreases sheets.len(),
{
    if sheets.len() > 0 {
        lemma_import_plan_len(sheets.drop_last());
    }
}

/// What a worksheet gives does not depend on the worksheets around it:
/// the plan of two runs of worksheets, one after the other, is the plan
/// of the first followed by the plan of the second.
pub proof fn lemma_import_plan_concat(first: Seq<WorksheetView>, second: Seq<WorksheetView>)
    ensures
        import_plan(first + second) == import_plan(first) + import_plan(second),
    decreases second.len(),
{
    if second.len() == 0 {
        assert(first + second =~= first);
        assert(import_plan(first) + import_plan(second) =~= import_plan(first));
    } else {
        let whole = first + second;
        assert(whole.drop_last() =~= first + second.drop_last());
        assert(whole.last() == second.last());
        lemma_import_plan_concat(first, second.drop_last());
        match table_import(second.last()) {
            Some(table) => {
                assert(import_plan(whole) =~= import_plan(first) + import_plan(second));
            },
            None => {},
        }
    }
}

/// Worksheets without a readable range or without a header are passed
/// over: a workbook that holds no other worksheet gives an empty plan.
pub proof fn lemma_skipped_sheets_give_no_tables(sheets: Seq<WorksheetView>)
    requires
        forall|i: int|
            0 <= i < sheets.len() ==> match (#[trigger] sheets[i]).rows {
                Some(rows) => !has_header(rows),
                None => true,
            },
    ensures
        import_plan(sheets).len() == 0,
    decreases sheets.len(),
{
    if sheets.len() > 0 {
        let shorter = sheets.drop_last();
        assert forall|i: int| 0 <= i < shorter.len() implies match (#[trigger] shorter[i]).rows {
            Some(rows) => !has_header(rows),
            None => true,
        } by {
            assert(shorter[i] == sheets[i]);
        }
        lemma_skipped_sheets_give_no_tables(shorter);
        assert(table_import(sheets.last()) is None);
    }
}

/// A copy of a row of strings.
fn copy_row(row: &Vec<String>) -> (copy: Vec<String>)
    ensures
        texts(copy@) == texts(row@),
{
    let mut copy: Vec<String> = Vec::new();
    let mut j: usize = 0;
    proof {
        assert(texts(copy@) =~= texts(row@).take(0));
    }
    while j < row.len()
        invariant
            j <= row.len(),
            texts(copy@) == texts(row@).take(j as int),
        decreases row.len() - j,
    {
        let ghost before = copy@;
        let cell = row[j].clone();
        copy.push(cell);
        proof {
            lemma_texts_push(before, cell);
            assert(texts(row@).take(j + 1) =~= texts(row@).take(j as int).push(cell@));
        }
        j += 1;
    }
    proof {
        assert(texts(row@).take(j as int) =~= texts(row@));
    }
    copy
}

/// The parameters of one insertion: a copy of the row's cells, then the
/// row's number in decimal.
fn parameters_for_row(cells: &Vec<String>, number: u64) -> (parameters: Vec<String>)
    ensures
        texts(parameters@) == row_parameters(texts(cells@), number as nat),
{
    let mut parameters = copy_row(cells);
    let ghost before = parameters@;
    let text = u64_to_decimal(number);
    parameters.push(text);
    proof {
        lemma_texts_push(before, text);
    }
    parameters
}

/// Plans the import of one worksheet.
///
/// Returns `None` where the worksheet has no readable range, no row, or
/// an empty first row. Otherwise the table is named after the worksheet,
/// its columns are the header's names with repeated ones replaced, and
/// every row after the header is inserted with its cells and its number.
pub fn plan_sheet(sheet: &Worksheet) -> (plan: Option<TableImport>)
    ensures
        match plan {
            Some(table) => table_import(sheet@) == Some(table@),
            None => table_import(sheet@) is None,
        },
{
    match &sheet.rows {
        None => None,
        Some(rows) => {
            if rows.len() == 0 {
                return None;
            }
            if rows[0].len() == 0 {
                assert(grid(rows@)[0].len() == 0);
                return None;
            }
            let ghost cells = grid(rows@);
            assert(cells[0] == texts(rows[0]@));
            assert(has_header(cells));
            let columns = rename_duplicates(&rows[0]);
            let create = create_table_sql(sheet.name.as_str(), &columns);
            let insert = insert_sql(sheet.name.as_str(), &columns);
            let mut parameters: Vec<Vec<String>> = Vec::new();
            let mut i: usize = 1;
            proof {
                assert(grid(parameters@) =~= insert_parameters(cells).take(0));
            }
            while i < rows.len()
                invariant
                    1 <= i <= rows.len(),
                    cells == grid(rows@),
                    parameters.len() == i - 1,
                    grid(parameters@) == insert_parameters(cells).take(i - 1),
                decreases rows.len() - i,
            {
                let ghost before = parameters@;
                let row = parameters_for_row(&rows[i], i as u64);
                parameters.push(row);
                proof {
                    lemma_grid_push(before, row);
                    assert(cells[i as int] == texts(rows[i as int]@));
                    assert(insert_parameters(cells).take(i as int) =~= insert_parameters(
                        cells,
                    ).take(i - 1).push(texts(row@)));
                }
                i += 1;
            }
            proof {
                assert(insert_parameters(cells).take(i - 1) =~= insert_parameters(cells));
            }
            Some(TableImport { create_sql: create, insert_sql: insert, rows: parameters })
        },
    }
}

/// Plans the import of a workbook: one table for each worksheet that
/// gives one, in worksheet order.
pub fn plan_import(sheets: &Vec<Worksheet>) -> (plan: Vec<TableImport>)
    ensures
        table_import_views(plan@) == import_plan(worksheet_views(sheets@)),
{
    let ghost all = worksheet_views(sheets@);
    let mut plan: Vec<TableImport> = Vec::new();
    let mut i: usize = 0;
    proof {
        assert(all.take(0) =~= Seq::<WorksheetView>::empty());
        assert(table_import_views(plan@) =~= Seq::<TableImportView>::empty());
    }
    while i < sheets.len()
        invariant
            i <= sheets.len(),
            all == worksheet_views(sheets@),
            table_import_views(plan@) == import_plan(all.take(i as int)),
        decreases sheets.len() - i,
    {
        proof {
            assert(all.take(i + 1).drop_last() =~= all.take(i as int));
            assert(all.take(i + 1).last() == sheets[i as int]@);
        }
        let ghost before = plan@;
        match plan_sheet(&sheets[i]) {
            Some(table) => {
                plan.push(table);
                proof {
                    assert(table_import_views(before.push(table)) =~= table_import_views(
                        before,
                    ).push(table@));
                }
            },
            None => {},
        }
        i += 1;
    }
    proof {
        assert(all.take(i as int) =~= all);
    }
    plan
}

/// One statement to run, with the text of each of its parameters.
pub struct Statement {
    pub sql: String,
    pub parameters: Vec<String>,
}

/// The mathematical view of a [`Statement`].
pub struct StatementView {
    pub sql: Text,
    pub parameters: Seq<Text>,
}

impl View for Statement {
    type V = StatementView;

    open spec fn view(&self) -> StatementView {
        StatementView { sql: self.sql@, parameters: texts(self.parameters@) }
    }
}

/// The views of a sequence of statements.
pub open spec fn statement_views(statements: Seq<Statement>) -> Seq<StatementView> {
    Seq::new(statements.len(), |i: int| statements[i]@)
}

/// The insertions of a table: its insert statement once for each row,
/// with that row's parameters.
pub open spec fn insert_statements(table: TableImportView) -> Seq<StatementView> {
    Seq::new(
        table.rows.len(),
        |i: int| StatementView { sql: table.insert_sql, parameters: table.rows[i] },
    )
}

/// The statements of a table: its creation, without parameters, then its
/// insertions in row order.
pub open spec fn table_statements(table: TableImportView) -> Seq<StatementView> {
    seq![StatementView { sql: table.create_sql, parameters: Seq::empty() }] + insert_statements(
        table,
    )
}

/// The statements of a plan: those of each table, in plan order.
pub open spec fn plan_statements(plan: Seq<TableImportView>) -> Seq<StatementView>
    decreases plan.len(),
{
    if plan.len() == 0 {
        Seq::empty()
    } else {
        plan_statements(plan.drop_last()) + table_statements(plan.last())
    }
}

/// Lists the statements of a plan in the order in which they run: for
/// each table its creation, then its insertions.
pub fn statements(plan: &Vec<TableImport>) -> (list: Vec<Statement>)
    ensures
        statement_views(list@) == plan_statements(table_import_views(plan@)),
{
    let ghost tables = table_import_views(plan@);
    let mut list: Vec<Statement> = Vec::new();
    let mut t: usize = 0;
    proof {
        assert(tables.take(0) =~= Seq::<TableImportView>::empty());
        assert(statement_views(list@) =~= Seq::<StatementView>::empty());
    }
    while t < plan.len()
        invariant
            t <= plan.len(),
            tables == table_import_views(plan@),
            statement_views(list@) == plan_statements(tables.take(t as int)),
        decreases plan.len() - t,
    {
        let table = &plan[t];
        let ghost model = table@;
        let ghost start = statement_views(list@);
        proof {
            assert(tables.take(t + 1).drop_last() =~= tables.take(t as int));
            assert(tables.take(t + 1).last() == model);
        }
        let ghost before = list@;
        let create = Statement { sql: table.create_sql.clone(), parameters: Vec::new() };
        list.push(create);
        proof {
            assert(texts(create.parameters@) =~= Seq::<Text>::empty());
            assert(statement_views(before.push(create)) =~= start + table_statements(model).take(
                1,
            ));
        }
        let mut r: usize = 0;
        while r < table.rows.len()
            invariant
                r <= table.rows.len(),
                model == table@,
                statement_views(list@) == start + table_statements(model).take(r + 1),
            decreases table.rows.len() - r,
        {
            let ghost before = list@;
            let insert = Statement {
                sql: table.insert_sql.clone(),
                parameters: copy_row(&table.rows[r]),
            };
            list.push(insert);
            proof {
                assert(model.rows[r as int] == texts(table.rows[r as int]@));
                assert(insert@ == table_statements(model)[r + 1]);
                assert(statement_views(before.push(insert)) =~= statement_views(before).push(
                    insert@,
                ));
                assert(table_statements(model).take(r + 2) =~= table_statements(model).take(
                    r + 1,
                ).push(insert@));
                assert(statement_views(list@) =~= start + table_statements(model).take(r + 2));
            }
            r += 1;
        }
        proof {
            assert(table_statements(model).take(r + 1) =~= table_statements(model));
        }
        t += 1;
    }
    proof {
        assert(tables.take(t as int) =~= tables);
    }
    list
}

} // verus!
