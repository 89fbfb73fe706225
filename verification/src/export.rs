//! From tables to worksheets.
//!
//! Each table becomes one worksheet of the same name. Row 0 holds the
//! column names; the table's rows follow from row 1 on, one worksheet row
//! each, every value written as text.

use vstd::prelude::*;
use crate::decimal::{i64_to_decimal, signed_decimal};
use crate::text::Text;

verus! {

/// The number of columns of a worksheet.
pub const MAX_COLUMNS: usize = 16384;

/// The number of rows of a worksheet below its header: a worksheet has
/// 1,048,576 rows, and row 0 holds the column names.
pub const MAX_ROWS: u32 = 1048575;

/// A value read from a table.
pub enum SqlValue {
    Null,
    Integer(i64),
    Text(String),
}

/// The mathematical view of a [`SqlValue`].
pub enum ValueView {
    Null,
    Integer(int),
    Text(Text),
}

impl View for SqlValue {
    type V = ValueView;

    open spec fn view(&self) -> ValueView {
        match self {
            SqlValue::Null => ValueView::Null,
            SqlValue::Integer(i) => ValueView::Integer(*i as int),
            SqlValue::Text(s) => ValueView::Text(s@),
        }
    }
}

/// A column of a table: its name and the type it was declared with.
pub struct Column {
    pub name: String,
    pub declared_type: String,
}

/// The mathematical view of a [`Column`].
pub struct ColumnView {
    pub name: Text,
    pub declared_type: Text,
}

impl View for Column {
    type V = ColumnView;

    open spec fn view(&self) -> ColumnView {
        ColumnView { name: self.name@, declared_type: self.declared_type@ }
    }
}

/// A table as it was read: its name, its columns in schema order and its
/// rows in query order.
pub struct Table {
    pub name: String,
    pub columns: Vec<Column>,
    pub rows: Vec<Vec<SqlValue>>,
}

/// The mathematical view of a [`Table`].
pub struct TableView {
    pub name: Text,
    pub columns: Seq<ColumnView>,
    pub rows: Seq<Seq<ValueView>>,
}

/// The views of a row of values.
pub open spec fn value_views(row: Seq<SqlValue>) -> Seq<ValueView> {
    Seq::new(row.len(), |j: int| row[j]@)
}

impl View for Table {
    type V = TableView;

    open spec fn view(&self) -> TableView {
        TableView {
            name: self.name@,
            columns: Seq::new(self.columns@.len(), |j: int| self.columns@[j]@),
            rows: Seq::new(self.rows@.len(), |i: int| value_views(self.rows@[i]@)),
        }
    }
}

/// One cell to write: its row, its column and its text.
pub struct CellWrite {
    pub row: u32,
    pub col: u16,
    pub text: String,
}

/// The mathematical view of a [`CellWrite`].
pub struct CellView {
    pub row: nat,
    pub col: nat,
    pub text: Text,
}

impl View for CellWrite {
    type V = CellView;

    open spec fn view(&self) -> CellView {
        CellView { row: self.row as nat, col: self.col as nat, text: self.text@ }
    }
}

/// A worksheet to write: its name and its cells in writing order.
pub struct SheetExport {
    pub name: String,
    pub cells: Vec<CellWrite>,
}

/// The mathematical view of a [`SheetExport`].
pub struct SheetView {
    pub name: Text,
    pub cells: Seq<CellView>,
}

/// The views of a sequence of cells.
pub open spec fn cell_views(cells: Seq<CellWrite>) -> Seq<CellView> {
    Seq::new(cells.len(), |k: int| cells[k]@)
}

impl View for SheetExport {
    type V = SheetView;

    open spec fn view(&self) -> SheetView {
        SheetView { name: self.name@, cells: cell_views(self.cells@) }
    }
}

/// Why a table cannot be written as a worksheet.
#[derive(Debug, Clone, Copy, PartialEq, Eq, Structural)]
pub enum ExportError {
    /// The table has more than [`MAX_COLUMNS`] columns.
    TooManyColumns,
    /// The table has more than [`MAX_ROWS`] rows.
    TooManyRows,
    /// Row `row` of the table ends before column `column`.
    MissingValue { row: usize, column: usize },
}

/// The text of a value in a cell: nothing for `Null`, the decimal text of
/// an integer, and a text as it is.
pub open spec fn value_text(value: ValueView) -> Text {
    match value {
        ValueView::Null => Seq::empty(),
        ValueView::Integer(i) => signed_decimal(i),
        ValueView::Text(t) => t,
    }
}

/// The header: the column names in row 0, in schema order.
pub open spec fn header_cells(columns: Seq<ColumnView>) -> Seq<CellView> {
    Seq::new(columns.len(), |j: int| CellView { row: 0, col: j as nat, text: columns[j].name })
}

/// The cells of one table row: its first `width` values as text, in
/// worksheet row `number`.
pub open spec fn row_cells(number: nat, values: Seq<ValueView>, width: nat) -> Seq<CellView> {
    Seq::new(
        width,
        |j: int| CellView { row: number, col: j as nat, text: value_text(values[j]) },
    )
}

/// The cells of the table rows: the `i`-th row (from 0) in worksheet row
/// `i + 1`, row after row.
pub open spec fn data_cells(rows: Seq<Seq<ValueView>>, width: nat) -> Seq<CellView>
    decreases rows.len(),
{
    if rows.len() == 0 {
        Seq::empty()
    } else {
        data_cells(rows.drop_last(), width) + row_cells(rows.len(), rows.last(), width)
    }
}

/// The worksheet of `table`: named after it, the header followed by the
/// table rows.
pub open spec fn sheet_of(table: TableView) -> SheetView {
    SheetView {
        name: table.name,
        cells: header_cells(table.columns) + data_cells(table.rows, table.columns.len()),
    }
}

/// The table rows fill `width` cells each.
pub proof fn lemma_data_cells_len(rows: Seq<Seq<ValueView>>, width: nat)
    ensures
        data_cells(rows, width).len() == rows.len() * width,
    decreases rows.len(),
{
    let n = rows.len() as int;
    let w = width as int;
    if n == 0 {
        assert(0 * w == 0);
    } else {
        lemma_data_cells_len(rows.drop_last(), width);
        assert((n - 1) * w + w == n * w) by (nonlinear_arith);
    }
}

/// The table rows fill a block of `width` cells each, and the value in
/// column `j` of the `i`-th row (from 0) lands in worksheet row `i + 1`,
/// column `j`.
pub proof fn lemma_data_cell_at(rows: Seq<Seq<ValueView>>, width: nat, i: int, j: int)
    requires
        0 <= i < rows.len(),
        0 <= j < width,
    ensures
        data_cells(rows, width).len() == rows.len() * width,
        0 <= i * width + j < rows.len() * width,
        data_cells(rows, width)[i * width + j] == (CellView {
            row: (i + 1) as nat,
            col: j as nat,
            text: value_text(rows[i][j]),
        }),
    decreases rows.len(),
{
    let n = rows.len() as int;
    let w = width as int;
    let shorter = rows.drop_last();
    lemma_data_cells_len(shorter, width);
    lemma_data_cells_len(rows, width);
    assert((n - 1) * w + w == n * w) by (nonlinear_arith);
    if i < n - 1 {
        assert(i * w + j < (n - 1) * w) by (nonlinear_arith)
            requires
                0 <= i < n - 1,
                0 <= j < w,
        ;
        assert(0 <= i * w + j) by (nonlinear_arith)
            requires
                0 <= i,
                0 <= j,
                0 <= w,
        ;
        lemma_data_cell_at(shorter, width, i, j);
        assert(shorter[i] == rows[i]);
    } else {
        assert(i * w == (n - 1) * w);
        assert(0 <= (n - 1) * w) by (nonlinear_arith)
            requires
                1 <= n,
                0 <= w,
        ;
        assert(data_cells(rows, width)[i * w + j] == row_cells(rows.len(), rows.last(), width)[j]);
    }
}

/// The layout of a worksheet: the name of column `j` is the `j`-th cell,
/// at row 0 and column `j`; below the header, the value in column `j` of
/// the table's `i`-th row (from 0) is at row `i + 1` and column `j`, and
/// no further cell, such as a row number, is added.
pub proof fn lemma_sheet_layout(table: TableView, i: int, j: int)
    requires
        0 <= i < table.rows.len(),
        0 <= j < table.columns.len(),
    ensures
        sheet_of(table).name == table.name,
        sheet_of(table).cells.len() == table.columns.len() + table.rows.len() * table.columns.len(),
        sheet_of(table).cells[j] == (CellView { row: 0, col: j as nat, text: table.columns[j].name }),
        sheet_of(table).cells[table.columns.len() + i * table.columns.len() + j] == (CellView {
            row: (i + 1) as nat,
            col: j as nat,
            text: value_text(table.rows[i][j]),
        }),
{
    lemma_data_cell_at(table.rows, table.columns.len(), i, j);
}

/// Whether every cell of `table` has an address and a value: the columns
/// and rows are within the worksheet limits and no row ends before the
/// last column.
pub open spec fn exportable(table: TableView) -> bool {
    &&& table.columns.len() <= MAX_COLUMNS
    &&& table.rows.len() <= MAX_ROWS
    &&& forall|i: int| 0 <= i < table.rows.len() ==> (#[trigger] table.rows[i]).len() >= table.columns.len()
}

/// Whether `error` is what stops the export of `table`: the column limit
/// is checked first, then the row limit, then the rows from the top.
pub open spec fn export_failure(table: TableView, error: ExportError) -> bool {
    match error {
        ExportError::TooManyColumns => table.columns.len() > MAX_COLUMNS,
        ExportError::TooManyRows => {
            &&& table.columns.len() <= MAX_COLUMNS
            &&& table.rows.len() > MAX_ROWS
        },
        ExportError::MissingValue { row, column } => {
            &&& table.columns.len() <= MAX_COLUMNS
            &&& table.rows.len() <= MAX_ROWS
            &&& row < table.rows.len()
            &&& column == table.rows[row as int].len()
            &&& column < table.columns.len()
            &&& forall|i: int| 0 <= i < row ==> (#[trigger] table.rows[i]).len() >= table.columns.len()
        },
    }
}

/// A table that can be exported has no failure.
pub proof fn lemma_failure_excludes_export(table: TableView, error: ExportError)
    requires
        export_failure(table, error),
    ensures
        !exportable(table),
{
    match error {
        ExportError::MissingValue { row, column } => {
            assert(table.rows[row as int].len() < table.columns.len());
        },
        _ => {},
    }
}

/// The topmost row that ends before column `width`, given one such row.
proof fn lemma_topmost_short_row(rows: Seq<Seq<ValueView>>, width: nat, below: int) -> (row: int)
    requires
        0 <= below < rows.len(),
        rows[below].len() < width,
    ensures
        0 <= row <= below,
        rows[row].len() < width,
        forall|i: int| 0 <= i < row ==> (#[trigger] rows[i]).len() >= width,
    decreases below,
{
    if exists|j: int| 0 <= j < below && (#[trigger] rows[j]).len() < width {
        let j = choose|j: int| 0 <= j < below && (#[trigger] rows[j]).len() < width;
        lemma_topmost_short_row(rows, width, j)
    } else {
        below
    }
}

/// A table that cannot be exported has a failure.
pub proof fn lemma_failure_exists(table: TableView) -> (error: ExportError)
    requires
        !exportable(table),
        table.rows.len() <= usize::MAX,
        forall|i: int| 0 <= i < table.rows.len() ==> (#[trigger] table.rows[i]).len() <= usize::MAX,
    ensures
        export_failure(table, error),
{
    if table.columns.len() > MAX_COLUMNS {
        ExportError::TooManyColumns
    } else if table.rows.len() > MAX_ROWS {
        ExportError::TooManyRows
    } else {
        let width = table.columns.len();
        let below = choose|i: int| 0 <= i < table.rows.len() && (#[trigger] table.rows[i]).len() < width;
        let row = lemma_topmost_short_row(table.rows, width, below);
        ExportError::MissingValue { row: row as usize, column: table.rows[row].len() as usize }
    }
}

/// At most one failure stops the export of a table.
pub proof fn lemma_export_failure_unique(table: TableView, first: ExportError, second: ExportError)
    requires
        export_failure(table, first),
        export_failure(table, second),
    ensures
        first == second,
{
    match (first, second) {
        (
            ExportError::MissingValue { row: r1, column: c1 },
            ExportError::MissingValue { row: r2, column: c2 },
        ) => {
            if r1 < r2 {
                assert(table.rows[r1 as int].len() >= table.columns.len());
            } else if r2 < r1 {
                assert(table.rows[r2 as int].len() >= table.columns.len());
            }
        },
        _ => {},
    }
}

/// Writes a value as the text of its cell.
pub fn value_to_text(value: &SqlValue) -> (text: String)
    ensures
        text@ == value_text(value@),
{
    match value {
        SqlValue::Null => String::new(),
        SqlValue::Integer(i) => i64_to_decimal(*i),
        SqlValue::Text(s) => s.clone(),
    }
}

/// Lays a table out as a worksheet.
///
/// Fails where the table has more columns or rows than a worksheet
/// holds, or where one of its rows has fewer values than the table has
/// columns. Values beyond the last column are left out.
pub fn export_table(table: &Table) -> (result: Result<SheetExport, ExportError>)
    ensures
        match result {
            Ok(sheet) => exportable(table@) && sheet@ == sheet_of(table@),
            Err(error) => export_failure(table@, error),
        },
{
    let width = table.columns.len();
    if width > MAX_COLUMNS {
        return Err(ExportError::TooManyColumns);
    }
    if table.rows.len() > MAX_ROWS as usize {
        return Err(ExportError::TooManyRows);
    }
    let ghost model = table@;
    let mut cells: Vec<CellWrite> = Vec::new();
    let mut j: usize = 0;
    proof {
        assert(cell_views(cells@) =~= header_cells(model.columns).take(0));
    }
    while j < width
        invariant
            j <= width,
            width == table.columns.len(),
            width <= MAX_COLUMNS,
            model == table@,
            cell_views(cells@) == header_cells(model.columns).take(j as int),
        decreases width - j,
    {
        let ghost before = cells@;
        let cell = CellWrite { row: 0, col: j as u16, text: table.columns[j].name.clone() };
        cells.push(cell);
        proof {
            assert(cell@ == header_cells(model.columns)[j as int]);
            assert(cell_views(before.push(cell)) =~= header_cells(model.columns).take(
                j as int,
            ).push(cell@));
            assert(header_cells(model.columns).take(j + 1) =~= header_cells(
                model.columns,
            ).take(j as int).push(cell@));
        }
        j += 1;
    }
    proof {
        assert(header_cells(model.columns).take(j as int) =~= header_cells(model.columns));
        assert(model.rows.take(0) =~= Seq::<Seq<ValueView>>::empty());
        assert(cell_views(cells@) =~= header_cells(model.columns) + data_cells(
            model.rows.take(0),
            width as nat,
        ));
    }
    let mut i: usize = 0;
    while i < table.rows.len()
        invariant
            i <= table.rows.len(),
            width == table.columns.len(),
            width <= MAX_COLUMNS,
            table.rows.len() <= MAX_ROWS,
            model == table@,
            forall|k: int| 0 <= k < i ==> (#[trigger] model.rows[k]).len() >= width,
            cell_views(cells@) == header_cells(model.columns) + data_cells(
                model.rows.take(i as int),
                width as nat,
            ),
        decreases table.rows.len() - i,
    {
        let row = &table.rows[i];
        assert(model.rows[i as int] == value_views(row@));
        if row.len() < width {
            return Err(ExportError::MissingValue { row: i, column: row.len() });
        }
        let number: u32 = (i + 1) as u32;
        let ghost start = cells@;
        let ghost values = value_views(row@);
        let mut c: usize = 0;
        proof {
            assert(cell_views(cells@) =~= cell_views(start) + row_cells(
                number as nat,
                values,
                width as nat,
            ).take(0));
        }
        while c < width
            invariant
                c <= width,
                width <= MAX_COLUMNS,
                width <= row.len(),
                values == value_views(row@),
                cell_views(cells@) == cell_views(start) + row_cells(
                    number as nat,
                    values,
                    width as nat,
                ).take(c as int),
            decreases width - c,
        {
            let ghost before = cells@;
            let cell = CellWrite { row: number, col: c as u16, text: value_to_text(&row[c]) };
            cells.push(cell);
            proof {
                let whole = row_cells(number as nat, values, width as nat);
                assert(cell@ == whole[c as int]);
                assert(cell_views(before.push(cell)) =~= cell_views(before).push(cell@));
                assert(whole.take(c + 1) =~= whole.take(c as int).push(cell@));
                assert(cell_views(cells@) =~= cell_views(start) + whole.take(c + 1));
            }
            c += 1;
        }
        proof {
            let whole = row_cells(number as nat, values, width as nat);
            assert(whole.take(c as int) =~= whole);
            let next = model.rows.take(i + 1);
            assert(next.drop_last() =~= model.rows.take(i as int));
            assert(next.last() == values);
            assert(cell_views(cells@) =~= header_cells(model.columns) + data_cells(
                next,
                width as nat,
            ));
        }
        i += 1;
    }
    proof {
        assert(model.rows.take(i as int) =~= model.rows);
    }
    let name = table.name.clone();
    Ok(SheetExport { name, cells })
}

/// Why a database cannot be written as a workbook: the first table, in
/// catalog order, that cannot be written, and what stops it.
#[derive(Debug, Clone, Copy, PartialEq, Eq, Structural)]
pub struct DatabaseExportError {
    pub table: usize,
    pub error: ExportError,
}

/// The views of a sequence of tables.
pub open spec fn table_views(tables: Seq<Table>) -> Seq<TableView> {
    Seq::new(tables.len(), |i: int| tables[i]@)
}

/// The views of a sequence of worksheets.
pub open spec fn sheet_views(sheets: Seq<SheetExport>) -> Seq<SheetView> {
    Seq::new(sheets.len(), |i: int| sheets[i]@)
}

/// The workbook of a database: the worksheet of each table, in catalog
/// order.
pub open spec fn workbook_of(tables: Seq<TableView>) -> Seq<SheetView> {
    Seq::new(tables.len(), |i: int| sheet_of(tables[i]))
}

/// Lays a database out as a workbook: exactly one worksheet for each
/// table, in catalog order.
///
/// Fails at the first table that cannot be written.
pub fn export_database(tables: &Vec<Table>) -> (result: Result<
    Vec<SheetExport>,
    DatabaseExportError,
>)
    ensures
        match result {
            Ok(sheets) => {
                &&& forall|i: int| 0 <= i < tables.len() ==> exportable(#[trigger] tables[i]@)
                &&& sheet_views(sheets@) == workbook_of(table_views(tables@))
            },
            Err(failure) => {
                &&& failure.table < tables.len()
                &&& export_failure(tables[failure.table as int]@, failure.error)
                &&& forall|i: int| 0 <= i < failure.table ==> exportable(#[trigger] tables[i]@)
            },
        },
{
    let ghost whole = workbook_of(table_views(tables@));
    let mut sheets: Vec<SheetExport> = Vec::new();
    let mut i: usize = 0;
    proof {
        assert(sheet_views(sheets@) =~= whole.take(0));
    }
    while i < tables.len()
        invariant
            i <= tables.len(),
            whole == workbook_of(table_views(tables@)),
            forall|k: int| 0 <= k < i ==> exportable(#[trigger] tables[k]@),
            sheet_views(sheets@) == whole.take(i as int),
        decreases tables.len() - i,
    {
        let ghost before = sheets@;
        match export_table(&tables[i]) {
            Ok(sheet) => {
                sheets.push(sheet);
                proof {
                    assert(whole[i as int] == sheet@);
                    assert(sheet_views(before.push(sheet)) =~= whole.take(i as int).push(sheet@));
                    assert(whole.take(i + 1) =~= whole.take(i as int).push(sheet@));
                }
            },
            Err(error) => {
                return Err(DatabaseExportError { table: i, error });
            },
        }
        i += 1;
    }
    proof {
        assert(whole.take(i as int) =~= whole);
    }
    Ok(sheets)
}

} // verus!
