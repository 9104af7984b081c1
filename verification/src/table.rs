//! The tabular value that a module hands back: an optional title row and body
//! rows of text cells. Cells carry the little styling the modules use, so any
//! front end can render a table without knowing which module built it.

use vstd::prelude::*;
use vstd::string::*;

verus! {

/// What a cell is meant to convey.
#[derive(Clone, Copy, Debug, PartialEq, Eq, Structural, Hash)]
pub enum CellStyle {
    /// Ordinary text.
    Normal,
    /// A heading or label, shown in bold.
    Header,
    /// An error, shown in red.
    Error,
}

/// Horizontal alignment of a cell's text.
#[derive(Clone, Copy, Debug, PartialEq, Eq, Structural, Hash)]
pub enum Alignment {
    Left,
    Center,
    Right,
}

/// How a table's borders and separators are drawn.
#[derive(Clone, Copy, Debug, PartialEq, Eq, Structural, Hash)]
pub enum TableFormat {
    /// Borders and a line under the titles.
    Default,
    /// No outer border; lines between rows only.
    NoBorderLineSeparator,
}

/// One cell of a table.
#[derive(Clone, Debug, PartialEq, Eq)]
pub struct Cell {
    pub content: String,
    pub style: CellStyle,
    pub align: Alignment,
    /// Number of columns the cell spans; at least 1.
    pub hspan: usize,
}

/// The mathematical content of a `Cell`.
pub ghost struct CellView {
    pub content: Seq<char>,
    pub style: CellStyle,
    pub align: Alignment,
    pub hspan: nat,
}

impl View for Cell {
    type V = CellView;

    open spec fn view(&self) -> CellView {
        CellView {
            content: self.content@,
            style: self.style,
            align: self.align,
            hspan: self.hspan as nat,
        }
    }
}

/// A left-aligned cell of one column.
pub open spec fn styled_cell(content: Seq<char>, style: CellStyle) -> CellView {
    CellView { content, style, align: Alignment::Left, hspan: 1 }
}

/// A left-aligned, unstyled cell of one column.
pub open spec fn text_cell(content: Seq<char>) -> CellView {
    styled_cell(content, CellStyle::Normal)
}

/// A row of unstyled cells, one per text.
pub open spec fn text_row(texts: Seq<Seq<char>>) -> Seq<CellView> {
    Seq::new(texts.len(), |i: int| text_cell(texts[i]))
}

/// A bold label followed by an unstyled value.
pub open spec fn label_value_row(label: Seq<char>, content: Seq<char>) -> Seq<CellView> {
    seq![styled_cell(label, CellStyle::Header), text_cell(content)]
}

/// The span a cell gets when `span` columns are asked for: never less than 1.
pub open spec fn effective_span(span: nat) -> nat {
    if span == 0 {
        1
    } else {
        span
    }
}

/// The title row of a styled table: the module's name, centred over `span`
/// columns.
pub open spec fn title_row(name: Seq<char>, span: nat) -> Seq<CellView> {
    seq![
        CellView {
            content: name,
            style: CellStyle::Normal,
            align: Alignment::Center,
            hspan: effective_span(span),
        },
    ]
}

/// One row of a table.
#[derive(Clone, Debug, PartialEq, Eq)]
pub struct Row {
    pub cells: Vec<Cell>,
}

impl View for Row {
    type V = Seq<CellView>;

    open spec fn view(&self) -> Seq<CellView> {
        Seq::new(self.cells@.len(), |i: int| self.cells@[i]@)
    }
}

/// A table: optional titles, then rows in the order they were added.
#[derive(Clone, Debug, PartialEq, Eq)]
pub struct Table {
    pub titles: Option<Row>,
    pub rows: Vec<Row>,
    pub format: TableFormat,
}

/// The mathematical content of a `Table`.
pub ghost struct TableView {
    pub titles: Option<Seq<CellView>>,
    pub rows: Seq<Seq<CellView>>,
    pub format: TableFormat,
}

impl View for Table {
    type V = TableView;

    open spec fn view(&self) -> TableView {
        TableView {
            titles: match self.titles {
                Some(row) => Some(row@),
                None => None,
            },
            rows: Seq::new(self.rows@.len(), |i: int| self.rows@[i]@),
            format: self.format,
        }
    }
}

impl Cell {
    /// A left-aligned, unstyled cell of one column.
    pub fn new(content: &str) -> (out: Cell)
        ensures
            out@ == text_cell(content@),
    {
        Cell {
            content: content.to_owned(),
            style: CellStyle::Normal,
            align: Alignment::Left,
            hspan: 1,
        }
    }

    /// An unstyled cell of one column with the given alignment.
    pub fn new_align(content: &str, align: Alignment) -> (out: Cell)
        ensures
            out@ == (CellView { align, ..text_cell(content@) }),
    {
        Cell { content: content.to_owned(), style: CellStyle::Normal, align, hspan: 1 }
    }

    /// The same cell with another style.
    pub fn with_style(self, style: CellStyle) -> (out: Cell)
        ensures
            out@ == (CellView { style, ..self@ }),
    {
        Cell { content: self.content, style, align: self.align, hspan: self.hspan }
    }

    /// The same cell spanning `hspan` columns; a span of 0 counts as 1.
    pub fn with_hspan(self, hspan: usize) -> (out: Cell)
        ensures
            out@ == (CellView { hspan: effective_span(hspan as nat), ..self@ }),
    {
        let span = if hspan == 0 {
            1
        } else {
            hspan
        };
        Cell { content: self.content, style: self.style, align: self.align, hspan: span }
    }
}

impl Row {
    /// A row of the given cells.
    pub fn new(cells: Vec<Cell>) -> (out: Row)
        ensures
            out.cells == cells,
    {
        Row { cells }
    }

    /// A row of unstyled cells, one per text.
    pub fn from_texts(texts: &Vec<&str>) -> (out: Row)
        ensures
            out@ == text_row(Seq::new(texts@.len(), |i: int| texts@[i]@)),
    {
        let mut cells: Vec<Cell> = Vec::new();
        let n = texts.len();
        let mut i: usize = 0;
        while i < n
            invariant
                i <= n,
                n == texts@.len(),
                cells@.len() == i,
                forall|k: int| 0 <= k < i ==> (#[trigger] cells@[k])@ == text_cell(texts@[k]@),
            decreases n - i,
        {
            cells.push(Cell::new(texts[i]));
            i = i + 1;
        }
        let out = Row { cells };
        assert(out@ =~= text_row(Seq::new(texts@.len(), |i: int| texts@[i]@)));
        out
    }

    /// Number of cells.
    pub fn len(&self) -> (n: usize)
        ensures
            n == self@.len(),
    {
        self.cells.len()
    }
}

impl Table {
    /// An empty table in the default format.
    pub fn new() -> (out: Table)
        ensures
            out@ == (TableView {
                titles: None,
                rows: Seq::empty(),
                format: TableFormat::Default,
            }),
    {
        let out = Table { titles: None, rows: Vec::new(), format: TableFormat::Default };
        assert(out@.rows =~= Seq::empty());
        out
    }

    /// Replaces the title row.
    pub fn set_titles(&mut self, titles: Row)
        ensures
            final(self)@ == (TableView { titles: Some(titles@), ..old(self)@ }),
    {
        self.titles = Some(titles);
    }

    /// Sets how the table is drawn.
    pub fn set_format(&mut self, format: TableFormat)
        ensures
            final(self)@ == (TableView { format, ..old(self)@ }),
    {
        self.format = format;
    }

    /// Appends a row.
    pub fn add_row(&mut self, row: Row)
        ensures
            final(self)@ == (TableView { rows: old(self)@.rows.push(row@), ..old(self)@ }),
    {
        self.rows.push(row);
        assert(self@.rows =~= old(self)@.rows.push(row@));
    }

    /// Number of body rows.
    pub fn len(&self) -> (n: usize)
        ensures
            n == self@.rows.len(),
    {
        self.rows.len()
    }
}

/// A heading cell.
pub fn header_cell(content: &str) -> (out: Cell)
    ensures
        out@ == styled_cell(content@, CellStyle::Header),
{
    Cell::new(content).with_style(CellStyle::Header)
}

/// An ordinary cell.
pub fn normal_cell(content: &str) -> (out: Cell)
    ensures
        out@ == text_cell(content@),
{
    Cell::new(content)
}

/// A cell that reports an error.
pub fn error_cell(content: &str) -> (out: Cell)
    ensures
        out@ == styled_cell(content@, CellStyle::Error),
{
    Cell::new(content).with_style(CellStyle::Error)
}

/// A row that holds nothing but a heading, to set one module's output off
/// from the next.
pub fn create_module_separator(title: &str) -> (out: Row)
    ensures
        out@ == seq![styled_cell(title@, CellStyle::Header)],
{
    let mut cells: Vec<Cell> = Vec::new();
    cells.push(header_cell(title));
    let out = Row::new(cells);
    assert(out@ =~= seq![styled_cell(title@, CellStyle::Header)]);
    out
}

/// A row of a bold label and its value.
pub fn labeled_row(label: &str, content: &str) -> (out: Row)
    ensures
        out@ == label_value_row(label@, content@),
{
    let mut cells: Vec<Cell> = Vec::new();
    cells.push(header_cell(label));
    cells.push(normal_cell(content));
    let out = Row::new(cells);
    assert(out@ =~= label_value_row(label@, content@));
    out
}

/// An empty table drawn without an outer border.
pub fn create_module_table() -> (out: Table)
    ensures
        out@ == (TableView {
            titles: None,
            rows: Seq::empty(),
            format: TableFormat::NoBorderLineSeparator,
        }),
{
    let mut table = Table::new();
    table.set_format(TableFormat::NoBorderLineSeparator);
    table
}

/// Appends `row` to `table`.
pub fn add_row_to_table(table: &mut Table, row: Row)
    ensures
        final(table)@ == (TableView { rows: old(table)@.rows.push(row@), ..old(table)@ }),
{
    table.add_row(row);
}

/// An empty table whose title is the module's name, centred over `span`
/// columns.
pub fn create_styled_table(module_name: &str, span: usize) -> (out: Table)
    ensures
        out@ == (TableView {
            titles: Some(title_row(module_name@, span as nat)),
            rows: Seq::empty(),
            format: TableFormat::Default,
        }),
{
    let title_cell = Cell::new_align(module_name, Alignment::Center).with_hspan(span);
    let mut cells: Vec<Cell> = Vec::new();
    cells.push(title_cell);
    let title = Row::new(cells);
    assert(title@ =~= title_row(module_name@, span as nat));
    let mut table = Table::new();
    table.set_titles(title);
    table
}

} // verus!
