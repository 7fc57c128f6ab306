use vstd::prelude::*;
use vstd::string::StringExecFns;

use comfy_table::Table;

use crate::types::{TableDetails, TableDetailsView, VecTableDetails, Output};

verus! {

#[verifier::external_type_specification]
#[verifier::external_body]
pub struct ExTable(comfy_table::Table);

/// What a `comfy_table::Table` holds: the texts of its header cells, if it
/// has a header, and the texts of the cells of its rows, row by row. A
/// cell's text is what `Cell::content` gives back: the text it was made
/// from.
pub uninterp spec fn table_cells(t: Table) -> (Option<Seq<Seq<char>>>, Seq<Seq<Seq<char>>>);

/// How a `comfy_table::Table` is laid out: whether its content arrangement
/// is `ContentArrangement::Dynamic`, and whether its style is the one that
/// the preset `ASCII_MARKDOWN` describes.
pub uninterp spec fn table_layout(t: Table) -> (bool, bool);

/// Calls `comfy_table::Table::new`, which makes a table with no header, no
/// row, the arrangement `Disabled` and the style `ASCII_FULL`.
#[verifier::external_body]
fn new_table() -> (t: Table)
    ensures
        table_cells(t) == (None::<Seq<Seq<char>>>, Seq::<Seq<Seq<char>>>::empty()),
        table_layout(t) == (false, false),
{
    Table::new()
}

/// Calls `comfy_table::Table::set_header` with one cell per text of
/// `cells`; it replaces the header and leaves the rows and the layout alone.
#[verifier::external_body]
fn set_table_header(t: &mut Table, cells: &Vec<String>)
    ensures
        table_cells(*final(t)) == (Some(cells.deep_view()), table_cells(*old(t)).1),
        table_layout(*final(t)) == table_layout(*old(t)),
{
    t.set_header(cells.clone());
}

/// Calls `comfy_table::Table::add_row` with one cell per text of `cells`;
/// it appends the row and leaves the header and the layout alone.
#[verifier::external_body]
fn add_table_row(t: &mut Table, cells: &Vec<String>)
    ensures
        table_cells(*final(t)) == (table_cells(*old(t)).0, table_cells(*old(t)).1.push(
            cells.deep_view(),
        )),
        table_layout(*final(t)) == (table_layout(*old(t))),
{
    t.add_row(cells.clone());
}

/// Calls `comfy_table::Table::set_content_arrangement` with
/// `ContentArrangement::Dynamic`, which changes nothing else.
#[verifier::external_body]
fn set_dynamic_arrangement(t: &mut Table)
    ensures
        table_cells(*final(t)) == table_cells(*old(t)),
        table_layout(*final(t)) == (true, table_layout(*old(t)).1),
{
    t.set_content_arrangement(comfy_table::ContentArrangement::Dynamic);
}

/// Calls `comfy_table::Table::load_preset` with `presets::ASCII_MARKDOWN`,
/// which sets every style component and changes nothing else.
#[verifier::external_body]
fn load_markdown_preset(t: &mut Table)
    ensures
        table_cells(*final(t)) == table_cells(*old(t)),
        table_layout(*final(t)) == (table_layout(*old(t)).0, true),
{
    t.load_preset(comfy_table::presets::ASCII_MARKDOWN);
}

/// The bytes of one CSV record with the fields `fields`, as a
/// `csv::Writer` with the default settings writes it: fields quoted where
/// needed, separated by commas and ended by a newline.
pub uninterp spec fn csv_record(fields: Seq<Seq<char>>) -> Seq<u8>;

/// Writes the record `fields` with a fresh `csv::Writer` over a `Vec<u8>`
/// (`Writer::from_writer`, `Writer::write_record`, `Writer::into_inner`)
/// and returns the bytes written. Its contract claims that they are the
/// bytes that [`csv_record`] names, and that the writer does not fail: the
/// writer fails only when the underlying writer does, which a `Vec<u8>`
/// never does, or when a record's field count differs from the first
/// record's, and this is the first record.
#[verifier::external_body]
fn encode_csv_record(fields: &Vec<String>) -> (r: Option<Vec<u8>>)
    ensures
        r is Some,
        r matches Some(bytes) ==> bytes@ == csv_record(fields.deep_view()),
{
    let mut w = csv::Writer::from_writer(Vec::new());
    match w.write_record(fields) {
        Ok(()) => w.into_inner().ok(),
        Err(_) => None,
    }
}

/// The titles of the report's columns; the second one names what the
/// `namespace` column holds (a namespace, or a file name).
pub open spec fn header_texts(column_replace: Seq<char>) -> Seq<Seq<char>> {
    seq![
        "Kind"@,
        column_replace,
        "Name"@,
        "DeprecatedApiVersion"@,
        "SupportedApiVersion"@,
        "K8sVersion"@,
    ]
}

/// The texts of one row of the report.
pub open spec fn row_texts(r: TableDetailsView) -> Seq<Seq<char>> {
    seq![
        r.kind,
        r.namespace,
        r.name,
        r.deprecated_api_version,
        r.supported_api_version,
        r.k8_version,
    ]
}

/// The texts of the rows `rows`, row by row.
pub open spec fn rows_texts(rows: Seq<TableDetailsView>) -> Seq<Seq<Seq<char>>> {
    rows.map_values(|r: TableDetailsView| row_texts(r))
}

/// The bytes of a CSV file holding the records `records` in order.
pub open spec fn csv_document(records: Seq<Seq<Seq<char>>>) -> Seq<u8>
    decreases records.len(),
{
    if records.len() == 0 {
        Seq::empty()
    } else {
        csv_document(records.drop_last()) + csv_record(records.last())
    }
}

/// The titles of the report's columns.
pub fn header_cells(column_replace: &str) -> (cells: Vec<String>)
    ensures
        cells.deep_view() == header_texts(column_replace@),
{
    let mut cells: Vec<String> = Vec::new();
    cells.push(String::from_str("Kind"));
    cells.push(String::from_str(column_replace));
    cells.push(String::from_str("Name"));
    cells.push(String::from_str("DeprecatedApiVersion"));
    cells.push(String::from_str("SupportedApiVersion"));
    cells.push(String::from_str("K8sVersion"));
    assert(cells.deep_view() =~= header_texts(column_replace@));
    cells
}

/// The texts of one row of the report.
pub fn row_cells(r: &TableDetails) -> (cells: Vec<String>)
    ensures
        cells.deep_view() == row_texts(r@),
{
    let mut cells: Vec<String> = Vec::new();
    cells.push(r.kind.clone());
    cells.push(r.namespace.clone());
    cells.push(r.name.clone());
    cells.push(r.deprecated_api_version.clone());
    cells.push(r.supported_api_version.clone());
    cells.push(r.k8_version.clone());
    assert(cells.deep_view() =~= row_texts(r@));
    cells
}

/// Gives the table `t` the report's column titles and lets its columns
/// adapt to the width of the terminal.
pub fn generate_table_header(t: &mut Table, column_replace: &str)
    ensures
        table_cells(*final(t)) == (Some(header_texts(column_replace@)), table_cells(*old(t)).1),
        table_layout(*final(t)) == (true, table_layout(*old(t)).1),
{
    let cells = header_cells(column_replace);
    set_table_header(t, &cells);
    set_dynamic_arrangement(t);
}

/// The CSV record of the report's column titles.
pub fn generate_csv_header(column_replace: &str) -> (bytes: Vec<u8>)
    ensures
        bytes@ == csv_record(header_texts(column_replace@)),
{
    let cells = header_cells(column_replace);
    encode_csv_record(&cells).unwrap()
}

/// A report made ready for its output.
pub enum Report {
    /// A table to print.
    Table(Table),
    /// The bytes of a CSV file to write.
    Csv(Vec<u8>),
}

impl VecTableDetails {
    /// Adds the rows of the report to `t`, in order.
    fn add_rows_to(&self, t: &mut Table)
        ensures
            table_cells(*final(t)) == (table_cells(*old(t)).0, table_cells(*old(t)).1 + rows_texts(
                self@,
            )),
            table_layout(*final(t)) == table_layout(*old(t)),
    {
        let ghost start = table_cells(*t);
        let ghost layout = table_layout(*t);
        let n = self.0.len();
        let mut i: usize = 0;
        while i < n
            invariant
                n == self@.len(),
                i <= n,
                table_cells(*t) == (start.0, start.1 + rows_texts(self@.take(i as int))),
                table_layout(*t) == layout,
            decreases n - i,
        {
            let cells = row_cells(&self.0[i]);
            add_table_row(t, &cells);
            assert(rows_texts(self@.take(i + 1)) =~= rows_texts(self@.take(i as int)).push(
                row_texts(self@[i as int]),
            ));
            assert(start.1 + rows_texts(self@.take(i + 1)) =~= (start.1 + rows_texts(
                self@.take(i as int),
            )).push(cells.deep_view()));
            i += 1;
        }
        assert(self@.take(n as int) =~= self@);
    }

    /// The report as a table: the column titles, then one row per entry, in
    /// order; the columns adapt to the width of the terminal.
    pub fn generate_table(self, column_replace: &str) -> (t: Table)
        ensures
            table_cells(t) == (Some(header_texts(column_replace@)), rows_texts(self@)),
            table_layout(t) == (true, false),
    {
        let mut t = new_table();
        generate_table_header(&mut t, column_replace);
        self.add_rows_to(&mut t);
        assert(Seq::<Seq<Seq<char>>>::empty() + rows_texts(self@) =~= rows_texts(self@));
        t
    }

    /// The report as a Markdown table, to be posted as a comment on a pull
    /// request: as [`VecTableDetails::generate_table`], drawn in the
    /// Markdown style.
    pub fn generate_markdown_table(self, column_replace: &str) -> (t: Table)
        ensures
            table_cells(t) == (Some(header_texts(column_replace@)), rows_texts(self@)),
            table_layout(t) == (true, true),
    {
        let mut t = new_table();
        load_markdown_preset(&mut t);
        generate_table_header(&mut t, column_replace);
        self.add_rows_to(&mut t);
        assert(Seq::<Seq<Seq<char>>>::empty() + rows_texts(self@) =~= rows_texts(self@));
        t
    }

    /// The report as the bytes of a CSV file: the record of the column
    /// titles, then one record per entry, in order.
    pub fn generate_csv(self, column_replace: &str) -> (bytes: Vec<u8>)
        ensures
            bytes@ == csv_document(seq![header_texts(column_replace@)] + rows_texts(self@)),
    {
        let mut out = generate_csv_header(column_replace);
        let ghost head = seq![header_texts(column_replace@)];
        assert(csv_document(head) == csv_document(head.drop_last()) + csv_record(head.last()));
        assert(head.drop_last() =~= Seq::<Seq<Seq<char>>>::empty());
        assert(out@ =~= csv_document(head));
        let n = self.0.len();
        let mut i: usize = 0;
        while i < n
            invariant
                n == self@.len(),
                i <= n,
                head == seq![header_texts(column_replace@)],
                out@ == csv_document(head + rows_texts(self@.take(i as int))),
            decreases n - i,
        {
            let cells = row_cells(&self.0[i]);
            let mut record = encode_csv_record(&cells).unwrap();
            let ghost before = out@;
            let ghost recs = head + rows_texts(self@.take(i + 1));
            assert(recs =~= (head + rows_texts(self@.take(i as int))).push(row_texts(self@[i as int])));
            assert(recs.drop_last() =~= head + rows_texts(self@.take(i as int)));
            out.append(&mut record);
            assert(out@ =~= before + csv_record(row_texts(self@[i as int])));
            i += 1;
        }
        assert(self@.take(n as int) =~= self@);
        out
    }
}

/// The report of `rows` in the format `output`: a table for `Table`, CSV
/// bytes for `Csv`. For `Junit` this library gives a Markdown table, meant
/// for a comment on a pull request in a CI pipeline; that choice is the
/// library's own, as no other handling of `Junit` is defined.
pub fn process(rows: Vec<TableDetails>, output: Output, column_replace: &str) -> (r: Report)
    ensures
        match output {
            Output::Table => r matches Report::Table(t) && table_cells(t) == (
                Some(header_texts(column_replace@)),
                rows_texts(rows.deep_view()),
            ) && table_layout(t) == (true, false),
            Output::Junit => r matches Report::Table(t) && table_cells(t) == (
                Some(header_texts(column_replace@)),
                rows_texts(rows.deep_view()),
            ) && table_layout(t) == (true, true),
            Output::Csv => r matches Report::Csv(bytes) && bytes@ == csv_document(
                seq![header_texts(column_replace@)] + rows_texts(rows.deep_view()),
            ),
        },
{
    let report = VecTableDetails(rows);
    match output {
        Output::Table => Report::Table(report.generate_table(column_replace)),
        Output::Junit => Report::Table(report.generate_markdown_table(column_replace)),
        Output::Csv => Report::Csv(report.generate_csv(column_replace)),
    }
}

/// The report has one row per entry, in order; each row holds the entry's
/// kind, namespace (or file), name, deprecated version, supported version
/// and Kubernetes version, under six column titles whose second is the
/// given one.
pub proof fn lemma_report_shape(rows: Seq<TableDetailsView>, column_replace: Seq<char>)
    ensures
        rows_texts(rows).len() == rows.len(),
        header_texts(column_replace).len() == 6,
        header_texts(column_replace)[1] == column_replace,
        forall|i: int|
            0 <= i < rows.len() ==> {
                let cells = #[trigger] rows_texts(rows)[i];
                &&& cells.len() == 6
                &&& cells[0] == rows[i].kind
                &&& cells[1] == rows[i].namespace
                &&& cells[2] == rows[i].name
                &&& cells[3] == rows[i].deprecated_api_version
                &&& cells[4] == rows[i].supported_api_version
                &&& cells[5] == rows[i].k8_version
            },
{
}

} // verus!
