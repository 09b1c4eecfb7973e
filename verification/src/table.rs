//! A table: a header row and the data rows under it.

use vstd::prelude::*;
use crate::document::{entries_view, items_view, Entry, Node, Tree};
use crate::error::{CliError, CsvFault};
use crate::object::{
    collect, distinct_keys, first_occurrences, keys, lemma_collect_distinct, lemma_collect_keys,
    lemma_collect_last_wins, lemma_collect_members, lemma_first_occurrences, lookup, set_entry,
};

verus! {

/// A header row and data rows, every one as wide as the header row.
#[derive(Debug)]
pub struct Table {
    headers: Vec<String>,
    rows: Vec<Vec<String>>,
}

/// The mathematical value of a `Table`.
pub struct TableView {
    pub headers: Seq<Seq<char>>,
    pub rows: Seq<Seq<Seq<char>>>,
}

impl TableView {
    /// Every data row has as many cells as there are headers.
    pub open spec fn wf(self) -> bool {
        forall|i: int|
            0 <= i < self.rows.len() ==> (#[trigger] self.rows[i]).len() == self.headers.len()
    }
}

/// Whether some record after the first has another width than the first.
pub open spec fn ragged(records: Seq<Seq<Seq<char>>>) -> bool {
    exists|i: int| 1 <= i < records.len() && (#[trigger] records[i]).len() != records[0].len()
}

/// What a sequence of records is as a table: the first record is the header
/// row and the others are the data rows. Without a first record there are no
/// headers, and a record of another width than the first is rejected.
pub open spec fn table_of(records: Seq<Seq<Seq<char>>>) -> Result<TableView, CliError> {
    if records.len() == 0 {
        Err(CliError::CsvRead(CsvFault::NoHeaders))
    } else if ragged(records) {
        Err(CliError::CsvRead(CsvFault::RowWidth))
    } else {
        Ok(TableView { headers: records[0], rows: records.skip(1) })
    }
}

/// The number of columns that have both a header and a cell.
pub open spec fn paired(headers: Seq<Seq<char>>, cells: Seq<Seq<char>>) -> nat {
    if headers.len() <= cells.len() {
        headers.len()
    } else {
        cells.len()
    }
}

/// The pairs of one record: each header with the cell under it, as a string
/// node, in column order.
pub open spec fn pairs_of(headers: Seq<Seq<char>>, cells: Seq<Seq<char>>) -> Seq<
    (Seq<char>, Tree),
> {
    Seq::new(paired(headers, cells), |i: int| (headers[i], Tree::String(cells[i])))
}

/// The object of one record: its pairs, collected in column order.
pub open spec fn object_of(headers: Seq<Seq<char>>, cells: Seq<Seq<char>>) -> Tree {
    Tree::Object(collect(pairs_of(headers, cells)))
}

/// The document of a table: the array of its rows' objects, in row order.
pub open spec fn document_of(table: TableView) -> Tree {
    Tree::Array(Seq::new(table.rows.len(), |i: int| object_of(table.headers, table.rows[i])))
}

/// The keys of a record's object are the headers, each once, in the order
/// in which they first occur in the header row. So the object has as many
/// entries as there are distinct headers.
pub proof fn lemma_object_keys(headers: Seq<Seq<char>>, cells: Seq<Seq<char>>)
    requires
        headers.len() <= cells.len(),
    ensures
        object_of(headers, cells) matches Tree::Object(entries) && {
            &&& distinct_keys(entries)
            &&& keys(entries) == first_occurrences(headers)
            &&& entries.len() == headers.to_set().len()
        },
{
    let pairs = pairs_of(headers, cells);
    lemma_collect_keys(pairs);
    lemma_first_occurrences(headers);
    assert(keys(pairs) =~= headers);
}

/// Every value in a record's object is a string: no cell is read as a
/// number, a boolean or null.
pub proof fn lemma_object_values(headers: Seq<Seq<char>>, cells: Seq<Seq<char>>)
    ensures
        object_of(headers, cells) matches Tree::Object(entries) && forall|j: int|
            0 <= j < entries.len() ==> (#[trigger] entries[j]).1 is String,
{
    let pairs = pairs_of(headers, cells);
    let entries = collect(pairs);
    lemma_collect_members(pairs);
    assert forall|j: int| 0 <= j < entries.len() implies (#[trigger] entries[j]).1 is String by {
        assert(pairs.contains(entries[j]));
    }
}

/// A record's object maps a header to the cell under it, as it stands; where
/// several columns have one name, to the cell under the last of them.
pub proof fn lemma_object_cell(headers: Seq<Seq<char>>, cells: Seq<Seq<char>>, column: int)
    requires
        0 <= column < headers.len() <= cells.len(),
        forall|later: int| column < later < headers.len() ==> headers[later] != headers[column],
    ensures
        object_of(headers, cells) matches Tree::Object(entries) && lookup(
            entries,
            headers[column],
        ) == Some(Tree::String(cells[column])),
{
    let pairs = pairs_of(headers, cells);
    lemma_collect_last_wins(pairs, column);
}

/// Under headers that all differ, a record's object holds exactly the
/// headers with their cells, in column order.
pub proof fn lemma_object_distinct(headers: Seq<Seq<char>>, cells: Seq<Seq<char>>)
    requires
        headers.no_duplicates(),
    ensures
        object_of(headers, cells) == Tree::Object(pairs_of(headers, cells)),
{
    let pairs = pairs_of(headers, cells);
    lemma_collect_distinct(pairs);
}

/// The document of a table is an array with one item for each data row, and
/// the item at a row's place is the object of that row.
pub proof fn lemma_document_rows(table: TableView)
    ensures
        document_of(table) matches Tree::Array(items) && {
            &&& items.len() == table.rows.len()
            &&& forall|i: int|
                0 <= i < items.len() ==> #[trigger] items[i] == object_of(
                    table.headers,
                    table.rows[i],
                )
        },
{
}

/// In the document of a table no object has a key twice.
pub proof fn lemma_document_wf(table: TableView)
    ensures
        document_of(table).wf(),
{
    let items = document_of(table)->Array_0;
    assert forall|i: int| 0 <= i < items.len() implies (#[trigger] items[i]).wf() by {
        let pairs = pairs_of(table.headers, table.rows[i]);
        lemma_collect_keys(pairs);
        lemma_object_values(table.headers, table.rows[i]);
        let entries = collect(pairs);
        assert forall|j: int| 0 <= j < entries.len() implies (#[trigger] entries[j]).1.wf() by {}
    }
}

/// The table of a sequence of records is well formed.
pub proof fn lemma_table_of_wf(records: Seq<Seq<Seq<char>>>)
    ensures
        table_of(records) matches Ok(table) ==> table.wf(),
{
}

/// Builds the object of one record: each header is set, in column order, to
/// the cell under it, so that of two columns with one name the later one
/// gives the value and the earlier one the place.
pub fn record_object(headers: &Vec<String>, cells: &Vec<String>) -> (node: Node)
    ensures
        node@ == object_of(headers.deep_view(), cells.deep_view()),
{
    let ghost pairs = pairs_of(headers.deep_view(), cells.deep_view());
    let count = if headers.len() <= cells.len() {
        headers.len()
    } else {
        cells.len()
    };
    let mut entries: Vec<Entry> = Vec::new();
    let mut i: usize = 0;
    while i < count
        invariant
            i <= count,
            count == pairs.len(),
            count <= headers.len(),
            count <= cells.len(),
            pairs == pairs_of(headers.deep_view(), cells.deep_view()),
            entries_view(entries) == collect(pairs.take(i as int)),
        decreases count - i,
    {
        let key = headers[i].clone();
        let value = Node::String(cells[i].clone());
        proof {
            assert(pairs.take(i + 1).drop_last() =~= pairs.take(i as int));
        }
        set_entry(&mut entries, key, value);
        i += 1;
    }
    proof {
        assert(pairs.take(count as int) =~= pairs);
        Node::lemma_object_view(entries);
    }
    Node::Object(entries)
}

impl View for Table {
    type V = TableView;

    closed spec fn view(&self) -> TableView {
        TableView { headers: self.headers.deep_view(), rows: self.rows.deep_view() }
    }
}

impl Table {
    #[verifier::type_invariant]
    spec fn well_formed(&self) -> bool {
        self@.wf()
    }

    /// Takes the first record as the header row and the others as data rows.
    pub fn from_records(records: Vec<Vec<String>>) -> (out: Result<Table, CliError>)
        ensures
            match out {
                Ok(table) => table_of(records.deep_view()) == Ok::<TableView, CliError>(table@),
                Err(e) => table_of(records.deep_view()) == Err::<TableView, CliError>(e),
            },
    {
        let ghost all = records.deep_view();
        if records.len() == 0 {
            return Err(CliError::CsvRead(CsvFault::NoHeaders));
        }
        let width = records[0].len();
        let mut i: usize = 1;
        while i < records.len()
            invariant
                1 <= i <= records.len(),
                all == records.deep_view(),
                width == all[0].len(),
                forall|j: int| 1 <= j < i ==> (#[trigger] all[j]).len() == width,
            decreases records.len() - i,
        {
            if records[i].len() != width {
                assert(all[i as int].len() != all[0].len());
                return Err(CliError::CsvRead(CsvFault::RowWidth));
            }
            i += 1;
        }
        let mut rows = records;
        let headers = rows.remove(0);
        assert(rows.deep_view() =~= all.skip(1));
        Ok(Table { headers, rows })
    }

    /// The header row.
    pub fn headers(&self) -> (headers: &Vec<String>)
        ensures
            headers.deep_view() == self@.headers,
    {
        &self.headers
    }

    /// The data rows.
    pub fn rows(&self) -> (rows: &Vec<Vec<String>>)
        ensures
            rows.deep_view() == self@.rows,
    {
        &self.rows
    }

    /// Builds the document of the table: one object for each data row, in
    /// row order.
    pub fn to_document(&self) -> (doc: Node)
        ensures
            doc@ == document_of(self@),
            doc.wf(),
    {
        let ghost table = self@;
        proof {
            lemma_document_wf(table);
        }
        let mut items: Vec<Node> = Vec::new();
        let mut i: usize = 0;
        while i < self.rows.len()
            invariant
                i <= self.rows.len(),
                table == self@,
                items.len() == i,
                forall|j: int|
                    0 <= j < i ==> (#[trigger] items[j])@ == object_of(
                        table.headers,
                        table.rows[j],
                    ),
            decreases self.rows.len() - i,
        {
            let node = record_object(&self.headers, &self.rows[i]);
            items.push(node);
            i += 1;
        }
        proof {
            Node::lemma_array_view(items);
            assert(items_view(items) =~= document_of(table)->Array_0);
        }
        Node::Array(items)
    }
}

} // verus!
