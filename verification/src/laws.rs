//! What holds of every run that succeeds, whatever its input.

use vstd::prelude::*;
use vstd::utf8::encode_utf8;
use crate::command::{conversion, input_document};
use crate::document::Tree;
use crate::error::CliError;
use crate::format::Format;
use crate::object::{first_occurrences, keys, lookup};
use crate::reader::csv_records;
use crate::render::{serialized, text_of};
use crate::table::{
    lemma_document_rows, lemma_object_cell, lemma_object_distinct, lemma_object_keys,
    lemma_object_values, lemma_table_of_wf, object_of, pairs_of, table_of,
};

verus! {

/// The header row that a run reads from its input.
pub open spec fn header_row(input: Seq<u8>) -> Seq<Seq<char>> {
    csv_records(input)->0[0]
}

/// The data rows that a run reads from its input.
pub open spec fn data_rows(input: Seq<u8>) -> Seq<Seq<Seq<char>>> {
    csv_records(input)->0.skip(1)
}

/// The objects of the document that a run builds from its input.
pub open spec fn objects(input: Seq<u8>) -> Seq<Tree> {
    input_document(input)->Ok_0->Array_0
}

/// The entries of the object that a run builds for a data row.
pub open spec fn entries_of(input: Seq<u8>, row: int) -> Seq<(Seq<char>, Tree)> {
    objects(input)[row]->Object_0
}

/// A run that succeeds has read a header row and data rows that are all as
/// wide as it, has built the array of their objects, and has written what
/// the serializer makes of that array.
pub proof fn lemma_successful_run(input: Seq<u8>, format: Format)
    requires
        conversion(input, format) is Ok,
    ensures
        csv_records(input) matches Some(records) && records.len() >= 1,
        forall|row: int|
            0 <= row < data_rows(input).len() ==> (#[trigger] data_rows(input)[row]).len()
                == header_row(input).len(),
        input_document(input) == Ok::<Tree, CliError>(Tree::Array(objects(input))),
        serialized(Tree::Array(objects(input)), format) == Some(conversion(input, format)->Ok_0),
        forall|row: int|
            0 <= row < objects(input).len() ==> #[trigger] objects(input)[row] == Tree::Object(
                entries_of(input, row),
            ),
{
    lemma_table_of_wf(csv_records(input)->0);
}

/// The document of a successful run is an array with exactly one object for
/// each data row, and each object has exactly as many keys as there are
/// distinct names in the header row.
pub proof fn lemma_object_count(input: Seq<u8>, format: Format)
    requires
        conversion(input, format) is Ok,
    ensures
        input_document(input) == Ok::<Tree, CliError>(Tree::Array(objects(input))),
        objects(input).len() == data_rows(input).len(),
        forall|row: int|
            0 <= row < objects(input).len() ==> objects(input)[row] == Tree::Object(
                #[trigger] entries_of(input, row),
            ) && entries_of(input, row).len() == header_row(input).to_set().len(),
{
    assert forall|row: int| 0 <= row < objects(input).len() implies objects(input)[row]
        == Tree::Object(#[trigger] entries_of(input, row)) && entries_of(input, row).len()
        == header_row(input).to_set().len() by {
        lemma_object_keys(header_row(input), data_rows(input)[row]);
    }
}

/// The objects stand in the order of the data rows: the object at a place
/// is the object of the data row at that place.
pub proof fn lemma_row_order(input: Seq<u8>, format: Format)
    requires
        conversion(input, format) is Ok,
    ensures
        objects(input).len() == data_rows(input).len(),
        forall|row: int|
            0 <= row < objects(input).len() ==> #[trigger] objects(input)[row] == object_of(
                header_row(input),
                data_rows(input)[row],
            ),
{
    lemma_document_rows(table_of(csv_records(input)->0)->Ok_0);
}

/// The keys of each object stand in the order of the header row: they are
/// the header names, each at the place of its first occurrence. Where the
/// names all differ, the keys are the header row itself, and the values are
/// the cells of the data row, column by column.
pub proof fn lemma_key_order(input: Seq<u8>, format: Format)
    requires
        conversion(input, format) is Ok,
    ensures
        forall|row: int|
            0 <= row < objects(input).len() ==> keys(#[trigger] entries_of(input, row))
                == first_occurrences(header_row(input)),
        header_row(input).no_duplicates() ==> forall|row: int|
            0 <= row < objects(input).len() ==> keys(#[trigger] entries_of(input, row))
                == header_row(input) && entries_of(input, row) == pairs_of(
                header_row(input),
                data_rows(input)[row],
            ),
{
    assert forall|row: int| 0 <= row < objects(input).len() implies keys(
        #[trigger] entries_of(input, row),
    ) == first_occurrences(header_row(input)) by {
        lemma_object_keys(header_row(input), data_rows(input)[row]);
    }
    if header_row(input).no_duplicates() {
        assert forall|row: int| 0 <= row < objects(input).len() implies keys(
            #[trigger] entries_of(input, row),
        ) == header_row(input) && entries_of(input, row) == pairs_of(
            header_row(input),
            data_rows(input)[row],
        ) by {
            lemma_object_distinct(header_row(input), data_rows(input)[row]);
        }
    }
}

/// Every value in every object is a string: no cell becomes a number, a
/// boolean or null.
pub proof fn lemma_values_are_strings(input: Seq<u8>, format: Format)
    requires
        conversion(input, format) is Ok,
    ensures
        forall|row: int, place: int|
            0 <= row < objects(input).len() && 0 <= place < entries_of(input, row).len()
                ==> (#[trigger] entries_of(input, row)[place]).1 is String,
{
    assert forall|row: int, place: int|
        0 <= row < objects(input).len() && 0 <= place < entries_of(input, row).len() implies (
    #[trigger] entries_of(input, row)[place]).1 is String by {
        lemma_object_values(header_row(input), data_rows(input)[row]);
    }
}

/// Each object maps a header name to the cell that the data row has under
/// it, character for character; of several columns with one name the last
/// gives the cell.
pub proof fn lemma_cells_verbatim(input: Seq<u8>, format: Format, row: int, column: int)
    requires
        conversion(input, format) is Ok,
        0 <= row < data_rows(input).len(),
        0 <= column < header_row(input).len(),
        forall|later: int|
            column < later < header_row(input).len() ==> header_row(input)[later] != header_row(
                input,
            )[column],
    ensures
        lookup(entries_of(input, row), header_row(input)[column]) == Some(
            Tree::String(data_rows(input)[row][column]),
        ),
{
    lemma_object_cell(header_row(input), data_rows(input)[row], column);
}

/// Two runs on the same input in the same format end alike: with the same
/// error, or with texts of the same characters and so of the same bytes.
pub proof fn lemma_same_input_same_output(
    input: Seq<u8>,
    format: Format,
    first: Result<String, CliError>,
    second: Result<String, CliError>,
)
    requires
        text_of(first) == conversion(input, format),
        text_of(second) == conversion(input, format),
    ensures
        text_of(first) == text_of(second),
        first matches Ok(a) ==> second matches Ok(b) && encode_utf8(a@) == encode_utf8(b@),
        first matches Err(e) ==> second == Err::<String, CliError>(e),
{
}

} // verus!
