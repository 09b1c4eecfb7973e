//! Splitting CSV text into records, by the `csv` crate.

use vstd::prelude::*;

verus! {

/// `csv::Error`, the error that a `csv` reader reports.
#[verifier::external_type_specification]
#[verifier::external_body]
pub struct ExCsvError(csv::Error);

/// The records that a `csv` reader with the default dialect yields for the
/// given bytes, the first row among them, each record as its cells; `None`
/// where the reader reports an error before the bytes are used up.
pub uninterp spec fn csv_records(data: Seq<u8>) -> Option<Seq<Seq<Seq<char>>>>;

/// `csv::Reader::records` on a reader over `data`, built by
/// `csv::ReaderBuilder` with the default dialect and with the first row
/// handed out like the others. The records are taken one by one until the
/// reader ends or reports an error, and each is copied cell by cell. The
/// contract only gives the outcome its name: the same bytes give the same
/// records, or an error each time.
#[verifier::external_body]
pub(crate) fn read_records(data: &[u8]) -> (out: Result<Vec<Vec<String>>, csv::Error>)
    ensures
        match out {
            Ok(records) => csv_records(data@) == Some(records.deep_view()),
            Err(_) => csv_records(data@) is None,
        },
{
    csv::ReaderBuilder::new()
        .has_headers(false)
        .from_reader(data)
        .records()
        .map(|record| record.map(|cells| cells.iter().map(String::from).collect()))
        .collect()
}

/// What a reader returned: the records, or nothing where it failed.
pub open spec fn read_view<E>(read: Result<Vec<Vec<String>>, E>) -> Option<Seq<Seq<Seq<char>>>> {
    match read {
        Ok(records) => Some(records.deep_view()),
        Err(_) => None,
    }
}

} // verus!
