//! Trusted interface to the delimited-file codec.
//!
//! Parsing and encoding of comma-separated bytes are delegated to the `csv`
//! crate.  Both directions are deterministic functions of their input, so
//! the records a byte string parses to, and the bytes a record list encodes
//! to, are given opaque names that the wrappers' contracts apply.

use vstd::prelude::*;

verus! {

/// The records that the comma-separated byte string `data` parses to, each
/// record a sequence of fields (the first record is the header line), or
/// `None` when the bytes are malformed (for instance, not valid UTF-8).
/// Headers receive no special treatment and field counts may vary by record.
pub uninterp spec fn csv_records_of(data: Seq<u8>) -> Option<Seq<Seq<Seq<char>>>>;

/// The comma-separated byte encoding of a list of records.
pub uninterp spec fn csv_encoding_of(records: Seq<Seq<Seq<char>>>) -> Seq<u8>;

/// Relies on csv::Reader (header handling disabled, flexible field counts):
/// the records parsed from a byte string are a function of the bytes alone,
/// and a malformed input is reported as an error.
#[verifier::external_body]
pub(crate) fn parse_csv_bytes(data: &Vec<u8>) -> (r: Option<Vec<Vec<String>>>)
    ensures
        match r {
            Some(records) => csv_records_of(data@) == Some(records.deep_view()),
            None => csv_records_of(data@) is None,
        },
{
    let mut rdr = csv::ReaderBuilder::new().has_headers(false).flexible(true).from_reader(
        data.as_slice(),
    );
    let records: Result<Vec<csv::StringRecord>, csv::Error> = rdr.records().collect();
    match records {
        Ok(rs) => Some(
            rs.iter().map(|rec| rec.iter().map(|field| field.to_string()).collect()).collect(),
        ),
        Err(_) => None,
    }
}

/// Relies on csv::Writer (flexible field counts): the bytes written for a
/// list of records are a function of the records alone, no record list
/// yields no bytes, and writing into memory cannot fail — with flexible
/// field counts nothing is validated, and every write goes to a growable
/// buffer.
#[verifier::external_body]
pub(crate) fn encode_csv_records(records: &Vec<Vec<String>>) -> (r: Vec<u8>)
    ensures
        r@ == csv_encoding_of(records.deep_view()),
        records.deep_view().len() == 0 ==> r@ == Seq::<u8>::empty(),
{
    let mut wtr = csv::WriterBuilder::new().flexible(true).from_writer(Vec::new());
    for record in records.iter() {
        wtr.write_record(record).unwrap();
    }
    wtr.into_inner().ok().unwrap()
}

} // verus!
