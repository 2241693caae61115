//! The per-category pipelines, on plain values.
//!
//! The invoice pipeline turns a batch of documents — each a file name with
//! the plain text recovered from it, or nothing when recovery failed — into
//! a two-column table of file name and extracted total.  The merge pipeline
//! turns a batch of delimited files into one concatenated table under the
//! first file's header.  Reading directories, recovering text from PDF
//! documents and writing the output files is the caller's business; the
//! pipelines here go from plain values to output bytes.

use vstd::prelude::*;
use vstd::string::StrSliceExecFns;

use crate::amount::extract_total;
use crate::amount::extract_total_spec;
use crate::csvio::csv_encoding_of;
use crate::csvio::csv_records_of;
use crate::csvio::encode_csv_records;
use crate::csvio::parse_csv_bytes;
use crate::table::merge_records;
use crate::table::merge_spec;

verus! {

/// The position of the last '.' in a file name, scanning the whole name.
pub open spec fn last_dot(t: Seq<char>) -> Option<int>
    decreases t.len(),
{
    if t.len() == 0 {
        None
    } else if t[t.len() - 1] == '.' {
        Some(t.len() - 1)
    } else {
        last_dot(t.take(t.len() - 1))
    }
}

/// The extension of a file name: what follows the last '.', provided that
/// dot is neither absent nor the leading character (a name that starts with
/// its only dot is a hidden file, not a name with an extension).
pub open spec fn extension_of(t: Seq<char>) -> Option<Seq<char>> {
    match last_dot(t) {
        Some(d) => if d > 0 {
            Some(t.skip(d + 1))
        } else {
            None
        },
        None => None,
    }
}

/// Whether the file name carries exactly the extension `ext` (given without
/// its leading dot).
pub fn has_extension(name: &str, ext: &str) -> (b: bool)
    ensures
        b == (extension_of(name@) == Some(ext@)),
{
    let n = name.unicode_len();
    let m = ext.unicode_len();
    let mut i: usize = 0;
    let mut dot: Option<usize> = None;
    while i < n
        invariant
            i <= n,
            n == name@.len(),
            last_dot(name@.take(i as int)) == (match dot {
                Some(d) => Some(d as int),
                None => None::<int>,
            }),
            dot matches Some(d) ==> d < i,
        decreases n - i,
    {
        proof {
            assert(name@.take(i as int + 1).take(i as int) =~= name@.take(i as int));
        }
        if name.get_char(i) == '.' {
            dot = Some(i);
        }
        i = i + 1;
    }
    proof {
        assert(name@.take(n as int) =~= name@);
    }
    match dot {
        None => false,
        Some(d) => {
            if d == 0 {
                return false;
            }
            let start = d + 1;
            if n - start != m {
                proof {
                    assert(name@.skip(start as int).len() != ext@.len());
                }
                return false;
            }
            let mut k: usize = 0;
            while k < m
                invariant
                    k <= m,
                    n == name@.len(),
                    m == ext@.len(),
                    start + m == n,
                    0 < start <= n,
                    extension_of(name@) == Some(name@.skip(start as int)),
                    forall|j: int| 0 <= j < k ==> name@[start + j] == ext@[j],
                decreases m - k,
            {
                if name.get_char(start + k) != ext.get_char(k) {
                    proof {
                        assert(name@.skip(start as int)[k as int] != ext@[k as int]);
                    }
                    return false;
                }
                k = k + 1;
            }
            proof {
                assert(name@.skip(start as int) =~= ext@);
            }
            true
        },
    }
}

/// Why a merge pipeline aborted: a malformed delimited input.  (A failure
/// of the caller's storage is the caller's own error; nothing in these
/// pipelines can fail in memory.)
#[derive(Debug, Clone, Copy, PartialEq, Eq)]
pub enum PipelineError {
    ParseFailure,
}

/// One document handed to the invoice pipeline: its file name, and the
/// plain text recovered from it — `None` when text recovery failed (a
/// corrupt document or an unsupported encoding).
pub struct InvoiceDoc {
    pub name: String,
    pub text: Option<String>,
}

/// The total for one document: the extraction heuristic applied to its
/// text, or the default "0.00" when no text was recovered.
pub open spec fn invoice_total_spec(text: Option<Seq<char>>) -> Seq<char> {
    match text {
        Some(t) => extract_total_spec(t),
        None => "0.00"@,
    }
}

/// The table row for one document: its file name and its total.
pub open spec fn invoice_record_spec(f: InvoiceDoc) -> Seq<Seq<char>> {
    seq![f.name@, invoice_total_spec(f.text.deep_view())]
}

/// The invoice table for a batch of documents: the fixed header, then one
/// row per document, in batch order.
pub open spec fn invoice_table_spec(files: Seq<InvoiceDoc>) -> Seq<Seq<Seq<char>>> {
    seq![seq!["filename"@, "total"@]] + Seq::new(
        files.len(),
        |i: int| invoice_record_spec(files[i]),
    )
}

/// The best-guess total for one document's recovered text.  A document
/// whose text could not be recovered yields the default "0.00" rather than
/// an error.
pub fn invoice_total(text: &Option<String>) -> (total: String)
    ensures
        total@ == invoice_total_spec(text.deep_view()),
{
    match text {
        Some(t) => extract_total(t.as_str()),
        None => "0.00".to_owned(),
    }
}

/// Build the invoice table for a batch of documents and encode it as
/// comma-separated bytes.  Building the table cannot fail: a document
/// without text gets the default total, and the table is encoded in memory.
pub fn process_invoices(files: &Vec<InvoiceDoc>) -> (bytes: Vec<u8>)
    ensures
        bytes@ == csv_encoding_of(invoice_table_spec(files@)),
{
    let mut records: Vec<Vec<String>> = Vec::new();
    let mut header: Vec<String> = Vec::new();
    header.push("filename".to_owned());
    header.push("total".to_owned());
    assert(header.deep_view() =~= seq!["filename"@, "total"@]);
    records.push(header);
    assert(records.deep_view() =~= invoice_table_spec(files@.take(0)));
    let mut i: usize = 0;
    while i < files.len()
        invariant
            i <= files.len(),
            records.deep_view() == invoice_table_spec(files@.take(i as int)),
        decreases files.len() - i,
    {
        let f = &files[i];
        let total = invoice_total(&f.text);
        let mut rec: Vec<String> = Vec::new();
        rec.push(f.name.clone());
        rec.push(total);
        assert(rec.deep_view() =~= invoice_record_spec(files@[i as int]));
        let ghost before = records.deep_view();
        records.push(rec);
        proof {
            assert(records.deep_view() =~= before.push(invoice_record_spec(files@[i as int])));
            assert(before.push(invoice_record_spec(files@[i as int])) =~= invoice_table_spec(
                files@.take(i as int + 1),
            ));
        }
        i = i + 1;
    }
    proof {
        assert(files@.take(files@.len() as int) =~= files@);
    }
    encode_csv_records(&records)
}

/// What each delimited file of a batch parses to; a malformed file stands as
/// an empty record list (the pipeline aborts on it before this matters).
pub open spec fn parsed_tables(files: Seq<Vec<u8>>) -> Seq<Seq<Seq<Seq<char>>>> {
    Seq::new(
        files.len(),
        |k: int|
            match csv_records_of(files[k]@) {
                Some(records) => records,
                None => Seq::empty(),
            },
    )
}

/// Merge a batch of delimited files into one table and encode it as
/// comma-separated bytes: the header of the first file is adopted once, the
/// data rows of every file follow in batch order, and the first malformed
/// file aborts the merge.  A batch whose files all parse is merged and
/// encoded without fail; in particular an empty batch yields no bytes.
pub fn merge_delimited_files(files: &Vec<Vec<u8>>) -> (r: Result<Vec<u8>, PipelineError>)
    ensures
        match r {
            Ok(bytes) => {
                &&& forall|k: int|
                    0 <= k < files@.len() ==> #[trigger] csv_records_of(files@[k]@) is Some
                &&& bytes@ == csv_encoding_of(merge_spec(parsed_tables(files@)))
                &&& files@.len() == 0 ==> bytes@ == Seq::<u8>::empty()
            },
            Err(e) => {
                &&& e == PipelineError::ParseFailure
                &&& exists|k: int|
                    0 <= k < files@.len() && #[trigger] csv_records_of(files@[k]@) is None
            },
        },
        (forall|k: int|
            0 <= k < files@.len() ==> #[trigger] csv_records_of(files@[k]@) is Some) ==> r is Ok,
{
    let mut parsed: Vec<Vec<Vec<String>>> = Vec::new();
    let mut i: usize = 0;
    while i < files.len()
        invariant
            i <= files.len(),
            parsed.deep_view() == parsed_tables(files@).take(i as int),
            forall|k: int| 0 <= k < i ==> #[trigger] csv_records_of(files@[k]@) is Some,
        decreases files.len() - i,
    {
        match parse_csv_bytes(&files[i]) {
            Some(records) => {
                let ghost before = parsed.deep_view();
                parsed.push(records);
                proof {
                    assert(parsed.deep_view() =~= before.push(parsed_tables(files@)[i as int]));
                    assert(before.push(parsed_tables(files@)[i as int]) =~= parsed_tables(
                        files@,
                    ).take(i as int + 1));
                }
            },
            None => {
                return Err(PipelineError::ParseFailure);
            },
        }
        i = i + 1;
    }
    proof {
        assert(parsed_tables(files@).take(files@.len() as int) =~= parsed_tables(files@));
    }
    let merged = merge_records(&parsed);
    proof {
        if files@.len() == 0 {
            assert(parsed_tables(files@) =~= Seq::<Seq<Seq<Seq<char>>>>::empty());
            assert(merged.deep_view().len() == 0);
        }
    }
    let bytes = encode_csv_records(&merged);
    Ok(bytes)
}

} // verus!
