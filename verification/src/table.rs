//! Merging of same-schema tabular files.
//!
//! A parsed file is a sequence of records (its first record is the header);
//! a record is a sequence of string fields.  The merge adopts the header of
//! the first file as the single header of the output and appends the data
//! rows of every file, in file order and in row order, without validating
//! column counts or names.

use vstd::prelude::*;

verus! {

/// The header of a parsed file: its first record, or the empty record when
/// the file has no records at all.
pub open spec fn file_header(records: Seq<Seq<Seq<char>>>) -> Seq<Seq<char>> {
    if records.len() > 0 {
        records[0]
    } else {
        Seq::empty()
    }
}

/// The data rows of a parsed file: everything after the header record.
pub open spec fn file_rows(records: Seq<Seq<Seq<char>>>) -> Seq<Seq<Seq<char>>> {
    if records.len() > 0 {
        records.skip(1)
    } else {
        records
    }
}

/// The data rows of a sequence of parsed files, concatenated in file order.
pub open spec fn merged_rows(files: Seq<Seq<Seq<Seq<char>>>>) -> Seq<Seq<Seq<char>>>
    decreases files.len(),
{
    if files.len() == 0 {
        Seq::empty()
    } else {
        merged_rows(files.drop_last()) + file_rows(files.last())
    }
}

/// The merged table: the header of the first file, then the data rows of
/// every file.  An empty file list yields an empty table.
pub open spec fn merge_spec(files: Seq<Seq<Seq<Seq<char>>>>) -> Seq<Seq<Seq<char>>> {
    if files.len() == 0 {
        Seq::empty()
    } else {
        seq![file_header(files.first())] + merged_rows(files)
    }
}

fn clone_record(r: &Vec<String>) -> (out: Vec<String>)
    ensures
        out.deep_view() == r.deep_view(),
{
    let mut out: Vec<String> = Vec::new();
    let mut k: usize = 0;
    while k < r.len()
        invariant
            k <= r.len(),
            out.deep_view() == r.deep_view().take(k as int),
        decreases r.len() - k,
    {
        let ghost before = out.deep_view();
        out.push(r[k].clone());
        proof {
            assert(out.deep_view() =~= before.push(r.deep_view()[k as int]));
            assert(before.push(r.deep_view()[k as int]) =~= r.deep_view().take(k as int + 1));
        }
        k = k + 1;
    }
    assert(r.deep_view().take(r.len() as int) =~~= r.deep_view());
    out
}

/// Merge parsed tabular files into one table: the header of the first file,
/// then the data rows of every file, in encounter order.
pub fn merge_records(files: &Vec<Vec<Vec<String>>>) -> (out: Vec<Vec<String>>)
    ensures
        out.deep_view() == merge_spec(files.deep_view()),
{
    let mut out: Vec<Vec<String>> = Vec::new();
    if files.len() == 0 {
        assert(out.deep_view() =~~= merge_spec(files.deep_view()));
        return out;
    }
    let first = &files[0];
    if first.len() > 0 {
        out.push(clone_record(&first[0]));
    } else {
        out.push(Vec::new());
    }
    assert(out.deep_view() =~~= seq![file_header(files.deep_view().first())]);
    let ghost header_part = out.deep_view();
    let mut fi: usize = 0;
    while fi < files.len()
        invariant
            fi <= files.len(),
            out.deep_view() == header_part + merged_rows(files.deep_view().take(fi as int)),
        decreases files.len() - fi,
    {
        let f = &files[fi];
        let ghost rows_before = out.deep_view();
        let mut k: usize = 1;
        if f.len() > 0 {
            while k < f.len()
                invariant
                    1 <= k <= f.len(),
                    out.deep_view() == rows_before + f.deep_view().subrange(1, k as int),
                decreases f.len() - k,
            {
                let ghost before = out.deep_view();
                out.push(clone_record(&f[k]));
                proof {
                    assert(out.deep_view() =~= before.push(f.deep_view()[k as int]));
                    assert(before.push(f.deep_view()[k as int]) =~= rows_before + f.deep_view().subrange(
                        1,
                        k as int + 1,
                    ));
                }
                k = k + 1;
            }
        }
        proof {
            let dfiles = files.deep_view();
            let dthis = f.deep_view();
            assert(dthis == dfiles[fi as int]);
            if f.len() > 0 {
                assert(dthis.subrange(1, f.len() as int) =~~= file_rows(dthis));
            } else {
                assert(out.deep_view() =~~= rows_before + file_rows(dthis));
            }
            assert(dfiles.take(fi as int + 1).drop_last() =~~= dfiles.take(fi as int));
            assert(dfiles.take(fi as int + 1).last() == dthis);
            assert(out.deep_view() =~~= header_part + merged_rows(dfiles.take(fi as int + 1)));
        }
        fi = fi + 1;
    }
    proof {
        assert(files.deep_view().take(files.len() as int) =~~= files.deep_view());
    }
    out
}

} // verus!
