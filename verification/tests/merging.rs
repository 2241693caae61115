use invoice_etl::pipeline::merge_delimited_files;
use invoice_etl::pipeline::PipelineError;
use invoice_etl::table::merge_records;

fn rec(fields: &[&str]) -> Vec<String> {
    fields.iter().map(|f| f.to_string()).collect()
}

#[test]
fn merging_two_files_keeps_one_header_and_all_rows() {
    let file_a = vec![rec(&["h1", "h2"]), rec(&["r1a", "r1b"]), rec(&["r2a", "r2b"])];
    let file_b = vec![rec(&["h1", "h2"]), rec(&["r3a", "r3b"])];
    let merged = merge_records(&vec![file_a, file_b]);
    let expected = vec![
        rec(&["h1", "h2"]),
        rec(&["r1a", "r1b"]),
        rec(&["r2a", "r2b"]),
        rec(&["r3a", "r3b"]),
    ];
    assert_eq!(merged, expected);
}

#[test]
fn merging_no_files_yields_an_empty_table() {
    let merged = merge_records(&Vec::new());
    assert!(merged.is_empty());
}

#[test]
fn merging_bytes_end_to_end() {
    let file_a = b"h1,h2\nr1a,r1b\nr2a,r2b\n".to_vec();
    let file_b = b"h1,h2\nr3a,r3b\n".to_vec();
    let out = merge_delimited_files(&vec![file_a, file_b]);
    assert_eq!(out, Ok(b"h1,h2\nr1a,r1b\nr2a,r2b\nr3a,r3b\n".to_vec()));
}

#[test]
fn merging_no_files_yields_no_bytes() {
    let out = merge_delimited_files(&Vec::new());
    assert_eq!(out, Ok(Vec::new()));
}

#[test]
fn column_counts_are_not_revalidated() {
    let file_a = b"h1,h2\n1,2\n".to_vec();
    let file_b = b"h1,h2,h3\nx,y,z\n".to_vec();
    let out = merge_delimited_files(&vec![file_a, file_b]);
    assert_eq!(out, Ok(b"h1,h2\n1,2\nx,y,z\n".to_vec()));
}

#[test]
fn a_malformed_file_aborts_the_merge() {
    let good = b"h1,h2\na,b\n".to_vec();
    let malformed = vec![0xff, 0xfe, b'x', b'\n'];
    let out = merge_delimited_files(&vec![good, malformed]);
    assert_eq!(out, Err(PipelineError::ParseFailure));
}
