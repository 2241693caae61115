use invoice_etl::pipeline::has_extension;
use invoice_etl::pipeline::invoice_total;
use invoice_etl::pipeline::process_invoices;
use invoice_etl::pipeline::InvoiceDoc;

/// Assemble a one-page PDF document that shows the given line of text.
fn minimal_pdf(text: &str) -> Vec<u8> {
    let stream = format!("BT /F1 12 Tf 72 720 Td ({}) Tj ET", text);
    let bodies = vec![
        "<< /Type /Catalog /Pages 2 0 R >>".to_string(),
        "<< /Type /Pages /Kids [3 0 R] /Count 1 >>".to_string(),
        "<< /Type /Page /Parent 2 0 R /MediaBox [0 0 612 792] /Contents 4 0 R /Resources << /Font << /F1 5 0 R >> >> >>"
            .to_string(),
        format!("<< /Length {} >>\nstream\n{}\nendstream", stream.len(), stream),
        "<< /Type /Font /Subtype /Type1 /BaseFont /Helvetica >>".to_string(),
    ];
    let mut pdf = String::from("%PDF-1.4\n");
    let mut offsets = Vec::new();
    for (i, body) in bodies.iter().enumerate() {
        offsets.push(pdf.len());
        pdf.push_str(&format!("{} 0 obj\n{}\nendobj\n", i + 1, body));
    }
    let xref_at = pdf.len();
    pdf.push_str(&format!("xref\n0 {}\n", bodies.len() + 1));
    pdf.push_str("0000000000 65535 f \n");
    for off in &offsets {
        pdf.push_str(&format!("{:010} 00000 n \n", off));
    }
    pdf.push_str(&format!(
        "trailer\n<< /Size {} /Root 1 0 R >>\nstartxref\n{}\n%%EOF\n",
        bodies.len() + 1,
        xref_at
    ));
    pdf.into_bytes()
}

#[test]
fn a_total_is_extracted_from_a_pdf_document() {
    let doc = minimal_pdf("Invoice total: $12.34 thanks");
    let text = pdf_extract::extract_text_from_mem(&doc).ok();
    let total = invoice_total(&text);
    assert_eq!(total, "total: $12.34");
}

#[test]
fn an_unreadable_document_yields_the_default_total() {
    let text = pdf_extract::extract_text_from_mem(&[1, 2, 3, 4]).ok();
    assert_eq!(text, None);
    assert_eq!(invoice_total(&text), "0.00");
}

#[test]
fn a_document_without_text_yields_the_default_total() {
    assert_eq!(invoice_total(&None), "0.00");
}

#[test]
fn the_invoice_table_carries_one_row_per_document() {
    let files = vec![
        InvoiceDoc { name: "a.pdf".to_string(), text: Some("pay total: $1.00 now".to_string()) },
        InvoiceDoc { name: "b.pdf".to_string(), text: None },
    ];
    let out = process_invoices(&files);
    assert_eq!(out, b"filename,total\na.pdf,total: $1.00\nb.pdf,0.00\n".to_vec());
}

#[test]
fn the_invoice_table_of_no_documents_is_just_the_header() {
    let out = process_invoices(&Vec::new());
    assert_eq!(out, b"filename,total\n".to_vec());
}

#[test]
fn extension_matching() {
    assert!(has_extension("invoice.pdf", "pdf"));
    assert!(has_extension("archive.tar.pdf", "pdf"));
    assert!(!has_extension("invoice.txt", "pdf"));
    assert!(!has_extension(".pdf", "pdf"));
    assert!(!has_extension("nodot", "pdf"));
    assert!(!has_extension("invoice.pdf", "txt"));
}
