use std::io::Write;

use doc_catalog::extract::{
    context_after_pdf_fallback, context_kind, docx_text_from_events, docx_text_from_xml,
    extract_docx_text, extract_text_for_context, missing_pdf_context, pdf_memory_outcome,
    pdf_outcome_message, pdf_path_outcome, unreadable_context, ContextKind, DocxError, PdfOutcome,
    XmlEvent,
};

const TWO_PARAGRAPHS: &str = r#"<?xml version="1.0" encoding="UTF-8"?>
<w:document xmlns:w="http://schemas.openxmlformats.org/wordprocessingml/2006/main">
  <w:body>
    <w:p><w:r><w:t>Hello</w:t></w:r></w:p>
    <w:p><w:r><w:t>World</w:t></w:r></w:p>
  </w:body>
</w:document>"#;

fn docx_with(entry: &str, xml: &str) -> Vec<u8> {
    let mut w = zip::ZipWriter::new(std::io::Cursor::new(Vec::new()));
    w.start_file(entry, zip::write::FileOptions::default()).unwrap();
    w.write_all(xml.as_bytes()).unwrap();
    w.finish().unwrap().into_inner()
}

#[test]
fn docx_two_paragraphs_give_two_lines() {
    assert_eq!(docx_text_from_xml(TWO_PARAGRAPHS).unwrap(), "Hello\nWorld");
}

#[test]
fn docx_from_zip_container() {
    let bytes = docx_with("word/document.xml", TWO_PARAGRAPHS);
    assert_eq!(extract_docx_text(&bytes).unwrap(), "Hello\nWorld");
}

#[test]
fn docx_without_body_part_is_malformed() {
    let bytes = docx_with("word/other.xml", TWO_PARAGRAPHS);
    let e = extract_docx_text(&bytes).unwrap_err();
    assert!(matches!(e, DocxError::MissingBody));
    assert_eq!(e.message(), "DOCX missing word/document.xml");
    assert!(matches!(extract_docx_text(&vec![1, 2, 3]), Err(DocxError::Archive(_))));
}

#[test]
fn docx_bad_xml_is_an_error() {
    assert!(matches!(docx_text_from_xml("<w:p><w:t>x</w:p>"), Err(DocxError::Xml(_))));
}

#[test]
fn run_walker_keeps_text_inside_runs_only() {
    let events = vec![
        XmlEvent::Start(b"w:p".to_vec()),
        XmlEvent::Text("outside".to_string()),
        XmlEvent::Start(b"w:t".to_vec()),
        XmlEvent::Text("  in  ".to_string()),
        XmlEvent::End(b"w:t".to_vec()),
        XmlEvent::Text("after".to_string()),
        XmlEvent::Other,
    ];
    assert_eq!(docx_text_from_events(&events), "in");
}

#[test]
fn pdf_blank_text_is_no_selectable_text_without_retry() {
    let o = pdf_memory_outcome(Ok("  \n\t ".to_string()));
    assert!(matches!(o, Some(PdfOutcome::NoSelectableText)));
    assert!(pdf_memory_outcome(Err("bad xref".to_string())).is_none());
    assert!(matches!(pdf_memory_outcome(Ok("text".to_string())), Some(PdfOutcome::Text(_))));
}

#[test]
fn pdf_path_attempt_outcomes() {
    assert!(matches!(pdf_path_outcome(Ok(" ".to_string())), PdfOutcome::NoSelectableText));
    match pdf_path_outcome(Err("broken".to_string())) {
        PdfOutcome::Failed(e) => assert_eq!(e, "broken"),
        other => panic!("unexpected {:?}", other),
    }
    assert_eq!(
        pdf_outcome_message(&PdfOutcome::Failed("broken".to_string()), "a.pdf"),
        "[PDF extraction failed: broken for file: a.pdf]"
    );
    assert_eq!(
        context_after_pdf_fallback("a.pdf", Ok("".to_string())),
        "File: a.pdf\nContent:\n[PDF appears to contain no selectable text \u{2014} likely scanned images: a.pdf]"
    );
}

#[test]
fn pdf_context_from_memory_result() {
    let data = b"%PDF".to_vec();
    assert!(extract_text_for_context("x.pdf", "pdf", &data, Some(Err("bad".to_string()))).is_none());
    assert_eq!(
        extract_text_for_context("x.pdf", "pdf", &data, Some(Ok(" \n ".to_string()))).unwrap(),
        "File: x.pdf\nContent:\n[PDF appears to contain no selectable text \u{2014} likely scanned images: x.pdf]"
    );
    assert_eq!(
        extract_text_for_context("x.pdf", "pdf", &data, Some(Ok("Text".to_string()))).unwrap(),
        "File: x.pdf\nContent:\nText"
    );
    assert_eq!(missing_pdf_context("x.pdf", "/d/x.pdf"), "File: x.pdf\nContent:\n[PDF file not found: /d/x.pdf]");
}

#[test]
fn context_for_plain_and_unsupported_types() {
    assert_eq!(
        extract_text_for_context("a.md", "md", &b"# Title".to_vec(), None).unwrap(),
        "File: a.md\nContent:\n# Title"
    );
    assert_eq!(
        extract_text_for_context("a.png", "png", &vec![0u8], None).unwrap(),
        "File: a.png\nContent:\n[a.png \u{2014} no text extractor implemented for *.png yet]"
    );
    assert_eq!(
        extract_text_for_context("a.txt", "txt", &vec![0xffu8], None).unwrap(),
        "File: a.txt\nContent:\n[a.txt \u{2014} could not read file as text: stream did not contain valid UTF-8]"
    );
    assert_eq!(
        unreadable_context("a.txt", "txt", "gone"),
        "File: a.txt\nContent:\n[a.txt \u{2014} could not read file as text: gone]"
    );
}

#[test]
fn context_for_docx_type() {
    let bytes = docx_with("word/document.xml", TWO_PARAGRAPHS);
    assert_eq!(
        extract_text_for_context("d.docx", "docx", &bytes, None).unwrap(),
        "File: d.docx\nContent:\nHello\nWorld"
    );
    assert_eq!(
        extract_text_for_context("d.docx", "docx", &vec![1, 2], None).unwrap().starts_with(
            "File: d.docx\nContent:\n[DOCX: d.docx \u{2014} text extraction failed: invalid DOCX archive: "
        ),
        true
    );
}

#[test]
fn context_kinds() {
    assert_eq!(context_kind("pdf"), ContextKind::Pdf);
    assert_eq!(context_kind("docx"), ContextKind::Docx);
    assert_eq!(context_kind("tsx"), ContextKind::Plain);
    assert_eq!(context_kind("exe"), ContextKind::Unsupported);
}
