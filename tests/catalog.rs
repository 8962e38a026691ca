use doc_catalog::storage::{CatalogError, FileInfo, FileStorage};

fn record(id: &str, name: &str, conv: Option<&str>, enabled: bool) -> FileInfo {
    FileInfo {
        id: id.to_string(),
        name: name.to_string(),
        file_type: "txt".to_string(),
        size: 3,
        upload_date: "2024-01-01T00:00:00+00:00".to_string(),
        content: format!("content of {}", name),
        is_context_enabled: enabled,
        summary: "s".to_string(),
        conversation_id: conv.map(|c| c.to_string()),
    }
}

fn ids(s: &FileStorage) -> Vec<String> {
    s.records().iter().map(|f| f.id.clone()).collect()
}

#[test]
fn toggle_twice_restores_flag() {
    let mut s = FileStorage::from_records(vec![record("a", "a.txt", None, true)]);
    let first = s.toggle_context("a").unwrap();
    assert!(!first.is_context_enabled);
    let second = s.toggle_context("a").unwrap();
    assert!(second.is_context_enabled);
    assert!(s.records()[0].is_context_enabled);
}

#[test]
fn toggle_unknown_id_is_not_found() {
    let mut s = FileStorage::from_records(vec![record("a", "a.txt", None, true)]);
    match s.toggle_context("zzz") {
        Err(CatalogError::NotFound(id)) => assert_eq!(id, "zzz"),
        other => panic!("unexpected {:?}", other),
    }
    assert!(s.records()[0].is_context_enabled);
}

#[test]
fn delete_by_conversation_scopes_to_that_conversation() {
    let mut s = FileStorage::from_records(vec![
        record("A", "a.txt", Some("X"), true),
        record("B", "b.txt", Some("X"), true),
        record("C", "c.txt", Some("Y"), true),
    ]);
    let removed = s.files_in_conversation("X");
    assert_eq!(removed.len(), 2);
    assert_eq!(s.delete_files_by_conversation("X"), 2);
    assert_eq!(ids(&s), vec!["C".to_string()]);
}

#[test]
fn delete_nonexistent_is_not_found_and_keeps_index() {
    let mut s = FileStorage::from_records(vec![
        record("A", "a.txt", None, true),
        record("B", "b.txt", None, false),
    ]);
    match s.delete_file("nonexistent-id") {
        Err(CatalogError::NotFound(id)) => assert_eq!(id, "nonexistent-id"),
        other => panic!("unexpected {:?}", other),
    }
    assert_eq!(ids(&s), vec!["A".to_string(), "B".to_string()]);
}

#[test]
fn delete_existing_removes_record() {
    let mut s = FileStorage::from_records(vec![
        record("A", "a.txt", None, true),
        record("B", "b.txt", None, false),
    ]);
    assert!(s.delete_file("A").is_ok());
    assert_eq!(ids(&s), vec!["B".to_string()]);
}

#[test]
fn count_and_link_to_conversation() {
    let mut s = FileStorage::from_records(vec![
        record("A", "a.txt", Some("X"), true),
        record("B", "b.txt", None, true),
        record("C", "c.txt", None, false),
    ]);
    assert_eq!(s.count_files_by_conversation("X"), 1);
    assert_eq!(s.link_enabled_files_to_conversation("X"), 1);
    assert_eq!(s.count_files_by_conversation("X"), 2);
    assert_eq!(s.link_enabled_files_to_conversation("X"), 0);
    assert_eq!(s.records()[2].conversation_id, None);
}

#[test]
fn context_content_lists_enabled_records() {
    let s = FileStorage::from_records(vec![
        record("A", "a.txt", None, true),
        record("B", "b.txt", None, false),
    ]);
    assert_eq!(
        s.get_context_content(),
        vec!["File: a.txt\nContent:\ncontent of a.txt".to_string()]
    );
}

#[test]
fn wipe_all_empties_catalog() {
    let mut s = FileStorage::from_records(vec![record("A", "a.txt", None, true)]);
    s.wipe_all();
    assert!(s.records().is_empty());
}

#[test]
fn save_file_to_index_replaces_same_id() {
    let mut s = FileStorage::new();
    s.save_file_to_index(&record("A", "a.txt", None, true));
    s.save_file_to_index(&record("B", "b.txt", None, true));
    s.save_file_to_index(&record("A", "renamed.txt", None, true));
    assert_eq!(ids(&s), vec!["A".to_string(), "B".to_string()]);
    assert_eq!(s.records()[0].name, "renamed.txt");
}

#[test]
fn summarize_collapses_whitespace() {
    let r = FileStorage::summarize("a.txt", "txt", 5, "  hello\r\n   world \t");
    assert_eq!(r, "a.txt [txt | 5 bytes] \u{2014} hello world");
}

#[test]
fn summarize_keeps_at_most_four_hundred_chars() {
    let content = "x".repeat(450);
    let r = FileStorage::summarize("b.md", "md", 450, &content);
    assert_eq!(r, format!("b.md [md | 450 bytes] \u{2014} {}", "x".repeat(400)));
}

#[test]
fn list_files_backfills_blank_summaries() {
    let mut r = record("A", "a.txt", None, true);
    r.summary = "   ".to_string();
    r.content = "hi".to_string();
    r.size = 2;
    let mut s = FileStorage::from_records(vec![r, record("B", "b.txt", None, true)]);
    let listed = s.list_files();
    assert_eq!(listed[0].summary, "a.txt [txt | 2 bytes] \u{2014} hi");
    assert_eq!(listed[1].summary, "s");
    assert!(!s.backfill_summaries());
}

#[test]
fn upload_then_list_round_trip() {
    let mut s = FileStorage::new();
    let info = s.upload_file(&b"hello world".to_vec(), "Notes.TXT".to_string(), Err("not a PDF".to_string()), format!("00000000-0000-4000-8000-{:012}", 1), "2024-05-01T10:00:00+00:00".to_string());
    assert_eq!(info.file_type, "txt");
    assert_eq!(info.upload_date, "2024-05-01T10:00:00+00:00");
    assert_eq!(info.size, 11);
    assert_eq!(info.content, "hello world");
    assert!(info.is_context_enabled);
    assert_eq!(info.conversation_id, None);
    let listed = s.list_files();
    let found = listed.iter().find(|f| f.id == info.id).unwrap();
    assert_eq!(found.name, "Notes.TXT");
    assert_eq!(found.file_type, info.file_type);
    assert_eq!(found.size, info.size);
    assert_eq!(found.content, info.content);
}

#[test]
fn upload_of_invalid_utf8_text_keeps_a_placeholder() {
    let mut s = FileStorage::new();
    let info = s.upload_file(&vec![0xff, 0xfe, 0x00], "bad.txt".to_string(), Err(String::new()), format!("00000000-0000-4000-8000-{:012}", 2), "2024-05-01T10:00:00+00:00".to_string());
    assert_eq!(
        info.content,
        "[bad.txt \u{2014} could not read file as text: stream did not contain valid UTF-8]"
    );
}

#[test]
fn upload_of_binary_type_stores_no_content() {
    let mut s = FileStorage::new();
    let info = s.upload_file(&vec![1, 2, 3], "pic.png".to_string(), Err(String::new()), format!("00000000-0000-4000-8000-{:012}", 3), "2024-05-01T10:00:00+00:00".to_string());
    assert_eq!(info.content, "");
    assert_eq!(info.summary, "pic.png [png | 3 bytes] \u{2014} ");
}

#[test]
fn store_from_path_describes_binary_kinds() {
    let mut s = FileStorage::new();
    let info = s.store_file_from_path_robust(&vec![0u8; 10], "photo.jpg", "jpg", None, format!("00000000-0000-4000-8000-{:012}", 7), "2024-05-01T10:00:00+00:00".to_string());
    assert_eq!(info.content, "");
    assert_eq!(info.summary, "Image file: photo.jpg [10 bytes] - Binary content not extractable");
    let info = s.store_file_from_path_robust(&vec![0u8; 4], "x.bin", "bin", None, format!("00000000-0000-4000-8000-{:012}", 8), "2024-05-01T10:00:00+00:00".to_string());
    assert_eq!(info.summary, "Unknown file type: x.bin [4 bytes] - Binary content not extractable");
    assert_eq!(s.records().len(), 2);
}

#[test]
fn store_from_path_truncates_long_text() {
    let mut s = FileStorage::new();
    let data = "a".repeat(10005).into_bytes();
    let info = s.store_file_from_path_robust(&data, "long.md", "md", None, format!("00000000-0000-4000-8000-{:012}", 9), "2024-05-01T10:00:00+00:00".to_string());
    let expected = format!("{}... [Truncated - 10005 characters total]", "a".repeat(10000));
    assert_eq!(info.content, expected);
    assert_eq!(
        info.summary,
        format!("Text document: long.md [10005 bytes] - Content extracted: {} chars", expected.chars().count())
    );
}

#[test]
fn store_from_path_reads_code() {
    let mut s = FileStorage::new();
    let info = s.store_file_from_path_robust(&b"fn main() {}".to_vec(), "m.rs", "rs", None, format!("00000000-0000-4000-8000-{:012}", 10), "2024-05-01T10:00:00+00:00".to_string());
    assert_eq!(info.content, "fn main() {}");
    assert_eq!(info.summary, "Code file: m.rs [12 bytes] - Content extracted: 12 chars");
}

#[test]
fn extract_file_content_errors() {
    let s = FileStorage::from_records(vec![record("A", "a.txt", None, true)]);
    match s.extract_file_content("nope", None, None) {
        Err(CatalogError::NotFound(id)) => assert_eq!(id, "nope"),
        other => panic!("unexpected {:?}", other),
    }
    match s.extract_file_content("A", None, None) {
        Err(CatalogError::BlobMissing(id)) => assert_eq!(id, "A"),
        other => panic!("unexpected {:?}", other),
    }
    let blob = b"text body".to_vec();
    assert_eq!(s.extract_file_content("A", Some(&blob), None).unwrap(), "text body");
    let bad = vec![0xffu8];
    let e = s.extract_file_content("A", Some(&bad), None).unwrap_err();
    assert_eq!(e.message(), "Failed to read text file: stream did not contain valid UTF-8");
}

#[test]
fn optimized_context_small_document_is_one_block() {
    let s = FileStorage::from_records(vec![
        record("A", "a.txt", None, true),
        record("B", "b.txt", None, true),
        record("C", "c.txt", None, false),
        record("D", "d.txt", None, true),
    ]);
    let blobs = vec![Some(b"short text".to_vec()), Some(Vec::new()), Some(b"x".to_vec()), None];
    let out = s.get_optimized_context(&blobs, &vec![None; blobs.len()]);
    assert_eq!(
        out,
        vec![
            "Document: a.txt\nContent:\nshort text".to_string(),
            "Document: d.txt [Content extraction failed: File not found on filesystem: D]".to_string(),
        ]
    );
}

#[test]
fn optimized_context_chunks_large_documents() {
    let s = FileStorage::from_records(vec![record("A", "big.txt", None, true)]);
    let text: Vec<String> = (0..3000).map(|i| format!("w{}", i)).collect();
    let blobs = vec![Some(text.join(" ").into_bytes())];
    let out = s.get_optimized_context(&blobs, &vec![None; blobs.len()]);
    assert_eq!(out.len(), 3);
    assert!(out[0].starts_with("Document: big.txt (Part 1/3)\nContent:\nw0 w1 "));
}

#[test]
fn optimized_context_text_just_over_limit_but_few_words_is_one_block() {
    let s = FileStorage::from_records(vec![record("A", "a.txt", None, true)]);
    let content = "y".repeat(2500);
    let out = s.get_optimized_context(&vec![Some(content.clone().into_bytes())], &vec![None]);
    assert_eq!(out, vec![format!("Document: a.txt\nContent:\n{}", content)]);
}

fn pdf_record(id: &str, name: &str) -> FileInfo {
    let mut r = record(id, name, None, true);
    r.file_type = "pdf".to_string();
    r
}

#[test]
fn optimized_context_uses_pdf_extractor_result() {
    let s = FileStorage::from_records(vec![pdf_record("P", "a.pdf"), pdf_record("Q", "b.pdf")]);
    let blobs = vec![Some(b"%PDF".to_vec()), Some(b"%PDF".to_vec())];
    let pdfs = vec![Some(Ok("  Hello \n\n World ".to_string())), Some(Err("bad xref".to_string()))];
    assert_eq!(
        s.get_optimized_context(&blobs, &pdfs),
        vec![
            "Document: a.pdf\nContent:\nHello\nWorld".to_string(),
            "Document: b.pdf [Content extraction failed: Failed to extract text from PDF: bad xref]".to_string(),
        ]
    );
}

#[test]
fn extract_pdf_text_cleans_or_reports() {
    assert_eq!(FileStorage::extract_pdf_text(Ok(" a \n\n b".to_string())).unwrap(), "a\nb");
    let e = FileStorage::extract_pdf_text(Err("boom".to_string())).unwrap_err();
    assert_eq!(e.message(), "Failed to extract text from PDF: boom");
}

#[test]
fn extract_file_content_of_pdf_record() {
    let s = FileStorage::from_records(vec![pdf_record("P", "a.pdf")]);
    let blob = b"%PDF".to_vec();
    assert_eq!(s.extract_file_content("P", Some(&blob), Some(Ok("x\n y".to_string()))).unwrap(), "x\ny");
}

#[test]
fn upload_truncates_long_text() {
    let mut s = FileStorage::new();
    let info = s.upload_file(&"b".repeat(10002).into_bytes(), "big.txt".to_string(), Err(String::new()), format!("00000000-0000-4000-8000-{:012}", 4), "2024-05-01T10:00:00+00:00".to_string());
    assert_eq!(info.content, format!("{}... [Truncated - 10002 characters total]", "b".repeat(10000)));
}

#[test]
fn upload_of_pdf_uses_extractor_result() {
    let mut s = FileStorage::new();
    let ok = s.upload_file(&b"%PDF".to_vec(), "r.pdf".to_string(), Ok(" one \n two ".to_string()), format!("00000000-0000-4000-8000-{:012}", 5), "2024-05-01T10:00:00+00:00".to_string());
    assert_eq!(ok.content, "one\ntwo");
    let bad = s.upload_file(&b"%PDF".to_vec(), "s.pdf".to_string(), Err("bad".to_string()), format!("00000000-0000-4000-8000-{:012}", 6), "2024-05-01T10:00:00+00:00".to_string());
    assert_eq!(bad.content, "[PDF extraction failed: Failed to extract text from PDF: bad for file: s.pdf]");
    assert_ne!(ok.id, bad.id);
    assert_eq!(s.records().len(), 2);
}

#[test]
fn store_from_path_pdf_summaries() {
    let mut s = FileStorage::new();
    let info = s.store_file_from_path_robust(&b"%PDF".to_vec(), "r.pdf", "pdf", Some(Ok("hi".to_string())), format!("00000000-0000-4000-8000-{:012}", 11), "2024-05-01T10:00:00+00:00".to_string());
    assert_eq!(info.content, "hi");
    assert_eq!(info.summary, "PDF document: r.pdf [4 bytes] - Text extracted: 2 chars");
    let info = s.store_file_from_path_robust(&b"%PDF".to_vec(), "r.pdf", "pdf", Some(Err("x".to_string())), format!("00000000-0000-4000-8000-{:012}", 12), "2024-05-01T10:00:00+00:00".to_string());
    assert_eq!(info.content, "");
    assert_eq!(
        info.summary,
        "PDF document: r.pdf [4 bytes] - Content extraction failed: Failed to extract text from PDF: x"
    );
}

#[test]
fn fresh_id_is_not_in_catalog() {
    let s = FileStorage::from_records(vec![record("A", "a.txt", None, true)]);
    assert_eq!(s.fresh_id("B".to_string()), "B");
    let id = s.fresh_id("A".to_string());
    assert!(s.position(&id).is_none());
}

#[test]
fn upload_keeps_a_free_candidate_id_and_replaces_a_taken_one() {
    let mut s = FileStorage::from_records(vec![record("taken", "a.txt", None, true)]);
    let a = s.upload_file(&b"x".to_vec(), "b.txt".to_string(), Err(String::new()), "free".to_string(), "t".to_string());
    assert_eq!(a.id, "free");
    assert_eq!(a.upload_date, "t");
    let b = s.upload_file(&b"y".to_vec(), "c.txt".to_string(), Err(String::new()), "taken".to_string(), "t".to_string());
    assert_ne!(b.id, "taken");
    assert_ne!(b.id, "free");
    assert_eq!(s.records().len(), 3);
}
