use doc_catalog::chunk::{CHUNK_SIZE, OVERLAP_SIZE};
use doc_catalog::classify::{detect_file_type, extension, mime_tag, to_ascii_lower};
use doc_catalog::ingest::truncate_content;
use doc_catalog::storage::FileStorage;
use doc_catalog::text::{clean_text, decimal_string, split_words, trim};

fn words_of(block: &str) -> Vec<String> {
    let body = block.splitn(3, '\n').nth(2).unwrap();
    body.split(' ').map(|w| w.to_string()).collect()
}

#[test]
fn small_document_is_one_chunk() {
    let out = FileStorage::create_smart_chunks("a.txt", "one  two\nthree");
    assert_eq!(out, vec!["Document: a.txt\nContent:\none  two\nthree".to_string()]);
}

#[test]
fn chunks_cover_words_with_overlap() {
    let words: Vec<String> = (0..3000).map(|i| format!("w{}", i)).collect();
    let content = words.join("\n");
    let out = FileStorage::create_smart_chunks("big.txt", &content);
    assert_eq!(out.len(), 3);
    for (k, c) in out.iter().enumerate() {
        assert!(c.starts_with(&format!("Document: big.txt (Part {}/3)\nContent:\n", k + 1)));
    }
    let parts: Vec<Vec<String>> = out.iter().map(|c| words_of(c)).collect();
    assert_eq!(parts[0].len(), CHUNK_SIZE);
    assert_eq!(parts[1].len(), CHUNK_SIZE);
    assert_eq!(parts[2].len(), 400);
    let mut rebuilt = parts[0].clone();
    for k in 1..parts.len() {
        assert_eq!(parts[k - 1][CHUNK_SIZE - OVERLAP_SIZE..].to_vec(), parts[k][..OVERLAP_SIZE].to_vec());
        rebuilt.extend_from_slice(&parts[k][OVERLAP_SIZE..]);
    }
    assert_eq!(rebuilt, words);
}

#[test]
fn chunk_total_uses_stride_formula() {
    let words: Vec<String> = (0..1501).map(|i| format!("w{}", i)).collect();
    let out = FileStorage::create_smart_chunks("f", &words.join(" "));
    assert_eq!(out.len(), 2);
    assert!(out[1].starts_with("Document: f (Part 2/2)\nContent:\nw1300 "));
    assert_eq!(words_of(&out[1]).len(), 201);
}

#[test]
fn split_words_on_unicode_whitespace() {
    assert_eq!(split_words("  a\tb\u{3000}c \n"), vec!["a", "b", "c"]);
    assert!(split_words("   ").is_empty());
}

#[test]
fn clean_text_trims_and_drops_blank_lines() {
    assert_eq!(clean_text("\n  Hello \n\n\t\nWorld  \r\n"), "Hello\nWorld");
    assert_eq!(clean_text(""), "");
}

#[test]
fn trim_both_ends() {
    assert_eq!(trim("  ab c \n"), "ab c");
    assert_eq!(trim(" \t "), "");
}

#[test]
fn decimal_rendering() {
    assert_eq!(decimal_string(0), "0");
    assert_eq!(decimal_string(10005), "10005");
    assert_eq!(decimal_string(u64::MAX), u64::MAX.to_string());
}

#[test]
fn truncation_marks_full_length() {
    assert_eq!(truncate_content("abc".to_string()), "abc");
    let long = "é".repeat(10001);
    let r = truncate_content(long);
    assert_eq!(r, format!("{}... [Truncated - 10001 characters total]", "é".repeat(10000)));
}

#[test]
fn file_type_from_name() {
    assert_eq!(FileStorage::get_file_type_from_name("Report.PDF"), "pdf");
    assert_eq!(FileStorage::get_file_type_from_name("archive.tar.GZ"), "gz");
    assert_eq!(FileStorage::get_file_type_from_name("README"), "unknown");
    assert_eq!(FileStorage::get_file_type_from_name(".bashrc"), "unknown");
    assert_eq!(FileStorage::get_file_type_from_name("dir.d/file"), "unknown");
    let s = FileStorage::new();
    assert_eq!(s.get_file_type("x/y/Notes.Md"), "md");
}

#[test]
fn extension_rules() {
    assert_eq!(extension("a/b.c.txt"), Some("txt".to_string()));
    assert_eq!(extension("name."), Some("".to_string()));
    assert_eq!(extension(".."), None);
    assert_eq!(extension("plain"), None);
    assert_eq!(extension("a/b.txt/"), Some("txt".to_string()));
    assert_eq!(extension("a/b.txt//"), Some("txt".to_string()));
    assert_eq!(extension("/"), None);
    assert_eq!(extension("foo.txt/."), Some("txt".to_string()));
    assert_eq!(extension("a/b.md/./"), Some("md".to_string()));
    assert_eq!(extension("/."), None);
    assert_eq!(extension("."), None);
}

#[test]
fn detect_type_prefers_extension() {
    assert_eq!(detect_file_type("docs/Letter.DOCX"), "docx");
    assert_eq!(detect_file_type("Makefile"), "bin");
    assert_eq!(to_ascii_lower("AbÇ"), "abÇ");
}

#[test]
fn mime_tags() {
    assert_eq!(mime_tag("application", "pdf"), "pdf");
    assert_eq!(
        mime_tag("application", "vnd.openxmlformats-officedocument.wordprocessingml.document"),
        "docx"
    );
    assert_eq!(mime_tag("text", "plain"), "txt");
    assert_eq!(mime_tag("image", "png"), "bin");
}
