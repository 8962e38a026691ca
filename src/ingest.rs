//! Extraction as the catalog runs it: on upload, on demand, and when
//! assembling chunked context.

use vstd::prelude::*;
use vstd::utf8::{decode_utf8, valid_utf8};

use crate::chunk::{chunks_of, whole_block};
use crate::classify::file_type_of;
use crate::extract::{
    one_of, same_text, str_views, undecodable_text, utf8_text,
};
use crate::storage::{
    listed, find_id, lemma_find_id, summary_text, CatalogError, FileInfo,
    FileStorage, RecordView,
};
use crate::text::{char_range, clean_lines, clean_text, decimal, decimal_string, views};

verus! {

/// The text of a [`CatalogError`].
pub open spec fn error_text(e: CatalogError) -> Seq<char> {
    match e {
        CatalogError::NotFound(id) => "File not found: "@ + id@,
        CatalogError::BlobMissing(id) => "File not found on filesystem: "@ + id@,
        CatalogError::Extraction(m) => m@,
    }
}

impl CatalogError {
    /// A human-readable account of the failure.
    pub fn message(&self) -> (r: String)
        ensures
            r@ == error_text(*self),
    {
        match self {
            CatalogError::NotFound(id) => {
                let mut r = String::from_str("File not found: ");
                r.append(id.as_str());
                r
            },
            CatalogError::BlobMissing(id) => {
                let mut r = String::from_str("File not found on filesystem: ");
                r.append(id.as_str());
                r
            },
            CatalogError::Extraction(m) => m.clone(),
        }
    }
}

/// The view of what a text extractor returned.
pub open spec fn text_result(r: Result<String, String>) -> Result<Seq<char>, Seq<char>> {
    match r {
        Ok(t) => Ok(t@),
        Err(e) => Err(e@),
    }
}

/// The view of what the PDF extractor returned, where it was run; where it
/// was not, nothing reads this value.
pub open spec fn pdf_view(pdf: Option<Result<String, String>>) -> Result<Seq<char>, Seq<char>> {
    match pdf {
        Some(r) => text_result(r),
        None => Ok(seq![]),
    }
}

/// The outcome of the catalog's PDF extraction once `pdf_extract` returned
/// `pdf`: the text line by line trimmed without empty lines, or an error
/// carrying its message.
pub open spec fn pdf_result(pdf: Result<Seq<char>, Seq<char>>) -> Result<Seq<char>, Seq<char>> {
    match pdf {
        Ok(t) => Ok(clean_lines(t)),
        Err(e) => Err("Failed to extract text from PDF: "@ + e),
    }
}

/// The type tags read as text when extracting on demand.
pub open spec fn text_types() -> Seq<Seq<char>> {
    seq!["txt"@, "md"@, "json"@, "csv"@, "xml"@, "yaml"@, "yml"@, "log"@, "rtf"@]
}

/// The type tags read as source code when extracting on demand.
pub open spec fn code_types() -> Seq<Seq<char>> {
    seq![
        "py"@, "js"@, "ts"@, "jsx"@, "tsx"@, "java"@, "cpp"@, "c"@, "go"@, "rs"@, "php"@,
        "html"@, "css"@, "sql"@,
    ]
}

fn text_type_list() -> (r: Vec<&'static str>)
    ensures
        str_views(r@) == text_types(),
{
    let r = vec!["txt", "md", "json", "csv", "xml", "yaml", "yml", "log", "rtf"];
    assert(str_views(r@) =~= text_types());
    r
}

fn code_type_list() -> (r: Vec<&'static str>)
    ensures
        str_views(r@) == code_types(),
{
    let r = vec![
        "py", "js", "ts", "jsx", "tsx", "java", "cpp", "c", "go", "rs", "php", "html", "css", "sql",
    ];
    assert(str_views(r@) =~= code_types());
    r
}

/// What on-demand extraction gives for a record of type `file_type` whose
/// blob is `blob`, where the PDF extractor returned `pdf` on that blob.
pub open spec fn content_outcome(
    file_type: Seq<char>,
    blob: Seq<u8>,
    pdf: Result<Seq<char>, Seq<char>>,
) -> Result<Seq<char>, Seq<char>> {
    if file_type == "pdf"@ {
        pdf_result(pdf)
    } else if text_types().contains(file_type) {
        if valid_utf8(blob) {
            Ok(decode_utf8(blob))
        } else {
            Err("Failed to read text file: stream did not contain valid UTF-8"@)
        }
    } else if code_types().contains(file_type) {
        if valid_utf8(blob) {
            Ok(decode_utf8(blob))
        } else {
            Err("Failed to read code file: stream did not contain valid UTF-8"@)
        }
    } else {
        Ok(seq![])
    }
}

/// The view of an extraction result.
pub open spec fn result_view(r: Result<String, CatalogError>) -> Result<Seq<char>, Seq<char>> {
    match r {
        Ok(t) => Ok(t@),
        Err(e) => Err(error_text(e)),
    }
}

/// The largest content, in characters, that context assembly keeps in one block.
pub const SINGLE_BLOCK_LIMIT: usize = 2000;

/// The block that stands for a record whose extraction failed.
pub open spec fn failure_block(name: Seq<char>, msg: Seq<char>) -> Seq<char> {
    "Document: "@ + name + " [Content extraction failed: "@ + msg + "]"@
}

/// The blocks that chunked context assembly gives for a record named
/// `name` whose extraction came to `outcome`.
pub open spec fn record_blocks(name: Seq<char>, outcome: Result<Seq<char>, Seq<char>>) -> Seq<Seq<char>> {
    match outcome {
        Ok(c) => if c.len() == 0 {
            seq![]
        } else if c.len() <= SINGLE_BLOCK_LIMIT {
            seq![whole_block(name, c)]
        } else {
            chunks_of(name, c)
        },
        Err(m) => seq![failure_block(name, m)],
    }
}

/// The blocks for the first `k` records of `s`, where record `i` extracted
/// to `outs[i]`; records not enabled for context give none.
pub open spec fn assembled(
    s: Seq<RecordView>,
    outs: Seq<Result<Seq<char>, Seq<char>>>,
    k: nat,
) -> Seq<Seq<char>>
    decreases k,
{
    if k == 0 {
        seq![]
    } else {
        let i = k - 1;
        assembled(s, outs, i as nat) + if s[i].is_context_enabled {
            record_blocks(s[i].name, outs[i])
        } else {
            seq![]
        }
    }
}

/// What on-demand extraction gives for record `r` whose blob on disk is
/// `blob`, where the PDF extractor returned `pdf` on it.
pub open spec fn record_outcome(
    r: RecordView,
    blob: Option<Vec<u8>>,
    pdf: Option<Result<String, String>>,
) -> Result<Seq<char>, Seq<char>> {
    match blob {
        None => Err("File not found on filesystem: "@ + r.id),
        Some(b) => content_outcome(r.file_type, b@, pdf_view(pdf)),
    }
}

/// Whether the PDF extractor's result is at hand for every record that
/// needs it: an enabled PDF record whose blob is on disk.
pub open spec fn pdf_results_given(
    s: Seq<RecordView>,
    blobs: Seq<Option<Vec<u8>>>,
    pdfs: Seq<Option<Result<String, String>>>,
) -> bool {
    forall|i: int|
        0 <= i < s.len() && s[i].is_context_enabled && s[i].file_type == "pdf"@ && blobs[i] is Some
            ==> #[trigger] pdfs[i] is Some
}

/// A document of at most the single-block limit of characters is never
/// chunked: it gives exactly one block, which holds it whole.
pub proof fn lemma_small_document_single_block(name: Seq<char>, content: Seq<char>)
    requires
        0 < content.len() <= SINGLE_BLOCK_LIMIT,
    ensures
        record_blocks(name, Ok(content)).len() == 1,
        record_blocks(name, Ok(content))[0] == whole_block(name, content),
{
}

fn append_all(out: &mut Vec<String>, more: Vec<String>)
    ensures
        views(final(out)@) == views(old(out)@) + views(more@),
{
    let mut i: usize = 0;
    while i < more.len()
        invariant
            i <= more@.len(),
            views(out@) == views(old(out)@) + views(more@).take(i as int),
        decreases more@.len() - i,
    {
        let ghost before = views(out@);
        out.push(more[i].clone());
        assert(views(out@) =~= before.push(more@[i as int]@));
        assert(views(more@).take(i + 1) =~= views(more@).take(i as int).push(more@[i as int]@));
        i = i + 1;
    }
    assert(views(more@).take(i as int) =~= views(more@));
}

impl FileStorage {
    /// The blocks for one record once its extraction came to `outcome`.
    fn blocks_for(name: &str, outcome: Result<String, CatalogError>) -> (r: Vec<String>)
        ensures
            views(r@) == record_blocks(name@, result_view(outcome)),
    {
        match outcome {
            Ok(c) => {
                let n = c.as_str().unicode_len();
                if n == 0 {
                    let r: Vec<String> = Vec::new();
                    assert(views(r@) =~= seq![]);
                    r
                } else if n <= SINGLE_BLOCK_LIMIT {
                    let mut b = String::from_str("Document: ");
                    b.append(name);
                    b.append("\nContent:\n");
                    b.append(c.as_str());
                    let r = vec![b];
                    assert(views(r@) =~= seq![whole_block(name@, c@)]);
                    r
                } else {
                    FileStorage::create_smart_chunks(name, c.as_str())
                }
            },
            Err(e) => {
                let mut b = String::from_str("Document: ");
                b.append(name);
                b.append(" [Content extraction failed: ");
                let m = e.message();
                b.append(m.as_str());
                b.append("]");
                let r = vec![b];
                assert(views(r@) =~= seq![failure_block(name@, error_text(e))]);
                r
            },
        }
    }

    /// Context for a conversation, extracted afresh from each enabled
    /// record's blob: `blobs[i]` is the blob of record `i`, if it is on disk.
    /// Empty text gives no block, text of at most the single-block limit
    /// one block, longer text its chunks, and a failure a block saying so.
    pub fn get_optimized_context(
        &self,
        blobs: &Vec<Option<Vec<u8>>>,
        pdfs: &Vec<Option<Result<String, String>>>,
    ) -> (r: Vec<String>)
        requires
            blobs@.len() == self@.len(),
            pdfs@.len() == self@.len(),
            pdf_results_given(self@, blobs@, pdfs@),
        ensures
            views(r@) == assembled(self@, record_outcomes(self@, blobs@, pdfs@), self@.len()),
    {
        let ghost outs = record_outcomes(self@, blobs@, pdfs@);
        let mut out: Vec<String> = Vec::new();
        let mut i: usize = 0;
        while i < self.files.len()
            invariant
                i <= self.files@.len(),
                blobs@.len() == self@.len(),
                pdfs@.len() == self@.len(),
                pdf_results_given(self@, blobs@, pdfs@),
                outs == record_outcomes(self@, blobs@, pdfs@),
                views(out@) == assembled(self@, outs, i as nat),
            decreases self.files@.len() - i,
        {
            let f = &self.files[i];
            if f.is_context_enabled {
                let outcome = match &blobs[i] {
                    None => Err(CatalogError::BlobMissing(f.id.clone())),
                    Some(b) => {
                        assert(f@.file_type == "pdf"@ ==> pdfs@[i as int] is Some);
                        FileStorage::extract_blob_content(f.file_type.as_str(), b, copy_pdf(&pdfs[i]))
                    },
                };
                assert(result_view(outcome) == outs[i as int]);
                let blocks = FileStorage::blocks_for(f.name.as_str(), outcome);
                append_all(&mut out, blocks);
            }
            i = i + 1;
        }
        out
    }
}

fn copy_pdf(o: &Option<Result<String, String>>) -> (r: Option<Result<String, String>>)
    ensures
        pdf_view(r) == pdf_view(*o),
        r is Some <==> o is Some,
{
    match o {
        Some(Ok(t)) => Some(Ok(t.clone())),
        Some(Err(e)) => Some(Err(e.clone())),
        None => None,
    }
}

/// What on-demand extraction gives for each record of `s`.
pub open spec fn record_outcomes(
    s: Seq<RecordView>,
    blobs: Seq<Option<Vec<u8>>>,
    pdfs: Seq<Option<Result<String, String>>>,
) -> Seq<Result<Seq<char>, Seq<char>>> {
    Seq::new(s.len(), |i: int| record_outcome(s[i], blobs[i], pdfs[i]))
}

proof fn lemma_assembled_prefix(
    s: Seq<RecordView>,
    a: Seq<Result<Seq<char>, Seq<char>>>,
    b: Seq<Result<Seq<char>, Seq<char>>>,
    k: nat,
)
    requires
        k <= a.len(),
        k <= b.len(),
        forall|j: int| 0 <= j < k ==> a[j] == b[j],
    ensures
        assembled(s, a, k) == assembled(s, b, k),
    decreases k,
{
    if k > 0 {
        lemma_assembled_prefix(s, a, b, (k - 1) as nat);
    }
}

impl FileStorage {
    /// The text of a PDF, line by line trimmed and without empty lines.
    pub fn extract_pdf_text(pdf: Result<String, String>) -> (r: Result<String, CatalogError>)
        ensures
            result_view(r) == pdf_result(text_result(pdf)),
            r matches Err(e) ==> e is Extraction,
    {
        match pdf {
            Ok(t) => Ok(clean_text(t.as_str())),
            Err(e) => {
                let mut m = String::from_str("Failed to extract text from PDF: ");
                m.append(e.as_str());
                Err(CatalogError::Extraction(m))
            },
        }
    }

    /// On-demand extraction of the text of a blob of type `file_type`; for a
    /// PDF, `pdf` is what `pdf_extract` returned on the blob.
    pub fn extract_blob_content(
        file_type: &str,
        blob: &Vec<u8>,
        pdf: Option<Result<String, String>>,
    ) -> (r: Result<String, CatalogError>)
        requires
            file_type@ == "pdf"@ ==> pdf is Some,
        ensures
            result_view(r) == content_outcome(file_type@, blob@, pdf_view(pdf)),
    {
        if same_text(file_type, "pdf") {
            match pdf {
                Some(p) => return FileStorage::extract_pdf_text(p),
                None => {
                    assert(false);
                    return Ok(String::new());
                },
            }
        }
        let texts = text_type_list();
        let codes = code_type_list();
        let r = if one_of(file_type, &texts) {
            match utf8_text(blob) {
                Some(t) => Ok(t),
                None => Err(CatalogError::Extraction(String::from_str(
                    "Failed to read text file: stream did not contain valid UTF-8",
                ))),
            }
        } else if one_of(file_type, &codes) {
            match utf8_text(blob) {
                Some(t) => Ok(t),
                None => Err(CatalogError::Extraction(String::from_str(
                    "Failed to read code file: stream did not contain valid UTF-8",
                ))),
            }
        } else {
            Ok(String::new())
        };
        assert(result_view(r) == content_outcome(file_type@, blob@, pdf_view(pdf)));
        r
    }

    /// On-demand extraction of the text of the record with id `file_id`,
    /// whose blob, if it is on disk, is `blob`; for a PDF record, `pdf` is
    /// what `pdf_extract` returned on that blob.
    pub fn extract_file_content(
        &self,
        file_id: &str,
        blob: Option<&Vec<u8>>,
        pdf: Option<Result<String, String>>,
    ) -> (r: Result<String, CatalogError>)
        requires
            find_id(self@, file_id@) matches Some(i) && self@[i].file_type == "pdf"@ && blob is Some
                ==> pdf is Some,
        ensures
            find_id(self@, file_id@) is None ==> (r matches Err(CatalogError::NotFound(id)) && id@ == file_id@),
            find_id(self@, file_id@) is Some && blob is None ==> (r matches Err(CatalogError::BlobMissing(id)) && id@ == file_id@),
            find_id(self@, file_id@) is Some && blob is Some ==> result_view(r) == content_outcome(
                self@[find_id(self@, file_id@)->0].file_type,
                blob->0@,
                pdf_view(pdf),
            ),
    {
        proof {
            lemma_find_id(self@, file_id@);
        }
        match self.position(file_id) {
            None => Err(CatalogError::NotFound(String::from_str(file_id))),
            Some(i) => match blob {
                None => Err(CatalogError::BlobMissing(String::from_str(file_id))),
                Some(b) => FileStorage::extract_blob_content(self.files[i].file_type.as_str(), b, pdf),
            },
        }
    }
}

/// The type tags that upload reads as text.
pub open spec fn upload_text_types() -> Seq<Seq<char>> {
    seq![
        "txt"@, "md"@, "json"@, "csv"@, "xml"@, "yaml"@, "log"@, "py"@, "js"@, "ts"@, "java"@,
        "cpp"@, "c"@, "go"@, "rs"@, "php"@, "html"@, "css"@, "sql"@,
    ]
}

/// The content that upload stores for a file named `name` of type
/// `file_type` with bytes `data`, where `pdf_extract` returned `pdf` on
/// them: the extracted text cut to the limit. A failure gives a bracketed
/// placeholder, never an error.
pub open spec fn upload_content(
    file_type: Seq<char>,
    data: Seq<u8>,
    name: Seq<char>,
    pdf: Result<Seq<char>, Seq<char>>,
) -> Seq<char> {
    truncated(upload_text(file_type, data, name, pdf))
}

/// The text that upload extracts, before it is cut to the limit.
pub open spec fn upload_text(
    file_type: Seq<char>,
    data: Seq<u8>,
    name: Seq<char>,
    pdf: Result<Seq<char>, Seq<char>>,
) -> Seq<char> {
    if file_type == "pdf"@ {
        match pdf {
            Ok(t) => clean_lines(t),
            Err(e) => "[PDF extraction failed: "@ + ("Failed to extract text from PDF: "@ + e)
                + " for file: "@ + name + "]"@,
        }
    } else if upload_text_types().contains(file_type) {
        if valid_utf8(data) {
            decode_utf8(data)
        } else {
            undecodable_text(name)
        }
    } else {
        seq![]
    }
}

/// Whether two records agree on id, name, type, size and content.
pub open spec fn same_file(a: RecordView, b: RecordView) -> bool {
    &&& a.id == b.id
    &&& a.name == b.name
    &&& a.file_type == b.file_type
    &&& a.size == b.size
    &&& a.content == b.content
}

/// After upload appends a record to the index, listing the index shows a
/// record with the same id, name, type, size and content, at its position.
pub proof fn lemma_upload_then_list(s: Seq<RecordView>, r: RecordView)
    ensures
        listed(s.push(r)).len() == s.len() + 1,
        same_file(listed(s.push(r))[s.len() as int], r),
{
    assert(s.push(r)[s.len() as int] == r);
}

/// The character limit above which stored content is cut.
pub const TRUNCATE_LIMIT: usize = 10000;

/// `t`, cut to the limit with a marker giving its full length when longer.
pub open spec fn truncated(t: Seq<char>) -> Seq<char> {
    if t.len() <= TRUNCATE_LIMIT {
        t
    } else {
        t.take(TRUNCATE_LIMIT as int) + "... [Truncated - "@ + decimal(t.len()) + " characters total]"@
    }
}

/// Cuts `t` to the limit, with a marker giving its full length.
pub fn truncate_content(t: String) -> (r: String)
    ensures
        r@ == truncated(t@),
{
    let n = t.as_str().unicode_len();
    if n <= TRUNCATE_LIMIT {
        t
    } else {
        let mut r = char_range(t.as_str(), 0, TRUNCATE_LIMIT);
        r.append("... [Truncated - ");
        let d = decimal_string(n as u64);
        r.append(d.as_str());
        r.append(" characters total]");
        r
    }
}

/// A summary line of the form `<kind>: <name> [<size> bytes] - <detail>`.
pub open spec fn described(kind: Seq<char>, name: Seq<char>, size: u64, detail: Seq<char>) -> Seq<char> {
    kind + ": "@ + name + " ["@ + decimal(size as nat) + " bytes] - "@ + detail
}

fn describe(kind: &str, name: &str, size: u64, detail: &str) -> (r: String)
    ensures
        r@ == described(kind@, name@, size, detail@),
{
    let mut r = String::from_str(kind);
    r.append(": ");
    r.append(name);
    r.append(" [");
    let d = decimal_string(size);
    r.append(d.as_str());
    r.append(" bytes] - ");
    r.append(detail);
    r
}

/// The type tags stored as source code.
pub open spec fn source_types() -> Seq<Seq<char>> {
    seq![
        "py"@, "js"@, "ts"@, "jsx"@, "tsx"@, "java"@, "cpp"@, "c"@, "cc"@, "cxx"@, "h"@, "hpp"@,
        "go"@, "rs"@, "php"@, "rb"@, "swift"@, "kt"@, "scala"@, "html"@, "htm"@, "css"@,
        "scss"@, "sass"@, "less"@, "sql"@, "sh"@, "bash"@, "zsh"@, "fish"@, "ps1"@, "bat"@,
        "cmd"@,
    ]
}

/// Image type tags.
pub open spec fn image_types() -> Seq<Seq<char>> {
    seq!["png"@, "jpg"@, "jpeg"@, "gif"@, "bmp"@, "svg"@, "webp"@]
}

/// Video type tags.
pub open spec fn video_types() -> Seq<Seq<char>> {
    seq!["mp4"@, "avi"@, "mov"@, "wmv"@, "flv"@, "webm"@, "mkv"@]
}

/// Audio type tags.
pub open spec fn audio_types() -> Seq<Seq<char>> {
    seq!["mp3"@, "wav"@, "flac"@, "aac"@, "ogg"@]
}

/// Archive type tags.
pub open spec fn archive_types() -> Seq<Seq<char>> {
    seq!["zip"@, "rar"@, "7z"@, "tar"@, "gz"@]
}

/// Content and summary for decoded text of kind `kind`.
pub open spec fn text_entry(kind: Seq<char>, name: Seq<char>, size: u64, data: Seq<u8>) -> (Seq<char>, Seq<char>) {
    if valid_utf8(data) {
        let c = truncated(decode_utf8(data));
        (c, described(kind, name, size, "Content extracted: "@ + decimal(c.len()) + " chars"@))
    } else {
        (
            seq![],
            described(
                kind,
                name,
                size,
                "Content extraction failed: stream did not contain valid UTF-8"@,
            ),
        )
    }
}

/// The content and summary that storing a file named `name` of type
/// `file_type` with bytes `data` records, given how the PDF extractor fares.
/// Binary kinds store no content and a summary that says so.
pub open spec fn stored_entry(
    file_type: Seq<char>,
    name: Seq<char>,
    data: Seq<u8>,
    pdf: Result<Seq<char>, Seq<char>>,
) -> (Seq<char>, Seq<char>) {
    let size = data.len() as u64;
    let binary = "Binary content not extractable"@;
    if file_type == "pdf"@ {
        match pdf {
            Ok(t) => {
                let c = truncated(clean_lines(t));
                (c, described("PDF document"@, name, size, "Text extracted: "@ + decimal(c.len()) + " chars"@))
            },
            Err(e) => (
                seq![],
                described(
                    "PDF document"@,
                    name,
                    size,
                    "Content extraction failed: "@ + ("Failed to extract text from PDF: "@ + e),
                ),
            ),
        }
    } else if text_types().contains(file_type) {
        text_entry("Text document"@, name, size, data)
    } else if source_types().contains(file_type) {
        text_entry("Code file"@, name, size, data)
    } else if image_types().contains(file_type) {
        (seq![], described("Image file"@, name, size, binary))
    } else if video_types().contains(file_type) {
        (seq![], described("Video file"@, name, size, binary))
    } else if audio_types().contains(file_type) {
        (seq![], described("Audio file"@, name, size, binary))
    } else if archive_types().contains(file_type) {
        (seq![], described("Archive file"@, name, size, binary))
    } else {
        (seq![], described("Unknown file type"@, name, size, binary))
    }
}

fn text_entry_exec(kind: &str, name: &str, size: u64, data: &Vec<u8>) -> (r: (String, String))
    requires
        size == data@.len(),
    ensures
        (r.0@, r.1@) == text_entry(kind@, name@, size, data@),
{
    match utf8_text(data) {
        Some(t) => {
            let c = truncate_content(t);
            let mut detail = String::from_str("Content extracted: ");
            let d = decimal_string(c.as_str().unicode_len() as u64);
            detail.append(d.as_str());
            detail.append(" chars");
            let s = describe(kind, name, size, detail.as_str());
            (c, s)
        },
        None => (
            String::new(),
            describe(
                kind,
                name,
                size,
                "Content extraction failed: stream did not contain valid UTF-8",
            ),
        ),
    }
}

fn source_type_list() -> (r: Vec<&'static str>)
    ensures
        str_views(r@) == source_types(),
{
    let r = vec![
                "py", "js", "ts", "jsx", "tsx", "java", "cpp", "c", "cc", "cxx", "h", "hpp", "go",
                "rs", "php", "rb", "swift", "kt", "scala", "html", "htm", "css", "scss", "sass",
                "less", "sql", "sh", "bash", "zsh", "fish", "ps1", "bat", "cmd",
            ];
    assert(str_views(r@) =~= source_types());
    r
}

fn image_type_list() -> (r: Vec<&'static str>)
    ensures
        str_views(r@) == image_types(),
{
    let r = vec!["png", "jpg", "jpeg", "gif", "bmp", "svg", "webp"];
    assert(str_views(r@) =~= image_types());
    r
}

fn video_type_list() -> (r: Vec<&'static str>)
    ensures
        str_views(r@) == video_types(),
{
    let r = vec!["mp4", "avi", "mov", "wmv", "flv", "webm", "mkv"];
    assert(str_views(r@) =~= video_types());
    r
}

fn audio_type_list() -> (r: Vec<&'static str>)
    ensures
        str_views(r@) == audio_types(),
{
    let r = vec!["mp3", "wav", "flac", "aac", "ogg"];
    assert(str_views(r@) =~= audio_types());
    r
}

fn archive_type_list() -> (r: Vec<&'static str>)
    ensures
        str_views(r@) == archive_types(),
{
    let r = vec!["zip", "rar", "7z", "tar", "gz"];
    assert(str_views(r@) =~= archive_types());
    r
}

impl FileStorage {
    /// An id that no record of the catalog has: `candidate` when it is
    /// free, and otherwise one longer than every id in the catalog.
    pub fn fresh_id(&self, candidate: String) -> (r: String)
        ensures
            find_id(self@, r@) is None,
            find_id(self@, candidate@) is None ==> r@ == candidate@,
    {
        if self.position(candidate.as_str()).is_none() {
            return candidate;
        }
        let mut longer = String::new();
        let mut i: usize = 0;
        while i < self.files.len()
            invariant
                i <= self.files@.len(),
                forall|j: int| 0 <= j < i ==> self@[j].id.len() <= longer@.len(),
            decreases self.files@.len() - i,
        {
            longer.append(self.files[i].id.as_str());
            i = i + 1;
        }
        crate::text::push_char(&mut longer, '-');
        proof {
            lemma_find_id(self@, longer@);
            assert forall|j: int| 0 <= j < self@.len() implies self@[j].id != longer@ by {
                assert(self@[j].id.len() < longer@.len());
            }
        }
        longer
    }

    /// The content that upload stores for a file named `name` of type
    /// `file_type` whose bytes are `data`; for a PDF, `pdf` is what
    /// `pdf_extract` returned on them.
    pub fn extract_text_content(
        &self,
        file_type: &str,
        data: &Vec<u8>,
        name: &str,
        pdf: Result<String, String>,
    ) -> (r: String)
        ensures
            r@ == upload_content(file_type@, data@, name@, text_result(pdf)),
    {
        let raw = if same_text(file_type, "pdf") {
            match FileStorage::extract_pdf_text(pdf) {
                Ok(t) => t,
                Err(e) => {
                    let mut r = String::from_str("[PDF extraction failed: ");
                    let em = e.message();
                    r.append(em.as_str());
                    r.append(" for file: ");
                    r.append(name);
                    r.append("]");
                    r
                },
            }
        } else {
            let list = vec![
                "txt", "md", "json", "csv", "xml", "yaml", "log", "py", "js", "ts", "java", "cpp",
                "c", "go", "rs", "php", "html", "css", "sql",
            ];
            assert(str_views(list@) =~= upload_text_types());
            if one_of(file_type, &list) {
                match utf8_text(data) {
                    Some(t) => t,
                    None => {
                        let mut m = String::from_str("[");
                        m.append(name);
                        m.append(" \u{2014} could not read file as text: stream did not contain valid UTF-8]");
                        m
                    },
                }
            } else {
                String::new()
            }
        };
        assert(raw@ == upload_text(file_type@, data@, name@, text_result(pdf)));
        truncate_content(raw)
    }

    /// Records an uploaded file: a fresh id, the type from the file name,
    /// its size, its text, a summary, enabled for context and in no
    /// conversation. `pdf` is what `pdf_extract` returned on `file_data`; it
    /// is read only when the file's type is `pdf`. `candidate_id` is a
    /// freshly generated id, kept unless the catalog already has it, and
    /// `upload_date` the time of the upload. The caller stores `file_data`
    /// as the blob named by the returned id.
    pub fn upload_file(
        &mut self,
        file_data: &Vec<u8>,
        filename: String,
        pdf: Result<String, String>,
        candidate_id: String,
        upload_date: String,
    ) -> (r: FileInfo)
        requires
            file_data@.len() <= u64::MAX,
        ensures
            r@.name == filename@,
            r@.file_type == file_type_of(filename@),
            r@.size == file_data@.len(),
            r@.content == upload_content(r@.file_type, file_data@, filename@, text_result(pdf)),
            r@.is_context_enabled,
            r@.summary == summary_text(r@.name, r@.file_type, r@.size, r@.content),
            r@.conversation_id is None,
            find_id(old(self)@, r@.id) is None,
            find_id(old(self)@, candidate_id@) is None ==> r@.id == candidate_id@,
            r@.upload_date == upload_date@,
            final(self)@ == old(self)@.push(r@),
    {
        let file_id = self.fresh_id(candidate_id);
        let file_type = self.get_file_type(filename.as_str());
        let file_size = file_data.len() as u64;
        let content = self.extract_text_content(file_type.as_str(), file_data, filename.as_str(), pdf);
        let summary = FileStorage::summarize(
            filename.as_str(),
            file_type.as_str(),
            file_size,
            content.as_str(),
        );
        let info = FileInfo {
            id: file_id,
            name: filename,
            file_type,
            size: file_size,
            upload_date,
            content,
            is_context_enabled: true,
            summary,
            conversation_id: None,
        };
        self.save_file_to_index(&info);
        info
    }

    /// Records a file copied into the blob store, with extraction by kind:
    /// documents and code are read as text and cut to the limit, PDFs have
    /// their text extracted, and images, audio, video, archives and unknown
    /// kinds store no content. For a PDF, `pdf` is what `pdf_extract`
    /// returned on `file_data`. `candidate_id` is a freshly generated id,
    /// kept unless the catalog already has it, and `upload_date` the time of
    /// the upload. The record is appended to the index.
    pub fn store_file_from_path_robust(
        &mut self,
        file_data: &Vec<u8>,
        filename: &str,
        file_type: &str,
        pdf: Option<Result<String, String>>,
        candidate_id: String,
        upload_date: String,
    ) -> (r: FileInfo)
        requires
            file_data@.len() <= u64::MAX,
            file_type@ == "pdf"@ ==> pdf is Some,
        ensures
            r@.name == filename@,
            r@.file_type == file_type@,
            r@.size == file_data@.len(),
            (r@.content, r@.summary) == stored_entry(file_type@, filename@, file_data@, pdf_view(pdf)),
            r@.is_context_enabled,
            r@.conversation_id is None,
            find_id(old(self)@, r@.id) is None,
            find_id(old(self)@, candidate_id@) is None ==> r@.id == candidate_id@,
            r@.upload_date == upload_date@,
            final(self)@ == old(self)@.push(r@),
    {
        let file_id = self.fresh_id(candidate_id);
        let file_size = file_data.len() as u64;
        let binary = "Binary content not extractable";
        let extracted = match pdf {
            Some(p) => FileStorage::extract_pdf_text(p),
            None => Ok(String::new()),
        };
        let (content, summary) = if same_text(file_type, "pdf") {
            match extracted {
                Ok(t) => {
                    let c = truncate_content(t);
                    let mut detail = String::from_str("Text extracted: ");
                    let d = decimal_string(c.as_str().unicode_len() as u64);
                    detail.append(d.as_str());
                    detail.append(" chars");
                    let s = describe("PDF document", filename, file_size, detail.as_str());
                    (c, s)
                },
                Err(e) => {
                    let mut detail = String::from_str("Content extraction failed: ");
                    let em = e.message();
                    detail.append(em.as_str());
                    let s = describe("PDF document", filename, file_size, detail.as_str());
                    (String::new(), s)
                },
            }
        } else if one_of(file_type, &text_type_list()) {
            text_entry_exec("Text document", filename, file_size, file_data)
        } else if one_of(file_type, &source_type_list()) {
            text_entry_exec("Code file", filename, file_size, file_data)
        } else if one_of(file_type, &image_type_list()) {
            (String::new(), describe("Image file", filename, file_size, binary))
        } else if one_of(file_type, &video_type_list()) {
            (String::new(), describe("Video file", filename, file_size, binary))
        } else if one_of(file_type, &audio_type_list()) {
            (String::new(), describe("Audio file", filename, file_size, binary))
        } else if one_of(file_type, &archive_type_list()) {
            (String::new(), describe("Archive file", filename, file_size, binary))
        } else {
            (String::new(), describe("Unknown file type", filename, file_size, binary))
        };
        assert((content@, summary@) == stored_entry(file_type@, filename@, file_data@, pdf_view(pdf)));
        let info = FileInfo {
            id: file_id,
            name: String::from_str(filename),
            file_type: String::from_str(file_type),
            size: file_size,
            upload_date,
            content,
            is_context_enabled: true,
            summary,
            conversation_id: None,
        };
        let ghost before = self@;
        self.files.push(info.duplicate());
        assert(self@ =~= before.push(info@));
        info
    }
}

} // verus!
