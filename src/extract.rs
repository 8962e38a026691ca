//! Turning the bytes of an uploaded file into plain text.

use quick_xml::events::Event;
use std::io::Read;
use zip::result::ZipError;
use vstd::prelude::*;
use vstd::utf8::{decode_utf8, valid_utf8};

use crate::text::{clean_lines, clean_text, is_blank, blank};

verus! {

/// What the zip entry named `name` of the archive `bytes` holds, read as UTF-8.
pub uninterp spec fn zip_entry_of(bytes: Seq<u8>, name: Seq<char>) -> Seq<char>;

/// Whether the entry `name` of the archive `bytes` can be read as UTF-8 text.
pub uninterp spec fn zip_readable(bytes: Seq<u8>, name: Seq<char>) -> bool;

/// Whether `bytes` opens as a zip archive that has no entry `name`.
pub uninterp spec fn zip_lacks_entry(bytes: Seq<u8>, name: Seq<char>) -> bool;

/// The events that `quick_xml` reads from `xml`.
pub uninterp spec fn xml_events_of(xml: Seq<char>) -> Seq<XmlEvent>;

/// Whether `quick_xml` reads `xml` to its end without an error.
pub uninterp spec fn xml_parses(xml: Seq<char>) -> bool;

/// Relies on `String::from_utf8`: the decoded text when `bytes` is valid
/// UTF-8, and an error otherwise.
#[verifier::external_body]
pub(crate) fn utf8_text(bytes: &Vec<u8>) -> (r: Option<String>)
    ensures
        r is Some <==> valid_utf8(bytes@),
        r is Some ==> r->0@ == decode_utf8(bytes@),
{
    String::from_utf8(bytes.clone()).ok()
}

/// Why an entry of a zip archive could not be read.
#[derive(Debug, Clone)]
pub enum ZipFailure {
    /// The bytes are not a zip archive that can be read.
    Archive(String),
    /// The archive has no entry of that name.
    MissingEntry,
    /// The entry could not be read as UTF-8 text.
    Read(String),
}

/// Relies on `zip::ZipArchive::new`, `ZipArchive::by_name_decrypt` and
/// `Read::read_to_string`: the text of the entry `entry` of the archive
/// held in `bytes`.
#[verifier::external_body]
fn zip_entry_text(bytes: &Vec<u8>, entry: &str) -> (r: Result<String, ZipFailure>)
    ensures
        r is Ok <==> zip_readable(bytes@, entry@),
        r is Ok ==> r->Ok_0@ == zip_entry_of(bytes@, entry@),
        r matches Err(ZipFailure::MissingEntry) <==> zip_lacks_entry(bytes@, entry@),
{
    let mut archive = match zip::ZipArchive::new(std::io::Cursor::new(bytes.as_slice())) {
        Ok(a) => a,
        Err(e) => return Err(ZipFailure::Archive(e.to_string())),
    };
    let mut file = match archive.by_name_decrypt(entry, b"") {
        Ok(Ok(f)) => f,
        Ok(Err(e)) => return Err(ZipFailure::Archive(e.to_string())),
        Err(ZipError::FileNotFound) => return Err(ZipFailure::MissingEntry),
        Err(e) => return Err(ZipFailure::Archive(e.to_string())),
    };
    let mut s = String::new();
    match file.read_to_string(&mut s) {
        Ok(_) => Ok(s),
        Err(e) => Err(ZipFailure::Read(e.to_string())),
    }
}

/// One event of an XML document, as the run walker reads it.
#[derive(Debug, Clone)]
pub enum XmlEvent {
    /// An opening tag, with its qualified name.
    Start(Vec<u8>),
    /// A closing tag, with its qualified name.
    End(Vec<u8>),
    /// Unescaped character data.
    Text(String),
    /// Anything else: declarations, comments, empty elements.
    Other,
}

/// Relies on `quick_xml::Reader::from_str`, `trim_text` and `read_event`:
/// the events of `xml` up to its end, or the first parse error.
#[verifier::external_body]
fn xml_events(xml: &str) -> (r: Result<Vec<XmlEvent>, String>)
    ensures
        r is Ok <==> xml_parses(xml@),
        r matches Ok(events) ==> events@ == xml_events_of(xml@),
{
    let mut reader = quick_xml::Reader::from_str(xml);
    reader.trim_text(true);
    let mut out = Vec::new();
    loop {
        match reader.read_event() {
            Ok(Event::Start(e)) => out.push(XmlEvent::Start(e.name().as_ref().to_vec())),
            Ok(Event::End(e)) => out.push(XmlEvent::End(e.name().as_ref().to_vec())),
            Ok(Event::Text(e)) => out.push(XmlEvent::Text(e.unescape().unwrap_or_default().into_owned())),
            Ok(Event::Eof) => return Ok(out),
            Ok(_) => out.push(XmlEvent::Other),
            Err(e) => return Err(e.to_string()),
        }
    }
}

/// Whether a tag name ends with the byte `b`.
pub open spec fn ends_with_byte(name: Seq<u8>, b: u8) -> bool {
    name.len() > 0 && name.last() == b
}

/// A tag that opens a text run: its name ends in `t`.
pub open spec fn is_run_tag(name: Seq<u8>) -> bool {
    ends_with_byte(name, 116u8)
}

/// A tag that opens a paragraph: its name ends in `p`.
pub open spec fn is_paragraph_tag(name: Seq<u8>) -> bool {
    ends_with_byte(name, 112u8)
}

/// The state of the run walker after `events`: whether it is inside a text
/// run, and the text it has gathered.
pub open spec fn walk(events: Seq<XmlEvent>) -> (bool, Seq<char>)
    decreases events.len(),
{
    if events.len() == 0 {
        (false, seq![])
    } else {
        let (inside, out) = walk(events.drop_last());
        match events.last() {
            XmlEvent::Start(n) => (
                inside || is_run_tag(n@),
                if is_paragraph_tag(n@) {
                    out.push('\n')
                } else {
                    out
                },
            ),
            XmlEvent::End(n) => (
                if is_run_tag(n@) {
                    false
                } else {
                    inside
                },
                out,
            ),
            XmlEvent::Text(t) => (
                inside,
                if inside {
                    out + t@
                } else {
                    out
                },
            ),
            XmlEvent::Other => (inside, out),
        }
    }
}

/// The text of a document body: the walker's output, line by line trimmed,
/// without empty lines.
pub open spec fn docx_text_of(events: Seq<XmlEvent>) -> Seq<char> {
    clean_lines(walk(events).1)
}

fn ends_with(name: &Vec<u8>, b: u8) -> (r: bool)
    ensures
        r == ends_with_byte(name@, b),
{
    name.len() > 0 && name[name.len() - 1] == b
}

/// Walks the events of a document body: text inside runs is kept, every
/// paragraph starts a new line, and the lines are then trimmed and the
/// empty ones dropped.
pub fn docx_text_from_events(events: &Vec<XmlEvent>) -> (r: String)
    ensures
        r@ == docx_text_of(events@),
{
    let mut inside = false;
    let mut out = String::new();
    let mut i: usize = 0;
    while i < events.len()
        invariant
            i <= events@.len(),
            (inside, out@) == walk(events@.take(i as int)),
        decreases events@.len() - i,
    {
        assert(events@.take(i + 1).drop_last() =~= events@.take(i as int));
        match &events[i] {
            XmlEvent::Start(n) => {
                if ends_with(n, 116u8) {
                    inside = true;
                }
                if ends_with(n, 112u8) {
                    crate::text::push_char(&mut out, '\n');
                }
            },
            XmlEvent::End(n) => {
                if ends_with(n, 116u8) {
                    inside = false;
                }
            },
            XmlEvent::Text(t) => {
                if inside {
                    out.append(t.as_str());
                }
            },
            XmlEvent::Other => {},
        }
        i = i + 1;
    }
    assert(events@.take(i as int) =~= events@);
    clean_text(out.as_str())
}

/// Why the text of a DOCX file could not be had.
#[derive(Debug, Clone)]
pub enum DocxError {
    /// The bytes are not a readable zip archive.
    Archive(String),
    /// The archive has no document body part.
    MissingBody,
    /// The document body is not well-formed XML.
    Xml(String),
}

impl DocxError {
    /// A human-readable account of the failure.
    pub fn message(&self) -> (r: String)
        ensures
            r@ == docx_error_text(*self),
    {
        match self {
            DocxError::Archive(e) => {
                let mut r = String::from_str("invalid DOCX archive: ");
                r.append(e.as_str());
                r
            },
            DocxError::MissingBody => String::from_str("DOCX missing word/document.xml"),
            DocxError::Xml(e) => {
                let mut r = String::from_str("XML parse error: ");
                r.append(e.as_str());
                r
            },
        }
    }
}

/// The text of a [`DocxError`].
pub open spec fn docx_error_text(e: DocxError) -> Seq<char> {
    match e {
        DocxError::Archive(m) => "invalid DOCX archive: "@ + m@,
        DocxError::MissingBody => "DOCX missing word/document.xml"@,
        DocxError::Xml(m) => "XML parse error: "@ + m@,
    }
}

/// Whether the DOCX file `bytes` has a readable body part that parses.
pub open spec fn docx_readable(bytes: Seq<u8>) -> bool {
    zip_readable(bytes, "word/document.xml"@) && xml_parses(zip_entry_of(bytes, "word/document.xml"@))
}

/// The text of the DOCX file `bytes`, when it is readable.
pub open spec fn docx_body_text(bytes: Seq<u8>) -> Seq<char> {
    docx_text_of(xml_events_of(zip_entry_of(bytes, "word/document.xml"@)))
}

/// Whether `e` is the failure that DOCX extraction reports for `bytes`: a
/// missing body part exactly when the archive lacks it, an XML error exactly
/// when the body part is read but does not parse.
pub open spec fn docx_failure_fits(bytes: Seq<u8>, e: DocxError) -> bool {
    &&& (e is MissingBody <==> zip_lacks_entry(bytes, "word/document.xml"@))
    &&& (e is Xml <==> zip_readable(bytes, "word/document.xml"@) && !xml_parses(
        zip_entry_of(bytes, "word/document.xml"@),
    ))
}

/// The text of the body XML of a DOCX document.
pub fn docx_text_from_xml(xml: &str) -> (r: Result<String, DocxError>)
    ensures
        r is Ok <==> xml_parses(xml@),
        r matches Ok(t) ==> t@ == docx_text_of(xml_events_of(xml@)),
        r matches Err(e) ==> e is Xml,
{
    match xml_events(xml) {
        Ok(events) => Ok(docx_text_from_events(&events)),
        Err(e) => Err(DocxError::Xml(e)),
    }
}

/// The text of a DOCX file: the body part `word/document.xml` of the zip
/// container, walked run by run. A container without that part is an error
/// of its own.
pub fn extract_docx_text(bytes: &Vec<u8>) -> (r: Result<String, DocxError>)
    ensures
        r is Ok <==> docx_readable(bytes@),
        r matches Ok(t) ==> t@ == docx_body_text(bytes@),
        r matches Err(e) ==> docx_failure_fits(bytes@, e),
        zip_lacks_entry(bytes@, "word/document.xml"@) ==> r matches Err(DocxError::MissingBody),
{
    match zip_entry_text(bytes, "word/document.xml") {
        Ok(xml) => docx_text_from_xml(xml.as_str()),
        Err(ZipFailure::MissingEntry) => Err(DocxError::MissingBody),
        Err(ZipFailure::Archive(e)) => Err(DocxError::Archive(e)),
        Err(ZipFailure::Read(e)) => Err(DocxError::Archive(e)),
    }
}

/// What an attempt at the text of a PDF came to.
#[derive(Debug, Clone)]
pub enum PdfOutcome {
    /// Text with at least one non-whitespace character.
    Text(String),
    /// The document has no selectable text: it is likely made of images.
    NoSelectableText,
    /// Extraction failed, with the reason.
    Failed(String),
}

/// The outcome of an extraction attempt that returned `r`: blank text is
/// no selectable text, other text is kept, and an error is a failure.
pub open spec fn pdf_outcome_of(r: Result<String, String>) -> PdfOutcome {
    match r {
        Ok(t) => if is_blank(t@) {
            PdfOutcome::NoSelectableText
        } else {
            PdfOutcome::Text(t)
        },
        Err(e) => PdfOutcome::Failed(e),
    }
}

/// Classifies the result of the in-memory attempt. `None` asks for the
/// path-based attempt, which happens only after an error; blank text is
/// trusted as no selectable text and is not retried.
pub fn pdf_memory_outcome(r: Result<String, String>) -> (o: Option<PdfOutcome>)
    ensures
        match r {
            Ok(t) => o == Some(pdf_outcome_of(Ok(t))),
            Err(_) => o is None,
        },
{
    match r {
        Ok(t) => if blank(t.as_str()) {
            Some(PdfOutcome::NoSelectableText)
        } else {
            Some(PdfOutcome::Text(t))
        },
        Err(_) => None,
    }
}

/// Classifies the result of the path-based attempt, the last one.
pub fn pdf_path_outcome(r: Result<String, String>) -> (o: PdfOutcome)
    ensures
        o == pdf_outcome_of(r),
{
    match r {
        Ok(t) => if blank(t.as_str()) {
            PdfOutcome::NoSelectableText
        } else {
            PdfOutcome::Text(t)
        },
        Err(e) => PdfOutcome::Failed(e),
    }
}

/// A PDF whose in-memory text is blank has no selectable text: that
/// attempt settles it, so the path-based one is not asked for, and its
/// placeholder differs from the one for a failed extraction.
pub proof fn lemma_blank_pdf_text(t: String, e: String, name: Seq<char>)
    requires
        is_blank(t@),
    ensures
        pdf_outcome_of(Ok(t)) == PdfOutcome::NoSelectableText,
        pdf_outcome_text(PdfOutcome::NoSelectableText, name) != pdf_outcome_text(
            PdfOutcome::Failed(e),
            name,
        ),
{
    let a = "[PDF appears to contain no selectable text \u{2014} likely scanned images: "@;
    let b = "[PDF extraction failed: "@;
    reveal_strlit("[PDF appears to contain no selectable text \u{2014} likely scanned images: ");
    reveal_strlit("[PDF extraction failed: ");
    let x = pdf_outcome_text(PdfOutcome::NoSelectableText, name);
    let y = pdf_outcome_text(PdfOutcome::Failed(e), name);
    assert(x[5] == a[5]);
    assert(y[5] == b[5]);
}

/// The text that stands for a PDF outcome in extracted content.
pub open spec fn pdf_outcome_text(o: PdfOutcome, file_name: Seq<char>) -> Seq<char> {
    match o {
        PdfOutcome::Text(t) => t@,
        PdfOutcome::NoSelectableText => "[PDF appears to contain no selectable text \u{2014} likely scanned images: "@
            + file_name + "]"@,
        PdfOutcome::Failed(e) => "[PDF extraction failed: "@ + e@ + " for file: "@ + file_name
            + "]"@,
    }
}

/// The text that stands for a PDF outcome in extracted content.
pub fn pdf_outcome_message(o: &PdfOutcome, file_name: &str) -> (r: String)
    ensures
        r@ == pdf_outcome_text(*o, file_name@),
{
    match o {
        PdfOutcome::Text(t) => t.clone(),
        PdfOutcome::NoSelectableText => {
            let mut r = String::from_str(
                "[PDF appears to contain no selectable text \u{2014} likely scanned images: ",
            );
            r.append(file_name);
            r.append("]");
            r
        },
        PdfOutcome::Failed(e) => {
            let mut r = String::from_str("[PDF extraction failed: ");
            r.append(e.as_str());
            r.append(" for file: ");
            r.append(file_name);
            r.append("]");
            r
        },
    }
}

/// How a file of a given type is turned into context text.
#[derive(Debug, Clone, Copy, PartialEq, Eq, Structural)]
pub enum ContextKind {
    /// Text extraction from a PDF, in memory first.
    Pdf,
    /// The run walker over the body of a DOCX container.
    Docx,
    /// The bytes read verbatim as UTF-8 text.
    Plain,
    /// No extractor: a placeholder says so.
    Unsupported,
}

/// The type tags read verbatim as text for context.
pub open spec fn context_plain_types() -> Seq<Seq<char>> {
    seq![
        "txt"@, "md"@, "json"@, "csv"@, "xml"@, "yaml"@, "yml"@, "log"@, "rs"@, "ts"@, "tsx"@,
        "js"@, "jsx"@, "py"@, "java"@, "cpp"@, "c"@, "go"@, "php"@, "html"@, "css"@, "sql"@,
    ]
}

/// How a file of type `t` is turned into context text.
pub open spec fn context_kind_of(t: Seq<char>) -> ContextKind {
    if t == "pdf"@ {
        ContextKind::Pdf
    } else if t == "docx"@ {
        ContextKind::Docx
    } else if context_plain_types().contains(t) {
        ContextKind::Plain
    } else {
        ContextKind::Unsupported
    }
}

/// The views of a sequence of string slices.
pub open spec fn str_views(s: Seq<&str>) -> Seq<Seq<char>> {
    s.map_values(|x: &str| x@)
}

/// Whether `t` is one of `list`.
pub fn one_of(t: &str, list: &Vec<&str>) -> (r: bool)
    ensures
        r == str_views(list@).contains(t@),
{
    let key = String::from_str(t);
    let mut i: usize = 0;
    while i < list.len()
        invariant
            i <= list@.len(),
            key@ == t@,
            forall|j: int| 0 <= j < i ==> list@[j]@ != t@,
        decreases list@.len() - i,
    {
        if String::from_str(list[i]) == key {
            assert(str_views(list@)[i as int] == t@);
            return true;
        }
        i = i + 1;
    }
    assert(!str_views(list@).contains(t@)) by {
        if str_views(list@).contains(t@) {
            let j = choose|j: int| 0 <= j < list@.len() && #[trigger] str_views(list@)[j] == t@;
            assert(list@[j]@ != t@);
        }
    }
    false
}

/// Whether `a` and `b` hold the same characters.
pub fn same_text(a: &str, b: &str) -> (r: bool)
    ensures
        r == (a@ == b@),
{
    String::from_str(a) == String::from_str(b)
}

/// How a file of type `file_type` is turned into context text.
pub fn context_kind(file_type: &str) -> (k: ContextKind)
    ensures
        k == context_kind_of(file_type@),
{
    if same_text(file_type, "pdf") {
        ContextKind::Pdf
    } else if same_text(file_type, "docx") {
        ContextKind::Docx
    } else {
        let list = vec![
            "txt", "md", "json", "csv", "xml", "yaml", "yml", "log", "rs", "ts", "tsx", "js",
            "jsx", "py", "java", "cpp", "c", "go", "php", "html", "css", "sql",
        ];
        assert(str_views(list@) =~= context_plain_types());
        if one_of(file_type, &list) {
            ContextKind::Plain
        } else {
            ContextKind::Unsupported
        }
    }
}

/// A context block: the file's name, then its text.
pub open spec fn context_wrap(name: Seq<char>, text: Seq<char>) -> Seq<char> {
    "File: "@ + name + "\nContent:\n"@ + text
}

/// The placeholder for a text file that is not valid UTF-8.
pub open spec fn undecodable_text(name: Seq<char>) -> Seq<char> {
    "["@ + name + " \u{2014} could not read file as text: stream did not contain valid UTF-8]"@
}

/// The placeholder for a type without an extractor.
pub open spec fn unsupported_text(name: Seq<char>, file_type: Seq<char>) -> Seq<char> {
    "["@ + name + " \u{2014} no text extractor implemented for *."@ + file_type + " yet]"@
}

/// The placeholder for a DOCX file whose text could not be had.
pub open spec fn docx_failure_text(name: Seq<char>, e: DocxError) -> Seq<char> {
    "[DOCX: "@ + name + " \u{2014} text extraction failed: "@ + docx_error_text(e) + "]"@
}

fn wrap_context(name: &str, text: &str) -> (r: String)
    ensures
        r@ == context_wrap(name@, text@),
{
    let mut r = String::from_str("File: ");
    r.append(name);
    r.append("\nContent:\n");
    r.append(text);
    r
}

/// The context block for a file named `name` of type `file_type` whose
/// bytes are `data`; for a PDF, `pdf` is what the in-memory extractor gave.
/// Extraction failures become bracketed placeholders in the text. `None`
/// means that the in-memory attempt on a PDF failed: the path-based attempt
/// is due, and `context_after_pdf_fallback` finishes.
pub fn extract_text_for_context(
    name: &str,
    file_type: &str,
    data: &Vec<u8>,
    pdf: Option<Result<String, String>>,
) -> (r: Option<String>)
    requires
        context_kind_of(file_type@) == ContextKind::Pdf ==> pdf is Some,
    ensures
        context_kind_of(file_type@) == ContextKind::Pdf ==> match pdf->0 {
            Ok(t) => r is Some && r->0@ == context_wrap(
                name@,
                pdf_outcome_text(pdf_outcome_of(Ok(t)), name@),
            ),
            Err(_) => r is None,
        },
        context_kind_of(file_type@) == ContextKind::Plain ==> r is Some && r->0@ == context_wrap(
            name@,
            if valid_utf8(data@) {
                decode_utf8(data@)
            } else {
                undecodable_text(name@)
            },
        ),
        context_kind_of(file_type@) == ContextKind::Unsupported ==> r is Some && r->0@
            == context_wrap(name@, unsupported_text(name@, file_type@)),
        context_kind_of(file_type@) == ContextKind::Docx ==> r is Some,
        context_kind_of(file_type@) == ContextKind::Docx && docx_readable(data@) ==> r->0@
            == context_wrap(name@, docx_body_text(data@)),
        context_kind_of(file_type@) == ContextKind::Docx && !docx_readable(data@) ==> exists|
            e: DocxError,
        | docx_failure_fits(data@, e) && r->0@ == context_wrap(name@, docx_failure_text(name@, e)),
{
    match context_kind(file_type) {
        ContextKind::Pdf => match pdf {
            Some(p) => match pdf_memory_outcome(p) {
                Some(o) => {
                    let t = pdf_outcome_message(&o, name);
                    Some(wrap_context(name, t.as_str()))
                },
                None => None,
            },
            None => None,
        },
        ContextKind::Docx => match extract_docx_text(data) {
            Ok(t) => Some(wrap_context(name, t.as_str())),
            Err(e) => {
                assert(docx_failure_fits(data@, e));
                let mut m = String::from_str("[DOCX: ");
                m.append(name);
                m.append(" \u{2014} text extraction failed: ");
                let em = e.message();
                m.append(em.as_str());
                m.append("]");
                Some(wrap_context(name, m.as_str()))
            },
        },
        ContextKind::Plain => match utf8_text(data) {
            Some(t) => Some(wrap_context(name, t.as_str())),
            None => {
                let mut m = String::from_str("[");
                m.append(name);
                m.append(" \u{2014} could not read file as text: stream did not contain valid UTF-8]");
                Some(wrap_context(name, m.as_str()))
            },
        },
        ContextKind::Unsupported => {
            let mut m = String::from_str("[");
            m.append(name);
            m.append(" \u{2014} no text extractor implemented for *.");
            m.append(file_type);
            m.append(" yet]");
            Some(wrap_context(name, m.as_str()))
        },
    }
}

/// The context block for a PDF once the path-based attempt returned `r`.
pub fn context_after_pdf_fallback(name: &str, r: Result<String, String>) -> (c: String)
    ensures
        c@ == context_wrap(name@, pdf_outcome_text(pdf_outcome_of(r), name@)),
{
    let o = pdf_path_outcome(r);
    let t = pdf_outcome_message(&o, name);
    wrap_context(name, t.as_str())
}

/// The placeholder for a file of type `file_type` that could not be read,
/// for `reason`; a type without an extractor needs no reading.
pub open spec fn unreadable_text(name: Seq<char>, file_type: Seq<char>, reason: Seq<char>) -> Seq<char> {
    match context_kind_of(file_type) {
        ContextKind::Pdf => "[PDF: "@ + name + " \u{2014} text extraction failed: "@ + reason + "]"@,
        ContextKind::Docx => "[DOCX: "@ + name + " \u{2014} text extraction failed: "@ + reason
            + "]"@,
        ContextKind::Plain => "["@ + name + " \u{2014} could not read file as text: "@ + reason
            + "]"@,
        ContextKind::Unsupported => unsupported_text(name, file_type),
    }
}

/// The context block for a file of type `file_type` that could not be read.
pub fn unreadable_context(name: &str, file_type: &str, reason: &str) -> (c: String)
    ensures
        c@ == context_wrap(name@, unreadable_text(name@, file_type@, reason@)),
{
    let mut m = String::new();
    match context_kind(file_type) {
        ContextKind::Pdf => {
            m.append("[PDF: ");
            m.append(name);
            m.append(" \u{2014} text extraction failed: ");
            m.append(reason);
            m.append("]");
        },
        ContextKind::Docx => {
            m.append("[DOCX: ");
            m.append(name);
            m.append(" \u{2014} text extraction failed: ");
            m.append(reason);
            m.append("]");
        },
        ContextKind::Plain => {
            m.append("[");
            m.append(name);
            m.append(" \u{2014} could not read file as text: ");
            m.append(reason);
            m.append("]");
        },
        ContextKind::Unsupported => {
            m.append("[");
            m.append(name);
            m.append(" \u{2014} no text extractor implemented for *.");
            m.append(file_type);
            m.append(" yet]");
        },
    }
    wrap_context(name, m.as_str())
}

/// The context block for a PDF whose path does not exist.
pub fn missing_pdf_context(name: &str, path: &str) -> (c: String)
    ensures
        c@ == context_wrap(name@, "[PDF file not found: "@ + path@ + "]"@),
{
    let mut m = String::from_str("[PDF file not found: ");
    m.append(path);
    m.append("]");
    wrap_context(name, m.as_str())
}

} // verus!
