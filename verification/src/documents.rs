//! Local document extraction: the size limit, which parser reads which kind
//! of file, how a DOCX body becomes text, and the record of what was read.

use vstd::prelude::*;
use vstd::utf8::{decode_utf8, valid_utf8};
use crate::digest::{sha256_hex, sha256_of};
use crate::error::{ErrorKind, ErrorView, ObError, err_of, res_view};
use crate::text::{chars_of, concat, eq_str, hex_of, lowercase, owned, push_char, push_text, to_lower};

verus! {

/// Largest document parsed locally, in bytes.
pub const MAX_DOCUMENT_BYTES: u64 = 100 * 1024 * 1024;

/// What a document was read with, and what came out.
#[derive(Debug)]
pub struct ExtractedDocument {
    pub path: String,
    pub parser: String,
    pub text: String,
    pub source_hash: String,
    pub bytes_read: u64,
    pub warnings: Vec<String>,
}

/// The local parsers.
#[derive(Clone, Copy, Debug, PartialEq, Eq, Structural)]
pub enum DocumentParser {
    Utf8Text,
    Docx,
    Pdf,
}

/// Refuses documents over the size limit.
pub fn check_document_size(len: u64) -> (r: Result<(), ObError>)
    ensures
        len > MAX_DOCUMENT_BYTES ==> res_view(r) == Err::<(), ErrorView>(
            err_of(ErrorKind::Validation, "Document exceeds the 100 MB local parsing limit"@),
        ),
        len <= MAX_DOCUMENT_BYTES ==> r is Ok,
{
    if len > MAX_DOCUMENT_BYTES {
        Err(ObError::Validation(owned("Document exceeds the 100 MB local parsing limit")))
    } else {
        Ok(())
    }
}

/// Extensions read as UTF-8 text.
pub open spec fn is_text_extension(e: Seq<char>) -> bool {
    ||| e == "txt"@ ||| e == "md"@ ||| e == "json"@ ||| e == "csv"@ ||| e == "tsv"@
    ||| e == "rs"@ ||| e == "ts"@ ||| e == "tsx"@ ||| e == "js"@ ||| e == "py"@
    ||| e == "toml"@ ||| e == "yaml"@ ||| e == "yml"@
}

/// The parser for a file extension, compared in lowercase.
pub open spec fn parser_choice(extension: Seq<char>) -> Result<DocumentParser, ErrorView> {
    let e = lowercase(extension);
    if is_text_extension(e) {
        Ok(DocumentParser::Utf8Text)
    } else if e == "docx"@ {
        Ok(DocumentParser::Docx)
    } else if e == "pdf"@ {
        Ok(DocumentParser::Pdf)
    } else {
        Err(err_of(ErrorKind::Unavailable, "No local parser is configured for ."@ + e))
    }
}

/// Chooses the parser for a file extension.
pub fn parser_for(extension: &str) -> (r: Result<DocumentParser, ObError>)
    ensures
        res_view(r) == parser_choice(extension@),
{
    let lower = to_lower(extension);
    let e = chars_of(lower.as_str());
    if eq_str(&e, "txt") || eq_str(&e, "md") || eq_str(&e, "json") || eq_str(&e, "csv") || eq_str(&e, "tsv")
        || eq_str(&e, "rs") || eq_str(&e, "ts") || eq_str(&e, "tsx") || eq_str(&e, "js") || eq_str(&e, "py")
        || eq_str(&e, "toml") || eq_str(&e, "yaml") || eq_str(&e, "yml") {
        Ok(DocumentParser::Utf8Text)
    } else if eq_str(&e, "docx") {
        Ok(DocumentParser::Docx)
    } else if eq_str(&e, "pdf") {
        Ok(DocumentParser::Pdf)
    } else {
        Err(ObError::Unavailable(concat("No local parser is configured for .", lower.as_str())))
    }
}

/// The name recorded for each parser.
pub open spec fn parser_name(p: DocumentParser) -> Seq<char> {
    match p {
        DocumentParser::Utf8Text => "UTF-8 local reader"@,
        DocumentParser::Docx => "DOCX Open XML"@,
        DocumentParser::Pdf => "Poppler pdftotext"@,
    }
}

/// The name recorded for a parser.
pub fn parser_label(p: DocumentParser) -> (r: String)
    ensures
        r@ == parser_name(p),
{
    match p {
        DocumentParser::Utf8Text => owned("UTF-8 local reader"),
        DocumentParser::Docx => owned("DOCX Open XML"),
        DocumentParser::Pdf => owned("Poppler pdftotext"),
    }
}

/// `String::from_utf8`: the text of the bytes when they are valid UTF-8,
/// as its documentation states.
#[verifier::external_body]
fn utf8_string(bytes: Vec<u8>) -> (r: Option<String>)
    ensures
        r is Some <==> valid_utf8(bytes@),
        r matches Some(s) ==> s@ == decode_utf8(bytes@),
{
    String::from_utf8(bytes).ok()
}

/// Reads a text file's bytes as UTF-8.
pub fn text_of_bytes(bytes: Vec<u8>) -> (r: Result<String, ObError>)
    ensures
        valid_utf8(bytes@) ==> (r matches Ok(s) && s@ == decode_utf8(bytes@)),
        !valid_utf8(bytes@) ==> res_view(r) == Err::<String, ErrorView>(err_of(ErrorKind::Validation, "Text file is not valid UTF-8"@)),
{
    match utf8_string(bytes) {
        Some(s) => Ok(s),
        None => Err(ObError::Validation(owned("Text file is not valid UTF-8"))),
    }
}

/// An event of the XML reader over a DOCX body, its text already unescaped.
pub enum XmlEvent {
    /// Character data.
    Text(String),
    /// The end of an element with this qualified name.
    End(String),
    /// The end of the document.
    Eof,
    /// Anything else.
    Other,
    /// A reading or unescaping failure, with its message.
    Error(String),
}

/// The mathematical value of a reader event.
pub enum XmlEventView {
    Text(Seq<char>),
    End(Seq<char>),
    Eof,
    Other,
    Error(Seq<char>),
}

/// The view of one event.
pub open spec fn event_view(e: XmlEvent) -> XmlEventView {
    match e {
        XmlEvent::Text(t) => XmlEventView::Text(t@),
        XmlEvent::End(n) => XmlEventView::End(n@),
        XmlEvent::Eof => XmlEventView::Eof,
        XmlEvent::Other => XmlEventView::Other,
        XmlEvent::Error(m) => XmlEventView::Error(m@),
    }
}

/// The views of a sequence of events.
pub open spec fn events_view(events: Seq<XmlEvent>) -> Seq<XmlEventView> {
    events.map_values(|e: XmlEvent| event_view(e))
}

/// The text of a DOCX body read from `events`: each text run followed by a
/// space, each paragraph end (`w:p`) by a line break, stopping at the end of
/// the document; a failure refuses the document.
pub open spec fn docx_fold(events: Seq<XmlEventView>) -> Result<Seq<char>, ErrorView>
    decreases events.len(),
{
    if events.len() == 0 {
        Ok(Seq::empty())
    } else {
        let rest = docx_fold(events.subrange(1, events.len() as int));
        match events[0] {
            XmlEventView::Eof => Ok(Seq::empty()),
            XmlEventView::Error(m) => Err(err_of(ErrorKind::Validation, "DOCX XML error: "@ + m)),
            XmlEventView::Text(t) => match rest {
                Ok(r) => Ok(t + " "@ + r),
                Err(e) => Err(e),
            },
            XmlEventView::End(n) => if n == "w:p"@ {
                match rest {
                    Ok(r) => Ok("\n"@ + r),
                    Err(e) => Err(e),
                }
            } else {
                rest
            },
            XmlEventView::Other => rest,
        }
    }
}

/// Builds the text of a DOCX body from its reader events.
pub fn docx_text(events: &Vec<XmlEvent>) -> (r: Result<String, ObError>)
    ensures
        match r {
            Ok(s) => docx_fold(events_view(events@)) == Ok::<Seq<char>, ErrorView>(s@),
            Err(e) => docx_fold(events_view(events@)) == Err::<Seq<char>, ErrorView>(e@),
        },
{
    proof {
        reveal_strlit(" ");
        reveal_strlit("\n");
        assert(" "@ =~= seq![' ']);
        assert("\n"@ =~= seq!['\n']);
    }
    let ghost ev = events_view(events@);
    let mut out = String::new();
    let mut i: usize = 0;
    assert(ev.subrange(0, ev.len() as int) =~= ev);
    while i < events.len()
        invariant
            i <= events@.len(),
            ev == events_view(events@),
            ev.len() == events@.len(),
            " "@ == seq![' '],
            "\n"@ == seq!['\n'],
            docx_fold(ev) == (match docx_fold(ev.subrange(i as int, ev.len() as int)) {
                Ok(r) => Ok(out@ + r),
                Err(e) => Err(e),
            }),
        decreases events.len() - i,
    {
        let ghost t = ev.subrange(i as int, ev.len() as int);
        assert(t[0] == event_view(events@[i as int]));
        assert(t.subrange(1, t.len() as int) =~= ev.subrange(i + 1, ev.len() as int));
        match &events[i] {
            XmlEvent::Eof => {
                assert(out@ + Seq::<char>::empty() =~= out@);
                return Ok(out);
            },
            XmlEvent::Error(m) => {
                return Err(ObError::Validation(concat("DOCX XML error: ", m.as_str())));
            },
            XmlEvent::Text(s) => {
                let ghost before = out@;
                push_text(&mut out, s.as_str());
                push_char(&mut out, ' ');
                proof {
                    match docx_fold(ev.subrange(i + 1, ev.len() as int)) {
                        Ok(r) => {
                            assert(before + (s@ + " "@ + r) =~= out@ + r);
                        },
                        Err(e) => {},
                    }
                }
            },
            XmlEvent::End(n) => {
                let c = chars_of(n.as_str());
                if eq_str(&c, "w:p") {
                    let ghost before = out@;
                    push_char(&mut out, '\n');
                    proof {
                        match docx_fold(ev.subrange(i + 1, ev.len() as int)) {
                            Ok(r) => {
                                assert(before + ("\n"@ + r) =~= out@ + r);
                            },
                            Err(e) => {},
                        }
                    }
                }
            },
            XmlEvent::Other => {},
        }
        i = i + 1;
    }
    assert(out@ + Seq::<char>::empty() =~= out@);
    Ok(out)
}

/// Why the body of a DOCX archive could not be read.
pub enum DocxFailure {
    /// The bytes are not a zip archive; the `zip` crate's message.
    Archive(String),
    /// The archive holds no `word/document.xml`.
    MissingBody,
    /// The body could not be read as UTF-8 text; the reader's message.
    Unreadable(String),
}

/// The mathematical value of a `DocxFailure`.
pub enum DocxFailureView {
    Archive(Seq<char>),
    MissingBody,
    Unreadable(Seq<char>),
}

impl View for DocxFailure {
    type V = DocxFailureView;

    open spec fn view(&self) -> DocxFailureView {
        match self {
            DocxFailure::Archive(m) => DocxFailureView::Archive(m@),
            DocxFailure::MissingBody => DocxFailureView::MissingBody,
            DocxFailure::Unreadable(m) => DocxFailureView::Unreadable(m@),
        }
    }
}

/// The error that reports a DOCX body that could not be read.
pub open spec fn docx_failure_error(f: DocxFailureView) -> ErrorView {
    match f {
        DocxFailureView::Archive(m) => err_of(ErrorKind::Validation, "DOCX archive is invalid: "@ + m),
        DocxFailureView::MissingBody => err_of(ErrorKind::Validation, "DOCX document.xml is missing"@),
        DocxFailureView::Unreadable(m) => err_of(ErrorKind::Io, m),
    }
}

/// Reports a DOCX body that could not be read.
pub fn docx_failure(f: DocxFailure) -> (e: ObError)
    ensures
        e@ == docx_failure_error(f@),
{
    match f {
        DocxFailure::Archive(m) => ObError::Validation(concat("DOCX archive is invalid: ", m.as_str())),
        DocxFailure::MissingBody => ObError::Validation(owned("DOCX document.xml is missing")),
        DocxFailure::Unreadable(m) => ObError::Io(m),
    }
}

/// Name of what the `zip` crate reads from a DOCX archive held in memory
/// (`ZipArchive::new`, `by_name("word/document.xml")`, `read_to_string`):
/// the text of the body, or where reading it failed, with the crate's
/// message.
pub uninterp spec fn docx_xml_of(archive: Seq<u8>) -> Result<Seq<char>, DocxFailureView>;

/// Name of the events that `quick_xml::Reader::read_event` yields over an
/// XML text, each text event unescaped, up to and including the end of the
/// document or the first failure.
pub uninterp spec fn xml_events_of(xml: Seq<char>) -> Seq<XmlEventView>;

/// Reads `word/document.xml` out of a DOCX archive held in memory with the
/// `zip` crate. The contract names the text or the failure.
#[verifier::external_body]
fn docx_xml(bytes: &[u8]) -> (r: Result<String, DocxFailure>)
    ensures
        match r {
            Ok(x) => docx_xml_of(bytes@) == Ok::<Seq<char>, DocxFailureView>(x@),
            Err(f) => docx_xml_of(bytes@) == Err::<Seq<char>, DocxFailureView>(f@),
        },
{
    let mut archive = zip::ZipArchive::new(std::io::Cursor::new(bytes)).map_err(|e| DocxFailure::Archive(e.to_string()))?;
    let mut entry = archive.by_name("word/document.xml").map_err(|_| DocxFailure::MissingBody)?;
    let mut xml = String::new();
    std::io::Read::read_to_string(&mut entry, &mut xml).map_err(|e| DocxFailure::Unreadable(e.to_string()))?;
    Ok(xml)
}

/// The events of `quick_xml::Reader::read_event` over an XML text, converted
/// one for one, up to the end of the document or the first failure. The
/// contract names the events.
#[verifier::external_body]
fn xml_events(xml: &str) -> (r: Vec<XmlEvent>)
    ensures
        events_view(r@) == xml_events_of(xml@),
{
    let mut reader = quick_xml::Reader::from_str(xml);
    let mut events = Vec::new();
    loop {
        let e = match reader.read_event() {
            Ok(quick_xml::events::Event::Text(t)) => t.unescape().map(|u| XmlEvent::Text(u.into_owned())).unwrap_or_else(|x| XmlEvent::Error(x.to_string())),
            Ok(quick_xml::events::Event::End(n)) => XmlEvent::End(String::from_utf8_lossy(n.name().0).into_owned()),
            Ok(quick_xml::events::Event::Eof) => XmlEvent::Eof,
            Err(x) => XmlEvent::Error(x.to_string()),
            _ => XmlEvent::Other,
        };
        let last = matches!(e, XmlEvent::Eof | XmlEvent::Error(_));
        events.push(e);
        if last { return events; }
    }
}

/// The text of a DOCX document held in memory: its body's XML read out of
/// the archive, then its reader events assembled by `docx_fold`.
pub open spec fn docx_document(archive: Seq<u8>) -> Result<Seq<char>, ErrorView> {
    match docx_xml_of(archive) {
        Ok(xml) => docx_fold(xml_events_of(xml)),
        Err(f) => Err(docx_failure_error(f)),
    }
}

/// Extracts the text of a DOCX document from its bytes.
pub fn docx_document_text(bytes: &[u8]) -> (r: Result<String, ObError>)
    ensures
        match docx_document(bytes@) {
            Ok(t) => r matches Ok(s) && s@ == t,
            Err(e) => r matches Err(x) && x@ == e,
        },
{
    let xml = match docx_xml(bytes) {
        Ok(x) => x,
        Err(f) => {
            return Err(docx_failure(f));
        },
    };
    let events = xml_events(xml.as_str());
    docx_text(&events)
}

/// The record of an extraction, with the SHA-256 of the bytes read.
pub fn extracted(path: String, parser: DocumentParser, text: String, bytes: &[u8], bytes_read: u64) -> (r: ExtractedDocument)
    ensures
        r.path == path,
        r.parser@ == parser_name(parser),
        r.text == text,
        r.source_hash@ == hex_of(sha256_of(bytes@)),
        r.bytes_read == bytes_read,
        r.warnings@.len() == 0,
{
    ExtractedDocument {
        path,
        parser: parser_label(parser),
        text,
        source_hash: sha256_hex(bytes),
        bytes_read,
        warnings: Vec::new(),
    }
}

/// What an extraction yields for a document's bytes, once read: the parser
/// and text, or `None` for a PDF, whose text comes from `pdftotext`. Over
/// the size limit, with an unknown extension, with text that is not UTF-8 or
/// a DOCX body that cannot be read, the document is refused.
pub open spec fn extraction_spec(extension: Seq<char>, bytes: Seq<u8>, bytes_read: u64) -> Result<
    Option<(DocumentParser, Seq<char>)>,
    ErrorView,
> {
    if bytes_read > MAX_DOCUMENT_BYTES {
        Err(err_of(ErrorKind::Validation, "Document exceeds the 100 MB local parsing limit"@))
    } else {
        match parser_choice(extension) {
            Err(e) => Err(e),
            Ok(DocumentParser::Utf8Text) => if valid_utf8(bytes) {
                Ok(Some((DocumentParser::Utf8Text, decode_utf8(bytes))))
            } else {
                Err(err_of(ErrorKind::Validation, "Text file is not valid UTF-8"@))
            },
            Ok(DocumentParser::Docx) => match docx_document(bytes) {
                Ok(t) => Ok(Some((DocumentParser::Docx, t))),
                Err(e) => Err(e),
            },
            Ok(DocumentParser::Pdf) => Ok(None),
        }
    }
}

/// Extracts the text of a document from its bytes: the size is checked,
/// then the parser chosen by the extension, then the text read. A PDF
/// yields `None`: its text comes from `pdftotext`.
pub fn extract_document(path: String, extension: &str, bytes: Vec<u8>, bytes_read: u64) -> (r: Result<
    Option<ExtractedDocument>,
    ObError,
>)
    ensures
        match extraction_spec(extension@, bytes@, bytes_read) {
            Err(e) => r matches Err(x) && x@ == e,
            Ok(None) => r matches Ok(None),
            Ok(Some((p, t))) => r matches Ok(Some(d)) && {
                &&& d.path == path
                &&& d.parser@ == parser_name(p)
                &&& d.text@ == t
                &&& d.source_hash@ == hex_of(sha256_of(bytes@))
                &&& d.bytes_read == bytes_read
                &&& d.warnings@.len() == 0
            },
        },
{
    check_document_size(bytes_read)?;
    let hash = sha256_hex(bytes.as_slice());
    let parser = parser_for(extension)?;
    let text = match parser {
        DocumentParser::Pdf => {
            return Ok(None);
        },
        DocumentParser::Docx => docx_document_text(bytes.as_slice())?,
        DocumentParser::Utf8Text => text_of_bytes(bytes)?,
    };
    Ok(Some(ExtractedDocument { path, parser: parser_label(parser), text, source_hash: hash, bytes_read, warnings: Vec::new() }))
}

/// The error for a missing `pdftotext`.
pub fn pdf_tool_missing() -> (e: ObError)
    ensures
        e@ == err_of(ErrorKind::RequiresConfiguration, "Install Poppler pdftotext for local PDF extraction"@),
{
    ObError::RequiresConfiguration(owned("Install Poppler pdftotext for local PDF extraction"))
}

} // verus!
