use vstd::prelude::*;

use crate::text::{has_prefix, starts_with, str_equals};

verus! {

/// The coarse content class of a file extension, each shown in its own colour.
#[derive(Clone, Copy, Debug, PartialEq, Eq, Structural)]
pub enum ExtColor {
    Pdf,
    Archive,
    Presentation,
    Spreadsheet,
    Document,
    Audio,
    Video,
    Image,
    Application,
    Plain,
}

/// The MIME type that `mime_guess` gives first for an extension, or
/// `text/plain` where it knows none.
pub uninterp spec fn mime_of(ext: Seq<char>) -> Seq<char>;

pub open spec fn is_pdf_mime(m: Seq<char>) -> bool {
    m == "application/pdf"@ || m == "application/x-pdf"@
}

pub open spec fn is_archive_mime(m: Seq<char>) -> bool {
    ||| m == "application/vnd.rar"@
    ||| m == "application/x-rar-compressed"@
    ||| m == "application/zip"@
    ||| m == "application/x-zip-compressed"@
    ||| m == "multipart/x-zip"@
    ||| m == "application/vnd.cncf.helm.chart.content.v1.tar+gzip"@
}

pub open spec fn is_presentation_mime(m: Seq<char>) -> bool {
    ||| m == "application/vnd.ms-powerpoint"@
    ||| m == "application/vnd.openxmlformats-officedocument.presentationml.presentation"@
    ||| m == "application/vnd.openxmlformats-officedocument.presentationml.template"@
    ||| m == "application/vnd.openxmlformats-officedocument.presentationml.slideshow"@
    ||| m == "application/vnd.ms-powerpoint.addin.macroEnabled.12"@
    ||| m == "application/vnd.ms-powerpoint.presentation.macroEnabled.12"@
    ||| m == "application/vnd.ms-powerpoint.template.macroEnabled.12"@
    ||| m == "application/vnd.ms-powerpoint.slideshow.macroEnabled.12"@
}

pub open spec fn is_spreadsheet_mime(m: Seq<char>) -> bool {
    ||| m == "application/vnd.ms-excel"@
    ||| m == "application/vnd.openxmlformats-officedocument.spreadsheetml.sheet"@
    ||| m == "application/vnd.openxmlformats-officedocument.spreadsheetml.template"@
    ||| m == "application/vnd.ms-excel.sheet.macroEnabled.12"@
    ||| m == "application/vnd.ms-excel.template.macroEnabled.12"@
    ||| m == "application/vnd.ms-excel.addin.macroEnabled.12"@
    ||| m == "application/vnd.ms-excel.sheet.binary.macroEnabled.12"@
}

pub open spec fn is_document_mime(m: Seq<char>) -> bool {
    ||| m == "application/msword"@
    ||| m == "application/vnd.openxmlformats-officedocument.wordprocessingml.document"@
    ||| m == "application/vnd.openxmlformats-officedocument.wordprocessingml.template"@
    ||| m == "application/vnd.ms-word.document.macroEnabled.12"@
    ||| m == "application/vnd.ms-word.template.macroEnabled.12"@
}

/// The colour class of a MIME type: the exact types first, then the
/// top-level families, and everything else (text included) plain.
pub open spec fn color_of(m: Seq<char>) -> ExtColor {
    if is_pdf_mime(m) {
        ExtColor::Pdf
    } else if is_archive_mime(m) {
        ExtColor::Archive
    } else if is_presentation_mime(m) {
        ExtColor::Presentation
    } else if is_spreadsheet_mime(m) {
        ExtColor::Spreadsheet
    } else if is_document_mime(m) {
        ExtColor::Document
    } else if starts_with(m, "audio"@) {
        ExtColor::Audio
    } else if starts_with(m, "video"@) {
        ExtColor::Video
    } else if starts_with(m, "image"@) {
        ExtColor::Image
    } else if starts_with(m, "application"@) {
        ExtColor::Application
    } else {
        ExtColor::Plain
    }
}

/// The 24-bit colour of each class; the plain class keeps the terminal's
/// white.
pub open spec fn rgb_of(c: ExtColor) -> Option<(u8, u8, u8)> {
    match c {
        ExtColor::Pdf => Some((230, 25, 25)),
        ExtColor::Archive => Some((179, 43, 149)),
        ExtColor::Presentation => Some((235, 111, 16)),
        ExtColor::Spreadsheet => Some((51, 135, 58)),
        ExtColor::Document => Some((73, 67, 232)),
        ExtColor::Audio => Some((25, 230, 203)),
        ExtColor::Video => Some((134, 25, 230)),
        ExtColor::Image => Some((237, 208, 17)),
        ExtColor::Application => Some((250, 206, 145)),
        ExtColor::Plain => None,
    }
}

impl ExtColor {
    /// The 24-bit colour of this class, `None` for plain white.
    pub fn rgb(&self) -> (r: Option<(u8, u8, u8)>)
        ensures
            r == rgb_of(*self),
    {
        match self {
            ExtColor::Pdf => Some((230, 25, 25)),
            ExtColor::Archive => Some((179, 43, 149)),
            ExtColor::Presentation => Some((235, 111, 16)),
            ExtColor::Spreadsheet => Some((51, 135, 58)),
            ExtColor::Document => Some((73, 67, 232)),
            ExtColor::Audio => Some((25, 230, 203)),
            ExtColor::Video => Some((134, 25, 230)),
            ExtColor::Image => Some((237, 208, 17)),
            ExtColor::Application => Some((250, 206, 145)),
            ExtColor::Plain => None,
        }
    }
}

/// Relies on `mime_guess::from_ext(..).first_or_text_plain()`: the first MIME
/// type known for the extension, `text/plain` where none is known; an empty
/// extension has none.
#[verifier::external_body]
fn guess_mime(ext: &str) -> (r: String)
    ensures
        r@ == mime_of(ext@),
        ext@.len() == 0 ==> r@ == "text/plain"@,
{
    mime_guess::from_ext(ext).first_or_text_plain().to_string()
}

fn is_pdf(m: &str) -> (r: bool)
    ensures
        r == is_pdf_mime(m@),
{
    str_equals(m, "application/pdf") || str_equals(m, "application/x-pdf")
}

fn is_archive(m: &str) -> (r: bool)
    ensures
        r == is_archive_mime(m@),
{
    str_equals(m, "application/vnd.rar") || str_equals(m, "application/x-rar-compressed")
        || str_equals(m, "application/zip") || str_equals(m, "application/x-zip-compressed")
        || str_equals(m, "multipart/x-zip") || str_equals(
        m,
        "application/vnd.cncf.helm.chart.content.v1.tar+gzip",
    )
}

fn is_presentation(m: &str) -> (r: bool)
    ensures
        r == is_presentation_mime(m@),
{
    str_equals(m, "application/vnd.ms-powerpoint") || str_equals(
        m,
        "application/vnd.openxmlformats-officedocument.presentationml.presentation",
    ) || str_equals(m, "application/vnd.openxmlformats-officedocument.presentationml.template")
        || str_equals(m, "application/vnd.openxmlformats-officedocument.presentationml.slideshow")
        || str_equals(m, "application/vnd.ms-powerpoint.addin.macroEnabled.12") || str_equals(
        m,
        "application/vnd.ms-powerpoint.presentation.macroEnabled.12",
    ) || str_equals(m, "application/vnd.ms-powerpoint.template.macroEnabled.12") || str_equals(
        m,
        "application/vnd.ms-powerpoint.slideshow.macroEnabled.12",
    )
}

fn is_spreadsheet(m: &str) -> (r: bool)
    ensures
        r == is_spreadsheet_mime(m@),
{
    str_equals(m, "application/vnd.ms-excel") || str_equals(
        m,
        "application/vnd.openxmlformats-officedocument.spreadsheetml.sheet",
    ) || str_equals(m, "application/vnd.openxmlformats-officedocument.spreadsheetml.template")
        || str_equals(m, "application/vnd.ms-excel.sheet.macroEnabled.12") || str_equals(
        m,
        "application/vnd.ms-excel.template.macroEnabled.12",
    ) || str_equals(m, "application/vnd.ms-excel.addin.macroEnabled.12") || str_equals(
        m,
        "application/vnd.ms-excel.sheet.binary.macroEnabled.12",
    )
}

fn is_document(m: &str) -> (r: bool)
    ensures
        r == is_document_mime(m@),
{
    str_equals(m, "application/msword") || str_equals(
        m,
        "application/vnd.openxmlformats-officedocument.wordprocessingml.document",
    ) || str_equals(m, "application/vnd.openxmlformats-officedocument.wordprocessingml.template")
        || str_equals(m, "application/vnd.ms-word.document.macroEnabled.12") || str_equals(
        m,
        "application/vnd.ms-word.template.macroEnabled.12",
    )
}

/// Text, the fallback of the guess, is shown plain.
pub proof fn lemma_text_plain_is_plain()
    ensures
        color_of("text/plain"@) == ExtColor::Plain,
{
    broadcast use vstd::string::group_string_axioms;

    reveal_strlit("text/plain");
    reveal_strlit("application");
    reveal_strlit("application/msword");
    reveal_strlit("application/pdf");
    reveal_strlit("application/vnd.cncf.helm.chart.content.v1.tar+gzip");
    reveal_strlit("application/vnd.ms-excel");
    reveal_strlit("application/vnd.ms-excel.addin.macroEnabled.12");
    reveal_strlit("application/vnd.ms-excel.sheet.binary.macroEnabled.12");
    reveal_strlit("application/vnd.ms-excel.sheet.macroEnabled.12");
    reveal_strlit("application/vnd.ms-excel.template.macroEnabled.12");
    reveal_strlit("application/vnd.ms-powerpoint");
    reveal_strlit("application/vnd.ms-powerpoint.addin.macroEnabled.12");
    reveal_strlit("application/vnd.ms-powerpoint.presentation.macroEnabled.12");
    reveal_strlit("application/vnd.ms-powerpoint.slideshow.macroEnabled.12");
    reveal_strlit("application/vnd.ms-powerpoint.template.macroEnabled.12");
    reveal_strlit("application/vnd.ms-word.document.macroEnabled.12");
    reveal_strlit("application/vnd.ms-word.template.macroEnabled.12");
    reveal_strlit("application/vnd.openxmlformats-officedocument.presentationml.presentation");
    reveal_strlit("application/vnd.openxmlformats-officedocument.presentationml.slideshow");
    reveal_strlit("application/vnd.openxmlformats-officedocument.presentationml.template");
    reveal_strlit("application/vnd.openxmlformats-officedocument.spreadsheetml.sheet");
    reveal_strlit("application/vnd.openxmlformats-officedocument.spreadsheetml.template");
    reveal_strlit("application/vnd.openxmlformats-officedocument.wordprocessingml.document");
    reveal_strlit("application/vnd.openxmlformats-officedocument.wordprocessingml.template");
    reveal_strlit("application/vnd.rar");
    reveal_strlit("application/x-pdf");
    reveal_strlit("application/x-rar-compressed");
    reveal_strlit("application/x-zip-compressed");
    reveal_strlit("application/zip");
    reveal_strlit("audio");
    reveal_strlit("image");
    reveal_strlit("multipart/x-zip");
    reveal_strlit("video");
    let t = "text/plain"@;
    assert(t.len() == 10);
    assert("application/pdf"@.len() == 15);
    assert(!is_pdf_mime(t));
    assert(!is_archive_mime(t));
    assert(!is_presentation_mime(t));
    assert(!is_spreadsheet_mime(t));
    assert(!is_document_mime(t));
    assert(t.subrange(0, 5)[0] == 't');
    assert(!starts_with(t, "audio"@));
    assert(!starts_with(t, "video"@));
    assert(!starts_with(t, "image"@));
}

/// The colour class of a MIME type.
pub fn color_for_mime(mime: &str) -> (r: ExtColor)
    ensures
        r == color_of(mime@),
{
    if is_pdf(mime) {
        ExtColor::Pdf
    } else if is_archive(mime) {
        ExtColor::Archive
    } else if is_presentation(mime) {
        ExtColor::Presentation
    } else if is_spreadsheet(mime) {
        ExtColor::Spreadsheet
    } else if is_document(mime) {
        ExtColor::Document
    } else if has_prefix(mime, "audio") {
        ExtColor::Audio
    } else if has_prefix(mime, "video") {
        ExtColor::Video
    } else if has_prefix(mime, "image") {
        ExtColor::Image
    } else if has_prefix(mime, "application") {
        ExtColor::Application
    } else {
        ExtColor::Plain
    }
}

/// The colour class of a file extension, through its guessed MIME type.
pub fn get_type_color(ext: &str) -> (r: ExtColor)
    ensures
        r == color_of(mime_of(ext@)),
        ext@.len() == 0 ==> r == ExtColor::Plain,
{
    let mime = guess_mime(ext);
    proof {
        lemma_text_plain_is_plain();
    }
    color_for_mime(mime.as_str())
}

} // verus!
