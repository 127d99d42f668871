//! The media types that file and image fields accept.

use vstd::prelude::*;
use vstd::string::StringExecFns;
use crate::text::same_text;

verus! {

/// The lowercase form of a text, as `str::to_lowercase` gives it.
pub uninterp spec fn lowercase(s: Seq<char>) -> Seq<char>;

/// `str::to_lowercase`: the result is the lowercase form of `s`.
#[verifier::external_body]
pub(crate) fn to_lowercase(s: &str) -> (lower: String)
    ensures
        lower@ == lowercase(s@),
{
    s.to_lowercase()
}

/// A document type that a file field may accept.
#[derive(Debug, PartialEq, Eq, Clone, Copy, Structural)]
pub enum FileMime {
    Pdf,
    Doc,
    Docx,
    Xls,
    Xlsx,
    Ppt,
    Pptx,
    Odt,
    Ods,
    Odp,
    Txt,
    Csv,
}

impl FileMime {
    /// The media type's name.
    pub open spec fn text(self) -> Seq<char> {
        match self {
            FileMime::Pdf => "application/pdf"@,
            FileMime::Doc => "application/msword"@,
            FileMime::Docx =>
                "application/vnd.openxmlformats-officedocument.wordprocessingml.document"@,
            FileMime::Xls => "application/vnd.ms-excel"@,
            FileMime::Xlsx => "application/vnd.openxmlformats-officedocument.spreadsheetml.sheet"@,
            FileMime::Ppt => "application/vnd.ms-powerpoint"@,
            FileMime::Pptx =>
                "application/vnd.openxmlformats-officedocument.presentationml.presentation"@,
            FileMime::Odt => "application/vnd.oasis.opendocument.text"@,
            FileMime::Ods => "application/vnd.oasis.opendocument.spreadsheet"@,
            FileMime::Odp => "application/vnd.oasis.opendocument.presentation"@,
            FileMime::Txt => "text/plain"@,
            FileMime::Csv => "text/csv"@,
        }
    }

    /// The document type that a name stands for, if any.
    pub open spec fn parse(s: Seq<char>) -> Option<FileMime> {
        if s == FileMime::Pdf.text() {
            Some(FileMime::Pdf)
        } else if s == FileMime::Doc.text() {
            Some(FileMime::Doc)
        } else if s == FileMime::Docx.text() {
            Some(FileMime::Docx)
        } else if s == FileMime::Xls.text() {
            Some(FileMime::Xls)
        } else if s == FileMime::Xlsx.text() {
            Some(FileMime::Xlsx)
        } else if s == FileMime::Ppt.text() {
            Some(FileMime::Ppt)
        } else if s == FileMime::Pptx.text() {
            Some(FileMime::Pptx)
        } else if s == FileMime::Odt.text() {
            Some(FileMime::Odt)
        } else if s == FileMime::Ods.text() {
            Some(FileMime::Ods)
        } else if s == FileMime::Odp.text() {
            Some(FileMime::Odp)
        } else if s == FileMime::Txt.text() {
            Some(FileMime::Txt)
        } else if s == FileMime::Csv.text() {
            Some(FileMime::Csv)
        } else {
            None
        }
    }

    pub fn as_str(&self) -> (name: &str)
        ensures
            name@ == self.text(),
    {
        match self {
            FileMime::Pdf => "application/pdf",
            FileMime::Doc => "application/msword",
            FileMime::Docx => {
                "application/vnd.openxmlformats-officedocument.wordprocessingml.document"
            },
            FileMime::Xls => "application/vnd.ms-excel",
            FileMime::Xlsx => "application/vnd.openxmlformats-officedocument.spreadsheetml.sheet",
            FileMime::Ppt => "application/vnd.ms-powerpoint",
            FileMime::Pptx => {
                "application/vnd.openxmlformats-officedocument.presentationml.presentation"
            },
            FileMime::Odt => "application/vnd.oasis.opendocument.text",
            FileMime::Ods => "application/vnd.oasis.opendocument.spreadsheet",
            FileMime::Odp => "application/vnd.oasis.opendocument.presentation",
            FileMime::Txt => "text/plain",
            FileMime::Csv => "text/csv",
        }
    }

    /// The document type of a content type, given by its top-level type and
    /// its subtype in any letter case.
    pub fn from_content_type(top: &str, sub: &str) -> (mime: Option<FileMime>)
        ensures
            mime == FileMime::parse(lowercase(top@) + seq!['/'] + lowercase(sub@)),
    {
        let top = to_lowercase(top);
        let sub = to_lowercase(sub);
        Self::from_type_and_subtype(top.as_str(), sub.as_str())
    }

    /// The document type of a content type, given by its top-level type and
    /// its subtype as they are written.
    pub fn from_type_and_subtype(top: &str, sub: &str) -> (mime: Option<FileMime>)
        ensures
            mime == FileMime::parse(top@ + seq!['/'] + sub@),
    {
        let mut name = top.to_owned();
        proof {
            reveal_strlit("/");
            assert("/"@ =~= seq!['/']);
        }
        name.append("/");
        name.append(sub);
        Self::from_str(name.as_str())
    }

    pub fn from_str(s: &str) -> (mime: Option<FileMime>)
        ensures
            mime == FileMime::parse(s@),
    {
        if same_text(s, FileMime::Pdf.as_str()) {
            Some(FileMime::Pdf)
        } else if same_text(s, FileMime::Doc.as_str()) {
            Some(FileMime::Doc)
        } else if same_text(s, FileMime::Docx.as_str()) {
            Some(FileMime::Docx)
        } else if same_text(s, FileMime::Xls.as_str()) {
            Some(FileMime::Xls)
        } else if same_text(s, FileMime::Xlsx.as_str()) {
            Some(FileMime::Xlsx)
        } else if same_text(s, FileMime::Ppt.as_str()) {
            Some(FileMime::Ppt)
        } else if same_text(s, FileMime::Pptx.as_str()) {
            Some(FileMime::Pptx)
        } else if same_text(s, FileMime::Odt.as_str()) {
            Some(FileMime::Odt)
        } else if same_text(s, FileMime::Ods.as_str()) {
            Some(FileMime::Ods)
        } else if same_text(s, FileMime::Odp.as_str()) {
            Some(FileMime::Odp)
        } else if same_text(s, FileMime::Txt.as_str()) {
            Some(FileMime::Txt)
        } else if same_text(s, FileMime::Csv.as_str()) {
            Some(FileMime::Csv)
        } else {
            None
        }
    }
}

/// An image type that an image field may accept.
#[derive(Debug, PartialEq, Eq, Clone, Copy, Structural)]
pub enum ImageMime {
    Jpeg,
    Png,
    Gif,
    Webp,
    Svg,
    Ai,
}

impl ImageMime {
    /// The media type's name.
    pub open spec fn text(self) -> Seq<char> {
        match self {
            ImageMime::Jpeg => "image/jpeg"@,
            ImageMime::Png => "image/png"@,
            ImageMime::Gif => "image/gif"@,
            ImageMime::Webp => "image/webp"@,
            ImageMime::Svg => "image/svg+xml"@,
            ImageMime::Ai => "application/pdf"@,
        }
    }

    /// The image type that a name stands for, if any.
    pub open spec fn parse(s: Seq<char>) -> Option<ImageMime> {
        if s == ImageMime::Jpeg.text() {
            Some(ImageMime::Jpeg)
        } else if s == ImageMime::Png.text() {
            Some(ImageMime::Png)
        } else if s == ImageMime::Gif.text() {
            Some(ImageMime::Gif)
        } else if s == ImageMime::Webp.text() {
            Some(ImageMime::Webp)
        } else if s == ImageMime::Svg.text() {
            Some(ImageMime::Svg)
        } else if s == ImageMime::Ai.text() {
            Some(ImageMime::Ai)
        } else {
            None
        }
    }

    pub fn as_str(&self) -> (name: &str)
        ensures
            name@ == self.text(),
    {
        match *self {
            ImageMime::Jpeg => "image/jpeg",
            ImageMime::Png => "image/png",
            ImageMime::Gif => "image/gif",
            ImageMime::Webp => "image/webp",
            ImageMime::Svg => "image/svg+xml",
            ImageMime::Ai => "application/pdf",
        }
    }

    pub fn from_str(s: &str) -> (mime: Option<ImageMime>)
        ensures
            mime == ImageMime::parse(s@),
    {
        if same_text(s, ImageMime::Jpeg.as_str()) {
            Some(ImageMime::Jpeg)
        } else if same_text(s, ImageMime::Png.as_str()) {
            Some(ImageMime::Png)
        } else if same_text(s, ImageMime::Gif.as_str()) {
            Some(ImageMime::Gif)
        } else if same_text(s, ImageMime::Webp.as_str()) {
            Some(ImageMime::Webp)
        } else if same_text(s, ImageMime::Svg.as_str()) {
            Some(ImageMime::Svg)
        } else if same_text(s, ImageMime::Ai.as_str()) {
            Some(ImageMime::Ai)
        } else {
            None
        }
    }
}

/// Every image type is the one that its own name stands for.
pub proof fn lemma_image_mime_round_trip(mime: ImageMime)
    ensures
        ImageMime::parse(mime.text()) == Some(mime),
{
    reveal_strlit("image/jpeg");
    reveal_strlit("image/png");
    reveal_strlit("image/gif");
    reveal_strlit("image/webp");
    reveal_strlit("image/svg+xml");
    reveal_strlit("application/pdf");
    assert("image/jpeg"@.len() == 10 && "image/jpeg"@[6] == 'j');
    assert("image/webp"@.len() == 10 && "image/webp"@[6] == 'w');
    assert("image/png"@.len() == 9 && "image/png"@[6] == 'p');
    assert("image/gif"@.len() == 9 && "image/gif"@[6] == 'g');
    assert("image/svg+xml"@.len() == 13);
    assert("application/pdf"@.len() == 15);
}

/// Every document type is the one that its own name stands for.
pub proof fn lemma_file_mime_round_trip(mime: FileMime)
    ensures
        FileMime::parse(mime.text()) == Some(mime),
{
    reveal_strlit("application/pdf");
    reveal_strlit("application/msword");
    reveal_strlit("application/vnd.openxmlformats-officedocument.wordprocessingml.document");
    reveal_strlit("application/vnd.ms-excel");
    reveal_strlit("application/vnd.openxmlformats-officedocument.spreadsheetml.sheet");
    reveal_strlit("application/vnd.ms-powerpoint");
    reveal_strlit("application/vnd.openxmlformats-officedocument.presentationml.presentation");
    reveal_strlit("application/vnd.oasis.opendocument.text");
    reveal_strlit("application/vnd.oasis.opendocument.spreadsheet");
    reveal_strlit("application/vnd.oasis.opendocument.presentation");
    reveal_strlit("text/plain");
    reveal_strlit("text/csv");
    assert("application/pdf"@.len() == 15);
    assert("application/msword"@.len() == 18);
    assert("application/vnd.openxmlformats-officedocument.wordprocessingml.document"@.len() == 71);
    assert("application/vnd.ms-excel"@.len() == 24);
    assert("application/vnd.openxmlformats-officedocument.spreadsheetml.sheet"@.len() == 65);
    assert("application/vnd.ms-powerpoint"@.len() == 29);
    assert("application/vnd.openxmlformats-officedocument.presentationml.presentation"@.len()
        == 73);
    assert("application/vnd.oasis.opendocument.text"@.len() == 39);
    assert("application/vnd.oasis.opendocument.spreadsheet"@.len() == 46);
    assert("application/vnd.oasis.opendocument.presentation"@.len() == 47);
    assert("text/plain"@.len() == 10);
    assert("text/csv"@.len() == 8);
}

} // verus!
