use conf_ops::mime::{FileMime, ImageMime};

#[test]
fn file_mime_names_round_trip() {
    let all = [
        FileMime::Pdf,
        FileMime::Doc,
        FileMime::Docx,
        FileMime::Xls,
        FileMime::Xlsx,
        FileMime::Ppt,
        FileMime::Pptx,
        FileMime::Odt,
        FileMime::Ods,
        FileMime::Odp,
        FileMime::Txt,
        FileMime::Csv,
    ];
    for mime in all {
        assert_eq!(FileMime::from_str(mime.as_str()), Some(mime));
    }
    assert_eq!(FileMime::from_str("application/zip"), None);
    assert_eq!(FileMime::Pdf.as_str(), "application/pdf");
    assert_eq!(FileMime::Csv.as_str(), "text/csv");
}

#[test]
fn file_mime_from_content_type_ignores_case() {
    assert_eq!(FileMime::from_content_type("Application", "PDF"), Some(FileMime::Pdf));
    assert_eq!(FileMime::from_content_type("text", "plain"), Some(FileMime::Txt));
    assert_eq!(FileMime::from_content_type("image", "png"), None);
}

#[test]
fn image_mime_names_round_trip() {
    let all = [
        ImageMime::Jpeg,
        ImageMime::Png,
        ImageMime::Gif,
        ImageMime::Webp,
        ImageMime::Svg,
        ImageMime::Ai,
    ];
    for mime in all {
        assert_eq!(ImageMime::from_str(mime.as_str()), Some(mime));
    }
    assert_eq!(ImageMime::from_str("image/bmp"), None);
    assert_eq!(ImageMime::Svg.as_str(), "image/svg+xml");
}
