//! Accepting an uploaded file or image for a field, and naming it by its content.

use vstd::prelude::*;
use vstd::string::StringExecFns;
use crate::fields::{FieldDefineView, FormFieldDefine};
use crate::forms::schema::{PartFormSchema, SchemaFieldView};
use crate::mime::{lowercase, FileMime, ImageMime};
use crate::views::view_result;

verus! {

/// The SHA-256 digest of `bytes` in lowercase hexadecimal, as `sha256::digest` gives it.
pub uninterp spec fn sha256_hex(bytes: Seq<u8>) -> Seq<char>;

/// `sha256::digest` on a byte slice: the result is the digest of the bytes
/// in hexadecimal.
#[verifier::external_body]
pub(crate) fn content_digest(bytes: &Vec<u8>) -> (hex: String)
    ensures
        hex@ == sha256_hex(bytes@),
{
    sha256::digest(bytes.as_slice())
}

/// An uploaded image as it is stored.
#[derive(Debug, PartialEq)]
pub struct TicketFormImage {
    pub id: String,
    pub ticket_schema_form_field_id: i32,
    pub path: String,
    pub mime: ImageMime,
    pub size: u32,
    pub width: u32,
    pub height: u32,
    pub created_at: i64,
    pub updated_at: i64,
}

/// An uploaded file as it is stored.
#[derive(Debug, PartialEq)]
pub struct TicketFormFile {
    pub id: String,
    pub ticket_schema_form_field_id: i32,
    pub path: String,
    pub mime: FileMime,
    pub size: u32,
    pub created_at: i64,
    pub updated_at: i64,
}

/// Why an upload was refused.
#[derive(Debug, PartialEq, Eq, Clone, Copy, Structural)]
pub enum UploadError {
    /// The field takes no image.
    NotAnImage,
    /// The field takes no file.
    NotAFile,
    ImageTooLarge,
    /// The field does not take vector images.
    ImageFormatNotAllowed,
    /// The bytes could not be read as an image.
    UnreadableImage,
    ImageWidthTooSmall,
    ImageWidthTooLarge,
    ImageHeightTooSmall,
    ImageHeightTooLarge,
    InvalidImageType,
    FileTooLarge,
    InvalidFileType,
    /// The content type has no file extension to store the upload under.
    NoFileExtension,
}

/// What decoding a raster image told: its type, if it is one the fields
/// know, and its size in pixels.
#[derive(Debug, PartialEq, Eq, Clone, Copy, Structural)]
pub struct RasterImage {
    pub mime: Option<ImageMime>,
    pub width: u32,
    pub height: u32,
}

/// An image that was sent for a field. `raster` is `None` where the bytes
/// could not be decoded.
#[derive(Debug, PartialEq)]
pub struct ImageUpload {
    pub file_size: u64,
    pub content: Vec<u8>,
    pub is_svg: bool,
    pub raster: Option<RasterImage>,
    pub extension: Option<String>,
}

/// A file that was sent for a field. `content_type` holds the top-level
/// type and the subtype that the sender declared.
#[derive(Debug, PartialEq)]
pub struct FileUpload {
    pub file_size: u64,
    pub content: Vec<u8>,
    pub content_type: Option<(String, String)>,
    pub extension: Option<String>,
}

/// An image that a field accepts: `id` is the digest of its content and
/// `file_name` the name to store it under.
#[derive(Debug, PartialEq)]
pub struct AcceptedImage {
    pub id: String,
    pub file_name: String,
    pub mime: ImageMime,
    pub size: u32,
    pub width: u32,
    pub height: u32,
}

/// A file that a field accepts.
#[derive(Debug, PartialEq)]
pub struct AcceptedFile {
    pub id: String,
    pub file_name: String,
    pub mime: FileMime,
    pub size: u32,
}

/// What a `ImageUpload` is to the contracts: texts and lists are sequences.
pub struct ImageUploadView {
    pub file_size: u64,
    pub content: Seq<u8>,
    pub is_svg: bool,
    pub raster: Option<RasterImage>,
    pub extension: Option<Seq<char>>,
}

/// What a `FileUpload` is to the contracts: texts and lists are sequences.
pub struct FileUploadView {
    pub file_size: u64,
    pub content: Seq<u8>,
    pub content_type: Option<(Seq<char>, Seq<char>)>,
    pub extension: Option<Seq<char>>,
}

/// What a `AcceptedImage` is to the contracts: texts and lists are sequences.
pub struct AcceptedImageView {
    pub id: Seq<char>,
    pub file_name: Seq<char>,
    pub mime: ImageMime,
    pub size: u32,
    pub width: u32,
    pub height: u32,
}

/// What a `AcceptedFile` is to the contracts: texts and lists are sequences.
pub struct AcceptedFileView {
    pub id: Seq<char>,
    pub file_name: Seq<char>,
    pub mime: FileMime,
    pub size: u32,
}

impl View for ImageUpload {
    type V = ImageUploadView;

    open spec fn view(&self) -> ImageUploadView {
        ImageUploadView {
            file_size: self.file_size,
            content: self.content@,
            is_svg: self.is_svg,
            raster: self.raster,
            extension: match self.extension {
                Some(e) => Some(e@),
                None => None,
            },
        }
    }
}

impl View for FileUpload {
    type V = FileUploadView;

    open spec fn view(&self) -> FileUploadView {
        FileUploadView {
            file_size: self.file_size,
            content: self.content@,
            content_type: match self.content_type {
                Some((top, sub)) => Some((top@, sub@)),
                None => None,
            },
            extension: match self.extension {
                Some(e) => Some(e@),
                None => None,
            },
        }
    }
}

impl View for AcceptedImage {
    type V = AcceptedImageView;

    open spec fn view(&self) -> AcceptedImageView {
        AcceptedImageView {
            id: self.id@,
            file_name: self.file_name@,
            mime: self.mime,
            size: self.size,
            width: self.width,
            height: self.height,
        }
    }
}

impl View for AcceptedFile {
    type V = AcceptedFileView;

    open spec fn view(&self) -> AcceptedFileView {
        AcceptedFileView {
            id: self.id@,
            file_name: self.file_name@,
            mime: self.mime,
            size: self.size,
        }
    }
}

/// The name of a stored upload: its id, a dot, the extension.
pub open spec fn name_with_extension(id: Seq<char>, extension: Seq<char>) -> Seq<char> {
    id + seq!['.'] + extension
}

/// The name that content is stored under: its digest, a dot, the extension.
pub open spec fn stored_name(content: Seq<u8>, extension: Seq<char>) -> Seq<char> {
    name_with_extension(sha256_hex(content), extension)
}

/// The type and size in pixels of an image that a field takes, or why the
/// field does not take it. A vector image has no size in pixels and counts
/// as 0 by 0; it is not measured against the field's bounds.
pub open spec fn image_kind(
    define: FieldDefineView<crate::fields::OptionValueView>,
    upload: ImageUploadView,
) -> Result<RasterImage, UploadError> {
    match define {
        FieldDefineView::Image { min_width, max_width, min_height, max_height, mimes, .. } => {
            if upload.is_svg {
                if mimes.contains(ImageMime::Svg) {
                    Ok(RasterImage { mime: Some(ImageMime::Svg), width: 0, height: 0 })
                } else {
                    Err(UploadError::ImageFormatNotAllowed)
                }
            } else {
                match upload.raster {
                    None => Err(UploadError::UnreadableImage),
                    Some(image) => {
                        if min_width matches Some(least) && image.width < least {
                            Err(UploadError::ImageWidthTooSmall)
                        } else if max_width matches Some(most) && image.width > most {
                            Err(UploadError::ImageWidthTooLarge)
                        } else if min_height matches Some(least) && image.height < least {
                            Err(UploadError::ImageHeightTooSmall)
                        } else if max_height matches Some(most) && image.height > most {
                            Err(UploadError::ImageHeightTooLarge)
                        } else if image.mime matches Some(mime) && mimes.contains(mime) {
                            Ok(image)
                        } else {
                            Err(UploadError::InvalidImageType)
                        }
                    },
                }
            }
        },
        _ => Err(UploadError::NotAnImage),
    }
}

/// What a field makes of an image sent for it: the field must take images,
/// the image must not exceed the field's size, must be of a type and of
/// measures that the field takes, and its content type must have an
/// extension. The first of these that fails is the error.
pub open spec fn image_outcome(field: SchemaFieldView, upload: ImageUploadView) -> Result<
    AcceptedImageView,
    UploadError,
> {
    match field.define {
        FieldDefineView::Image { max_size, .. } => {
            if upload.file_size > max_size {
                Err(UploadError::ImageTooLarge)
            } else {
                match image_kind(field.define, upload) {
                    Err(error) => Err(error),
                    Ok(image) => match upload.extension {
                        None => Err(UploadError::NoFileExtension),
                        Some(extension) => Ok(
                            AcceptedImageView {
                                id: sha256_hex(upload.content),
                                file_name: stored_name(upload.content, extension),
                                mime: image.mime->0,
                                size: upload.file_size as u32,
                                width: image.width,
                                height: image.height,
                            },
                        ),
                    },
                }
            }
        },
        _ => Err(UploadError::NotAnImage),
    }
}

/// The document type that a declared content type stands for.
pub open spec fn declared_mime(content_type: Option<(Seq<char>, Seq<char>)>) -> Option<FileMime> {
    match content_type {
        Some((top, sub)) => FileMime::parse(lowercase(top) + seq!['/'] + lowercase(sub)),
        None => None,
    }
}

/// What a field makes of a file sent for it: the field must take files, the
/// file must not exceed the field's size, its declared type must be one
/// that the field takes, and that type must have an extension. The first of
/// these that fails is the error.
pub open spec fn file_outcome(field: SchemaFieldView, upload: FileUploadView) -> Result<
    AcceptedFileView,
    UploadError,
> {
    match field.define {
        FieldDefineView::File { max_size, mimes, .. } => {
            if upload.file_size > max_size {
                Err(UploadError::FileTooLarge)
            } else {
                match declared_mime(upload.content_type) {
                    Some(mime) => if !mimes.contains(mime) {
                        Err(UploadError::InvalidFileType)
                    } else {
                        match upload.extension {
                            None => Err(UploadError::NoFileExtension),
                            Some(extension) => Ok(
                                AcceptedFileView {
                                    id: sha256_hex(upload.content),
                                    file_name: stored_name(upload.content, extension),
                                    mime,
                                    size: upload.file_size as u32,
                                },
                            ),
                        }
                    },
                    None => Err(UploadError::InvalidFileType),
                }
            }
        },
        _ => Err(UploadError::NotAFile),
    }
}

/// Whether `mime` is one of `mimes`.
pub fn takes_image_mime(mimes: &Vec<ImageMime>, mime: ImageMime) -> (found: bool)
    ensures
        found == mimes@.contains(mime),
{
    let mut i: usize = 0;
    while i < mimes.len()
        invariant
            i <= mimes.len(),
            forall|j: int| 0 <= j < i ==> mimes[j] != mime,
        decreases mimes.len() - i,
    {
        if mimes[i] == mime {
            return true;
        }
        i += 1;
    }
    false
}

/// Whether `mime` is one of `mimes`.
pub fn takes_file_mime(mimes: &Vec<FileMime>, mime: FileMime) -> (found: bool)
    ensures
        found == mimes@.contains(mime),
{
    let mut i: usize = 0;
    while i < mimes.len()
        invariant
            i <= mimes.len(),
            forall|j: int| 0 <= j < i ==> mimes[j] != mime,
        decreases mimes.len() - i,
    {
        if mimes[i] == mime {
            return true;
        }
        i += 1;
    }
    false
}

/// The name of a stored upload with the id `id`.
pub fn file_name_of(id: &str, extension: &str) -> (name: String)
    ensures
        name@ == name_with_extension(id@, extension@),
{
    let mut name = id.to_owned();
    proof {
        reveal_strlit(".");
        assert("."@ =~= seq!['.']);
    }
    name.append(".");
    name.append(extension);
    name
}

/// The digest of `content` and the name to store it under.
pub fn name_content(content: &Vec<u8>, extension: &str) -> (named: (String, String))
    ensures
        named.0@ == sha256_hex(content@),
        named.1@ == stored_name(content@, extension@),
{
    let hash = content_digest(content);
    let file_name = file_name_of(hash.as_str(), extension);
    (hash, file_name)
}

impl PartFormSchema {
    /// Decides whether the field takes the image sent for it, and names it.
    pub fn upload_image(&self, upload: &ImageUpload) -> (outcome: Result<
        AcceptedImage,
        UploadError,
    >)
        ensures
            view_result(outcome) == image_outcome(self.field@, upload@),
    {
        match &self.field.define {
            FormFieldDefine::Image {
                max_size,
                min_width,
                max_width,
                min_height,
                max_height,
                mimes,
                ..
            } => {
                if upload.file_size > *max_size as u64 {
                    return Err(UploadError::ImageTooLarge);
                }
                let image = if upload.is_svg {
                    if !takes_image_mime(mimes, ImageMime::Svg) {
                        return Err(UploadError::ImageFormatNotAllowed);
                    }
                    (ImageMime::Svg, 0u32, 0u32)
                } else {
                    match upload.raster {
                        None => {
                            return Err(UploadError::UnreadableImage);
                        },
                        Some(image) => {
                            if let Some(least) = min_width {
                                if image.width < *least {
                                    return Err(UploadError::ImageWidthTooSmall);
                                }
                            }
                            if let Some(most) = max_width {
                                if image.width > *most {
                                    return Err(UploadError::ImageWidthTooLarge);
                                }
                            }
                            if let Some(least) = min_height {
                                if image.height < *least {
                                    return Err(UploadError::ImageHeightTooSmall);
                                }
                            }
                            if let Some(most) = max_height {
                                if image.height > *most {
                                    return Err(UploadError::ImageHeightTooLarge);
                                }
                            }
                            match image.mime {
                                Some(mime) => {
                                    if !takes_image_mime(mimes, mime) {
                                        return Err(UploadError::InvalidImageType);
                                    }
                                    (mime, image.width, image.height)
                                },
                                None => {
                                    return Err(UploadError::InvalidImageType);
                                },
                            }
                        },
                    }
                };
                match &upload.extension {
                    None => Err(UploadError::NoFileExtension),
                    Some(extension) => {
                        let (id, file_name) = name_content(&upload.content, extension.as_str());
                        Ok(
                            AcceptedImage {
                                id,
                                file_name,
                                mime: image.0,
                                size: upload.file_size as u32,
                                width: image.1,
                                height: image.2,
                            },
                        )
                    },
                }
            },
            _ => Err(UploadError::NotAnImage),
        }
    }

    /// Decides whether the field takes the file sent for it, and names it.
    pub fn upload_file(&self, upload: &FileUpload) -> (outcome: Result<AcceptedFile, UploadError>)
        ensures
            view_result(outcome) == file_outcome(self.field@, upload@),
    {
        match &self.field.define {
            FormFieldDefine::File { max_size, mimes, .. } => {
                if upload.file_size > *max_size as u64 {
                    return Err(UploadError::FileTooLarge);
                }
                let mime = match &upload.content_type {
                    Some((top, sub)) => {
                        match FileMime::from_content_type(top.as_str(), sub.as_str()) {
                            Some(mime) => {
                                if !takes_file_mime(mimes, mime) {
                                    return Err(UploadError::InvalidFileType);
                                }
                                mime
                            },
                            None => {
                                return Err(UploadError::InvalidFileType);
                            },
                        }
                    },
                    None => {
                        return Err(UploadError::InvalidFileType);
                    },
                };
                match &upload.extension {
                    None => Err(UploadError::NoFileExtension),
                    Some(extension) => {
                        let (id, file_name) = name_content(&upload.content, extension.as_str());
                        Ok(AcceptedFile { id, file_name, mime, size: upload.file_size as u32 })
                    },
                }
            },
            _ => Err(UploadError::NotAFile),
        }
    }
}

impl AcceptedImage {
    /// The record of the image once it is stored at `path`.
    pub fn into_record(self, field_id: i32, path: String, now: i64) -> (record: TicketFormImage)
        ensures
            record == (TicketFormImage {
                id: self.id,
                ticket_schema_form_field_id: field_id,
                path,
                mime: self.mime,
                size: self.size,
                width: self.width,
                height: self.height,
                created_at: now,
                updated_at: now,
            }),
    {
        TicketFormImage {
            id: self.id,
            ticket_schema_form_field_id: field_id,
            path,
            mime: self.mime,
            size: self.size,
            width: self.width,
            height: self.height,
            created_at: now,
            updated_at: now,
        }
    }
}

impl AcceptedFile {
    /// The record of the file once it is stored at `path`.
    pub fn into_record(self, field_id: i32, path: String, now: i64) -> (record: TicketFormFile)
        ensures
            record == (TicketFormFile {
                id: self.id,
                ticket_schema_form_field_id: field_id,
                path,
                mime: self.mime,
                size: self.size,
                created_at: now,
                updated_at: now,
            }),
    {
        TicketFormFile {
            id: self.id,
            ticket_schema_form_field_id: field_id,
            path,
            mime: self.mime,
            size: self.size,
            created_at: now,
            updated_at: now,
        }
    }
}

} // verus!
