//! Errors as they are reported to the caller of the service.

use vstd::prelude::*;
use crate::forms::upload::UploadError;
use crate::process::ProcessError;

verus! {

/// The kind of an error, by the HTTP status that reports it.
#[derive(Debug, PartialEq, Eq, Clone, Copy, Structural)]
pub enum Status {
    BadRequest,
    Unauthorized,
    Forbidden,
    NotFound,
    TooManyRequests,
    InternalServerError,
}

impl Status {
    /// The number of the status.
    pub fn code(&self) -> (code: u16)
        ensures
            code == match *self {
                Status::BadRequest => 400u16,
                Status::Unauthorized => 401u16,
                Status::Forbidden => 403u16,
                Status::NotFound => 404u16,
                Status::TooManyRequests => 429u16,
                Status::InternalServerError => 500u16,
            },
    {
        match self {
            Status::BadRequest => 400,
            Status::Unauthorized => 401,
            Status::Forbidden => 403,
            Status::NotFound => 404,
            Status::TooManyRequests => 429,
            Status::InternalServerError => 500,
        }
    }
}

/// An error to report: its kind, a message for the user and, where a form
/// was refused, the message for each field that was.
#[derive(Debug, PartialEq)]
pub struct AppError {
    pub status: Status,
    pub message: String,
    pub fields: Option<serde_json::Map<String, serde_json::Value>>,
}

impl AppError {
    pub fn not_found(message: String) -> (error: AppError)
        ensures
            error == (AppError { status: Status::NotFound, message, fields: None }),
    {
        AppError { status: Status::NotFound, message, fields: None }
    }

    /// `message` is the text of `error.unauthorized` in the user's language.
    pub fn unauthorized(message: String) -> (error: AppError)
        ensures
            error == (AppError { status: Status::Unauthorized, message, fields: None }),
    {
        AppError { status: Status::Unauthorized, message, fields: None }
    }

    pub fn bad_request(message: String) -> (error: AppError)
        ensures
            error == (AppError { status: Status::BadRequest, message, fields: None }),
    {
        AppError { status: Status::BadRequest, message, fields: None }
    }

    /// `message` is the text of `error.wrong_fields` in the user's
    /// language; `fields` holds the message for each field that was refused.
    pub fn bad_request_with_fields(
        message: String,
        fields: serde_json::Map<String, serde_json::Value>,
    ) -> (error: AppError)
        ensures
            error == (AppError { status: Status::BadRequest, message, fields: Some(fields) }),
    {
        AppError { status: Status::BadRequest, message, fields: Some(fields) }
    }

    pub fn forbidden(message: String) -> (error: AppError)
        ensures
            error == (AppError { status: Status::Forbidden, message, fields: None }),
    {
        AppError { status: Status::Forbidden, message, fields: None }
    }

    /// `message` is the text of `error.too_many_requests` in the user's language.
    pub fn too_many_requests(message: String) -> (error: AppError)
        ensures
            error == (AppError { status: Status::TooManyRequests, message, fields: None }),
    {
        AppError { status: Status::TooManyRequests, message, fields: None }
    }

    /// `message` is the text of `error.unknown_host` in the user's language.
    pub fn unknown_host(message: String) -> (error: AppError)
        ensures
            error == (AppError { status: Status::BadRequest, message, fields: None }),
    {
        AppError { status: Status::BadRequest, message, fields: None }
    }

    pub fn internal(message: String) -> (error: AppError)
        ensures
            error == (AppError { status: Status::InternalServerError, message, fields: None }),
    {
        AppError { status: Status::InternalServerError, message, fields: None }
    }
}

impl ProcessError {
    /// The kind of error that reports why a step was not acted on.
    pub open spec fn status_of(self) -> Status {
        match self {
            ProcessError::NoProcessFlow => Status::NotFound,
            ProcessError::NotAssignedToFlow => Status::Forbidden,
            ProcessError::NotAssignedToSchema => Status::Forbidden,
            ProcessError::InvalidRequest => Status::BadRequest,
            ProcessError::InvalidFields(_) => Status::BadRequest,
            ProcessError::NoPreviousFlow => Status::InternalServerError,
        }
    }

    /// The kind of error that reports why a step was not acted on.
    pub fn status(&self) -> (status: Status)
        ensures
            status == self.status_of(),
    {
        match self {
            ProcessError::NoProcessFlow => Status::NotFound,
            ProcessError::NotAssignedToFlow => Status::Forbidden,
            ProcessError::NotAssignedToSchema => Status::Forbidden,
            ProcessError::InvalidRequest => Status::BadRequest,
            ProcessError::InvalidFields(_) => Status::BadRequest,
            ProcessError::NoPreviousFlow => Status::InternalServerError,
        }
    }

    /// The key of the message that tells a user of this error.
    pub fn message_key(&self) -> (key: &'static str)
        ensures
            key@ == match *self {
                ProcessError::NoProcessFlow => "ticket.error.no_process_flow"@,
                ProcessError::NotAssignedToFlow => "ticket.error.not_assign_to_this_flow"@,
                ProcessError::NotAssignedToSchema => "ticket.error.not_assign_to_this_schema"@,
                ProcessError::InvalidRequest => "ticket.error.invalid_request"@,
                ProcessError::InvalidFields(_) => "error.wrong_fields"@,
                ProcessError::NoPreviousFlow => "ticket.error.no_previous_flow"@,
            },
    {
        match self {
            ProcessError::NoProcessFlow => "ticket.error.no_process_flow",
            ProcessError::NotAssignedToFlow => "ticket.error.not_assign_to_this_flow",
            ProcessError::NotAssignedToSchema => "ticket.error.not_assign_to_this_schema",
            ProcessError::InvalidRequest => "ticket.error.invalid_request",
            ProcessError::InvalidFields(_) => "error.wrong_fields",
            ProcessError::NoPreviousFlow => "ticket.error.no_previous_flow",
        }
    }
}

impl UploadError {
    /// The key of the message that tells a user of this error.
    pub fn message_key(&self) -> (key: &'static str)
        ensures
            key@ == match *self {
                UploadError::NotAnImage => "ticket.rules.not_an_image"@,
                UploadError::NotAFile => "ticket.rules.not_a_file"@,
                UploadError::ImageTooLarge => "ticket.rules.image_too_large"@,
                UploadError::ImageFormatNotAllowed => "ticket.rules.invalid_image_type"@,
                UploadError::UnreadableImage => "ticket.rules.unreadable_image"@,
                UploadError::ImageWidthTooSmall => "ticket.rules.image_width_too_small"@,
                UploadError::ImageWidthTooLarge => "ticket.rules.image_width_too_large"@,
                UploadError::ImageHeightTooSmall => "ticket.rules.image_height_too_small"@,
                UploadError::ImageHeightTooLarge => "ticket.rules.image_height_too_large"@,
                UploadError::InvalidImageType => "ticket.rules.invalid_image_type"@,
                UploadError::FileTooLarge => "ticket.rules.file_too_large"@,
                UploadError::InvalidFileType => "ticket.rules.invalid_file_type"@,
                UploadError::NoFileExtension => "ticket.rules.no_file_extension"@,
            },
    {
        match self {
            UploadError::NotAnImage => "ticket.rules.not_an_image",
            UploadError::NotAFile => "ticket.rules.not_a_file",
            UploadError::ImageTooLarge => "ticket.rules.image_too_large",
            UploadError::ImageFormatNotAllowed => "ticket.rules.invalid_image_type",
            UploadError::UnreadableImage => "ticket.rules.unreadable_image",
            UploadError::ImageWidthTooSmall => "ticket.rules.image_width_too_small",
            UploadError::ImageWidthTooLarge => "ticket.rules.image_width_too_large",
            UploadError::ImageHeightTooSmall => "ticket.rules.image_height_too_small",
            UploadError::ImageHeightTooLarge => "ticket.rules.image_height_too_large",
            UploadError::InvalidImageType => "ticket.rules.invalid_image_type",
            UploadError::FileTooLarge => "ticket.rules.file_too_large",
            UploadError::InvalidFileType => "ticket.rules.invalid_file_type",
            UploadError::NoFileExtension => "ticket.rules.no_file_extension",
        }
    }
}

} // verus!
