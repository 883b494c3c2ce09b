//! The errors that the three submission operations report.

use vstd::prelude::*;
use crate::email::SendError;

verus! {

/// Why a submission operation failed.
pub enum Error {
    /// A notification mail could not be composed or delivered.
    Email(SendError),
    /// A notification body could not be rendered.
    TemplateRender(handlebars::RenderError),
    InvalidIban,
    InvalidEmail,
    /// The submission names no attachments, or one was never uploaded.
    MissingAttachment,
    ValueNegativeOrZero,
    UnknownTrackingId,
    UnknownAttachmentTrackingId,
    DigidecsExpired,
}

/// The HTTP status that answers an error: the server's own failures are
/// 500, unknown tracking IDs 404, and the rest the client's fault, 400.
pub open spec fn status_of(e: Error) -> u16 {
    match e {
        Error::Email(_) => 500,
        Error::TemplateRender(_) => 500,
        Error::UnknownTrackingId => 404,
        Error::UnknownAttachmentTrackingId => 404,
        _ => 400,
    }
}

impl Error {
    /// The HTTP status code that reports this error.
    pub fn status_code(&self) -> (r: u16)
        ensures
            r == status_of(*self),
    {
        match self {
            Error::Email(_) => 500,
            Error::TemplateRender(_) => 500,
            Error::InvalidIban => 400,
            Error::InvalidEmail => 400,
            Error::MissingAttachment => 400,
            Error::ValueNegativeOrZero => 400,
            Error::UnknownTrackingId => 404,
            Error::UnknownAttachmentTrackingId => 404,
            Error::DigidecsExpired => 400,
        }
    }
}

} // verus!
