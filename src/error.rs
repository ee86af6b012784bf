//! The error taxonomy: categories, retryability, messages for display, and
//! the response handed to the user interface.
use vstd::prelude::*;
use crate::text::{append, dec_digits, push_decimal};

verus! {

/// Errors of download operations.
#[derive(Clone, Debug)]
pub enum DownloadError {
    Network(String),
    VideoUnavailable(String),
    InsufficientSpace { required: u64, available: u64 },
    InvalidUrl(String),
    YtdlpNotFound,
    DownloadFailed(String),
    PermissionDenied(String),
    /// A file-system error, by its message.
    Io(String),
    /// A (de)serialization error, by its message.
    Serialization(String),
    PlatformNotSupported(String),
    DependencyMissing(String),
    Cancelled,
    Timeout,
}

/// The category of an error.
#[derive(Clone, Copy, Debug, PartialEq, Eq, Structural)]
pub enum ErrorType {
    NetworkError,
    VideoUnavailable,
    InsufficientSpace,
    InvalidUrl,
    YtdlpNotFound,
    DownloadFailed,
    PermissionDenied,
    PlatformNotSupported,
    DependencyMissing,
    Cancelled,
    Timeout,
    Unknown,
}

/// An error as the user interface shows it.
#[derive(Clone, Debug)]
pub struct ErrorResponse {
    pub error_type: ErrorType,
    pub message: String,
    pub details: Option<String>,
    pub retryable: bool,
    pub suggested_action: Option<String>,
}

pub open spec fn error_type_of(e: DownloadError) -> ErrorType {
    match e {
        DownloadError::Network(_) => ErrorType::NetworkError,
        DownloadError::VideoUnavailable(_) => ErrorType::VideoUnavailable,
        DownloadError::InsufficientSpace { .. } => ErrorType::InsufficientSpace,
        DownloadError::InvalidUrl(_) => ErrorType::InvalidUrl,
        DownloadError::YtdlpNotFound => ErrorType::YtdlpNotFound,
        DownloadError::DownloadFailed(_) => ErrorType::DownloadFailed,
        DownloadError::PermissionDenied(_) => ErrorType::PermissionDenied,
        DownloadError::PlatformNotSupported(_) => ErrorType::PlatformNotSupported,
        DownloadError::DependencyMissing(_) => ErrorType::DependencyMissing,
        DownloadError::Cancelled => ErrorType::Cancelled,
        DownloadError::Timeout => ErrorType::Timeout,
        DownloadError::Io(_) | DownloadError::Serialization(_) => ErrorType::Unknown,
    }
}

/// Network trouble, timeouts and failed downloads may succeed on a retry.
pub open spec fn is_retryable_error(e: DownloadError) -> bool {
    match e {
        DownloadError::Network(_) | DownloadError::Timeout | DownloadError::DownloadFailed(_) => true,
        _ => false,
    }
}

/// What the user can do about the error.
pub open spec fn suggested_action_text(e: DownloadError) -> Option<Seq<char>> {
    match e {
        DownloadError::Network(_) => Some("Check your internet connection and try again."@),
        DownloadError::VideoUnavailable(_) => Some(
            "The video may be private, deleted, or region-restricted."@,
        ),
        DownloadError::InsufficientSpace { .. } => Some("Free up disk space and try again."@),
        DownloadError::InvalidUrl(_) => Some("Please enter a valid YouTube URL."@),
        DownloadError::YtdlpNotFound => Some("Install yt-dlp using: brew install yt-dlp"@),
        DownloadError::PermissionDenied(_) => Some(
            "Choose a different save location with write permissions."@,
        ),
        DownloadError::PlatformNotSupported(_) => Some("This platform is not yet supported."@),
        DownloadError::DependencyMissing(dep) => Some(
            "Install the required dependency: "@ + dep@,
        ),
        DownloadError::Timeout => Some("The operation took too long. Try again later."@),
        _ => None,
    }
}

/// The error's message.
pub open spec fn message_text(e: DownloadError) -> Seq<char> {
    match e {
        DownloadError::Network(m) => "Network error: "@ + m@,
        DownloadError::VideoUnavailable(m) => "Video unavailable: "@ + m@,
        DownloadError::InsufficientSpace { required, available } => "Insufficient disk space: required "@
            + dec_digits(required as nat) + " bytes, available "@ + dec_digits(available as nat)
            + " bytes"@,
        DownloadError::InvalidUrl(m) => "Invalid URL: "@ + m@,
        DownloadError::YtdlpNotFound => "yt-dlp not found"@,
        DownloadError::DownloadFailed(m) => "Download failed: "@ + m@,
        DownloadError::PermissionDenied(m) => "Permission denied: "@ + m@,
        DownloadError::Io(m) => "IO error: "@ + m@,
        DownloadError::Serialization(m) => "Serialization error: "@ + m@,
        DownloadError::PlatformNotSupported(m) => "Platform not supported: "@ + m@,
        DownloadError::DependencyMissing(m) => "Dependency missing: "@ + m@,
        DownloadError::Cancelled => "Cancelled by user"@,
        DownloadError::Timeout => "Timeout: operation took too long"@,
    }
}

pub open spec fn opt_view(s: Option<String>) -> Option<Seq<char>> {
    match s {
        Some(v) => Some(v@),
        None => None,
    }
}

fn prefixed(prefix: &str, rest: &String) -> (r: String)
    ensures
        r@ == prefix@ + rest@,
{
    let mut s = String::from_str(prefix);
    append(&mut s, rest.as_str());
    s
}

impl DownloadError {
    /// The category of the error.
    pub fn error_type(&self) -> (r: ErrorType)
        ensures
            r == error_type_of(*self),
    {
        match self {
            DownloadError::Network(_) => ErrorType::NetworkError,
            DownloadError::VideoUnavailable(_) => ErrorType::VideoUnavailable,
            DownloadError::InsufficientSpace { .. } => ErrorType::InsufficientSpace,
            DownloadError::InvalidUrl(_) => ErrorType::InvalidUrl,
            DownloadError::YtdlpNotFound => ErrorType::YtdlpNotFound,
            DownloadError::DownloadFailed(_) => ErrorType::DownloadFailed,
            DownloadError::PermissionDenied(_) => ErrorType::PermissionDenied,
            DownloadError::PlatformNotSupported(_) => ErrorType::PlatformNotSupported,
            DownloadError::DependencyMissing(_) => ErrorType::DependencyMissing,
            DownloadError::Cancelled => ErrorType::Cancelled,
            DownloadError::Timeout => ErrorType::Timeout,
            DownloadError::Io(_) | DownloadError::Serialization(_) => ErrorType::Unknown,
        }
    }

    /// Whether a retry may succeed.
    pub fn is_retryable(&self) -> (r: bool)
        ensures
            r == is_retryable_error(*self),
    {
        match self {
            DownloadError::Network(_) | DownloadError::Timeout | DownloadError::DownloadFailed(_) => true,
            _ => false,
        }
    }

    /// What the user can do about the error, where there is advice.
    pub fn suggested_action(&self) -> (r: Option<String>)
        ensures
            opt_view(r) == suggested_action_text(*self),
    {
        match self {
            DownloadError::Network(_) => Some(String::from_str("Check your internet connection and try again.")),
            DownloadError::VideoUnavailable(_) => Some(
                String::from_str("The video may be private, deleted, or region-restricted."),
            ),
            DownloadError::InsufficientSpace { .. } => Some(String::from_str("Free up disk space and try again.")),
            DownloadError::InvalidUrl(_) => Some(String::from_str("Please enter a valid YouTube URL.")),
            DownloadError::YtdlpNotFound => Some(String::from_str("Install yt-dlp using: brew install yt-dlp")),
            DownloadError::PermissionDenied(_) => Some(
                String::from_str("Choose a different save location with write permissions."),
            ),
            DownloadError::PlatformNotSupported(_) => Some(String::from_str("This platform is not yet supported.")),
            DownloadError::DependencyMissing(dep) => Some(prefixed("Install the required dependency: ", dep)),
            DownloadError::Timeout => Some(String::from_str("The operation took too long. Try again later.")),
            _ => None,
        }
    }

    /// The error's message, as the user reads it.
    pub fn message(&self) -> (r: String)
        ensures
            r@ == message_text(*self),
    {
        match self {
            DownloadError::Network(m) => prefixed("Network error: ", m),
            DownloadError::VideoUnavailable(m) => prefixed("Video unavailable: ", m),
            DownloadError::InsufficientSpace { required, available } => {
                let mut s = String::from_str("Insufficient disk space: required ");
                push_decimal(&mut s, *required);
                append(&mut s, " bytes, available ");
                push_decimal(&mut s, *available);
                append(&mut s, " bytes");
                s
            },
            DownloadError::InvalidUrl(m) => prefixed("Invalid URL: ", m),
            DownloadError::YtdlpNotFound => String::from_str("yt-dlp not found"),
            DownloadError::DownloadFailed(m) => prefixed("Download failed: ", m),
            DownloadError::PermissionDenied(m) => prefixed("Permission denied: ", m),
            DownloadError::Io(m) => prefixed("IO error: ", m),
            DownloadError::Serialization(m) => prefixed("Serialization error: ", m),
            DownloadError::PlatformNotSupported(m) => prefixed("Platform not supported: ", m),
            DownloadError::DependencyMissing(m) => prefixed("Dependency missing: ", m),
            DownloadError::Cancelled => String::from_str("Cancelled by user"),
            DownloadError::Timeout => String::from_str("Timeout: operation took too long"),
        }
    }

    /// The response for the user interface, without details.
    pub fn to_response(&self) -> (r: ErrorResponse)
        ensures
            r.error_type == error_type_of(*self),
            r.message@ == message_text(*self),
            r.details is None,
            r.retryable == is_retryable_error(*self),
            opt_view(r.suggested_action) == suggested_action_text(*self),
    {
        ErrorResponse {
            error_type: self.error_type(),
            message: self.message(),
            details: None,
            retryable: self.is_retryable(),
            suggested_action: self.suggested_action(),
        }
    }

    /// The response for the user interface, with details.
    pub fn to_response_with_details(&self, details: String) -> (r: ErrorResponse)
        ensures
            r.error_type == error_type_of(*self),
            r.message@ == message_text(*self),
            r.details == Some(details),
            r.retryable == is_retryable_error(*self),
            opt_view(r.suggested_action) == suggested_action_text(*self),
    {
        ErrorResponse {
            error_type: self.error_type(),
            message: self.message(),
            details: Some(details),
            retryable: self.is_retryable(),
            suggested_action: self.suggested_action(),
        }
    }
}

} // verus!
