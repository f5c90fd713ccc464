//! Errors of the library.
use vstd::prelude::*;

verus! {

/// Kind of an input or output error.
#[derive(Debug, Clone, Copy, PartialEq, Eq, Structural)]
pub enum IoKind {
    NotFound,
    PermissionDenied,
    ConnectionRefused,
    ConnectionReset,
    ConnectionAborted,
    NotConnected,
    AddrInUse,
    AddrNotAvailable,
    BrokenPipe,
    AlreadyExists,
    WouldBlock,
    InvalidInput,
    InvalidData,
    TimedOut,
    WriteZero,
    Interrupted,
    Unsupported,
    UnexpectedEof,
    OutOfMemory,
    HostUnreachable,
    NetworkUnreachable,
    NetworkDown,
    NotADirectory,
    IsADirectory,
    DirectoryNotEmpty,
    ReadOnlyFilesystem,
    FilesystemLoop,
    StaleNetworkFileHandle,
    StorageFull,
    NotSeekable,
    QuotaExceeded,
    FileTooLarge,
    ResourceBusy,
    ExecutableFileBusy,
    Deadlock,
    CrossesDevices,
    TooManyLinks,
    InvalidFilename,
    ArgumentListTooLong,
    InProgress,
    Other,
    /// Of no other kind.
    Uncategorized,
}

/// Error type of the library.
#[derive(Debug, Clone, PartialEq, Eq)]
pub enum Error {
    /// End of file or stream.
    Eof,
    /// More input is needed first.
    Again,
    /// The input is not valid.
    InvalidData,
    /// No decoder for a codec.
    DecoderNotFound,
    /// No encoder for a codec.
    EncoderNotFound,
    /// No demuxer for a format.
    DemuxerNotFound,
    /// No muxer for a format.
    MuxerNotFound,
    /// No filter of a name.
    FilterNotFound,
    /// No handler for a protocol.
    ProtocolNotFound,
    /// No such stream.
    StreamNotFound,
    /// A condition that should not arise.
    Bug,
    /// No such option.
    OptionNotFound,
    /// Not implemented.
    PatchwelcomeNotImplemented,
    /// Exit was requested.
    Exit,
    /// An argument is not valid.
    InvalidArgument,
    /// Memory ran out.
    OutOfMemory,
    /// Input or output failed.
    Io(IoKind),
    /// Another error, with its message.
    Other(String),
}

/// Result of a fallible operation of the library.
pub type Result<T> = core::result::Result<T, Error>;

/// The error of an operation that gives nothing else, where it failed.
pub open spec fn failure(r: Result<()>) -> Option<Error> {
    match r {
        Ok(_) => None,
        Err(e) => Some(e),
    }
}

/// The text of an input or output error.
pub open spec fn io_kind_text(kind: IoKind) -> Seq<char> {
    match kind {
        IoKind::NotFound => "entity not found"@,
        IoKind::PermissionDenied => "permission denied"@,
        IoKind::ConnectionRefused => "connection refused"@,
        IoKind::ConnectionReset => "connection reset"@,
        IoKind::ConnectionAborted => "connection aborted"@,
        IoKind::NotConnected => "not connected"@,
        IoKind::AddrInUse => "address in use"@,
        IoKind::AddrNotAvailable => "address not available"@,
        IoKind::BrokenPipe => "broken pipe"@,
        IoKind::AlreadyExists => "entity already exists"@,
        IoKind::WouldBlock => "operation would block"@,
        IoKind::InvalidInput => "invalid input parameter"@,
        IoKind::InvalidData => "invalid data"@,
        IoKind::TimedOut => "timed out"@,
        IoKind::WriteZero => "write zero"@,
        IoKind::Interrupted => "operation interrupted"@,
        IoKind::Unsupported => "unsupported"@,
        IoKind::UnexpectedEof => "unexpected end of file"@,
        IoKind::OutOfMemory => "out of memory"@,
        IoKind::HostUnreachable => "host unreachable"@,
        IoKind::NetworkUnreachable => "network unreachable"@,
        IoKind::NetworkDown => "network down"@,
        IoKind::NotADirectory => "not a directory"@,
        IoKind::IsADirectory => "is a directory"@,
        IoKind::DirectoryNotEmpty => "directory not empty"@,
        IoKind::ReadOnlyFilesystem => "read-only filesystem or storage medium"@,
        IoKind::FilesystemLoop => "filesystem loop or indirection limit (e.g. symlink loop)"@,
        IoKind::StaleNetworkFileHandle => "stale network file handle"@,
        IoKind::StorageFull => "no storage space"@,
        IoKind::NotSeekable => "seek on unseekable file"@,
        IoKind::QuotaExceeded => "quota exceeded"@,
        IoKind::FileTooLarge => "file too large"@,
        IoKind::ResourceBusy => "resource busy"@,
        IoKind::ExecutableFileBusy => "executable file busy"@,
        IoKind::Deadlock => "deadlock"@,
        IoKind::CrossesDevices => "cross-device link or rename"@,
        IoKind::TooManyLinks => "too many links"@,
        IoKind::InvalidFilename => "invalid filename"@,
        IoKind::ArgumentListTooLong => "argument list too long"@,
        IoKind::InProgress => "in progress"@,
        IoKind::Uncategorized => "uncategorized error"@,
        IoKind::Other => "other error"@,
    }
}

impl IoKind {
    /// The text of this kind.
    pub fn name(self) -> (r: &'static str)
        ensures
            r@ == io_kind_text(self),
    {
        match self {
            IoKind::NotFound => "entity not found",
            IoKind::PermissionDenied => "permission denied",
            IoKind::ConnectionRefused => "connection refused",
            IoKind::ConnectionReset => "connection reset",
            IoKind::ConnectionAborted => "connection aborted",
            IoKind::NotConnected => "not connected",
            IoKind::AddrInUse => "address in use",
            IoKind::AddrNotAvailable => "address not available",
            IoKind::BrokenPipe => "broken pipe",
            IoKind::AlreadyExists => "entity already exists",
            IoKind::WouldBlock => "operation would block",
            IoKind::InvalidInput => "invalid input parameter",
            IoKind::InvalidData => "invalid data",
            IoKind::TimedOut => "timed out",
            IoKind::WriteZero => "write zero",
            IoKind::Interrupted => "operation interrupted",
            IoKind::Unsupported => "unsupported",
            IoKind::UnexpectedEof => "unexpected end of file",
            IoKind::OutOfMemory => "out of memory",
            IoKind::HostUnreachable => "host unreachable",
            IoKind::NetworkUnreachable => "network unreachable",
            IoKind::NetworkDown => "network down",
            IoKind::NotADirectory => "not a directory",
            IoKind::IsADirectory => "is a directory",
            IoKind::DirectoryNotEmpty => "directory not empty",
            IoKind::ReadOnlyFilesystem => "read-only filesystem or storage medium",
            IoKind::FilesystemLoop => "filesystem loop or indirection limit (e.g. symlink loop)",
            IoKind::StaleNetworkFileHandle => "stale network file handle",
            IoKind::StorageFull => "no storage space",
            IoKind::NotSeekable => "seek on unseekable file",
            IoKind::QuotaExceeded => "quota exceeded",
            IoKind::FileTooLarge => "file too large",
            IoKind::ResourceBusy => "resource busy",
            IoKind::ExecutableFileBusy => "executable file busy",
            IoKind::Deadlock => "deadlock",
            IoKind::CrossesDevices => "cross-device link or rename",
            IoKind::TooManyLinks => "too many links",
            IoKind::InvalidFilename => "invalid filename",
            IoKind::ArgumentListTooLong => "argument list too long",
            IoKind::InProgress => "in progress",
            IoKind::Uncategorized => "uncategorized error",
            IoKind::Other => "other error",
        }
    }
}

impl Error {
    /// The text of this error.
    pub open spec fn text(self) -> Seq<char> {
        match self {
            Error::Eof => "End of file"@,
            Error::Again => "Resource temporarily unavailable"@,
            Error::InvalidData => "Invalid data found when processing input"@,
            Error::DecoderNotFound => "Decoder not found"@,
            Error::EncoderNotFound => "Encoder not found"@,
            Error::DemuxerNotFound => "Demuxer not found"@,
            Error::MuxerNotFound => "Muxer not found"@,
            Error::FilterNotFound => "Filter not found"@,
            Error::ProtocolNotFound => "Protocol not found"@,
            Error::StreamNotFound => "Stream not found"@,
            Error::Bug => "Internal bug"@,
            Error::OptionNotFound => "Option not found"@,
            Error::PatchwelcomeNotImplemented => "Not yet implemented"@,
            Error::Exit => "Exit requested"@,
            Error::InvalidArgument => "Invalid argument"@,
            Error::OutOfMemory => "Out of memory"@,
            Error::Io(kind) => "I/O error: "@ + io_kind_text(kind),
            Error::Other(msg) => msg@,
        }
    }

    /// The text of this error.
    pub fn message(&self) -> (r: String)
        ensures
            r@ == self.text(),
    {
        match self {
            Error::Eof => "End of file".to_owned(),
            Error::Again => "Resource temporarily unavailable".to_owned(),
            Error::InvalidData => "Invalid data found when processing input".to_owned(),
            Error::DecoderNotFound => "Decoder not found".to_owned(),
            Error::EncoderNotFound => "Encoder not found".to_owned(),
            Error::DemuxerNotFound => "Demuxer not found".to_owned(),
            Error::MuxerNotFound => "Muxer not found".to_owned(),
            Error::FilterNotFound => "Filter not found".to_owned(),
            Error::ProtocolNotFound => "Protocol not found".to_owned(),
            Error::StreamNotFound => "Stream not found".to_owned(),
            Error::Bug => "Internal bug".to_owned(),
            Error::OptionNotFound => "Option not found".to_owned(),
            Error::PatchwelcomeNotImplemented => "Not yet implemented".to_owned(),
            Error::Exit => "Exit requested".to_owned(),
            Error::InvalidArgument => "Invalid argument".to_owned(),
            Error::OutOfMemory => "Out of memory".to_owned(),
            Error::Io(kind) => {
                let mut s = "I/O error: ".to_owned();
                s.append(kind.name());
                s
            },
            Error::Other(msg) => msg.clone(),
        }
    }

    /// The error that an input or output error of a kind becomes.
    pub open spec fn of_io_kind(kind: IoKind) -> Error {
        match kind {
            IoKind::UnexpectedEof => Error::Eof,
            IoKind::WouldBlock => Error::Again,
            IoKind::InvalidData => Error::InvalidData,
            IoKind::InvalidInput => Error::InvalidArgument,
            IoKind::OutOfMemory => Error::OutOfMemory,
            _ => Error::Io(kind),
        }
    }

    /// The error that an input or output error of a kind becomes.
    pub fn from_io_kind(kind: IoKind) -> (r: Error)
        ensures
            r == Error::of_io_kind(kind),
    {
        match kind {
            IoKind::UnexpectedEof => Error::Eof,
            IoKind::WouldBlock => Error::Again,
            IoKind::InvalidData => Error::InvalidData,
            IoKind::InvalidInput => Error::InvalidArgument,
            IoKind::OutOfMemory => Error::OutOfMemory,
            _ => Error::Io(kind),
        }
    }
}

} // verus!
