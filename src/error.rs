use vstd::prelude::*;

verus! {

/// What is wrong with an installation directory.
#[derive(Debug, Clone, Copy, PartialEq, Eq, Structural)]
pub enum TargetProblem {
    Missing,
    NotADirectory,
}

/// Why an installation step failed.
#[derive(Debug)]
pub enum Error {
    /// No browser executable was found among the candidate paths.
    NotFound { what: String },
    /// The probe text holds no four-part version, or a part does not fit.
    VersionParse { text: String },
    /// Remote release metadata did not have the expected shape.
    Resolution { message: String },
    /// The operating system has no download for this driver.
    UnsupportedPlatform { os: String },
    /// The archive's file name ends in a suffix that cannot be unpacked.
    UnsupportedArchive { suffix: String },
    /// The archive holds no entry with one of the wanted names.
    ArchiveContents { archive: String },
    /// The archive could not be decoded.
    Archive { message: String },
    /// The target directory is missing or is not a directory.
    InvalidTarget { problem: TargetProblem },
    /// A download address could not be parsed.
    InvalidUrl { url: String },
    /// Bytes that should hold text are not valid UTF-8.
    Utf8,
}

} // verus!
