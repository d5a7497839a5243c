use vstd::prelude::*;

verus! {

/// Every failure the pipeline can report. Each phase of the run maps its
/// failures onto exactly one of these variants; all of them are fatal.
#[derive(Clone, Copy, Debug, PartialEq, Eq, Structural)]
pub enum InstallError {
    /// The HTTP transport itself failed (no response at all).
    NetworkError,
    /// A response arrived, but its status code was not 200.
    UnexpectedStatus(u32),
    /// The catalog body was not a JSON array of release objects.
    MalformedCatalog,
    /// The catalog parsed, but holds no entries at all.
    EmptyCatalog,
    /// The catalog holds entries, but none is marked long-term-support.
    NoLtsAvailable,
    /// The operator aborted an interactive prompt.
    SelectionCancelled,
    /// A local file could not be created or written.
    FileSystemError,
    /// Removing a prior installation failed part-way.
    UninstallError,
    /// The downloaded archive could not be read as a gzip tar stream.
    CorruptArchive,
    /// A single archive entry could not be written to the install root.
    ExtractionError,
    /// A symbolic link could not be created.
    LinkError,
}

impl InstallError {
    /// A short human-readable label for the error, for the caller to print.
    pub fn describe(&self) -> (r: &'static str)
        ensures
            r@ == match self {
                InstallError::NetworkError => "network transport failed"@,
                InstallError::UnexpectedStatus(_) => "unexpected response status"@,
                InstallError::MalformedCatalog => "release catalog is malformed"@,
                InstallError::EmptyCatalog => "release catalog is empty"@,
                InstallError::NoLtsAvailable => "no long-term-support release available"@,
                InstallError::SelectionCancelled => "selection cancelled"@,
                InstallError::FileSystemError => "local file error"@,
                InstallError::UninstallError => "removing the prior installation failed"@,
                InstallError::CorruptArchive => "archive is corrupt"@,
                InstallError::ExtractionError => "extracting an archive entry failed"@,
                InstallError::LinkError => "creating a symbolic link failed"@,
            },
    {
        match self {
            InstallError::NetworkError => "network transport failed",
            InstallError::UnexpectedStatus(_) => "unexpected response status",
            InstallError::MalformedCatalog => "release catalog is malformed",
            InstallError::EmptyCatalog => "release catalog is empty",
            InstallError::NoLtsAvailable => "no long-term-support release available",
            InstallError::SelectionCancelled => "selection cancelled",
            InstallError::FileSystemError => "local file error",
            InstallError::UninstallError => "removing the prior installation failed",
            InstallError::CorruptArchive => "archive is corrupt",
            InstallError::ExtractionError => "extracting an archive entry failed",
            InstallError::LinkError => "creating a symbolic link failed",
        }
    }
}

} // verus!
