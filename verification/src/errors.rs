//! The error taxonomy of the installation pipeline.
//!
//! Every stage failure surfaces as one of these variants; the surrounding
//! process renders them through [`InstallError::message`].

use vstd::prelude::*;
use crate::catalog::Edition;

verus! {

/// The structural faults a catalog page can exhibit.
#[derive(Clone, Copy, Debug, PartialEq, Eq, Structural)]
pub enum CatalogFault {
    /// The labeled current-downloads heading is absent.
    DownloadHeader,
    /// The heading has no following table element.
    DownloadTable,
    /// A hyperlink in the table carries no text node.
    LinkText,
    /// A matched hyperlink carries no destination.
    LinkHref,
    /// The labeled older-versions heading is absent.
    LegacyHeader,
    /// The older-versions heading has no following table element.
    LegacyTable,
    /// A matched link text carries a version that is not well formed.
    Version,
}

/// One error per failure mode of the pipeline.
#[derive(Clone, Debug)]
pub enum InstallError {
    /// The catalog page could not be fetched.
    CatalogFetch(String),
    /// The catalog page did not have the expected structure.
    CatalogParse(CatalogFault),
    /// No catalog record matches the requested edition and version.
    ReleaseNotFound(Edition),
    /// Streaming the release archive failed.
    Transfer(String),
    /// An archive entry path holds a parent-directory segment.
    UnsafePath(String),
    /// The outer container holds no first volume of the inner archive.
    MissingInnerArchive,
    /// The external archiver exited unsuccessfully.
    Extraction(String),
    /// Merging the payload into the target directory failed.
    Reconciliation(String),
    /// The native version query reported failure.
    VersionQuery(String),
    /// An installation attempt is already running.
    AlreadyInProgress,
}

pub open spec fn fault_text(f: CatalogFault) -> Seq<char> {
    match f {
        CatalogFault::DownloadHeader => "Could not find download header"@,
        CatalogFault::DownloadTable => "Could not find table"@,
        CatalogFault::LinkText => "Could not find text"@,
        CatalogFault::LinkHref => "Could not find link"@,
        CatalogFault::LegacyHeader => "Could not find old version header"@,
        CatalogFault::LegacyTable => "Could not find old version table"@,
        CatalogFault::Version => "Could not parse version"@,
    }
}

pub open spec fn edition_label(e: Edition) -> Seq<char> {
    match e {
        Edition::Cpu => "Cpu"@,
        Edition::Gpu => "Gpu"@,
    }
}

/// The human-readable text of each error.
pub open spec fn message_of(e: InstallError) -> Seq<char> {
    match e {
        InstallError::CatalogFetch(m) => "Could not fetch downloads: "@ + m@,
        InstallError::CatalogParse(f) => fault_text(f),
        InstallError::ReleaseNotFound(ed) => "Could not find download for edition "@
            + edition_label(ed),
        InstallError::Transfer(m) => "Failed to download: "@ + m@,
        InstallError::UnsafePath(p) => "Invalid path: "@ + p@,
        InstallError::MissingInnerArchive => "Could not find 7z file"@,
        InstallError::Extraction(m) => "Failed to extract 7z: "@ + m@,
        InstallError::Reconciliation(m) => "Failed to install: "@ + m@,
        InstallError::VersionQuery(m) => "Failed to query version: "@ + m@,
        InstallError::AlreadyInProgress => "Installation already in progress"@,
    }
}

impl CatalogFault {
    /// Renders the fault as text.
    pub fn text(&self) -> (r: String)
        ensures
            r@ == fault_text(*self),
    {
        match self {
            CatalogFault::DownloadHeader => String::from_str("Could not find download header"),
            CatalogFault::DownloadTable => String::from_str("Could not find table"),
            CatalogFault::LinkText => String::from_str("Could not find text"),
            CatalogFault::LinkHref => String::from_str("Could not find link"),
            CatalogFault::LegacyHeader => String::from_str("Could not find old version header"),
            CatalogFault::LegacyTable => String::from_str("Could not find old version table"),
            CatalogFault::Version => String::from_str("Could not parse version"),
        }
    }
}

impl Edition {
    /// Renders the edition as its variant name.
    pub fn label(&self) -> (r: String)
        ensures
            r@ == edition_label(*self),
    {
        match self {
            Edition::Cpu => String::from_str("Cpu"),
            Edition::Gpu => String::from_str("Gpu"),
        }
    }
}

impl InstallError {
    /// Renders the error as a human-readable message.
    pub fn message(&self) -> (r: String)
        ensures
            r@ == message_of(*self),
    {
        match self {
            InstallError::CatalogFetch(m) => String::from_str("Could not fetch downloads: ")
                .concat(m.as_str()),
            InstallError::CatalogParse(f) => f.text(),
            InstallError::ReleaseNotFound(ed) => String::from_str(
                "Could not find download for edition ",
            ).concat(ed.label().as_str()),
            InstallError::Transfer(m) => String::from_str("Failed to download: ").concat(
                m.as_str(),
            ),
            InstallError::UnsafePath(p) => String::from_str("Invalid path: ").concat(p.as_str()),
            InstallError::MissingInnerArchive => String::from_str("Could not find 7z file"),
            InstallError::Extraction(m) => String::from_str("Failed to extract 7z: ").concat(
                m.as_str(),
            ),
            InstallError::Reconciliation(m) => String::from_str("Failed to install: ").concat(
                m.as_str(),
            ),
            InstallError::VersionQuery(m) => String::from_str("Failed to query version: ").concat(
                m.as_str(),
            ),
            InstallError::AlreadyInProgress => String::from_str("Installation already in progress"),
        }
    }
}

} // verus!
