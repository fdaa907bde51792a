//! The failures that the sync engine and the filters report.

use vstd::prelude::*;
use crate::sync::Download;

verus! {

/// Why a sync attempt failed, and so what a retry has to cover.
#[derive(Debug, Clone)]
pub enum SyncErrors {
    /// A listing could not be fetched or read: the whole crawl is retried.
    ListingFailed,
    /// The crawl succeeded but these downloads failed: only they are retried.
    FilesDownloadFailed(Vec<Download>),
}

/// Errors of filtering, searching and viewing entries.
#[derive(PartialEq, Eq, Structural, Clone, Copy, Debug)]
pub enum FilterErrors {
    BadRegexTerm,
    TermFilterBeforeDownloading,
    ViewingBeforeDownloading,
    FileRetrievalFailed,
    FileReadingFailed,
    ViewPagingFailed,
}

} // verus!
