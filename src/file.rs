//! The download of a file whose size is known.
use crate::checksum::HashChecker;
use crate::metadata::{Metadata, MetadataDownloader};
use crate::plan::{plan, plan_segments, Segment};
use http::Uri;
use vstd::prelude::*;

verus! {

/// Everything needed to fetch the file in ranges.
#[derive(Debug)]
pub struct FileDownloader {
    pub uri: Uri,
    pub path: String,
    pub file_size: u64,
    pub etag: Option<String>,
    pub parallelism: usize,
}

impl FileDownloader {
    /// Joins where to fetch from and to with what the probe found.
    pub fn from_metadata(mdd: MetadataDownloader, md: Metadata) -> (r: FileDownloader)
        ensures
            r.uri == mdd.uri,
            r.path == mdd.path,
            r.parallelism == mdd.parallelism,
            r.file_size == md.file_size,
            r.etag == md.etag,
    {
        FileDownloader {
            uri: mdd.uri,
            path: mdd.path,
            file_size: md.file_size,
            etag: md.etag,
            parallelism: mdd.parallelism,
        }
    }

    /// The segments the file is fetched in.
    pub fn segments(&self) -> (r: Vec<Segment>)
        requires
            self.parallelism >= 1,
        ensures
            r@ == plan(self.file_size as nat, self.parallelism as nat),
    {
        plan_segments(self.file_size, self.parallelism as u64)
    }

    /// Hands path and ETag over to the integrity check once the file is
    /// complete.
    pub fn hash_checker(self) -> (r: HashChecker)
        ensures
            r.path == self.path,
            r.etag == self.etag,
    {
        HashChecker { path: self.path, etag: self.etag }
    }
}

} // verus!
