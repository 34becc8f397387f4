//! PNG metadata changes must be bound to an inspected source version.

use std::time::SystemTime;
use vstd::prelude::*;

verus! {

/// A wall-clock timestamp of the file system, carried through unchanged.
#[verifier::external_type_specification]
#[verifier::external_body]
pub struct ExSystemTime(SystemTime);

/// `SystemTime::clone`: `SystemTime` is `Copy`, so the clone equals the original.
pub assume_specification[ <SystemTime as Clone>::clone ](t: &SystemTime) -> (r: SystemTime)
    ensures
        r == *t,
;

/// Content-credentials policy; removal is never the default and only applies to
/// the source version that produced the consent request.
#[derive(Debug)]
pub enum PngMetadataPolicy {
    Preserve,
    RemoveContentCredentials(ContentCredentialsSource),
}

impl Clone for PngMetadataPolicy {
    fn clone(&self) -> (r: Self)
        ensures
            r == *self,
    {
        match self {
            PngMetadataPolicy::Preserve => PngMetadataPolicy::Preserve,
            PngMetadataPolicy::RemoveContentCredentials(source) => {
                PngMetadataPolicy::RemoveContentCredentials(source.clone())
            },
        }
    }
}

impl Default for PngMetadataPolicy {
    fn default() -> (r: Self)
        ensures
            r is Preserve,
    {
        PngMetadataPolicy::Preserve
    }
}

/// The opaque source version returned after a full inspection; callers cannot
/// build or change one. Not a verification of the credentials' signature.
#[derive(Debug)]
pub struct ContentCredentialsSource {
    pub(crate) path: String,
    pub(crate) length: u64,
    pub(crate) modified: SystemTime,
    pub(crate) created: Option<SystemTime>,
    pub(crate) readonly: bool,
}

impl ContentCredentialsSource {
    pub closed spec fn spec_path(self) -> String {
        self.path
    }

    pub closed spec fn spec_length(self) -> u64 {
        self.length
    }

    pub closed spec fn spec_modified(self) -> SystemTime {
        self.modified
    }

    pub closed spec fn spec_created(self) -> Option<SystemTime> {
        self.created
    }

    pub closed spec fn spec_readonly(self) -> bool {
        self.readonly
    }

    /// The version of a source as the output layer read it from the file system.
    pub fn new(path: String, length: u64, modified: SystemTime, created: Option<SystemTime>, readonly: bool) -> (r: Self)
        ensures
            r.spec_path() == path,
            r.spec_length() == length,
            r.spec_modified() == modified,
            r.spec_created() == created,
            r.spec_readonly() == readonly,
    {
        ContentCredentialsSource { path, length, modified, created, readonly }
    }

    /// The source path of the inspected version.
    pub fn path(&self) -> (r: &String)
        ensures
            *r == self.spec_path(),
    {
        &self.path
    }

    /// The byte length of the inspected version.
    pub fn length(&self) -> (r: u64)
        ensures
            r == self.spec_length(),
    {
        self.length
    }

    /// The modification time of the inspected version.
    pub fn modified(&self) -> (r: SystemTime)
        ensures
            r == self.spec_modified(),
    {
        self.modified.clone()
    }

    /// The creation time of the inspected version, where the file system keeps one.
    pub fn created(&self) -> (r: Option<SystemTime>)
        ensures
            r == self.spec_created(),
    {
        match &self.created {
            Some(t) => Some(t.clone()),
            None => None,
        }
    }

    /// Whether the inspected version was read-only.
    pub fn readonly(&self) -> (r: bool)
        ensures
            r == self.spec_readonly(),
    {
        self.readonly
    }
}

impl Clone for ContentCredentialsSource {
    fn clone(&self) -> (r: Self)
        ensures
            r == *self,
    {
        ContentCredentialsSource {
            path: self.path.clone(),
            length: self.length,
            modified: self.modified.clone(),
            created: match &self.created {
                Some(time) => Some(time.clone()),
                None => None,
            },
            readonly: self.readonly,
        }
    }
}

} // verus!
