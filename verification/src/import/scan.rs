//! The bounded depth-first scan as a state machine. The application walks the
//! file system (metadata, directory listings, reads, identities) and asks the
//! [`Scanner`] for every decision: what to visit next, what is a duplicate or
//! a reserved artifact, how much may still be read, what is accepted, and
//! which limit ended the scan. Path keys and file identities arrive as
//! integers, equal exactly when the paths compare equal or the files are the same.

use super::model::{
    ImportError, ImportIssue, ImportIssueKind, ImportedFile, ScanLimit, ScanOptions,
    ScanProgress, ScanStatus, UnsupportedFormat,
};
use crate::batch::JobFailure;
use crate::model::{ByteCount, ImageInfo, ProcessingError};
use crate::paths::{file_name, is_artifact, spec_file_name, spec_is_artifact};
use std::collections::HashMap;
use vstd::prelude::*;
use vstd::std_specs::hash::group_hash_axioms;

verus! {

broadcast use group_hash_axioms;

/// Size of one read after the signature: 64 KiB.
pub const READ_CHUNK: usize = 64 * 1024;

/// Bytes read first, enough to tell the supported and common other formats apart.
pub const SIGNATURE_PROBE: usize = 12;

/// An entry waiting to be visited. Children carry their first root and their
/// relative path, so ownership never depends on string stripping.
#[derive(Debug)]
pub struct Pending {
    pub path: String,
    pub root: Option<String>,
    pub relative: String,
    pub depth: usize,
}

/// How much the next read may take.
#[derive(Debug, Clone, Copy, PartialEq, Eq, Structural)]
pub enum ReadStep {
    /// Stop reading: cancelled, or the read budget ran out.
    Stop,
    /// Read at most this many bytes.
    Read(usize),
}

/// The common formats told apart by their first bytes; `None` for a PNG.
pub open spec fn spec_classify(bytes: Seq<u8>) -> Option<UnsupportedFormat> {
    if bytes.len() >= 8 && bytes.subrange(0, 8) == seq![0x89u8, 0x50, 0x4e, 0x47, 0x0d, 0x0a, 0x1a, 0x0a] {
        None
    } else if bytes.len() >= 3 && bytes.subrange(0, 3) == seq![0xffu8, 0xd8, 0xff] {
        Some(UnsupportedFormat::Jpeg)
    } else if bytes.len() >= 6 && (bytes.subrange(0, 6) == seq![0x47u8, 0x49, 0x46, 0x38, 0x37, 0x61]
        || bytes.subrange(0, 6) == seq![0x47u8, 0x49, 0x46, 0x38, 0x39, 0x61]) {
        Some(UnsupportedFormat::Gif)
    } else if bytes.len() >= 12 && bytes.subrange(0, 4) == seq![0x52u8, 0x49, 0x46, 0x46]
        && bytes.subrange(8, 12) == seq![0x57u8, 0x45, 0x42, 0x50] {
        Some(UnsupportedFormat::WebP)
    } else {
        Some(UnsupportedFormat::Other)
    }
}

fn starts_with_at(bytes: &[u8], at: usize, expected: &[u8]) -> (r: bool)
    ensures
        r == (at + expected@.len() <= bytes@.len() && bytes@.subrange(at as int, at + expected@.len()) == expected@),
{
    assert(bytes@.len() == bytes.len());
    assert(expected@.len() == expected.len());
    if at > bytes.len() || expected.len() > bytes.len() - at {
        return false;
    }
    let mut i: usize = 0;
    while i < expected.len()
        invariant
            at + expected@.len() <= bytes@.len(),
            bytes@.len() == bytes.len(),
            expected@.len() == expected.len(),
            0 <= i <= expected@.len(),
            forall|j: int| 0 <= j < i ==> bytes@[at + j] == expected@[j],
        decreases expected.len() - i,
    {
        if bytes[at + i] != expected[i] {
            assert(bytes@.subrange(at as int, at + expected@.len())[i as int] != expected@[i as int]);
            return false;
        }
        i = i + 1;
    }
    assert(bytes@.subrange(at as int, at + expected@.len()) =~= expected@);
    true
}

/// Tells a PNG from JPEG, GIF, WebP and other data by the first bytes.
pub fn classify(bytes: &[u8]) -> (r: Option<UnsupportedFormat>)
    ensures
        r == spec_classify(bytes@),
{
    let png: [u8; 8] = [0x89, 0x50, 0x4e, 0x47, 0x0d, 0x0a, 0x1a, 0x0a];
    let jpeg: [u8; 3] = [0xff, 0xd8, 0xff];
    let gif87: [u8; 6] = [0x47, 0x49, 0x46, 0x38, 0x37, 0x61];
    let gif89: [u8; 6] = [0x47, 0x49, 0x46, 0x38, 0x39, 0x61];
    let riff: [u8; 4] = [0x52, 0x49, 0x46, 0x46];
    let webp: [u8; 4] = [0x57, 0x45, 0x42, 0x50];
    assert(png@ =~= seq![0x89u8, 0x50, 0x4e, 0x47, 0x0d, 0x0a, 0x1a, 0x0a]);
    assert(jpeg@ =~= seq![0xffu8, 0xd8, 0xff]);
    assert(gif87@ =~= seq![0x47u8, 0x49, 0x46, 0x38, 0x37, 0x61]);
    assert(gif89@ =~= seq![0x47u8, 0x49, 0x46, 0x38, 0x39, 0x61]);
    assert(riff@ =~= seq![0x52u8, 0x49, 0x46, 0x46]);
    assert(webp@ =~= seq![0x57u8, 0x45, 0x42, 0x50]);
    if starts_with_at(bytes, 0, png.as_slice()) {
        None
    } else if starts_with_at(bytes, 0, jpeg.as_slice()) {
        Some(UnsupportedFormat::Jpeg)
    } else if starts_with_at(bytes, 0, gif87.as_slice()) || starts_with_at(bytes, 0, gif89.as_slice()) {
        Some(UnsupportedFormat::Gif)
    } else if starts_with_at(bytes, 0, riff.as_slice()) && starts_with_at(bytes, 8, webp.as_slice()) {
        Some(UnsupportedFormat::WebP)
    } else {
        Some(UnsupportedFormat::Other)
    }
}

/// The result of a scan. Private fields keep a caller from passing an
/// unfinished list off as a complete scan; planning never consumes it.
#[derive(Debug)]
pub struct ImportScan {
    pub(crate) files: Vec<ImportedFile>,
    pub(crate) issues: Vec<ImportIssue>,
    pub(crate) progress: ScanProgress,
}

impl ImportScan {
    pub closed spec fn spec_files(self) -> Seq<ImportedFile> {
        self.files@
    }

    pub closed spec fn spec_issues(self) -> Seq<ImportIssue> {
        self.issues@
    }

    pub closed spec fn spec_progress(self) -> ScanProgress {
        self.progress
    }

    pub fn files(&self) -> (r: &[ImportedFile])
        ensures
            r@ == self.spec_files(),
    {
        self.files.as_slice()
    }

    pub fn issues(&self) -> (r: &[ImportIssue])
        ensures
            r@ == self.spec_issues(),
    {
        self.issues.as_slice()
    }

    pub fn progress(&self) -> (r: ScanProgress)
        ensures
            r == self.spec_progress(),
    {
        self.progress
    }
}

/// Issues are counted by kind: duplicates, excluded artifacts, rejections.
pub open spec fn counted(issues: Seq<ImportIssue>, duplicates: int, excluded: int, rejected: int) -> bool {
    duplicates + excluded + rejected == issues.len()
}

/// An ongoing scan: the partial report, the stack of pending entries, and
/// the paths and files already seen.
pub struct Scanner {
    report: ImportScan,
    options: ScanOptions,
    pending: Vec<Pending>,
    visited: HashMap<u64, String>,
    identities: HashMap<u64, String>,
    accepted: Ghost<Seq<u64>>,
}

impl Scanner {
    pub closed spec fn spec_report(self) -> ImportScan {
        self.report
    }

    pub closed spec fn spec_options(self) -> ScanOptions {
        self.options
    }

    pub closed spec fn spec_pending(self) -> Seq<Pending> {
        self.pending@
    }

    pub closed spec fn spec_progress(self) -> ScanProgress {
        self.report.progress
    }

    /// Normalized paths visited so far, by key, with the first path seen.
    pub closed spec fn spec_visited(self) -> Map<u64, String> {
        self.visited@
    }

    /// Accepted files by identity, with the path that was accepted.
    pub closed spec fn spec_identities(self) -> Map<u64, String> {
        self.identities@
    }

    /// The file identity under which each accepted file was accepted, in order.
    pub closed spec fn spec_accepted_identities(self) -> Seq<u64> {
        self.accepted@
    }

    /// Counters match the lists, every bound of the options holds, and each
    /// accepted file has an identity of its own that maps back to its source.
    pub closed spec fn wf(self) -> bool {
        let p = self.report.progress;
        let ids = self.accepted@;
        &&& ids.len() == self.report.files@.len()
        &&& forall|i: int, j: int| 0 <= i < j < ids.len() ==> ids[i] != ids[j]
        &&& forall|i: int| 0 <= i < ids.len() ==> {
            &&& self.identities@.contains_key(#[trigger] ids[i])
            &&& self.identities@[ids[i]] == self.report.files@[i].source
        }
        &&& self.options.spec_valid()
        &&& p.accepted == self.report.files@.len()
        &&& p.duplicates + p.excluded + p.rejected == self.report.issues@.len()
        &&& self.report.files@.len() <= self.options.max_files
        &&& p.read_bytes.0 <= self.options.max_read_bytes.0
        &&& p.discovered <= self.options.max_entries
        &&& p.examined + self.pending@.len() <= p.discovered
    }

    pub proof fn lemma_bounds(self)
        requires
            self.wf(),
        ensures
            self.spec_progress().accepted == self.spec_report().spec_files().len(),
            self.spec_progress().duplicates + self.spec_progress().excluded + self.spec_progress().rejected
                == self.spec_report().spec_issues().len(),
            self.spec_report().spec_files().len() <= self.spec_options().max_files,
            self.spec_progress().read_bytes.0 <= self.spec_options().max_read_bytes.0,
            self.spec_progress().discovered <= self.spec_options().max_entries,
            self.spec_progress().examined <= self.spec_progress().discovered,
    {
    }

    /// No file is accepted twice: the accepted files were accepted under
    /// pairwise different file identities, and the identity table leads from
    /// each of them back to the accepted source.
    pub proof fn lemma_distinct_identities(self)
        requires
            self.wf(),
        ensures
            self.spec_accepted_identities().len() == self.spec_report().spec_files().len(),
            forall|i: int, j: int|
                0 <= i < j < self.spec_accepted_identities().len()
                    ==> self.spec_accepted_identities()[i] != self.spec_accepted_identities()[j],
            forall|i: int| 0 <= i < self.spec_accepted_identities().len() ==> {
                &&& self.spec_identities().contains_key(#[trigger] self.spec_accepted_identities()[i])
                &&& self.spec_identities()[self.spec_accepted_identities()[i]] == self.spec_report().spec_files()[i].source
            },
    {
    }

    pub fn progress(&self) -> (r: ScanProgress)
        ensures
            r == self.spec_progress(),
    {
        self.report.progress
    }

    pub fn options(&self) -> (r: ScanOptions)
        ensures
            r == self.spec_options(),
    {
        self.options
    }

    /// Still scanning; a cancellation seen now ends the scan as cancelled.
    pub fn running(&mut self, cancelled: bool) -> (r: bool)
        requires
            old(self).wf(),
        ensures
            final(self).wf(),
            final(self).spec_options() == old(self).spec_options(),
            final(self).spec_pending() == old(self).spec_pending(),
            final(self).spec_report().spec_files() == old(self).spec_report().spec_files(),
            final(self).spec_report().spec_issues() == old(self).spec_report().spec_issues(),
            old(self).spec_progress().status is Scanning && cancelled
                ==> final(self).spec_progress() == (ScanProgress { status: ScanStatus::Cancelled, ..old(self).spec_progress() }),
            !(old(self).spec_progress().status is Scanning && cancelled) ==> final(self).spec_progress() == old(self).spec_progress(),
            r == (final(self).spec_progress().status is Scanning),
            final(self).spec_visited() == old(self).spec_visited(),
            final(self).spec_identities() == old(self).spec_identities(),
    {
        if matches!(self.report.progress.status, ScanStatus::Scanning) && cancelled {
            self.report.progress.status = ScanStatus::Cancelled;
        }
        matches!(self.report.progress.status, ScanStatus::Scanning)
    }

    /// Ends the scan with a limit.
    pub fn limit(&mut self, limit: ScanLimit)
        requires
            old(self).wf(),
        ensures
            final(self).wf(),
            final(self).spec_options() == old(self).spec_options(),
            final(self).spec_pending() == old(self).spec_pending(),
            final(self).spec_report().spec_files() == old(self).spec_report().spec_files(),
            final(self).spec_report().spec_issues() == old(self).spec_report().spec_issues(),
            final(self).spec_progress() == (ScanProgress { status: ScanStatus::Limited(limit), ..old(self).spec_progress() }),
            final(self).spec_identities() == old(self).spec_identities(),
            final(self).spec_accepted_identities() == old(self).spec_accepted_identities(),
    {
        self.report.progress.status = ScanStatus::Limited(limit);
    }

    /// Records one piece of feedback and counts it by kind.
    fn issue(&mut self, path: String, kind: ImportIssueKind)
        requires
            old(self).wf(),
        ensures
            final(self).wf(),
            final(self).options == old(self).options,
            final(self).pending == old(self).pending,
            final(self).visited == old(self).visited,
            final(self).identities == old(self).identities,
            final(self).report.files == old(self).report.files,
            old(self).report.issues@.len() < usize::MAX ==> final(self).report.issues@ == old(self).report.issues@.push(ImportIssue { path, kind }),
            old(self).report.issues@.len() == usize::MAX ==> final(self).report == old(self).report,
            old(self).report.issues@.len() < usize::MAX ==> final(self).report.progress == (match kind {
                ImportIssueKind::Duplicate { .. } => (ScanProgress {
                    duplicates: (old(self).report.progress.duplicates + 1) as usize,
                    ..old(self).report.progress
                }),
                ImportIssueKind::GeneratedArtifact => (ScanProgress {
                    excluded: (old(self).report.progress.excluded + 1) as usize,
                    ..old(self).report.progress
                }),
                _ => (ScanProgress { rejected: (old(self).report.progress.rejected + 1) as usize, ..old(self).report.progress }),
            }),
    {
        let counter = match &kind {
            ImportIssueKind::Duplicate { .. } => 0u8,
            ImportIssueKind::GeneratedArtifact => 1u8,
            _ => 2u8,
        };
        // A vector of that many issues cannot be allocated; the counters below stay exact.
        if self.report.issues.len() == usize::MAX {
            return;
        }
        self.report.issues.push(ImportIssue { path, kind });
        if counter == 0 {
            self.report.progress.duplicates = self.report.progress.duplicates + 1;
        } else if counter == 1 {
            self.report.progress.excluded = self.report.progress.excluded + 1;
        } else {
            self.report.progress.rejected = self.report.progress.rejected + 1;
        }
    }

    /// Takes the next entry to visit, unless the scan ended or nothing is left.
    pub fn next_entry(&mut self, cancelled: bool) -> (r: Option<Pending>)
        requires
            old(self).wf(),
        ensures
            final(self).wf(),
            final(self).spec_options() == old(self).spec_options(),
            final(self).spec_report().spec_files() == old(self).spec_report().spec_files(),
            final(self).spec_report().spec_issues() == old(self).spec_report().spec_issues(),
            final(self).spec_visited() == old(self).spec_visited(),
            final(self).spec_identities() == old(self).spec_identities(),
            r is Some <==> (old(self).spec_progress().status is Scanning && !cancelled && old(self).spec_pending().len() > 0),
            r is None ==> final(self).spec_pending() == old(self).spec_pending() && final(self).spec_progress() == (
                if old(self).spec_progress().status is Scanning && cancelled {
                    ScanProgress { status: ScanStatus::Cancelled, ..old(self).spec_progress() }
                } else {
                    old(self).spec_progress()
                }),
            r matches Some(e) ==> {
                &&& old(self).spec_progress().status is Scanning && !cancelled
                &&& e == old(self).spec_pending().last()
                &&& final(self).spec_pending() == old(self).spec_pending().drop_last()
                &&& final(self).spec_progress() == (ScanProgress {
                    examined: (old(self).spec_progress().examined + 1) as usize,
                    ..old(self).spec_progress()
                })
            },
    {
        if !self.running(cancelled) {
            return None;
        }
        match self.pending.pop() {
            Some(entry) => {
                self.report.progress.examined = self.report.progress.examined + 1;
                Some(entry)
            },
            None => None,
        }
    }

    /// An entry could not be visited; the failure is reported and the scan goes on.
    pub fn fail(&mut self, path: String, error: ProcessingError)
        requires
            old(self).wf(),
        ensures
            final(self).wf(),
            final(self).spec_options() == old(self).spec_options(),
            final(self).spec_pending() == old(self).spec_pending(),
            final(self).spec_report().spec_files() == old(self).spec_report().spec_files(),
            old(self).spec_report().spec_issues().len() < usize::MAX ==> final(self).spec_report().spec_issues().len()
                == old(self).spec_report().spec_issues().len() + 1,
            old(self).spec_report().spec_issues().len() < usize::MAX ==> final(self).spec_progress() == (ScanProgress {
                rejected: (old(self).spec_progress().rejected + 1) as usize,
                ..old(self).spec_progress()
            }),
    {
        self.issue(path, ImportIssueKind::Failure(JobFailure::processing(error)));
    }

    /// Records the normalized path of the entry being visited; a path seen
    /// before is reported as a duplicate of its first occurrence.
    pub fn visit_path(&mut self, key: u64, path: String) -> (fresh: bool)
        requires
            old(self).wf(),
        ensures
            final(self).wf(),
            final(self).spec_options() == old(self).spec_options(),
            final(self).spec_pending() == old(self).spec_pending(),
            final(self).spec_report().spec_files() == old(self).spec_report().spec_files(),
            fresh <==> !old(self).spec_visited().contains_key(key),
            fresh ==> final(self).spec_progress() == old(self).spec_progress(),
    {
        match self.visited.get(&key) {
            Some(first) => {
                let first = first.clone();
                self.issue(path, ImportIssueKind::Duplicate { first });
                false
            },
            None => {
                self.visited.insert(key, path);
                true
            },
        }
    }

    /// A directory deeper than the limit ends the scan.
    pub fn enter_directory(&mut self, depth: usize) -> (allowed: bool)
        requires
            old(self).wf(),
        ensures
            final(self).wf(),
            final(self).spec_options() == old(self).spec_options(),
            final(self).spec_pending() == old(self).spec_pending(),
            final(self).spec_report().spec_files() == old(self).spec_report().spec_files(),
            final(self).spec_report().spec_issues() == old(self).spec_report().spec_issues(),
            allowed <==> depth <= old(self).spec_options().max_depth,
            allowed ==> final(self).spec_progress() == old(self).spec_progress(),
            !allowed ==> final(self).spec_progress().status == ScanStatus::Limited(ScanLimit::Depth),
    {
        if depth > self.options.max_depth {
            self.limit(ScanLimit::Depth);
            return false;
        }
        true
    }

    /// Counts one more directory child, unless the scan ended or the entry
    /// limit is reached (which ends the scan).
    pub fn discover_child(&mut self, cancelled: bool) -> (counted: bool)
        requires
            old(self).wf(),
        ensures
            final(self).wf(),
            final(self).spec_options() == old(self).spec_options(),
            final(self).spec_pending() == old(self).spec_pending(),
            final(self).spec_report().spec_files() == old(self).spec_report().spec_files(),
            final(self).spec_report().spec_issues() == old(self).spec_report().spec_issues(),
            counted ==> old(self).spec_progress().status is Scanning && !cancelled
                && old(self).spec_progress().discovered < old(self).spec_options().max_entries
                && final(self).spec_progress() == (ScanProgress {
                    discovered: (old(self).spec_progress().discovered + 1) as usize,
                    ..old(self).spec_progress()
                }),
            old(self).spec_progress().status is Scanning && !cancelled
                && old(self).spec_progress().discovered == old(self).spec_options().max_entries
                ==> !counted && final(self).spec_progress().status == ScanStatus::Limited(ScanLimit::Entries),
            old(self).spec_progress().status is Scanning && !cancelled
                && old(self).spec_progress().discovered < old(self).spec_options().max_entries ==> counted,
    {
        if !self.running(cancelled) {
            return false;
        }
        if self.report.progress.discovered == self.options.max_entries {
            self.limit(ScanLimit::Entries);
            return false;
        }
        self.report.progress.discovered = self.report.progress.discovered + 1;
        true
    }

    /// Queues the children of a directory, given in sorted order, so that the
    /// first one is visited next.
    pub fn add_children(&mut self, children: Vec<Pending>)
        requires
            old(self).wf(),
            old(self).spec_progress().examined + old(self).spec_pending().len() + children.len()
                <= old(self).spec_progress().discovered,
        ensures
            final(self).wf(),
            final(self).spec_options() == old(self).spec_options(),
            final(self).spec_progress() == old(self).spec_progress(),
            final(self).spec_report().spec_files() == old(self).spec_report().spec_files(),
            final(self).spec_report().spec_issues() == old(self).spec_report().spec_issues(),
            final(self).spec_pending() == old(self).spec_pending() + children@.reverse(),
    {
        let mut children = children;
        let ghost all = children@;
        let ghost start = self.pending@;
        while children.len() > 0
            invariant
                self.options == old(self).options,
                self.report == old(self).report,
                self.visited == old(self).visited,
                self.identities == old(self).identities,
                self.accepted == old(self).accepted,
                children@.len() <= all.len(),
                children@ == all.subrange(0, children@.len() as int),
                self.pending@ == start + all.subrange(children@.len() as int, all.len() as int).reverse(),
            decreases children.len(),
        {
            let ghost before = children@;
            let ghost k = children@.len() - 1;
            let popped = children.pop();
            let child = match popped {
                Some(c) => c,
                None => {
                    return;
                },
            };
            assert(before.drop_last() =~= all.subrange(0, k));
            assert(child == all[k]);
            self.pending.push(child);
            assert(all.subrange(k, all.len() as int).reverse() =~= all.subrange(k + 1, all.len() as int).reverse().push(all[k]));
        }
        assert(all.subrange(0, all.len() as int).reverse() =~= all.reverse());
    }

    /// A reserved artifact is excluded unless the options include them.
    pub fn skip_artifact(&mut self, path: &String) -> (skipped: bool)
        requires
            old(self).wf(),
        ensures
            final(self).wf(),
            final(self).spec_options() == old(self).spec_options(),
            final(self).spec_pending() == old(self).spec_pending(),
            final(self).spec_report().spec_files() == old(self).spec_report().spec_files(),
            skipped <==> !old(self).spec_options().include_artifacts && spec_is_artifact(path@),
    {
        if !self.options.include_artifacts && is_artifact(path.as_str()) {
            self.issue(path.clone(), ImportIssueKind::GeneratedArtifact);
            return true;
        }
        false
    }

    /// A file larger than the probe limit is refused before reading.
    pub fn check_size(&self, length: u64) -> (r: Result<(), ProcessingError>)
        ensures
            r is Ok <==> length <= self.spec_options().probe_limits.max_input_bytes.0,
            r matches Err(e) ==> e is ResourceLimit,
    {
        if length > self.options.probe_limits.max_input_bytes.0 {
            return Err(ProcessingError::ResourceLimit("导入单文件字节数"));
        }
        Ok(())
    }

    /// A file seen before under another path is reported as a duplicate.
    pub fn seen_identity(&mut self, identity: u64, path: &String) -> (seen: bool)
        requires
            old(self).wf(),
        ensures
            final(self).wf(),
            final(self).spec_options() == old(self).spec_options(),
            final(self).spec_pending() == old(self).spec_pending(),
            final(self).spec_report().spec_files() == old(self).spec_report().spec_files(),
            seen <==> old(self).spec_identities().contains_key(identity),
            !seen ==> *final(self) == *old(self),
    {
        match self.identities.get(&identity) {
            Some(first) => {
                let first = first.clone();
                self.issue(path.clone(), ImportIssueKind::Duplicate { first });
                true
            },
            None => false,
        }
    }

    /// How much the next read may take: the signature first, then 64 KiB
    /// chunks, never past the file or the remaining read budget. A used-up
    /// budget ends the scan.
    pub fn read_allowance(&mut self, remaining: u64, first: bool, cancelled: bool) -> (r: ReadStep)
        requires
            old(self).wf(),
        ensures
            final(self).wf(),
            final(self).spec_options() == old(self).spec_options(),
            final(self).spec_pending() == old(self).spec_pending(),
            final(self).spec_report().spec_files() == old(self).spec_report().spec_files(),
            final(self).spec_report().spec_issues() == old(self).spec_report().spec_issues(),
            r matches ReadStep::Read(n) ==> {
                let budget = old(self).spec_options().max_read_bytes.0 - old(self).spec_progress().read_bytes.0;
                &&& final(self).spec_progress() == old(self).spec_progress()
                &&& 0 < n && n <= remaining && n <= budget
                &&& n <= (if first { SIGNATURE_PROBE } else { READ_CHUNK })
                &&& (n == remaining || n == budget || n == (if first { SIGNATURE_PROBE } else { READ_CHUNK }))
            },
            old(self).spec_progress().status is Scanning && !cancelled && remaining > 0
                && old(self).spec_progress().read_bytes.0 < old(self).spec_options().max_read_bytes.0 ==> r is Read,
            old(self).spec_progress().status is Scanning && !cancelled && remaining > 0
                && old(self).spec_progress().read_bytes.0 == old(self).spec_options().max_read_bytes.0
                ==> r is Stop && final(self).spec_progress().status == ScanStatus::Limited(ScanLimit::ReadBytes),
    {
        if !self.running(cancelled) || remaining == 0 {
            return ReadStep::Stop;
        }
        let allowance = self.options.max_read_bytes.0 - self.report.progress.read_bytes.0;
        if allowance == 0 {
            self.limit(ScanLimit::ReadBytes);
            return ReadStep::Stop;
        }
        let cap: u64 = if first { SIGNATURE_PROBE as u64 } else { READ_CHUNK as u64 };
        let mut count = remaining;
        if allowance < count {
            count = allowance;
        }
        if cap < count {
            count = cap;
        }
        ReadStep::Read(count as usize)
    }

    /// Counts bytes actually read.
    pub fn record_read(&mut self, n: usize)
        requires
            old(self).wf(),
            old(self).spec_progress().read_bytes.0 + n <= old(self).spec_options().max_read_bytes.0,
        ensures
            final(self).wf(),
            final(self).spec_options() == old(self).spec_options(),
            final(self).spec_pending() == old(self).spec_pending(),
            final(self).spec_report().spec_files() == old(self).spec_report().spec_files(),
            final(self).spec_report().spec_issues() == old(self).spec_report().spec_issues(),
            final(self).spec_progress() == (ScanProgress {
                read_bytes: ByteCount((old(self).spec_progress().read_bytes.0 + n) as u64),
                ..old(self).spec_progress()
            }),
    {
        self.report.progress.read_bytes = ByteCount(self.report.progress.read_bytes.0 + n as u64);
    }

    /// Reports a file that is not a PNG.
    pub fn unsupported(&mut self, path: String, format: UnsupportedFormat)
        requires
            old(self).wf(),
        ensures
            final(self).wf(),
            final(self).spec_options() == old(self).spec_options(),
            final(self).spec_pending() == old(self).spec_pending(),
            final(self).spec_report().spec_files() == old(self).spec_report().spec_files(),
            final(self).spec_visited() == old(self).spec_visited(),
            final(self).spec_identities() == old(self).spec_identities(),
            old(self).spec_report().spec_issues().len() < usize::MAX ==> final(self).spec_report().spec_issues()
                == old(self).spec_report().spec_issues().push(ImportIssue { path, kind: ImportIssueKind::Unsupported(format) }),
            old(self).spec_report().spec_issues().len() < usize::MAX ==> final(self).spec_progress() == (ScanProgress {
                rejected: (old(self).spec_progress().rejected + 1) as usize,
                ..old(self).spec_progress()
            }),
            old(self).spec_report().spec_issues().len() == usize::MAX ==> final(self).spec_report() == old(self).spec_report(),
    {
        self.issue(path, ImportIssueKind::Unsupported(format));
    }

    /// Accepts a structurally valid PNG, unless the file limit is reached
    /// (which ends the scan). A file directly under the import is its own root
    /// and is named relative to it by its file name.
    pub fn accept(&mut self, entry: Pending, path: String, input_bytes: u64, image: ImageInfo, identity: u64) -> (r: Result<bool, ProcessingError>)
        requires
            old(self).wf(),
            !old(self).spec_identities().contains_key(identity),
        ensures
            r matches Ok(true) ==> final(self).spec_accepted_identities() == old(self).spec_accepted_identities().push(identity)
                && final(self).spec_identities() == old(self).spec_identities().insert(identity, path),
            !(r matches Ok(true)) ==> final(self).spec_accepted_identities() == old(self).spec_accepted_identities()
                && final(self).spec_identities() == old(self).spec_identities(),
            final(self).wf(),
            final(self).spec_options() == old(self).spec_options(),
            final(self).spec_pending() == old(self).spec_pending(),
            final(self).spec_report().spec_issues() == old(self).spec_report().spec_issues(),
            old(self).spec_report().spec_files().len() == old(self).spec_options().max_files ==> r == Ok::<bool, ProcessingError>(false)
                && final(self).spec_progress().status == ScanStatus::Limited(ScanLimit::Files),
            r matches Err(e) ==> e is InvalidPath && entry.root is None && spec_file_name(path@) is None
                && *final(self) == *old(self),
            r matches Ok(true) ==> {
                let file = final(self).spec_report().spec_files().last();
                &&& final(self).spec_report().spec_files() == old(self).spec_report().spec_files().push(file)
                &&& file.source == path
                &&& file.root_is_directory == entry.root is Some
                &&& file.root@ == (match entry.root { Some(r) => r@, None => path@ })
                &&& file.relative_path@ == (match entry.root { Some(_) => entry.relative@, None => spec_file_name(path@)->0 })
                &&& file.input_bytes.0 == input_bytes
                &&& file.image == image
                &&& final(self).spec_progress() == (ScanProgress {
                    accepted: (old(self).spec_progress().accepted + 1) as usize,
                    ..old(self).spec_progress()
                })
            },
    {
        if self.report.files.len() == self.options.max_files {
            self.limit(ScanLimit::Files);
            return Ok(false);
        }
        let is_directory = entry.root.is_some();
        let relative = if is_directory {
            entry.relative
        } else {
            match file_name(path.as_str()) {
                Some(name) => name,
                None => return Err(ProcessingError::InvalidPath),
            }
        };
        let root = match entry.root {
            Some(r) => r,
            None => path.clone(),
        };
        self.report.files.push(ImportedFile {
            source: path.clone(),
            root,
            root_is_directory: is_directory,
            relative_path: relative,
            input_bytes: ByteCount(input_bytes),
            image,
        });
        self.identities.insert(identity, path);
        proof {
            self.accepted@ = self.accepted@.push(identity);
        }
        self.report.progress.accepted = self.report.progress.accepted + 1;
        Ok(true)
    }

    /// Ends the walk: a scan that was neither cancelled nor limited is complete.
    pub fn finish(self) -> (r: ImportScan)
        requires
            self.wf(),
        ensures
            r.spec_files() == self.spec_report().spec_files(),
            r.spec_issues() == self.spec_report().spec_issues(),
            r.spec_progress() == (if self.spec_progress().status is Scanning {
                ScanProgress { status: ScanStatus::Complete, ..self.spec_progress() }
            } else {
                self.spec_progress()
            }),
            !(r.spec_progress().status is Scanning),
            r.spec_progress().accepted == r.spec_files().len(),
            r.spec_progress().duplicates + r.spec_progress().excluded + r.spec_progress().rejected
                == r.spec_issues().len(),
            r.spec_progress().examined <= r.spec_progress().discovered,
            r.spec_progress().discovered <= self.spec_options().max_entries,
            r.spec_files().len() <= self.spec_options().max_files,
            r.spec_progress().read_bytes.0 <= self.spec_options().max_read_bytes.0,
    {
        let mut report = self.report;
        if matches!(report.progress.status, ScanStatus::Scanning) {
            report.progress.status = ScanStatus::Complete;
        }
        report
    }
}

/// Checks the options and the number of roots before anything is read, and
/// sets up the scan: the roots in order, each counted as discovered.
pub fn scan(roots: &[String], options: ScanOptions) -> (r: Result<Scanner, ImportError>)
    ensures
        !options.spec_valid() ==> r matches Err(ImportError::InvalidOptions),
        options.spec_valid() && (roots.len() > ScanOptions::MAX_ROOTS || roots.len() > options.max_entries)
            ==> r matches Err(ImportError::TooManyRoots),
        r is Ok <==> options.spec_valid() && roots.len() <= ScanOptions::MAX_ROOTS && roots.len() <= options.max_entries,
        r matches Ok(s) ==> {
            &&& s.wf()
            &&& s.spec_options() == options
            &&& s.spec_report().spec_files().len() == 0
            &&& s.spec_report().spec_issues().len() == 0
            &&& s.spec_progress() == (ScanProgress {
                status: ScanStatus::Scanning,
                discovered: roots.len(),
                examined: 0,
                accepted: 0,
                duplicates: 0,
                excluded: 0,
                rejected: 0,
                read_bytes: ByteCount(0),
            })
            &&& s.spec_pending().len() == roots.len()
            &&& forall|i: int| 0 <= i < roots.len() ==> {
                let e = #[trigger] s.spec_pending()[roots.len() - 1 - i];
                &&& e.path == roots@[i]
                &&& e.root is None
                &&& e.relative@.len() == 0
                &&& e.depth == 0
            }
        },
{
    if options.max_files < 1 || options.max_files > 100_000 || options.max_entries < 1
        || options.max_entries > 1_000_000 || options.max_depth > 256 || options.max_read_bytes.0 == 0
        || options.probe_limits.validate().is_err()
    {
        return Err(ImportError::InvalidOptions);
    }
    if roots.len() > ScanOptions::MAX_ROOTS || roots.len() > options.max_entries {
        return Err(ImportError::TooManyRoots);
    }
    let mut pending: Vec<Pending> = Vec::new();
    let mut i: usize = roots.len();
    while i > 0
        invariant
            0 <= i <= roots.len(),
            pending@.len() == roots.len() - i,
            forall|k: int| i <= k < roots.len() ==> {
                let e = #[trigger] pending@[roots.len() - 1 - k];
                &&& e.path == roots@[k]
                &&& e.root is None
                &&& e.relative@.len() == 0
                &&& e.depth == 0
            },
        decreases i,
    {
        i = i - 1;
        pending.push(Pending { path: roots[i].clone(), root: None, relative: String::new(), depth: 0 });
    }
    Ok(Scanner {
        report: ImportScan {
            files: Vec::new(),
            issues: Vec::new(),
            progress: ScanProgress {
                status: ScanStatus::Scanning,
                discovered: roots.len(),
                examined: 0,
                accepted: 0,
                duplicates: 0,
                excluded: 0,
                rejected: 0,
                read_bytes: ByteCount(0),
            },
        },
        options,
        pending,
        visited: HashMap::new(),
        identities: HashMap::new(),
        accepted: Ghost(Seq::empty()),
    })
}

} // verus!
