//! From a complete scan to an explicit batch request. Planning freezes the
//! settings and the targets; the read-only target checks run in the
//! application and come back as [`PathCheck`]s, and the batch admission
//! repeats them when the batch starts.

use super::model::{CopyLayout, ImportError, ImportOutput, ImportedFile, ScanStatus};
use super::scan::ImportScan;
use crate::batch::planning::{crossed_at, duplicated_at, estimates_fit, prepare, spec_estimate};
use crate::batch::{
    estimate_working_set, BatchItem, BatchParameters, BatchRequest, JobFailure, JobState, PathCheck,
};
use crate::model::{ByteCount, OutputPolicy, PngMetadataPolicy, PngRequest, ProcessingError};
use crate::paths::{
    file_name, file_stem, join, parent, spec_file_name, spec_file_stem, spec_join, spec_parent,
    spec_with_file_name, with_file_name,
};
use vstd::prelude::*;
use vstd::string::*;

verus! {

/// The folder name a directory root maps to under a preserving copy.
#[verifier::opaque]
pub open spec fn spec_root_name(root: Seq<char>) -> Seq<char> {
    match spec_file_name(root) {
        Some(name) => name,
        None => "_root"@,
    }
}

/// `stem_compressed.png` for a source with a file name.
pub open spec fn spec_copy_name(source: Seq<char>) -> Option<Seq<char>> {
    match spec_file_name(source) {
        Some(name) => Some(spec_file_stem(name) + "_compressed.png"@),
        None => None,
    }
}

pub fn root_name(root: &str) -> (r: String)
    ensures
        r@ == spec_root_name(root@),
{
    proof {
        reveal(spec_root_name);
    }
    match file_name(root) {
        Some(name) => name,
        None => String::from_str("_root"),
    }
}

/// The copy's file name; a source without a file name is an invalid path.
pub fn copy_name(source: &str) -> (r: Result<String, ProcessingError>)
    ensures
        match spec_copy_name(source@) {
            Some(n) => r matches Ok(s) && s@ == n,
            None => r matches Err(e) && e is InvalidPath,
        },
{
    match file_name(source) {
        Some(name) => {
            let stem = file_stem(name.as_str());
            Ok(stem.concat("_compressed.png"))
        },
        None => Err(ProcessingError::InvalidPath),
    }
}

/// The copy placed beside its source.
pub fn copy_beside(source: &str) -> (r: Result<OutputPolicy, ProcessingError>)
    ensures
        match spec_copy_name(source@) {
            Some(n) => r matches Ok(OutputPolicy::Copy { destination }) && destination@ == spec_with_file_name(source@, n),
            None => r matches Err(e) && e is InvalidPath,
        },
{
    match copy_name(source) {
        Ok(name) => Ok(OutputPolicy::Copy { destination: with_file_name(source, name.as_str()) }),
        Err(e) => Err(e),
    }
}

/// A directory root whose folder name an earlier, different directory root already took.
pub open spec fn name_clash(files: Seq<ImportedFile>, j: int) -> bool {
    &&& files[j].root_is_directory
    &&& exists|i: int| 0 <= i < j && files[i].root_is_directory
        && spec_root_name(files[i].root@) == spec_root_name(files[j].root@)
        && files[i].root@ != files[j].root@
}

/// The output policy a file gets, as views: `None` when its path has no file name
/// (or, when preserving roots, its relative path has no parent).
pub open spec fn spec_policy(file: ImportedFile, output: ImportOutput) -> Option<(int, Seq<char>, Seq<char>)> {
    match output {
        ImportOutput::Overwrite => Some((0, Seq::empty(), Seq::empty())),
        ImportOutput::CopyBeside => match spec_copy_name(file.source@) {
            Some(n) => Some((1, spec_with_file_name(file.source@, n), Seq::empty())),
            None => None,
        },
        ImportOutput::CopyTo { directory, layout } => match spec_copy_name(file.source@) {
            Some(n) => if layout == CopyLayout::PreserveRoots && file.root_is_directory {
                match spec_parent(file.relative_path@) {
                    Some(p) => Some((2, directory@, spec_join(spec_join(spec_root_name(file.root@), p), n))),
                    None => None,
                }
            } else {
                Some((2, directory@, n))
            },
            None => None,
        },
    }
}

/// A policy matches its view: overwrite, a copy to a path, or a tree copy.
pub open spec fn policy_is(policy: OutputPolicy, view: (int, Seq<char>, Seq<char>)) -> bool {
    match policy {
        OutputPolicy::Overwrite => view.0 == 0,
        OutputPolicy::Copy { destination } => view.0 == 1 && destination@ == view.1,
        OutputPolicy::CopyTree { root, relative } => view.0 == 2 && root@ == view.1 && relative@ == view.2,
        OutputPolicy::OverwriteWithoutBackup => false,
    }
}

fn policy_for(file: &ImportedFile, output: &ImportOutput) -> (r: Result<OutputPolicy, ProcessingError>)
    ensures
        match spec_policy(*file, *output) {
            Some(v) => r matches Ok(p) && policy_is(p, v),
            None => r matches Err(e) && e is InvalidPath,
        },
{
    match output {
        ImportOutput::Overwrite => Ok(OutputPolicy::Overwrite),
        ImportOutput::CopyBeside => copy_beside(file.source.as_str()),
        ImportOutput::CopyTo { directory, layout } => {
            let name = match copy_name(file.source.as_str()) {
                Ok(n) => n,
                Err(e) => return Err(e),
            };
            let relative = if *layout == CopyLayout::PreserveRoots && file.root_is_directory {
                let up = match parent(file.relative_path.as_str()) {
                    Some(p) => p,
                    None => return Err(ProcessingError::InvalidPath),
                };
                let top = root_name(file.root.as_str());
                let folder = join(top.as_str(), up.as_str());
                join(folder.as_str(), name.as_str())
            } else {
                name
            };
            Ok(OutputPolicy::CopyTree { root: directory.clone(), relative })
        },
    }
}

/// Folder names taken so far: distinct, each with the first file that took
/// it, and covering every directory root before `j` with that root's path.
#[verifier::opaque]
pub open spec fn taken_inv(files: Seq<ImportedFile>, taken: Seq<(String, usize)>, j: int) -> bool {
    &&& forall|t: int| #![trigger taken[t]] 0 <= t < taken.len() ==> {
        &&& 0 <= taken[t].1 < j
        &&& files[taken[t].1 as int].root_is_directory
        &&& taken[t].0@ == spec_root_name(files[taken[t].1 as int].root@)
    }
    &&& forall|t1: int, t2: int| 0 <= t1 < t2 < taken.len() ==> (#[trigger] taken[t1]).0@ != (#[trigger] taken[t2]).0@
    &&& forall|i: int| 0 <= i < j && files[i].root_is_directory ==> #[trigger] covered(files, taken, i)
}

/// Some taken folder name is the directory root `i`'s, taken by that same root.
pub open spec fn covered(files: Seq<ImportedFile>, taken: Seq<(String, usize)>, i: int) -> bool {
    exists|t: int| 0 <= t < taken.len() && (#[trigger] taken[t]).0@ == spec_root_name(files[i].root@)
        && files[taken[t].1 as int].root@ == files[i].root@
}

proof fn lemma_taken_bound(files: Seq<ImportedFile>, taken: Seq<(String, usize)>, j: int, t: int)
    requires
        taken_inv(files, taken, j),
        0 <= t < taken.len(),
    ensures
        0 <= taken[t].1 < j,
{
    reveal(taken_inv);
    assert(taken[t] == taken[t]);
}

proof fn lemma_taken_start(files: Seq<ImportedFile>)
    ensures
        taken_inv(files, Seq::empty(), 0),
{
    reveal(taken_inv);
}

/// A file that is not a directory root changes nothing.
proof fn lemma_taken_skip(files: Seq<ImportedFile>, taken: Seq<(String, usize)>, j: int)
    requires
        0 <= j < files.len(),
        !files[j].root_is_directory,
        taken_inv(files, taken, j),
    ensures
        taken_inv(files, taken, j + 1),
        !name_clash(files, j),
{
    reveal(taken_inv);
}

/// A directory root whose folder name was taken by the same root: no clash.
proof fn lemma_taken_same(files: Seq<ImportedFile>, taken: Seq<(String, usize)>, j: int, t: int)
    requires
        0 <= j < files.len(),
        files[j].root_is_directory,
        taken_inv(files, taken, j),
        0 <= t < taken.len(),
        taken[t].0@ == spec_root_name(files[j].root@),
        files[taken[t].1 as int].root@ == files[j].root@,
    ensures
        taken_inv(files, taken, j + 1),
        !name_clash(files, j),
{
    assert forall|i: int| 0 <= i < j && files[i].root_is_directory
        && spec_root_name(files[i].root@) == spec_root_name(files[j].root@)
        implies files[i].root@ == files[j].root@ by {
        lemma_taken_owner(files, taken, j, t, i);
    }
    lemma_taken_extend(files, taken, j, t);
}

/// Covering one more directory root whose folder name is already taken.
proof fn lemma_taken_extend(files: Seq<ImportedFile>, taken: Seq<(String, usize)>, j: int, t: int)
    requires
        0 <= j < files.len(),
        taken_inv(files, taken, j),
        0 <= t < taken.len(),
        taken[t].0@ == spec_root_name(files[j].root@),
        files[taken[t].1 as int].root@ == files[j].root@,
    ensures
        taken_inv(files, taken, j + 1),
{
    reveal(taken_inv);
    assert forall|i: int| 0 <= i < j + 1 && files[i].root_is_directory implies #[trigger] covered(files, taken, i) by {
        if i == j {
            assert(taken[t].0@ == spec_root_name(files[i].root@));
        }
    }
}

/// The root that took a folder name is the root of every earlier directory with that name.
proof fn lemma_taken_owner(files: Seq<ImportedFile>, taken: Seq<(String, usize)>, j: int, t: int, i: int)
    requires
        taken_inv(files, taken, j),
        0 <= t < taken.len(),
        0 <= i < j,
        files[i].root_is_directory,
        spec_root_name(files[i].root@) == taken[t].0@,
    ensures
        files[taken[t].1 as int].root@ == files[i].root@,
{
    reveal(taken_inv);
    assert(covered(files, taken, i));
    let t2 = choose|t2: int| 0 <= t2 < taken.len() && (#[trigger] taken[t2]).0@ == spec_root_name(files[i].root@)
        && files[taken[t2].1 as int].root@ == files[i].root@;
    if t2 < t {
        assert(taken[t2].0@ != taken[t].0@);
    } else if t < t2 {
        assert(taken[t].0@ != taken[t2].0@);
    }
}

/// A directory root whose folder name was taken by another root: a clash.
proof fn lemma_taken_clash(files: Seq<ImportedFile>, taken: Seq<(String, usize)>, j: int, t: int)
    requires
        0 <= j < files.len(),
        files[j].root_is_directory,
        taken_inv(files, taken, j),
        0 <= t < taken.len(),
        taken[t].0@ == spec_root_name(files[j].root@),
        files[taken[t].1 as int].root@ != files[j].root@,
    ensures
        name_clash(files, j),
        0 <= taken[t].1 < j,
        files[taken[t].1 as int].root_is_directory,
        spec_root_name(files[taken[t].1 as int].root@) == spec_root_name(files[j].root@),
{
    reveal(taken_inv);
    assert(taken[t] == taken[t]);
    let i = taken[t].1 as int;
    assert(files[i].root_is_directory && spec_root_name(files[i].root@) == spec_root_name(files[j].root@)
        && files[i].root@ != files[j].root@);
}

/// A directory root with a folder name nobody took yet takes it.
proof fn lemma_taken_fresh(files: Seq<ImportedFile>, taken: Seq<(String, usize)>, j: int, name: String)
    requires
        0 <= j < files.len(),
        files[j].root_is_directory,
        taken_inv(files, taken, j),
        name@ == spec_root_name(files[j].root@),
        forall|u: int| 0 <= u < taken.len() ==> (#[trigger] taken[u]).0@ != name@,
        j <= usize::MAX,
    ensures
        taken_inv(files, taken.push((name, j as usize)), j + 1),
        !name_clash(files, j),
{
    reveal(taken_inv);
    let after = taken.push((name, j as usize));
    assert forall|i: int| 0 <= i < j && files[i].root_is_directory implies
        spec_root_name(files[i].root@) != spec_root_name(files[j].root@) by {
        assert(covered(files, taken, i));
        let t2 = choose|t2: int| 0 <= t2 < taken.len() && (#[trigger] taken[t2]).0@ == spec_root_name(files[i].root@)
            && files[taken[t2].1 as int].root@ == files[i].root@;
    }
    assert forall|i: int| 0 <= i < j + 1 && files[i].root_is_directory implies #[trigger] covered(files, after, i) by {
        if i == j {
            assert(after[taken.len() as int].0@ == spec_root_name(files[i].root@));
        } else {
            assert(covered(files, taken, i));
            let t2 = choose|t2: int| 0 <= t2 < taken.len() && (#[trigger] taken[t2]).0@ == spec_root_name(files[i].root@)
                && files[taken[t2].1 as int].root@ == files[i].root@;
            assert(after[t2] == taken[t2]);
        }
    }
    assert forall|t: int| #![trigger after[t]] 0 <= t < after.len() implies {
        &&& 0 <= after[t].1 < j + 1
        &&& files[after[t].1 as int].root_is_directory
        &&& after[t].0@ == spec_root_name(files[after[t].1 as int].root@)
    } by {
        if t < taken.len() {
            assert(after[t] == taken[t]);
        }
    }
    assert forall|t1: int, t2: int| 0 <= t1 < t2 < after.len() implies (#[trigger] after[t1]).0@ != (#[trigger] after[t2]).0@ by {
        if t2 == taken.len() {
            assert(after[t1] == taken[t1]);
        } else {
            assert(after[t1] == taken[t1]);
            assert(after[t2] == taken[t2]);
        }
    }
}

/// The first directory root whose folder name clashes with an earlier one.
fn find_clash(files: &[ImportedFile]) -> (r: Option<(usize, usize)>)
    ensures
        r is None <==> forall|j: int| 0 <= j < files.len() ==> !name_clash(files@, j),
        r matches Some((i, j)) ==> {
            &&& 0 <= i < j < files.len()
            &&& name_clash(files@, j as int)
            &&& forall|k: int| 0 <= k < j ==> !name_clash(files@, k)
            &&& files@[i as int].root_is_directory
            &&& spec_root_name(files@[i as int].root@) == spec_root_name(files@[j as int].root@)
            &&& files@[i as int].root@ != files@[j as int].root@
        },
{
    let mut taken: Vec<(String, usize)> = Vec::new();
    proof {
        lemma_taken_start(files@);
    }
    let mut j: usize = 0;
    while j < files.len()
        invariant
            0 <= j <= files.len(),
            forall|k: int| 0 <= k < j ==> !name_clash(files@, k),
            taken_inv(files@, taken@, j as int),
        decreases files.len() - j,
    {
        let file = &files[j];
        if file.root_is_directory {
            let name = root_name(file.root.as_str());
            match find_taken(&taken, &name) {
                Some(t) => {
                    let first = taken[t].1;
                    proof {
                        lemma_taken_bound(files@, taken@, j as int, t as int);
                    }
                    if !equal_strings(&files[first].root, &file.root) {
                        proof {
                            lemma_taken_clash(files@, taken@, j as int, t as int);
                        }
                        return Some((first, j));
                    }
                    proof {
                        lemma_taken_same(files@, taken@, j as int, t as int);
                    }
                },
                None => {
                    proof {
                        lemma_taken_fresh(files@, taken@, j as int, name);
                    }
                    taken.push((name, j));
                },
            }
        } else {
            proof {
                lemma_taken_skip(files@, taken@, j as int);
            }
        }
        j = j + 1;
    }
    None
}

/// The position of a taken folder name.
fn find_taken(taken: &Vec<(String, usize)>, name: &String) -> (r: Option<usize>)
    ensures
        r matches Some(t) ==> t < taken.len() && taken@[t as int].0@ == name@,
        r is None ==> forall|u: int| 0 <= u < taken.len() ==> (#[trigger] taken@[u]).0@ != name@,
{
    let mut t: usize = 0;
    while t < taken.len()
        invariant
            0 <= t <= taken.len(),
            forall|u: int| 0 <= u < t ==> (#[trigger] taken@[u]).0@ != name@,
        decreases taken.len() - t,
    {
        if equal_strings(&taken[t].0, name) {
            return Some(t);
        }
        t = t + 1;
    }
    None
}

fn equal_strings(a: &String, b: &String) -> (r: bool)
    ensures
        r == (a@ == b@),
{
    let n = a.as_str().unicode_len();
    if n != b.as_str().unicode_len() {
        return false;
    }
    let mut i: usize = 0;
    while i < n
        invariant
            n == a@.len(),
            n == b@.len(),
            0 <= i <= n,
            forall|k: int| 0 <= k < i ==> a@[k] == b@[k],
        decreases n - i,
    {
        if a.as_str().get_char(i) != b.as_str().get_char(i) {
            return false;
        }
        i = i + 1;
    }
    assert(a@ =~= b@);
    true
}

/// The position of the first file that no output path can be given.
pub open spec fn first_unplaced(files: Seq<ImportedFile>, output: ImportOutput) -> Option<int> {
    if exists|i: int| 0 <= i < files.len() && spec_policy(#[trigger] files[i], output) is None {
        Some(choose|i: int| 0 <= i < files.len() && spec_policy(#[trigger] files[i], output) is None
            && forall|k: int| 0 <= k < i ==> spec_policy(#[trigger] files[k], output) is Some)
    } else {
        None
    }
}

/// The smallest position of a file without an output path is the first one.
proof fn lemma_first_unplaced(files: Seq<ImportedFile>, output: ImportOutput, index: int)
    requires
        0 <= index < files.len(),
        spec_policy(files[index], output) is None,
        forall|k: int| 0 <= k < index ==> spec_policy(#[trigger] files[k], output) is Some,
    ensures
        first_unplaced(files, output) == Some(index),
{
    let c = choose|i: int| 0 <= i < files.len() && spec_policy(#[trigger] files[i], output) is None
        && forall|k: int| 0 <= k < i ==> spec_policy(#[trigger] files[k], output) is Some;
    assert(spec_policy(files[index], output) is None);
    if c < index {
        assert(spec_policy(files[c], output) is Some);
    } else if c > index {
        assert(spec_policy(files[index], output) is Some);
    }
}

impl ImportScan {
    /// Freezes the current settings into one request per candidate: its output
    /// policy, the common parameters, and its metadata kept. Nothing is
    /// written; the scan stays usable for another plan with other settings.
    #[verifier::loop_isolation(false)]
    pub fn plan(&self, output: &ImportOutput, parameters: BatchParameters) -> (r: Result<Vec<PngRequest>, ImportError>)
        ensures
            !(self.spec_progress().status is Complete) ==> r matches Err(ImportError::IncompleteScan),
            self.spec_progress().status is Complete && self.spec_files().len() == 0 ==> r matches Err(ImportError::NoFiles),
            r is Ok ==> {
                &&& self.spec_progress().status is Complete
                &&& self.spec_files().len() > 0
                &&& parameters.limits.spec_valid() && spec_estimate(parameters) <= u64::MAX
                &&& (output matches ImportOutput::CopyTo { layout, .. } && layout == CopyLayout::PreserveRoots)
                    ==> forall|j: int| 0 <= j < self.spec_files().len() ==> !name_clash(self.spec_files(), j)
                &&& forall|i: int| 0 <= i < self.spec_files().len() ==> spec_policy(#[trigger] self.spec_files()[i], *output) is Some
            },
            r matches Ok(requests) ==> {
                &&& requests.len() == self.spec_files().len()
                &&& forall|i: int| 0 <= i < requests.len() ==> {
                    let request = #[trigger] requests@[i];
                    let file = self.spec_files()[i];
                    &&& request.source == file.source
                    &&& policy_is(request.output, spec_policy(file, *output)->0)
                    &&& request.mode == parameters.mode
                    &&& request.limits == parameters.limits
                    &&& request.metadata is Preserve
                }
            },
            ({
                let files = self.spec_files();
                let started = self.spec_progress().status is Complete && files.len() > 0;
                let preserve = (output matches ImportOutput::CopyTo { layout, .. } && layout == CopyLayout::PreserveRoots);
                let clash = exists|j: int| 0 <= j < files.len() && name_clash(files, j);
                &&& started && !parameters.limits.spec_valid() ==> (r matches Err(ImportError::Batch(
                    crate::batch::BatchError::InvalidParameters(e))) && e is InvalidLimits)
                &&& started && parameters.limits.spec_valid() && spec_estimate(parameters) > u64::MAX
                    ==> (r matches Err(ImportError::Batch(crate::batch::BatchError::InvalidConfig)))
                &&& started && parameters.limits.spec_valid() && spec_estimate(parameters) <= u64::MAX && preserve && clash
                    ==> (r matches Err(ImportError::RootNameConflict { .. }))
                &&& started && parameters.limits.spec_valid() && spec_estimate(parameters) <= u64::MAX && !(preserve && clash)
                    ==> match first_unplaced(files, *output) {
                        Some(index) => (r matches Err(ImportError::File { index: x, .. }) && x == index),
                        None => r is Ok,
                    }
            }),
            r matches Err(ImportError::RootNameConflict { first, second }) ==> exists|i: int, j: int| #![trigger self.spec_files()[i], self.spec_files()[j]] {
                let files = self.spec_files();
                &&& 0 <= i < j < files.len()
                &&& name_clash(files, j)
                &&& forall|k: int| 0 <= k < j ==> !name_clash(files, k)
                &&& files[i].root_is_directory && files[j].root_is_directory
                &&& spec_root_name(files[i].root@) == spec_root_name(files[j].root@)
                &&& files[i].root@ != files[j].root@
                &&& first == files[i].root && second == files[j].root
            },
            r matches Err(ImportError::File { index, failure }) ==> index < self.spec_files().len()
                && spec_policy(self.spec_files()[index as int], *output) is None
                && failure.code == crate::batch::JobErrorCode::InvalidInput,
    {
        let files = self.files();
        if !matches!(self.progress().status, ScanStatus::Complete) {
            return Err(ImportError::IncompleteScan);
        }
        if files.len() == 0 {
            return Err(ImportError::NoFiles);
        }
        match estimate_working_set(parameters) {
            Ok(_) => {},
            Err(e) => return Err(ImportError::Batch(e)),
        }
        let preserve = match output {
            ImportOutput::CopyTo { layout, .. } => *layout == CopyLayout::PreserveRoots,
            _ => false,
        };
        if preserve {
            match find_clash(files) {
                Some((i, j)) => {
                    return Err(ImportError::RootNameConflict {
                        first: files[i].root.clone(),
                        second: files[j].root.clone(),
                    });
                },
                None => {},
            }
        }
        let mut requests: Vec<PngRequest> = Vec::new();
        let mut index: usize = 0;
        while index < files.len()
            invariant
                0 <= index <= files.len(),
                files@ == self.spec_files(),
                requests.len() == index,
                forall|i: int| 0 <= i < index ==> spec_policy(#[trigger] files@[i], *output) is Some,
                forall|i: int| 0 <= i < index ==> {
                    let request = #[trigger] requests@[i];
                    let file = files@[i];
                    &&& request.source == file.source
                    &&& policy_is(request.output, spec_policy(file, *output)->0)
                    &&& request.mode == parameters.mode
                    &&& request.limits == parameters.limits
                    &&& request.metadata is Preserve
                },
            decreases files.len() - index,
        {
            let file = &files[index];
            let policy = match policy_for(file, output) {
                Ok(p) => p,
                Err(e) => {
                    proof {
                        lemma_first_unplaced(files@, *output, index as int);
                    }
                    return Err(ImportError::File { index, failure: JobFailure::processing(e) });
                },
            };
            requests.push(PngRequest {
                source: file.source.clone(),
                output: policy,
                limits: parameters.limits,
                mode: parameters.mode,
                metadata: PngMetadataPolicy::Preserve,
            });
            index = index + 1;
        }
        Ok(requests)
    }
}

/// No two checked requests conflict: no repeated source, file or target,
/// and no copy below another output or onto another request's source.
pub open spec fn no_conflict(checks: Seq<PathCheck>) -> bool {
    &&& forall|i: int| 0 <= i < checks.len() ==> !duplicated_at(checks, i)
    &&& forall|i: int| 0 <= i < checks.len() ==> !crossed_at(checks, i)
}

/// The batch request of a plan, once the application has checked each
/// request's paths: a cross-request conflict is a batch error, and the first
/// candidate whose own check failed is reported with its index.
pub fn finish_plan(requests: Vec<PngRequest>, checks: Vec<PathCheck>, parameters: BatchParameters) -> (r: Result<BatchRequest, ImportError>)
    requires
        requests.len() == checks.len(),
        requests.len() < usize::MAX,
    ensures
        r matches Ok(b) ==> {
            &&& b.parameters == parameters
            &&& b.items.len() == requests.len()
            &&& forall|i: int| 0 <= i < requests.len() ==> {
                &&& (#[trigger] b.items@[i]).source == requests@[i].source
                &&& b.items@[i].output == requests@[i].output
                &&& checks@[i].failure is None
            }
        },
        r matches Err(ImportError::File { index, failure }) ==> index < requests.len()
            && checks@[index as int].failure == Some(failure)
            && forall|k: int| 0 <= k < index ==> checks@[k].failure is None,
            r is Ok <==> (estimates_fit(requests@) && no_conflict(checks@)
                && forall|i: int| 0 <= i < checks.len() ==> (#[trigger] checks@[i]).failure is None),
            !estimates_fit(requests@) ==> (r matches Err(ImportError::Batch(e)) && (e is InvalidParameters || e is InvalidConfig)),
            estimates_fit(requests@) && !no_conflict(checks@) ==> (r matches Err(ImportError::Batch(
                crate::batch::BatchError::PathConflict { .. }))),
            estimates_fit(requests@) && no_conflict(checks@) && !(r is Ok) ==> (r matches Err(ImportError::File { .. })),
{
    let ghost reqs = requests@;
    let ghost chks = checks@;
    let jobs = match prepare(requests, checks, ByteCount(u64::MAX)) {
        Ok(jobs) => jobs,
        Err(e) => return Err(ImportError::Batch(e)),
    };
    let mut items: Vec<BatchItem> = Vec::new();
    let mut index: usize = 0;
    while index < jobs.len()
        invariant
            0 <= index <= jobs.len(),
            jobs.len() == reqs.len(),
            reqs == requests@,
            chks == checks@,
            estimates_fit(reqs),
            no_conflict(chks),
            chks.len() == reqs.len(),
            items.len() == index,
            forall|i: int| #![trigger jobs@[i]] 0 <= i < jobs.len() ==> {
                &&& jobs@[i].view.request == reqs[i]
                &&& jobs@[i].view.state == crate::batch::planning::admitted_state(chks[i], jobs@[i].reservation, ByteCount(u64::MAX))
            },
            forall|k: int| 0 <= k < index ==> (#[trigger] chks[k]).failure is None,
            forall|i: int| 0 <= i < index ==> {
                &&& (#[trigger] items@[i]).source == reqs[i].source
                &&& items@[i].output == reqs[i].output
                &&& chks[i].failure is None
            },
        decreases jobs.len() - index,
    {
        let job = &jobs[index];
        match &job.view.state {
            JobState::Failed(failure) => {
                proof {
                    assert(jobs@[index as int].view.state == crate::batch::planning::admitted_state(chks[index as int], jobs@[index as int].reservation, ByteCount(u64::MAX)));
                    assert(chks[index as int].failure is Some);
                    assert(!(forall|i: int| 0 <= i < checks.len() ==> (#[trigger] chks[i]).failure is None));
                }
                return Err(ImportError::File { index, failure: failure.clone() });
            },
            _ => {},
        }
        items.push(BatchItem { source: job.view.request.source.clone(), output: job.view.request.output.clone() });
        index = index + 1;
    }
    Ok(BatchRequest { items, parameters })
}

} // verus!
