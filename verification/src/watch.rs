use vstd::prelude::*;
use crate::store::{spec_media_kind_of, is_supported_extension};
use vstd::string::StringExecFns;

verus! {

/// What a poll cycle does with one entry of the watch root.
#[derive(Clone, Copy, Debug, PartialEq, Eq, Structural)]
pub enum DirAction {
    Skip,
    Queue,
}

/// Whether a watch-root entry is scanned for a user's files: only a real
/// directory, not a dot-directory, and only when its name resolved to a
/// known user. Unknown user directories are skipped, never fatal.
pub fn webdav_dir_action(name: &str, is_dir: bool, user: Option<i64>) -> (a: DirAction)
    ensures
        a is Skip <==> (!is_dir || (name@.len() > 0 && name@[0] == '.') || user is None),
{
    if !is_dir {
        return DirAction::Skip;
    }
    if name.unicode_len() > 0 && name.get_char(0) == '.' {
        return DirAction::Skip;
    }
    if user.is_none() {
        return DirAction::Skip;
    }
    DirAction::Queue
}

/// Whether one file of a user's tree is promoted into the pipeline: not a
/// dotfile, a supported media extension, and unmodified for at least the
/// stability window (so a file still being uploaded is never ingested).
pub open spec fn spec_stable_candidate(
    name: Seq<char>, age_seconds: u64, stable_age_seconds: u64,
) -> bool {
    &&& !(name.len() > 0 && name[0] == '.')
    &&& spec_media_kind_of(name) is Some
    &&& age_seconds >= stable_age_seconds
}

pub fn is_stable_candidate(name: &str, age_seconds: u64, stable_age_seconds: u64)
    -> (r: bool)
    ensures
        r == spec_stable_candidate(name@, age_seconds, stable_age_seconds),
{
    if name.unicode_len() > 0 && name.get_char(0) == '.' {
        return false;
    }
    is_supported_extension(name) && age_seconds >= stable_age_seconds
}

/// One file the host found under a user's tree: its name, and how long ago
/// it was last modified.
#[derive(Debug)]
pub struct WatchCandidate {
    pub name: String,
    pub age_seconds: u64,
}

/// Which of the found files are stable enough to queue this cycle.
pub fn collect_stable_webdav_files(files: &Vec<WatchCandidate>, stable_age_seconds: u64)
    -> (r: Vec<usize>)
    ensures
        forall|j: int| 0 <= j < r@.len() ==> #[trigger] r@[j] < files@.len()
            && spec_stable_candidate(files@[r@[j] as int].name@,
                files@[r@[j] as int].age_seconds, stable_age_seconds),
        forall|k: int| 0 <= k < files@.len()
            && spec_stable_candidate(#[trigger] files@[k].name@, files@[k].age_seconds,
                stable_age_seconds)
            ==> r@.contains(k as usize),
        forall|p: int, q: int| 0 <= p < q < r@.len() ==> r@[p] < r@[q],
{
    let mut r: Vec<usize> = Vec::new();
    let mut i: usize = 0;
    while i < files.len()
        invariant
            i <= files@.len(),
            forall|j: int| 0 <= j < r@.len() ==> #[trigger] r@[j] < i
                && spec_stable_candidate(files@[r@[j] as int].name@,
                    files@[r@[j] as int].age_seconds, stable_age_seconds),
            forall|k: int| 0 <= k < i
                && spec_stable_candidate(#[trigger] files@[k].name@,
                    files@[k].age_seconds, stable_age_seconds)
                ==> r@.contains(k as usize),
            forall|p: int, q: int| 0 <= p < q < r@.len() ==> r@[p] < r@[q],
        decreases files@.len() - i,
    {
        let ghost r_old = r@;
        if is_stable_candidate(files[i].name.as_str(), files[i].age_seconds,
            stable_age_seconds) {
            r.push(i);
            proof {
                assert(r@[r@.len() - 1] == i);
                assert forall|k: int| 0 <= k < i + 1
                    && spec_stable_candidate(#[trigger] files@[k].name@,
                        files@[k].age_seconds, stable_age_seconds)
                    implies r@.contains(k as usize) by {
                    if k < i {
                        let j = choose|j: int| 0 <= j < r_old.len()
                            && r_old[j] == k as usize;
                        assert(r@[j] == k as usize);
                    } else {
                        assert(r@[r@.len() - 1] == k as usize);
                    }
                };
            }
        }
        i = i + 1;
    }
    r
}

/// The filesystem-encoded state of one watched file: found in the user's
/// tree, claimed by a poll cycle, and finally gone on success or parked in
/// the failed folder with a sidecar note.
#[derive(Clone, Copy, Debug, PartialEq, Eq, Structural)]
pub enum WatchFileState {
    Incoming,
    Processing,
    Done,
    Failed,
}

/// Claim a file: the atomic move into `.processing`, so a second poll cycle
/// can never double-queue it. Only an incoming file can be claimed.
pub fn claim_for_processing(state: WatchFileState) -> (next: WatchFileState)
    ensures
        state is Incoming ==> next is Processing,
        !(state is Incoming) ==> next == state,
{
    match state {
        WatchFileState::Incoming => WatchFileState::Processing,
        other => other,
    }
}

/// Resolve a claimed file: removed on success, parked as failed otherwise.
/// Only a file in processing resolves.
pub fn resolve_processing(state: WatchFileState, success: bool) -> (next: WatchFileState)
    ensures
        state is Processing && success ==> next is Done,
        state is Processing && !success ==> next is Failed,
        !(state is Processing) ==> next == state,
{
    match state {
        WatchFileState::Processing => {
            if success { WatchFileState::Done } else { WatchFileState::Failed }
        }
        other => other,
    }
}

/// The claimed location of a file inside its user's tree.
pub fn processing_relative_path(filename: &str) -> (r: String)
    ensures
        r@ == ".processing/"@ + filename@,
{
    let mut out: String = ".processing/".to_owned();
    out.append(filename);
    out
}

/// Where a failed file is parked.
pub fn failed_relative_path(filename: &str) -> (r: String)
    ensures
        r@ == ".failed/"@ + filename@,
{
    let mut out: String = ".failed/".to_owned();
    out.append(filename);
    out
}

/// The sidecar next to a parked file.
pub fn failed_sidecar_name(filename: &str) -> (r: String)
    ensures
        r@ == filename@ + ".error.txt"@,
{
    let mut out: String = filename.to_owned();
    out.append(".error.txt");
    out
}

/// What the sidecar records: when the import failed, and where the file
/// originally stood.
pub fn failed_sidecar_contents(now: &str, original_path: &str) -> (r: String)
    ensures
        r@ == "Import failed at: "@ + now@ + "\nOriginal path: "@ + original_path@,
{
    let mut out: String = "Import failed at: ".to_owned();
    out.append(now);
    out.append("\nOriginal path: ");
    out.append(original_path);
    out
}

/// Where a record's thumbnail lives, for both the normal and the tiny root:
/// the original's partition directory and stem, always as a JPEG. Derived
/// from the original's path alone, so it never collides and is
/// reconstructible without storage lookups.
pub fn thumbnail_relative_path(partition: &str, stem: &str) -> (r: String)
    ensures
        r@ == partition@ + "/"@ + stem@ + ".jpg"@,
{
    let mut out: String = partition.to_owned();
    out.append("/");
    out.append(stem);
    out.append(".jpg");
    out
}

} // verus!
