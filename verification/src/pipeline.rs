//! The orchestrator's state: the bounded activity log, the live progress
//! map, approval selection, the watch-loop decision, and status assembly.
//!
//! Everything here is the decision half of the event loop; the surrounding
//! application owns channels, tasks and locks and calls in with plain
//! values.

use vstd::prelude::*;
use vstd::string::StringExecFns;

use crate::scanner::{min_nat, FileRecommendation, FsNode};
use crate::text::{dec_rep, eq_str, u64_to_decimal};
use crate::uploader::{done_status, ProgressResponse, UploadResult, UploadStatus};

verus! {

/// Capacity of the activity log: older entries are discarded past it.
pub const MAX_ACTIVITY_LOG: usize = 50;

/// One recorded transfer outcome, newest first in the log.
#[derive(Debug, Clone)]
pub struct ActivityEntry {
    pub filename: String,
    pub status: UploadStatus,
    pub error: Option<String>,
    pub timestamp: String,
    pub category: Option<String>,
}

/// What an observer sees of the running pipeline.
#[derive(Debug, Clone)]
pub struct SyncStatus {
    pub watching: bool,
    pub folder: Option<String>,
    pub file_count: usize,
    pub recent_activity: Vec<ActivityEntry>,
}

/// One live entry per in-flight ingestion job; the percentage is in whole
/// percent.
#[derive(Debug, Clone)]
pub struct FileProgress {
    pub filename: String,
    pub progress_id: Option<String>,
    pub status: String,
    pub percent: u32,
    pub message: Option<String>,
}

/// The bounded, newest-first record of completed transfer outcomes.
#[derive(Debug)]
pub struct ActivityLog {
    pub entries: Vec<ActivityEntry>,
    pub capacity: usize,
}

impl ActivityLog {
    /// The log never exceeds its capacity.
    pub open spec fn wf(self) -> bool {
        self.entries@.len() <= self.capacity && self.capacity >= 1
    }

    pub fn new(capacity: usize) -> (log: ActivityLog)
        requires
            capacity >= 1,
        ensures
            log.capacity == capacity,
            log.entries@.len() == 0,
            log.wf(),
    {
        ActivityLog { entries: Vec::new(), capacity }
    }

    /// Record one outcome: it becomes the newest entry, and whatever no
    /// longer fits is silently discarded from the old end.
    pub fn push(&mut self, entry: ActivityEntry)
        requires
            old(self).wf(),
        ensures
            final(self).wf(),
            final(self).capacity == old(self).capacity,
            final(self).entries@.len() == min_nat(
                old(self).capacity as int,
                old(self).entries@.len() as int + 1,
            ),
            final(self).entries@[0] == entry,
            forall|j: int|
                1 <= j < final(self).entries@.len() ==> final(self).entries@[j] == old(
                    self,
                ).entries@[j - 1],
    {
        self.entries.insert(0, entry);
        if self.entries.len() > self.capacity {
            self.entries.truncate(self.capacity);
        }
    }

    /// Record a transfer result, stamped with the current time.
    pub fn log_result(&mut self, result: &UploadResult, category: Option<String>)
        requires
            old(self).wf(),
        ensures
            final(self).wf(),
            final(self).capacity == old(self).capacity,
            final(self).entries@.len() == min_nat(
                old(self).capacity as int,
                old(self).entries@.len() as int + 1,
            ),
            ({
                let e = final(self).entries@[0];
                &&& e.filename == result.filename
                &&& e.status == result.status
                &&& e.error == result.error
                &&& e.category == category
            }),
            forall|j: int|
                1 <= j < final(self).entries@.len() ==> final(self).entries@[j] == old(
                    self,
                ).entries@[j - 1],
    {
        let error: Option<String> = match &result.error {
            Option::Some(m) => Some(m.clone()),
            Option::None => None,
        };
        let entry = ActivityEntry {
            filename: result.filename.clone(),
            status: result.status,
            error,
            timestamp: chrono_now(),
            category,
        };
        self.push(entry);
    }
}

/// Law: inserting into a full log keeps the newest entry at index zero and
/// drops exactly the oldest one.
pub proof fn lemma_log_drop_oldest(
    oldv: Seq<ActivityEntry>,
    newv: Seq<ActivityEntry>,
    entry: ActivityEntry,
    cap: int,
)
    requires
        cap >= 1,
        oldv.len() == cap,
        newv.len() == cap,
        newv[0] == entry,
        forall|j: int| 1 <= j < cap ==> newv[j] == oldv[j - 1],
    ensures
        newv == seq![entry] + oldv.drop_last(),
{
    assert(newv =~= seq![entry] + oldv.drop_last());
}

/// The current time rendered as decimal seconds since the Unix epoch.
pub fn chrono_now() -> (s: String)
    ensures
        exists|n: u64| s@ == dec_rep(n as int),
{
    let n = now_unix_secs();
    let s = u64_to_decimal(n);
    proof {
        assert(s@ == dec_rep(n as int));
    }
    s
}

/// Relies on std::time::SystemTime::now and duration_since: seconds since
/// the Unix epoch, zero if the clock lies before it. Nothing can be
/// promised of the clock's value.
#[verifier::external_body]
fn now_unix_secs() -> u64 {
    match std::time::SystemTime::now().duration_since(std::time::UNIX_EPOCH) {
        Ok(d) => d.as_secs(),
        Err(_) => 0,
    }
}

/// How many files a tree holds, at any depth and with nothing skipped.
pub open spec fn file_count(nodes: Seq<FsNode>) -> int
    decreases nodes,
{
    if nodes.len() == 0 {
        0
    } else {
        file_count(nodes.drop_last()) + (match nodes.last() {
            FsNode::File { .. } => 1int,
            FsNode::Dir { entries, .. } => file_count(entries@),
        })
    }
}

/// A tree never holds a negative number of files.
proof fn lemma_file_count_nonneg(nodes: Seq<FsNode>)
    ensures
        file_count(nodes) >= 0,
    decreases nodes,
{
    if nodes.len() != 0 {
        lemma_file_count_nonneg(nodes.drop_last());
        match nodes.last() {
            FsNode::File { .. } => {},
            FsNode::Dir { entries, .. } => {
                lemma_file_count_nonneg(entries@);
            },
        }
    }
}

/// A prefix of a tree holds at most as many files as the whole tree.
proof fn lemma_file_count_prefix(nodes: Seq<FsNode>, k: int)
    requires
        0 <= k <= nodes.len(),
    ensures
        file_count(nodes.take(k)) <= file_count(nodes),
    decreases nodes.len() - k,
{
    if k == nodes.len() {
        assert(nodes.take(k) =~= nodes);
    } else {
        assert(nodes.take(k + 1).drop_last() =~= nodes.take(k));
        assert(nodes.take(k + 1).last() == nodes[k]);
        match nodes[k] {
            FsNode::File { .. } => {},
            FsNode::Dir { entries, .. } => {
                lemma_file_count_nonneg(entries@);
            },
        }
        lemma_file_count_prefix(nodes, k + 1);
    }
}

/// Count the files in a directory snapshot, at any depth.
pub fn count_files(entries: &Vec<FsNode>) -> (n: usize)
    requires
        file_count(entries@) <= usize::MAX,
    ensures
        n as int == file_count(entries@),
    decreases entries@,
{
    let mut n: usize = 0;
    let mut k: usize = 0;
    while k < entries.len()
        invariant
            k <= entries@.len(),
            file_count(entries@) <= usize::MAX,
            n as int == file_count(entries@.take(k as int)),
        decreases entries@.len() - k,
    {
        proof {
            assert(entries@.take(k as int + 1).drop_last() =~= entries@.take(k as int));
            assert(entries@.take(k as int + 1).last() == entries@[k as int]);
            lemma_file_count_prefix(entries@, k as int + 1);
            lemma_file_count_nonneg(entries@.take(k as int));
            match entries@[k as int] {
                FsNode::File { .. } => {},
                FsNode::Dir { entries: children, .. } => {
                    lemma_file_count_nonneg(children@);
                },
            }
        }
        match &entries[k] {
            FsNode::File { .. } => {
                n = n + 1;
            },
            FsNode::Dir { entries: children, .. } => {
                proof {
                    assert(decreases_to!(entries@ => entries@[k as int]));
                }
                let c = count_files(children);
                n = n + c;
            },
        }
        k = k + 1;
    }
    proof {
        assert(entries@.take(entries@.len() as int) =~= entries@);
    }
    n
}

/// Assemble the observer-facing status snapshot.
pub fn build_sync_status(
    watching: bool,
    folder: Option<String>,
    file_count: usize,
    recent_activity: Vec<ActivityEntry>,
) -> (s: SyncStatus)
    ensures
        s.watching == watching,
        s.folder == folder,
        s.file_count == file_count,
        s.recent_activity == recent_activity,
{
    SyncStatus { watching, folder, file_count, recent_activity }
}

/// A path is among the approved ones.
pub open spec fn path_selected(approved: Seq<String>, p: Seq<char>) -> bool {
    exists|i: int| 0 <= i < approved.len() && approved[i]@ == p
}

/// The recommendations whose paths are approved, in order.
pub open spec fn approved_subseq(
    recs: Seq<FileRecommendation>,
    approved: Seq<String>,
) -> Seq<FileRecommendation>
    decreases recs.len(),
{
    if recs.len() == 0 {
        Seq::empty()
    } else {
        approved_subseq(recs.drop_last(), approved) + (if path_selected(
            approved,
            recs.last().path@,
        ) {
            seq![recs.last()]
        } else {
            Seq::empty()
        })
    }
}

/// Whether `p` is among the approved paths.
fn path_in(approved: &Vec<String>, p: &str) -> (r: bool)
    ensures
        r == path_selected(approved@, p@),
{
    let mut i: usize = 0;
    while i < approved.len()
        invariant
            i <= approved@.len(),
            forall|k: int| 0 <= k < i ==> (#[trigger] approved@[k])@ != p@,
        decreases approved@.len() - i,
    {
        if eq_str(approved[i].as_str(), p) {
            return true;
        }
        i = i + 1;
    }
    false
}

/// Pick the files to ingest out of a scan's recommendations: the recommended
/// files first, then the skipped ones, each kept only when its path was
/// approved.
pub fn select_approved(
    recommended: Vec<FileRecommendation>,
    skipped: Vec<FileRecommendation>,
    approved: &Vec<String>,
) -> (sel: Vec<FileRecommendation>)
    ensures
        sel@ == approved_subseq(recommended@ + skipped@, approved@),
{
    let mut all = recommended;
    let mut rest = skipped;
    let ghost orig = all@ + rest@;
    all.append(&mut rest);
    proof {
        assert(all@ == orig);
    }
    let mut sel: Vec<FileRecommendation> = Vec::new();
    let ghost done: int = 0;
    let mut k: usize = 0;
    while k < all.len()
        invariant
            k <= all@.len(),
            all@ == orig,
            sel@ == approved_subseq(orig.take(k as int), approved@),
        decreases all@.len() - k,
    {
        proof {
            assert(orig.take(k as int + 1).drop_last() =~= orig.take(k as int));
            assert(orig.take(k as int + 1).last() == orig[k as int]);
        }
        let keep = path_in(approved, all[k].path.as_str());
        if keep {
            let rec = clone_recommendation(&all[k]);
            sel.push(rec);
            proof {
                assert(sel@ =~= approved_subseq(orig.take(k as int + 1), approved@));
            }
        }
        k = k + 1;
    }
    proof {
        assert(orig.take(orig.len() as int) =~= orig);
    }
    sel
}

/// A field-for-field copy of a recommendation.
fn clone_recommendation(rec: &FileRecommendation) -> (r: FileRecommendation)
    ensures
        r == *rec,
{
    FileRecommendation {
        path: rec.path.clone(),
        absolute_path: rec.absolute_path.clone(),
        should_ingest: rec.should_ingest,
        category: rec.category.clone(),
        reason: rec.reason.clone(),
    }
}

/// The fresh progress list for a batch: one pending entry per file.
pub fn init_progress(files: &Vec<FileRecommendation>) -> (progress: Vec<FileProgress>)
    ensures
        progress@.len() == files@.len(),
        forall|i: int|
            0 <= i < files@.len() ==> {
                let p = #[trigger] progress@[i];
                &&& p.filename == files@[i].path
                &&& p.progress_id is None
                &&& p.status@ == "pending"@
                &&& p.percent == 0
                &&& p.message is None
            },
{
    let mut progress: Vec<FileProgress> = Vec::new();
    let mut k: usize = 0;
    while k < files.len()
        invariant
            k <= files@.len(),
            progress@.len() == k,
            forall|i: int|
                0 <= i < k ==> {
                    let p = #[trigger] progress@[i];
                    &&& p.filename == files@[i].path
                    &&& p.progress_id is None
                    &&& p.status@ == "pending"@
                    &&& p.percent == 0
                    &&& p.message is None
                },
        decreases files@.len() - k,
    {
        let p = FileProgress {
            filename: files[k].path.clone(),
            progress_id: None,
            status: "pending".to_owned(),
            percent: 0,
            message: None,
        };
        progress.push(p);
        k = k + 1;
    }
    progress
}

/// `i` is the first entry of `entries` for the file called `name`.
pub open spec fn first_progress_match(entries: Seq<FileProgress>, name: Seq<char>, i: int) -> bool {
    &&& 0 <= i < entries.len()
    &&& entries[i].filename@ == name
    &&& forall|k: int| 0 <= k < i ==> (#[trigger] entries[k]).filename@ != name
}

/// Update the first progress entry for `filename`: set its stage and
/// percentage, and install a progress id when one is handed in. Entries for
/// other files are untouched; an unknown file changes nothing.
pub fn update_file_progress(
    progress: &mut Vec<FileProgress>,
    filename: &str,
    status: &str,
    percent: u32,
    progress_id: Option<String>,
)
    ensures
        final(progress)@.len() == old(progress)@.len(),
        (forall|k: int|
            0 <= k < old(progress)@.len() ==> (#[trigger] old(progress)@[k]).filename@
                != filename@) ==> final(progress)@ == old(progress)@,
        forall|i: int|
            first_progress_match(old(progress)@, filename@, i) ==> {
                &&& (forall|j: int|
                    0 <= j < old(progress)@.len() && j != i ==> final(progress)@[j] == old(
                        progress,
                    )@[j])
                &&& final(progress)@[i].filename == old(progress)@[i].filename
                &&& final(progress)@[i].status@ == status@
                &&& final(progress)@[i].percent == percent
                &&& final(progress)@[i].progress_id == (match progress_id {
                    Option::Some(p) => Option::Some(p),
                    Option::None => old(progress)@[i].progress_id,
                })
                &&& final(progress)@[i].message == old(progress)@[i].message
            },
{
    let n = progress.len();
    let mut k: usize = 0;
    while k < n
        invariant
            n == progress@.len(),
            k <= n,
            progress@ == old(progress)@,
            forall|j: int| 0 <= j < k ==> (#[trigger] progress@[j]).filename@ != filename@,
        decreases n - k,
    {
        if eq_str(progress[k].filename.as_str(), filename) {
            proof {
                assert(first_progress_match(old(progress)@, filename@, k as int));
            }
            let e = &mut progress[k];
            e.status = status.to_owned();
            e.percent = percent;
            match progress_id {
                Option::Some(p) => {
                    e.progress_id = Some(p);
                },
                Option::None => {},
            }
            proof {
                assert forall|i: int|
                    first_progress_match(old(progress)@, filename@, i) implies i == k as int by {
                    if i < k as int {
                        assert(old(progress)@[i].filename@ != filename@);
                    }
                    if i > k as int {
                        assert(old(progress)@[k as int].filename@ != filename@);
                    }
                }
            }
            return ;
        }
        k = k + 1;
    }
}

/// Apply one successful poll answer to the first progress entry for
/// `filename`: the stage and message follow the answer; the percentage
/// (50 when the answer gives none) never goes backwards unless the remote
/// signals an error state.
pub fn apply_poll_update(progress: &mut Vec<FileProgress>, filename: &str, resp: &ProgressResponse)
    ensures
        final(progress)@.len() == old(progress)@.len(),
        (forall|k: int|
            0 <= k < old(progress)@.len() ==> (#[trigger] old(progress)@[k]).filename@
                != filename@) ==> final(progress)@ == old(progress)@,
        forall|i: int|
            first_progress_match(old(progress)@, filename@, i) ==> {
                let given = match resp.percent {
                    Option::Some(v) => v,
                    Option::None => 50u32,
                };
                let failing = resp.status@ == "error"@ || resp.status@ == "failed"@;
                &&& (forall|j: int|
                    0 <= j < old(progress)@.len() && j != i ==> final(progress)@[j] == old(
                        progress,
                    )@[j])
                &&& final(progress)@[i].filename == old(progress)@[i].filename
                &&& final(progress)@[i].status@ == resp.status@
                &&& final(progress)@[i].percent == (if failing || given >= old(
                    progress,
                )@[i].percent {
                    given
                } else {
                    old(progress)@[i].percent
                })
                &&& final(progress)@[i].progress_id == old(progress)@[i].progress_id
                &&& final(progress)@[i].message == resp.message
            },
{
    let n = progress.len();
    let mut k: usize = 0;
    while k < n
        invariant
            n == progress@.len(),
            k <= n,
            progress@ == old(progress)@,
            forall|j: int| 0 <= j < k ==> (#[trigger] progress@[j]).filename@ != filename@,
        decreases n - k,
    {
        if eq_str(progress[k].filename.as_str(), filename) {
            proof {
                assert(first_progress_match(old(progress)@, filename@, k as int));
            }
            let given: u32 = match resp.percent {
                Option::Some(v) => v,
                Option::None => 50,
            };
            let failing = eq_str(resp.status.as_str(), "error") || eq_str(
                resp.status.as_str(),
                "failed",
            );
            let message: Option<String> = match &resp.message {
                Option::Some(m) => Some(m.clone()),
                Option::None => None,
            };
            let e = &mut progress[k];
            e.status = resp.status.clone();
            if failing || given >= e.percent {
                e.percent = given;
            }
            e.message = message;
            proof {
                assert forall|i: int|
                    first_progress_match(old(progress)@, filename@, i) implies i == k as int by {
                    if i < k as int {
                        assert(old(progress)@[i].filename@ != filename@);
                    }
                    if i > k as int {
                        assert(old(progress)@[k as int].filename@ != filename@);
                    }
                }
            }
            return ;
        }
        k = k + 1;
    }
}

/// What the watch loop does with a classified file event.
#[derive(Debug, Clone, Copy, PartialEq, Eq, Structural)]
pub enum WatchDecision {
    Upload,
    RecordOnly,
}

/// A detected file is uploaded only when auto-approval is on and the
/// classifier recommended it; everything else is only recorded.
pub fn decide_watch_event(auto_approve: bool, rec: &FileRecommendation) -> (d: WatchDecision)
    ensures
        d == (if auto_approve && rec.should_ingest {
            WatchDecision::Upload
        } else {
            WatchDecision::RecordOnly
        }),
{
    if auto_approve && rec.should_ingest {
        WatchDecision::Upload
    } else {
        WatchDecision::RecordOnly
    }
}

/// The log entry for a detected file that was not uploaded: a recommended
/// file is waiting for approval, anything else is recorded as skipped with
/// its category. The status field mirrors detection, not an actual upload.
pub fn skipped_entry(rec: &FileRecommendation, timestamp: String) -> (e: ActivityEntry)
    ensures
        e.filename == rec.path,
        e.status == UploadStatus::Uploaded,
        rec.should_ingest ==> (e.error matches Option::Some(m) && m@ == "Waiting for approval"@),
        !rec.should_ingest ==> (e.error matches Option::Some(m) && m@ == "Skipped ("@
            + rec.category@ + ")"@),
        e.timestamp == timestamp,
        e.category matches Option::Some(c) && c == rec.category,
{
    let error: String = if rec.should_ingest {
        "Waiting for approval".to_owned()
    } else {
        let mut m = "Skipped (".to_owned();
        m.append(rec.category.as_str());
        m.append(")");
        m
    };
    ActivityEntry {
        filename: rec.path.clone(),
        status: UploadStatus::Uploaded,
        error: Some(error),
        timestamp,
        category: Some(rec.category.clone()),
    }
}

/// The upload result as it stands once polling is over: an ingesting
/// transfer whose poll ended in a success status counts as Done; one whose
/// poll ended in a failure status counts as Error carrying that poll's
/// message; without a terminal poll the last-known state stands.
pub fn settle_after_poll(result: UploadResult, poll_final: Option<&ProgressResponse>) -> (r:
    UploadResult)
    ensures
        r.filename == result.filename,
        r.s3_key == result.s3_key,
        r.progress_id == result.progress_id,
        match poll_final {
            Option::Some(p) => {
                if result.status == UploadStatus::Ingesting && done_status(p.status@) {
                    r.status == UploadStatus::Done && r.error is None
                } else if result.status == UploadStatus::Ingesting && (p.status@ == "error"@
                    || p.status@ == "failed"@) {
                    r.status == UploadStatus::Error && r.error == p.message
                } else {
                    r.status == result.status && r.error == result.error
                }
            },
            Option::None => r.status == result.status && r.error == result.error,
        },
{
    match poll_final {
        Option::Some(p) => {
            let ingesting = match result.status {
                UploadStatus::Ingesting => true,
                _ => false,
            };
            if ingesting && crate::uploader::is_done_status(p.status.as_str()) {
                UploadResult {
                    filename: result.filename,
                    s3_key: result.s3_key,
                    progress_id: result.progress_id,
                    status: UploadStatus::Done,
                    error: None,
                }
            } else if ingesting && (eq_str(p.status.as_str(), "error") || eq_str(
                p.status.as_str(),
                "failed",
            )) {
                let message: Option<String> = match &p.message {
                    Option::Some(m) => Some(m.clone()),
                    Option::None => None,
                };
                UploadResult {
                    filename: result.filename,
                    s3_key: result.s3_key,
                    progress_id: result.progress_id,
                    status: UploadStatus::Error,
                    error: message,
                }
            } else {
                result
            }
        },
        Option::None => result,
    }
}

} // verus!
