//! The transfer engine: the upload-and-ingest protocol as an explicit state
//! machine, its retry policy, the permit pool that bounds concurrency, and
//! the classification of progress polls.
//!
//! The machine decides; the surrounding application performs the remote
//! calls it asks for and feeds the outcomes back in. A flow never fails its
//! caller: every failure ends in a `Finished` step whose result carries
//! status `Error` and a message.

use vstd::prelude::*;
use vstd::string::StringExecFns;

use crate::config::{spec_api_url, AppConfig};
use crate::scanner::base_name;
use crate::text::eq_str;

verus! {

/// Attempts each remote call of the protocol gets before its error is
/// surfaced.
pub const MAX_ATTEMPTS: u32 = 3;

/// How many transfers may be in flight at once.
pub const MAX_CONCURRENT_UPLOADS: usize = 3;

/// Polls the progress poller makes before giving up silently.
pub const MAX_POLLS: u32 = 120;

/// Pause between two progress polls, in milliseconds.
pub const POLL_INTERVAL_MS: u64 = 2000;

#[derive(Debug, Clone, Copy, PartialEq, Eq, Structural)]
pub enum UploadStatus {
    Uploading,
    Uploaded,
    Ingesting,
    Done,
    Error,
}

#[derive(Debug, Clone)]
pub struct UploadResult {
    pub filename: String,
    pub s3_key: String,
    pub progress_id: Option<String>,
    pub status: UploadStatus,
    pub error: Option<String>,
}

/// The remote's answer to a slot request: where to put the bytes and under
/// which object key.
#[derive(Debug, Clone)]
pub struct UploadSlot {
    pub upload_url: String,
    pub s3_key: String,
    pub s3_bucket: Option<String>,
}

/// One poll answer from the progress endpoint, with the percentage in whole
/// percent.
#[derive(Debug, Clone)]
pub struct ProgressResponse {
    pub progress_id: String,
    pub status: String,
    pub percent: Option<u32>,
    pub message: Option<String>,
}

/// 2 to the power `e`.
pub open spec fn pow2(e: int) -> int
    decreases e,
{
    if e <= 0 {
        1
    } else {
        2 * pow2(e - 1)
    }
}

/// Delay in milliseconds before the retry that follows the failure of the
/// attempt with index `attempt`: 500 ms, doubling each time.
pub open spec fn spec_backoff_ms(attempt: int) -> int {
    500 * pow2(attempt)
}

/// Compute the backoff delay for a failed attempt.
pub fn backoff_delay_ms(attempt: u32) -> (d: u64)
    requires
        attempt < MAX_ATTEMPTS,
    ensures
        d == spec_backoff_ms(attempt as int),
{
    let mut d: u64 = 500;
    let mut i: u32 = 0;
    while i < attempt
        invariant
            i <= attempt,
            attempt < MAX_ATTEMPTS,
            d == spec_backoff_ms(i as int),
            d <= 2000,
        decreases attempt - i,
    {
        proof {
            reveal_with_fuel(pow2, 4);
            assert(i <= 1);
            assert(d <= 1000);
        }
        d = d * 2;
        i = i + 1;
    }
    d
}

/// Where a running transfer stands, and what the driver must do next.
#[derive(Debug)]
pub enum UploadStep {
    AcquireSlot { attempt: u32 },
    ReadFile { slot: UploadSlot },
    TransferBytes { attempt: u32, slot: UploadSlot },
    TriggerIngest { attempt: u32, slot: UploadSlot },
    Finished { result: UploadResult },
}

/// The file name a transfer reports: the path's base name, or a placeholder
/// when the path has none.
pub open spec fn upload_filename(path: Seq<char>) -> Seq<char> {
    if base_name(path).len() > 0 {
        base_name(path)
    } else {
        "unknown"@
    }
}

/// The error message surfaced when a step's retries are exhausted.
pub open spec fn exhausted_msg(e: Seq<char>) -> Seq<char> {
    "Failed after 3 attempts: "@ + e
}

/// `res` is the failure result of a transfer of `filename` with message
/// `msg`.
pub open spec fn error_result_wf(res: UploadResult, filename: Seq<char>, msg: Seq<char>) -> bool {
    &&& res.filename@ == filename
    &&& res.s3_key@.len() == 0
    &&& res.progress_id is None
    &&& res.status == UploadStatus::Error
    &&& res.error matches Option::Some(m) && m@ == msg
}

/// The fields of the flow that never change across transitions.
pub open spec fn same_flow_params(a: UploadFlow, b: UploadFlow) -> bool {
    &&& a.filename == b.filename
    &&& a.path == b.path
    &&& a.content_type == b.content_type
    &&& a.auto_ingest == b.auto_ingest
    &&& a.api_url == b.api_url
    &&& a.client_progress_id == b.client_progress_id
}

/// A flow built with auto-ingest off never reaches the trigger stage.
pub open spec fn flow_inv(f: UploadFlow) -> bool {
    !f.auto_ingest ==> !(f.step is TriggerIngest)
}

/// One upload-and-ingest transfer: slot acquisition, byte transfer, and,
/// when auto-ingest is on, the ingest trigger, each retried with backoff.
#[derive(Debug)]
pub struct UploadFlow {
    pub filename: String,
    pub path: String,
    pub content_type: String,
    pub auto_ingest: bool,
    pub api_url: String,
    pub client_progress_id: String,
    pub step: UploadStep,
}

/// Names what the content-type guess returns for a path: it depends on the
/// path's extension alone.
pub uninterp spec fn mime_of(path: Seq<char>) -> Seq<char>;

/// Relies on mime_guess::from_path, MimeGuess::first_or_octet_stream and
/// the Display of Mime: the guess is a function of the path's extension
/// alone, and the octet-stream fallback makes the result non-empty.
#[verifier::external_body]
fn guess_mime(path: &str) -> (r: String)
    ensures
        r@ == mime_of(path@),
        r@.len() > 0,
{
    mime_guess::from_path(path).first_or_octet_stream().to_string()
}

/// Relies on uuid::Uuid::new_v4 and its Display: a fresh random UUID in the
/// 36-character hyphenated form. Nothing else can be promised of a random
/// value.
#[verifier::external_body]
fn fresh_uuid() -> (r: String)
    ensures
        r@.len() == 36,
{
    uuid::Uuid::new_v4().to_string()
}

impl UploadFlow {
    /// Start a transfer of the file at `path`. The content type is guessed
    /// once, here, so that the slot request and the byte transfer use the
    /// same value.
    pub fn new(path: &str, config: &AppConfig) -> (f: UploadFlow)
        ensures
            f.step == (UploadStep::AcquireSlot { attempt: 0u32 }),
            f.path@ == path@,
            f.filename@ == upload_filename(path@),
            f.content_type@ == mime_of(path@),
            f.auto_ingest == config.auto_ingest,
            f.api_url@ == spec_api_url(*config),
            f.client_progress_id@.len() == 36,
            flow_inv(f),
    {
        let base = crate::scanner::base_name_exec(path);
        let filename: String = if base.as_str().is_empty() {
            "unknown".to_owned()
        } else {
            base
        };
        UploadFlow {
            filename,
            path: path.to_owned(),
            content_type: guess_mime(path),
            auto_ingest: config.auto_ingest,
            api_url: config.api_url().to_owned(),
            client_progress_id: fresh_uuid(),
            step: UploadStep::AcquireSlot { attempt: 0 },
        }
    }

    /// The endpoint the slot request goes to.
    pub fn slot_url(&self) -> (u: String)
        ensures
            u@ == self.api_url@ + "/api/ingestion/upload-url"@,
    {
        let mut u = self.api_url.clone();
        u.append("/api/ingestion/upload-url");
        u
    }

    /// The endpoint the ingest trigger goes to.
    pub fn ingest_url(&self) -> (u: String)
        ensures
            u@ == self.api_url@ + "/api/ingestion/ingest-s3"@,
    {
        let mut u = self.api_url.clone();
        u.append("/api/ingestion/ingest-s3");
        u
    }

    /// Feed in the outcome of a slot request. A success moves on to reading
    /// the file; a failure retries with backoff until the attempts are
    /// exhausted, then finishes with an error result.
    pub fn on_slot_result(self, r: Result<UploadSlot, String>) -> (out: (UploadFlow, Option<u64>))
        requires
            self.step is AcquireSlot,
        ensures
            same_flow_params(self, out.0),
            flow_inv(self) ==> flow_inv(out.0),
            match r {
                Result::Ok(slot) => out.0.step == (UploadStep::ReadFile { slot }) && out.1
                    is None,
                Result::Err(e) => {
                    let a = self.step->AcquireSlot_attempt;
                    if a + 1 < MAX_ATTEMPTS {
                        &&& out.0.step == (UploadStep::AcquireSlot { attempt: (a + 1) as u32 })
                        &&& out.1 matches Option::Some(d) && d == spec_backoff_ms(a as int)
                    } else {
                        &&& out.0.step matches UploadStep::Finished { result } && error_result_wf(
                            result,
                            self.filename@,
                            exhausted_msg(e@),
                        )
                        &&& out.1 is None
                    }
                },
            },
    {
        let attempt: u32 = match &self.step {
            UploadStep::AcquireSlot { attempt } => *attempt,
            _ => 0,
        };
        match r {
            Result::Ok(slot) => {
                let f = UploadFlow { step: UploadStep::ReadFile { slot }, ..self };
                (f, None)
            },
            Result::Err(e) => {
                if attempt < MAX_ATTEMPTS - 1 {
                    let d = backoff_delay_ms(attempt);
                    let f = UploadFlow {
                        step: UploadStep::AcquireSlot { attempt: attempt + 1 },
                        ..self
                    };
                    (f, Some(d))
                } else {
                    let result = exhausted_result(&self.filename, &e);
                    let f = UploadFlow { step: UploadStep::Finished { result }, ..self };
                    (f, None)
                }
            },
        }
    }

    /// Feed in the outcome of reading the file's bytes. Reading is not
    /// retried: a failure finishes the flow with an error result at once.
    pub fn on_read_result(self, r: Result<(), String>) -> (f: UploadFlow)
        requires
            self.step is ReadFile,
        ensures
            same_flow_params(self, f),
            flow_inv(self) ==> flow_inv(f),
            match r {
                Result::Ok(u) => f.step == (UploadStep::TransferBytes {
                    attempt: 0u32,
                    slot: self.step->ReadFile_slot,
                }),
                Result::Err(e) => f.step matches UploadStep::Finished { result }
                    && error_result_wf(
                    result,
                    self.filename@,
                    "Failed to read file: "@ + e@,
                ),
            },
    {
        match self.step {
            UploadStep::ReadFile { slot } => {
                match r {
                    Result::Ok(_) => {
                        UploadFlow {
                            step: UploadStep::TransferBytes { attempt: 0, slot },
                            filename: self.filename,
                            path: self.path,
                            content_type: self.content_type,
                            auto_ingest: self.auto_ingest,
                            api_url: self.api_url,
                            client_progress_id: self.client_progress_id,
                        }
                    },
                    Result::Err(e) => {
                        let mut msg = "Failed to read file: ".to_owned();
                        msg.append(e.as_str());
                        let result = UploadResult {
                            filename: self.filename.clone(),
                            s3_key: String::new(),
                            progress_id: None,
                            status: UploadStatus::Error,
                            error: Some(msg),
                        };
                        UploadFlow {
                            step: UploadStep::Finished { result },
                            filename: self.filename,
                            path: self.path,
                            content_type: self.content_type,
                            auto_ingest: self.auto_ingest,
                            api_url: self.api_url,
                            client_progress_id: self.client_progress_id,
                        }
                    },
                }
            },
            _ => self,
        }
    }

    /// Feed in the outcome of the byte transfer. On success with auto-ingest
    /// off the flow is done: status Uploaded and no progress id. With
    /// auto-ingest on it moves to the trigger stage. A failure retries with
    /// backoff until the attempts are exhausted.
    pub fn on_transfer_result(self, r: Result<(), String>) -> (out: (UploadFlow, Option<u64>))
        requires
            self.step is TransferBytes,
        ensures
            same_flow_params(self, out.0),
            flow_inv(self) ==> flow_inv(out.0),
            match r {
                Result::Ok(u) => {
                    if self.auto_ingest {
                        &&& out.0.step == (UploadStep::TriggerIngest {
                            attempt: 0u32,
                            slot: self.step->TransferBytes_slot,
                        })
                        &&& out.1 is None
                    } else {
                        &&& out.0.step matches UploadStep::Finished { result } && {
                            &&& result.filename@ == self.filename@
                            &&& result.s3_key == self.step->TransferBytes_slot.s3_key
                            &&& result.progress_id is None
                            &&& result.status == UploadStatus::Uploaded
                            &&& result.error is None
                        }
                        &&& out.1 is None
                    }
                },
                Result::Err(e) => {
                    let a = self.step->TransferBytes_attempt;
                    if a + 1 < MAX_ATTEMPTS {
                        &&& out.0.step matches UploadStep::TransferBytes { attempt, slot }
                            && attempt == a + 1 && slot == self.step->TransferBytes_slot
                        &&& out.1 matches Option::Some(d) && d == spec_backoff_ms(a as int)
                    } else {
                        &&& out.0.step matches UploadStep::Finished { result } && error_result_wf(
                            result,
                            self.filename@,
                            exhausted_msg(e@),
                        )
                        &&& out.1 is None
                    }
                },
            },
    {
        match self.step {
            UploadStep::TransferBytes { attempt, slot } => {
                match r {
                    Result::Ok(_) => {
                        if self.auto_ingest {
                            let f = UploadFlow {
                                step: UploadStep::TriggerIngest { attempt: 0, slot },
                                filename: self.filename,
                                path: self.path,
                                content_type: self.content_type,
                                auto_ingest: self.auto_ingest,
                                api_url: self.api_url,
                                client_progress_id: self.client_progress_id,
                            };
                            (f, None)
                        } else {
                            let result = UploadResult {
                                filename: self.filename.clone(),
                                s3_key: slot.s3_key,
                                progress_id: None,
                                status: UploadStatus::Uploaded,
                                error: None,
                            };
                            let f = UploadFlow {
                                step: UploadStep::Finished { result },
                                filename: self.filename,
                                path: self.path,
                                content_type: self.content_type,
                                auto_ingest: self.auto_ingest,
                                api_url: self.api_url,
                                client_progress_id: self.client_progress_id,
                            };
                            (f, None)
                        }
                    },
                    Result::Err(e) => {
                        if attempt < MAX_ATTEMPTS - 1 {
                            let d = backoff_delay_ms(attempt);
                            let f = UploadFlow {
                                step: UploadStep::TransferBytes { attempt: attempt + 1, slot },
                                filename: self.filename,
                                path: self.path,
                                content_type: self.content_type,
                                auto_ingest: self.auto_ingest,
                                api_url: self.api_url,
                                client_progress_id: self.client_progress_id,
                            };
                            (f, Some(d))
                        } else {
                            let result = exhausted_result(&self.filename, &e);
                            let f = UploadFlow {
                                step: UploadStep::Finished { result },
                                filename: self.filename,
                                path: self.path,
                                content_type: self.content_type,
                                auto_ingest: self.auto_ingest,
                                api_url: self.api_url,
                                client_progress_id: self.client_progress_id,
                            };
                            (f, None)
                        }
                    },
                }
            },
            _ => (self, None),
        }
    }

    /// Feed in the outcome of the ingest trigger. A success finishes the
    /// flow with status Ingesting and the server-assigned progress id; a
    /// failure retries with backoff until the attempts are exhausted.
    pub fn on_trigger_result(self, r: Result<String, String>) -> (out: (UploadFlow, Option<u64>))
        requires
            self.step is TriggerIngest,
        ensures
            same_flow_params(self, out.0),
            match r {
                Result::Ok(pid) => {
                    &&& out.0.step matches UploadStep::Finished { result } && {
                        &&& result.filename@ == self.filename@
                        &&& result.s3_key == self.step->TriggerIngest_slot.s3_key
                        &&& result.progress_id == Option::Some(pid)
                        &&& result.status == UploadStatus::Ingesting
                        &&& result.error is None
                    }
                    &&& out.1 is None
                },
                Result::Err(e) => {
                    let a = self.step->TriggerIngest_attempt;
                    if a + 1 < MAX_ATTEMPTS {
                        &&& out.0.step matches UploadStep::TriggerIngest { attempt, slot }
                            && attempt == a + 1 && slot == self.step->TriggerIngest_slot
                        &&& out.1 matches Option::Some(d) && d == spec_backoff_ms(a as int)
                    } else {
                        &&& out.0.step matches UploadStep::Finished { result } && error_result_wf(
                            result,
                            self.filename@,
                            exhausted_msg(e@),
                        )
                        &&& out.1 is None
                    }
                },
            },
    {
        match self.step {
            UploadStep::TriggerIngest { attempt, slot } => {
                match r {
                    Result::Ok(pid) => {
                        let result = UploadResult {
                            filename: self.filename.clone(),
                            s3_key: slot.s3_key,
                            progress_id: Some(pid),
                            status: UploadStatus::Ingesting,
                            error: None,
                        };
                        let f = UploadFlow {
                            step: UploadStep::Finished { result },
                            filename: self.filename,
                            path: self.path,
                            content_type: self.content_type,
                            auto_ingest: self.auto_ingest,
                            api_url: self.api_url,
                            client_progress_id: self.client_progress_id,
                        };
                        (f, None)
                    },
                    Result::Err(e) => {
                        if attempt < MAX_ATTEMPTS - 1 {
                            let d = backoff_delay_ms(attempt);
                            let f = UploadFlow {
                                step: UploadStep::TriggerIngest { attempt: attempt + 1, slot },
                                filename: self.filename,
                                path: self.path,
                                content_type: self.content_type,
                                auto_ingest: self.auto_ingest,
                                api_url: self.api_url,
                                client_progress_id: self.client_progress_id,
                            };
                            (f, Some(d))
                        } else {
                            let result = exhausted_result(&self.filename, &e);
                            let f = UploadFlow {
                                step: UploadStep::Finished { result },
                                filename: self.filename,
                                path: self.path,
                                content_type: self.content_type,
                                auto_ingest: self.auto_ingest,
                                api_url: self.api_url,
                                client_progress_id: self.client_progress_id,
                            };
                            (f, None)
                        }
                    },
                }
            },
            _ => (self, None),
        }
    }
}

/// The error result of a transfer whose retries are exhausted.
fn exhausted_result(filename: &String, e: &String) -> (res: UploadResult)
    ensures
        error_result_wf(res, filename@, exhausted_msg(e@)),
{
    let mut msg = "Failed after 3 attempts: ".to_owned();
    msg.append(e.as_str());
    UploadResult {
        filename: filename.clone(),
        s3_key: String::new(),
        progress_id: None,
        status: UploadStatus::Error,
        error: Some(msg),
    }
}

/// The bucket named in the ingest trigger: the slot's own, or the
/// service's default bucket when the slot named none.
pub fn ingest_bucket(slot_bucket: &Option<String>) -> (b: String)
    ensures
        b@ == (match slot_bucket {
            Option::Some(s) => s@,
            Option::None => "exemem-user-data"@,
        }),
{
    match slot_bucket {
        Option::Some(s) => s.clone(),
        Option::None => "exemem-user-data".to_owned(),
    }
}

/// The counting permit pool that bounds how many transfers run at once.
pub struct PermitPool {
    pub limit: usize,
    pub in_use: usize,
}

impl PermitPool {
    /// No more permits are out than the pool was built with.
    pub open spec fn wf(self) -> bool {
        self.in_use <= self.limit
    }

    pub fn new(limit: usize) -> (p: PermitPool)
        ensures
            p.limit == limit,
            p.in_use == 0,
            p.wf(),
    {
        PermitPool { limit, in_use: 0 }
    }

    /// Take a permit if one is free.
    pub fn try_acquire(&mut self) -> (got: bool)
        requires
            old(self).wf(),
        ensures
            final(self).wf(),
            final(self).limit == old(self).limit,
            got == (old(self).in_use < old(self).limit),
            got ==> final(self).in_use == old(self).in_use + 1,
            !got ==> final(self).in_use == old(self).in_use,
    {
        if self.in_use < self.limit {
            self.in_use = self.in_use + 1;
            true
        } else {
            false
        }
    }

    /// Hand a permit back.
    pub fn release(&mut self)
        requires
            old(self).wf(),
            old(self).in_use > 0,
        ensures
            final(self).wf(),
            final(self).limit == old(self).limit,
            final(self).in_use == old(self).in_use - 1,
    {
        self.in_use = self.in_use - 1;
    }
}

/// Law: however a well-formed pool is used, the number of unreleased
/// permits never exceeds the configured limit.
pub proof fn lemma_permit_bound(p: PermitPool)
    requires
        p.wf(),
    ensures
        p.in_use <= p.limit,
{
}

/// Statuses after which polling stops.
pub open spec fn terminal_status(s: Seq<char>) -> bool {
    s == "completed"@ || s == "done"@ || s == "error"@ || s == "failed"@
}

/// Terminal statuses that mean the ingestion succeeded.
pub open spec fn done_status(s: Seq<char>) -> bool {
    s == "completed"@ || s == "done"@
}

/// Whether `s` is a status after which polling stops.
pub fn is_terminal_status(s: &str) -> (r: bool)
    ensures
        r == terminal_status(s@),
{
    eq_str(s, "completed") || eq_str(s, "done") || eq_str(s, "error") || eq_str(s, "failed")
}

/// Whether `s` is a terminal status that means success.
pub fn is_done_status(s: &str) -> (r: bool)
    ensures
        r == done_status(s@),
{
    eq_str(s, "completed") || eq_str(s, "done")
}

/// The endpoint one progress poll goes to.
pub fn progress_url(config: &AppConfig, progress_id: &str) -> (u: String)
    ensures
        u@ == spec_api_url(*config) + "/api/ingestion/progress/"@ + progress_id@,
{
    let mut u = config.api_url().to_owned();
    u.append("/api/ingestion/progress/");
    u.append(progress_id);
    u
}

} // verus!
