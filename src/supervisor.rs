//! Decisions of the download supervisor: the downloader's argument list, the
//! per-job reading of its output, the outcome once the process is reaped,
//! and cancellation.  Spawning, reading streams, waiting and killing are
//! left to the caller, which hands the results back here.
use vstd::prelude::*;
use vstd::string::*;
use crate::progress::{classify_line, line_class, words_of, LineClass, LineKind, FULL_PROGRESS};
use crate::registry::{take_result, JobRegistry};
use crate::text::{occurs_at, contains_seq, contains_text, push_string, push_text, string_views};

verus! {

/// What the caller asks to download.
pub struct DownloadRequest {
    pub url: String,
    pub format_id: Option<String>,
    pub output_path: String,
    pub audio_only: bool,
    pub download_subs: bool,
    pub sub_lang: Option<String>,
}

pub const OUTPUT_TEMPLATE: &'static str = "/%(title)s.%(ext)s";

pub const DEFAULT_SUB_LANGS: &'static str = "pt,en";

pub const ERROR_MARKER: &'static str = "ERROR";

/// The view of an optional string.
pub open spec fn opt_view(o: Option<String>) -> Option<Seq<char>> {
    match o {
        Some(s) => Some(s@),
        None => None,
    }
}

/// The output template: the output directory followed by `/%(title)s.%(ext)s`.
pub open spec fn output_template(output_path: Seq<char>) -> Seq<char> {
    output_path + OUTPUT_TEMPLATE@
}

/// The format part: audio extraction to mp3 at best quality, or an explicit
/// format selector, or nothing.
pub open spec fn format_args(audio_only: bool, format_id: Option<Seq<char>>) -> Seq<Seq<char>> {
    if audio_only {
        seq!["-x"@, "--audio-format"@, "mp3"@, "--audio-quality"@, "0"@]
    } else {
        match format_id {
            Some(f) => seq!["-f"@, f],
            None => Seq::empty(),
        }
    }
}

/// The subtitle part, with the default languages when none is given.
pub open spec fn subtitle_args(download_subs: bool, sub_lang: Option<Seq<char>>) -> Seq<Seq<char>> {
    if download_subs {
        seq!["--write-subs"@, "--embed-subs"@, "--sub-lang"@, match sub_lang {
            Some(l) => l,
            None => DEFAULT_SUB_LANGS@,
        }]
    } else {
        Seq::empty()
    }
}

/// The downloader's full argument list for a request; the URL comes last.
pub open spec fn request_args(req: DownloadRequest) -> Seq<Seq<char>> {
    seq!["--newline"@, "--progress"@, "-o"@, output_template(req.output_path@)] + format_args(
        req.audio_only,
        opt_view(req.format_id),
    ) + subtitle_args(req.download_subs, opt_view(req.sub_lang)) + seq![req.url@]
}

/// The argument list that runs the downloader for `req`.
pub fn build_args(req: &DownloadRequest) -> (r: Vec<String>)
    ensures
        string_views(r@) == request_args(*req),
{
    let mut args: Vec<String> = Vec::new();
    push_text(&mut args, "--newline");
    push_text(&mut args, "--progress");
    push_text(&mut args, "-o");
    let mut template = req.output_path.clone();
    template.append(OUTPUT_TEMPLATE);
    push_string(&mut args, template);
    let ghost head = string_views(args@);
    assert(head =~= seq!["--newline"@, "--progress"@, "-o"@, output_template(req.output_path@)]);
    if req.audio_only {
        push_text(&mut args, "-x");
        push_text(&mut args, "--audio-format");
        push_text(&mut args, "mp3");
        push_text(&mut args, "--audio-quality");
        push_text(&mut args, "0");
    } else {
        match &req.format_id {
            Some(f) => {
                push_text(&mut args, "-f");
                push_string(&mut args, f.clone());
            },
            None => {},
        }
    }
    let ghost mid = string_views(args@);
    assert(mid =~= head + format_args(req.audio_only, opt_view(req.format_id)));
    if req.download_subs {
        push_text(&mut args, "--write-subs");
        push_text(&mut args, "--embed-subs");
        push_text(&mut args, "--sub-lang");
        match &req.sub_lang {
            Some(l) => push_string(&mut args, l.clone()),
            None => push_text(&mut args, DEFAULT_SUB_LANGS),
        }
    }
    let ghost tail = string_views(args@);
    assert(tail =~= mid + subtitle_args(req.download_subs, opt_view(req.sub_lang)));
    push_string(&mut args, req.url.clone());
    assert(string_views(args@) =~= request_args(*req));
    args
}

/// The state of a job as its progress is reported.
#[derive(PartialEq, Eq, Structural, Clone, Copy, Debug)]
pub enum JobStatus {
    Downloading,
    Processing,
    Completed,
    Failed,
}

impl JobStatus {
    /// The status as the event sink names it.
    pub fn as_str(&self) -> (r: &'static str)
        ensures
            r@ == match self {
                JobStatus::Downloading => "downloading"@,
                JobStatus::Processing => "processing"@,
                JobStatus::Completed => "completed"@,
                JobStatus::Failed => "failed"@,
            },
    {
        match self {
            JobStatus::Downloading => "downloading",
            JobStatus::Processing => "processing",
            JobStatus::Completed => "completed",
            JobStatus::Failed => "failed",
        }
    }
}

/// One progress event of a job; progress is in hundredths of a percent.
pub struct ProgressEvent {
    pub download_id: String,
    pub status: JobStatus,
    pub progress_centi: u32,
    pub speed: Option<String>,
    pub eta: Option<String>,
    pub filename: Option<String>,
}

/// The event `e` carries exactly the given values.
pub open spec fn event_is(
    e: ProgressEvent,
    id: Seq<char>,
    status: JobStatus,
    centi: nat,
    speed: Option<Seq<char>>,
    eta: Option<Seq<char>>,
    filename: Option<Seq<char>>,
) -> bool {
    e.download_id@ == id && e.status == status && e.progress_centi as nat == centi && opt_view(e.speed)
        == speed && opt_view(e.eta) == eta && opt_view(e.filename) == filename
}

/// Why a download did not complete.
pub enum DownloadError {
    /// The downloader could not be started.
    SpawnFailed { message: String },
    /// Waiting for the downloader's exit failed.
    WaitFailed { message: String },
    /// The downloader exited with failure; its error lines are attached.
    DownloadFailed { diagnostics: String },
    /// No running job has the given identifier.
    NotFound,
}

/// How a job ended, when it ended without error.
#[derive(PartialEq, Eq, Structural, Clone, Copy, Debug)]
pub enum JobOutcome {
    Completed,
    Cancelled,
}

/// What the reaping path found once standard output closed.
pub enum ReapOutcome {
    /// The registry no longer held the job: a cancellation took it.
    Cancelled,
    /// The process was taken and exited, successfully or not.
    Exited { success: bool },
    /// The process was taken but waiting for it failed.
    WaitFailed { message: String },
}

/// The status of the event that a line of standard output gives, if any.
pub open spec fn line_status(l: Seq<char>) -> Option<JobStatus> {
    match line_class(l, words_of(l)) {
        LineClass::Progress { .. } => Some(JobStatus::Downloading),
        LineClass::Processing => Some(JobStatus::Processing),
        _ => None,
    }
}

/// The remembered file name after line `l`.
pub open spec fn next_filename(f: Option<Seq<char>>, l: Seq<char>) -> Option<Seq<char>> {
    match line_class(l, words_of(l)) {
        LineClass::Destination { filename } => Some(filename),
        _ => f,
    }
}

/// The statuses of the events that the lines `ls` give, in order.
pub open spec fn stdout_statuses(ls: Seq<Seq<char>>) -> Seq<JobStatus>
    decreases ls.len(),
{
    if ls.len() == 0 {
        Seq::empty()
    } else {
        let rest = stdout_statuses(ls.drop_last());
        match line_status(ls.last()) {
            Some(st) => rest.push(st),
            None => rest,
        }
    }
}

/// The statuses of all events of a job whose output was `ls` and whose
/// process then exited; a successful exit adds the completion.
pub open spec fn job_statuses(ls: Seq<Seq<char>>, success: bool) -> Seq<JobStatus> {
    if success {
        stdout_statuses(ls).push(JobStatus::Completed)
    } else {
        stdout_statuses(ls)
    }
}

/// A job whose standard output is `n` progress lines and whose process
/// then exits successfully gives `n` `downloading` events, one per line and
/// in their order, followed by exactly one `completed` event.
pub proof fn lemma_progress_then_completed(ls: Seq<Seq<char>>)
    requires
        forall|i: int| 0 <= i < ls.len() ==> line_class(#[trigger] ls[i], words_of(ls[i])) is Progress,
    ensures
        job_statuses(ls, true).len() == ls.len() + 1,
        forall|i: int| 0 <= i < ls.len() ==> job_statuses(ls, true)[i] == JobStatus::Downloading,
        job_statuses(ls, true).last() == JobStatus::Completed,
{
    lemma_progress_statuses(ls);
}

proof fn lemma_progress_statuses(ls: Seq<Seq<char>>)
    requires
        forall|i: int| 0 <= i < ls.len() ==> line_class(#[trigger] ls[i], words_of(ls[i])) is Progress,
    ensures
        stdout_statuses(ls) =~= Seq::new(ls.len(), |i: int| JobStatus::Downloading),
    decreases ls.len(),
{
    if ls.len() > 0 {
        let init = ls.drop_last();
        assert forall|i: int| 0 <= i < init.len() implies line_class(#[trigger] init[i], words_of(init[i])) is Progress by {
            assert(init[i] == ls[i]);
        }
        lemma_progress_statuses(init);
        assert(line_class(ls[ls.len() - 1], words_of(ls[ls.len() - 1])) is Progress);
    }
}

/// The reading of one job's standard output.
pub struct DownloadSession {
    pub download_id: String,
    pub current_filename: Option<String>,
    pub finished: bool,
}

impl DownloadSession {
    /// A session for job `download_id`, before any output.
    pub fn new(download_id: String) -> (r: Self)
        ensures
            r.download_id@ == download_id@,
            r.current_filename is None,
            !r.finished,
    {
        DownloadSession { download_id, current_filename: None, finished: false }
    }

    /// Feeds one line of standard output: a progress line gives a
    /// `downloading` event, a destination line changes the remembered file
    /// name, a post-processing line gives a `processing` event at full
    /// progress, and any other line is ignored.
    pub fn on_stdout_line(&mut self, line: &str) -> (r: Option<ProgressEvent>)
        requires
            !old(self).finished,
        ensures
            final(self).download_id@ == old(self).download_id@,
            !final(self).finished,
            match r {
                Some(e) => line_status(line@) == Some(e.status),
                None => line_status(line@) is None,
            },
            opt_view(final(self).current_filename) == next_filename(
                opt_view(old(self).current_filename),
                line@,
            ),
            match line_class(line@, words_of(line@)) {
                LineClass::Progress { centi, speed, eta } => r is Some && event_is(
                    r->0,
                    old(self).download_id@,
                    JobStatus::Downloading,
                    centi,
                    Some(speed),
                    Some(eta),
                    opt_view(old(self).current_filename),
                ) && opt_view(final(self).current_filename) == opt_view(old(self).current_filename),
                LineClass::Destination { filename } => r is None && opt_view(
                    final(self).current_filename,
                ) == Some(filename),
                LineClass::Processing => r is Some && event_is(
                    r->0,
                    old(self).download_id@,
                    JobStatus::Processing,
                    FULL_PROGRESS as nat,
                    None,
                    None,
                    opt_view(old(self).current_filename),
                ) && opt_view(final(self).current_filename) == opt_view(old(self).current_filename),
                LineClass::Other => r is None && opt_view(final(self).current_filename) == opt_view(
                    old(self).current_filename,
                ),
            },
    {
        match classify_line(line) {
            LineKind::Progress { percent_centi, speed, eta } => Some(
                ProgressEvent {
                    download_id: self.download_id.clone(),
                    status: JobStatus::Downloading,
                    progress_centi: percent_centi,
                    speed: Some(speed),
                    eta: Some(eta),
                    filename: self.current_filename.clone(),
                },
            ),
            LineKind::Destination { filename } => {
                self.current_filename = Some(filename);
                None
            },
            LineKind::Processing => Some(
                ProgressEvent {
                    download_id: self.download_id.clone(),
                    status: JobStatus::Processing,
                    progress_centi: FULL_PROGRESS,
                    speed: None,
                    eta: None,
                    filename: self.current_filename.clone(),
                },
            ),
            LineKind::Other => None,
        }
    }

    /// Ends the job once the process has been reaped, or found taken by a
    /// cancellation.  Only a successful exit gives an event: `completed` at
    /// full progress with no file name.  A failed exit returns the collected
    /// error lines; a cancellation returns `Cancelled` and no event.
    pub fn finish(&mut self, reap: ReapOutcome, error_output: &str) -> (r: (
        Option<ProgressEvent>,
        Result<JobOutcome, DownloadError>,
    ))
        requires
            !old(self).finished,
        ensures
            final(self).finished,
            final(self).download_id@ == old(self).download_id@,
            match reap {
                ReapOutcome::Cancelled => r.0 is None && r.1 == Ok::<JobOutcome, DownloadError>(
                    JobOutcome::Cancelled,
                ),
                ReapOutcome::Exited { success } => if success {
                    r.0 is Some && event_is(
                        r.0->0,
                        old(self).download_id@,
                        JobStatus::Completed,
                        FULL_PROGRESS as nat,
                        None,
                        None,
                        None,
                    ) && r.1 == Ok::<JobOutcome, DownloadError>(JobOutcome::Completed)
                } else {
                    r.0 is None && match r.1 {
                        Err(DownloadError::DownloadFailed { diagnostics }) => diagnostics@
                            == error_output@,
                        _ => false,
                    }
                },
                ReapOutcome::WaitFailed { message } => r.0 is None && match r.1 {
                    Err(DownloadError::WaitFailed { message: m }) => m@ == message@,
                    _ => false,
                },
            },
    {
        self.finished = true;
        match reap {
            ReapOutcome::Cancelled => (None, Ok(JobOutcome::Cancelled)),
            ReapOutcome::Exited { success } => {
                if success {
                    (
                        Some(
                            ProgressEvent {
                                download_id: self.download_id.clone(),
                                status: JobStatus::Completed,
                                progress_centi: FULL_PROGRESS,
                                speed: None,
                                eta: None,
                                filename: None,
                            },
                        ),
                        Ok(JobOutcome::Completed),
                    )
                } else {
                    (None, Err(DownloadError::DownloadFailed { diagnostics: error_output.to_owned() }))
                }
            },
            ReapOutcome::WaitFailed { message } => (
                None,
                Err(DownloadError::WaitFailed { message }),
            ),
        }
    }
}

/// The error lines of standard error that carry the error marker, each
/// followed by a newline.
pub struct ErrorCollector {
    pub text: String,
}

impl ErrorCollector {
    /// A collector that holds nothing yet.
    pub fn new() -> (r: Self)
        ensures
            r.text@ == Seq::<char>::empty(),
    {
        ErrorCollector { text: String::new() }
    }

    /// Feeds one line of standard error: kept, with a newline, when it
    /// holds the error marker.
    pub fn on_stderr_line(&mut self, line: &str)
        ensures
            contains_seq(line@, ERROR_MARKER@) ==> final(self).text@ == old(self).text@ + line@ + "\n"@,
            !contains_seq(line@, ERROR_MARKER@) ==> final(self).text@ == old(self).text@,
    {
        if contains_text(line, ERROR_MARKER) {
            self.text.append(line);
            self.text.append("\n");
        }
    }
}

/// Cancels job `id`: takes its handle out of the registry for the caller to
/// terminate, or fails with `NotFound` when no such job runs.
pub fn cancel_download<H>(registry: &mut JobRegistry<H>, id: &str) -> (r: Result<H, DownloadError>)
    requires
        old(registry).wf(),
    ensures
        final(registry).wf(),
        final(registry)@ == take_result(old(registry)@, id@).0,
        old(registry)@.contains_key(id@) ==> r == Ok::<H, DownloadError>(old(registry)@[id@]),
        !old(registry)@.contains_key(id@) ==> r is Err && r->Err_0 is NotFound,
{
    match registry.remove_and_take(id) {
        Some(h) => Ok(h),
        None => Err(DownloadError::NotFound),
    }
}

/// Once the reaping path has taken a job's handle, cancelling that job
/// finds nothing and leaves the registry as it is; it cannot reach the job
/// whose completion has already been reported.
pub proof fn lemma_cancel_after_reap<H>(m: Map<Seq<char>, H>, id: Seq<char>)
    ensures
        !take_result(m, id).0.contains_key(id),
        take_result(take_result(m, id).0, id).0 == take_result(m, id).0,
{
}

/// Whether a URL names a playlist.
pub fn is_playlist(url: &str) -> (r: bool)
    ensures
        r == (contains_seq(url@, "playlist"@) || contains_seq(url@, "list="@)),
{
    contains_text(url, "playlist") || contains_text(url, "list=")
}

/// The arguments that ask the downloader for a video's metadata.
pub open spec fn video_info_args(url: Seq<char>) -> Seq<Seq<char>> {
    seq![
        "--dump-json"@,
        "--no-playlist"@,
        "--no-warnings"@,
        "--no-check-certificates"@,
        "--prefer-free-formats"@,
        "--socket-timeout"@,
        "10"@,
        url,
    ]
}

/// The arguments that ask the downloader for a flat list of a playlist.
pub open spec fn playlist_info_args(url: Seq<char>) -> Seq<Seq<char>> {
    seq!["--flat-playlist"@, "--dump-json"@, "--no-warnings"@, "--no-check-certificates"@, url]
}

/// The argument list that fetches the metadata of the video at `url`.
pub fn build_video_info_args(url: &str) -> (r: Vec<String>)
    ensures
        string_views(r@) == video_info_args(url@),
{
    let mut args: Vec<String> = Vec::new();
    push_text(&mut args, "--dump-json");
    push_text(&mut args, "--no-playlist");
    push_text(&mut args, "--no-warnings");
    push_text(&mut args, "--no-check-certificates");
    push_text(&mut args, "--prefer-free-formats");
    push_text(&mut args, "--socket-timeout");
    push_text(&mut args, "10");
    push_text(&mut args, url);
    assert(string_views(args@) =~= video_info_args(url@));
    args
}

/// The argument list that fetches the entries of the playlist at `url`.
pub fn build_playlist_info_args(url: &str) -> (r: Vec<String>)
    ensures
        string_views(r@) == playlist_info_args(url@),
{
    let mut args: Vec<String> = Vec::new();
    push_text(&mut args, "--flat-playlist");
    push_text(&mut args, "--dump-json");
    push_text(&mut args, "--no-warnings");
    push_text(&mut args, "--no-check-certificates");
    push_text(&mut args, url);
    assert(string_views(args@) =~= playlist_info_args(url@));
    args
}

/// An audio-only request without a format selector puts the audio
/// extraction flags right after the output template and passes no `-f`
/// flag, provided neither its URL nor its subtitle language is itself `-f`.
pub proof fn lemma_audio_only_args(req: DownloadRequest)
    requires
        req.audio_only,
        req.format_id is None,
        req.url@ != "-f"@,
        match req.sub_lang {
            Some(l) => l@ != "-f"@,
            None => true,
        },
    ensures
        request_args(req).subrange(4, 9) == seq!["-x"@, "--audio-format"@, "mp3"@, "--audio-quality"@, "0"@],
        forall|i: int| 0 <= i < request_args(req).len() ==> request_args(req)[i] != "-f"@,
{
    reveal_strlit("-f");
    reveal_strlit("--newline");
    reveal_strlit("--progress");
    reveal_strlit("-o");
    reveal_strlit("/%(title)s.%(ext)s");
    reveal_strlit("-x");
    reveal_strlit("--audio-format");
    reveal_strlit("mp3");
    reveal_strlit("--audio-quality");
    reveal_strlit("0");
    reveal_strlit("--write-subs");
    reveal_strlit("--embed-subs");
    reveal_strlit("--sub-lang");
    reveal_strlit("pt,en");
    let a = request_args(req);
    assert(a.subrange(4, 9) =~= seq!["-x"@, "--audio-format"@, "mp3"@, "--audio-quality"@, "0"@]);
    assert(output_template(req.output_path@).len() > 2);
    assert forall|i: int| 0 <= i < a.len() implies a[i] != "-f"@ by {
        if a[i] == "-f"@ {
            assert(a[i].len() == 2 && a[i][1] == 'f');
        }
    }
}

/// Once a line that holds the error marker has been collected, the
/// collected text still holds that line whatever is collected after it;
/// a failed exit reports exactly that text.
pub proof fn lemma_error_line_kept(before: Seq<char>, line: Seq<char>, after: Seq<char>)
    ensures
        contains_seq(before + line + "\n"@ + after, line),
{
    let t = before + line + "\n"@ + after;
    assert(t.subrange(before.len() as int, before.len() + line.len() as int) =~= line);
    assert(occurs_at(t, line, before.len() as int));
}

} // verus!
