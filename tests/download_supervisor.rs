use jara::registry::JobRegistry;
use jara::supervisor::{
    build_args, build_playlist_info_args, build_video_info_args, cancel_download, is_playlist,
    DownloadError, DownloadRequest, DownloadSession, ErrorCollector, JobOutcome, JobStatus,
    ProgressEvent, ReapOutcome,
};

fn request(audio_only: bool, format_id: Option<&str>, subs: bool, lang: Option<&str>) -> DownloadRequest {
    DownloadRequest {
        url: "https://example.com/watch?v=1".to_string(),
        format_id: format_id.map(String::from),
        output_path: "/home/me/Videos".to_string(),
        audio_only,
        download_subs: subs,
        sub_lang: lang.map(String::from),
    }
}

#[test]
fn audio_only_request_extracts_audio_without_selector() {
    let args = build_args(&request(true, None, false, None));
    assert_eq!(
        args,
        vec![
            "--newline", "--progress", "-o", "/home/me/Videos/%(title)s.%(ext)s", "-x",
            "--audio-format", "mp3", "--audio-quality", "0", "https://example.com/watch?v=1",
        ]
    );
    assert!(!args.iter().any(|a| a == "-f"));
}

#[test]
fn audio_only_ignores_format_selector() {
    let args = build_args(&request(true, Some("137"), false, None));
    assert!(!args.iter().any(|a| a == "-f"));
    assert!(args.iter().any(|a| a == "-x"));
}

#[test]
fn format_selector_is_passed() {
    let args = build_args(&request(false, Some("137+140"), false, None));
    assert_eq!(
        args,
        vec![
            "--newline", "--progress", "-o", "/home/me/Videos/%(title)s.%(ext)s", "-f", "137+140",
            "https://example.com/watch?v=1",
        ]
    );
}

#[test]
fn no_selector_leaves_default() {
    let args = build_args(&request(false, None, false, None));
    assert_eq!(args.len(), 5);
    assert_eq!(args[4], "https://example.com/watch?v=1");
}

#[test]
fn subtitles_default_languages() {
    let args = build_args(&request(false, None, true, None));
    assert_eq!(&args[4..], &["--write-subs", "--embed-subs", "--sub-lang", "pt,en", "https://example.com/watch?v=1"]);
}

#[test]
fn subtitles_given_language() {
    let args = build_args(&request(false, None, true, Some("de")));
    assert_eq!(&args[4..8], &["--write-subs", "--embed-subs", "--sub-lang", "de"]);
}

#[test]
fn metadata_arguments() {
    let v = build_video_info_args("u");
    assert_eq!(v, vec!["--dump-json", "--no-playlist", "--no-warnings", "--no-check-certificates", "--prefer-free-formats", "--socket-timeout", "10", "u"]);
    let p = build_playlist_info_args("u");
    assert_eq!(p, vec!["--flat-playlist", "--dump-json", "--no-warnings", "--no-check-certificates", "u"]);
}

#[test]
fn destination_then_progress_carries_filename() {
    let mut s = DownloadSession::new("job1".to_string());
    assert!(s.on_stdout_line("[download] Destination: movie.mp4").is_none());
    let e = s.on_stdout_line("[download]  12.5% of 10.00MiB at 1.00MiB/s ETA 00:09").unwrap();
    assert_eq!(e.download_id, "job1");
    assert_eq!(e.status, JobStatus::Downloading);
    assert_eq!(e.progress_centi, 1250);
    assert_eq!(e.filename.as_deref(), Some("movie.mp4"));
    assert_eq!(e.speed.as_deref(), Some("1.00MiB/s"));
    assert_eq!(e.eta.as_deref(), Some("00:09"));
}

#[test]
fn processing_event_uses_remembered_filename() {
    let mut s = DownloadSession::new("j".to_string());
    s.on_stdout_line("[download] Destination: a.webm");
    let e = s.on_stdout_line("[Merger] Merging formats into \"a.mkv\"").unwrap();
    assert_eq!(e.status, JobStatus::Processing);
    assert_eq!(e.progress_centi, 10000);
    assert_eq!(e.filename.as_deref(), Some("a.webm"));
    assert!(e.speed.is_none() && e.eta.is_none());
}

#[test]
fn successful_exit_completes_after_progress() {
    let mut s = DownloadSession::new("job".to_string());
    let mut events: Vec<ProgressEvent> = Vec::new();
    for p in ["10.0", "50.0", "99.9"] {
        let line = format!("[download] {}% of 1.00MiB at 1.00MiB/s ETA 00:01", p);
        events.extend(s.on_stdout_line(&line));
    }
    s.on_stdout_line("some unrelated line");
    let (event, result) = s.finish(ReapOutcome::Exited { success: true }, "");
    events.extend(event);
    assert!(matches!(result, Ok(JobOutcome::Completed)));
    assert_eq!(events.len(), 4);
    assert!(events[..3].iter().all(|e| e.status == JobStatus::Downloading));
    let last = &events[3];
    assert_eq!(last.status, JobStatus::Completed);
    assert_eq!(last.progress_centi, 10000);
    assert!(last.filename.is_none());
    assert_eq!(events.iter().filter(|e| e.status == JobStatus::Completed).count(), 1);
    assert!(s.finished);
}

#[test]
fn failed_exit_returns_error_lines() {
    let mut errors = ErrorCollector::new();
    errors.on_stderr_line("WARNING: slow");
    errors.on_stderr_line("ERROR: Video unavailable");
    errors.on_stderr_line("another note");
    assert_eq!(errors.text, "ERROR: Video unavailable\n");
    let mut s = DownloadSession::new("job".to_string());
    let (event, result) = s.finish(ReapOutcome::Exited { success: false }, &errors.text);
    assert!(event.is_none());
    match result {
        Err(DownloadError::DownloadFailed { diagnostics }) => {
            assert!(diagnostics.contains("ERROR: Video unavailable"))
        }
        _ => panic!("expected a failure"),
    }
}

#[test]
fn wait_failure_is_reported() {
    let mut s = DownloadSession::new("job".to_string());
    let (event, result) = s.finish(ReapOutcome::WaitFailed { message: "no child".to_string() }, "");
    assert!(event.is_none());
    assert!(matches!(result, Err(DownloadError::WaitFailed { message }) if message == "no child"));
}

#[test]
fn cancelled_job_gets_no_completion() {
    let mut s = DownloadSession::new("job".to_string());
    let (event, result) = s.finish(ReapOutcome::Cancelled, "");
    assert!(event.is_none());
    assert!(matches!(result, Ok(JobOutcome::Cancelled)));
}

#[test]
fn cancel_running_job_hands_over_handle() {
    let mut r: JobRegistry<u32> = JobRegistry::new();
    r.insert("job".to_string(), 9).ok();
    assert!(matches!(cancel_download(&mut r, "job"), Ok(9)));
    assert!(!r.contains("job"));
}

#[test]
fn cancel_after_completion_is_not_found() {
    let mut r: JobRegistry<u32> = JobRegistry::new();
    r.insert("job".to_string(), 9).ok();
    r.insert("other".to_string(), 4).ok();
    let mut s = DownloadSession::new("job".to_string());
    let handle = r.remove_and_take("job");
    assert_eq!(handle, Some(9));
    let (event, _) = s.finish(ReapOutcome::Exited { success: true }, "");
    let completed = event.unwrap();
    assert!(matches!(cancel_download(&mut r, "job"), Err(DownloadError::NotFound)));
    assert!(r.contains("other"));
    assert_eq!(completed.status, JobStatus::Completed);
    assert_eq!(completed.progress_centi, 10000);
}

#[test]
fn status_names() {
    assert_eq!(JobStatus::Downloading.as_str(), "downloading");
    assert_eq!(JobStatus::Processing.as_str(), "processing");
    assert_eq!(JobStatus::Completed.as_str(), "completed");
    assert_eq!(JobStatus::Failed.as_str(), "failed");
}

#[test]
fn playlist_urls() {
    assert!(is_playlist("https://www.youtube.com/playlist?list=PL1"));
    assert!(is_playlist("https://www.youtube.com/watch?v=1&list=PL1"));
    assert!(!is_playlist("https://www.youtube.com/watch?v=1"));
}
