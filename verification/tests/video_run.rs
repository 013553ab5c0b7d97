use webp_converter::paths::PathStyle;
use webp_converter::scan::ScanEntry;
use webp_converter::video::{select_videos, VideoFormat};
use webp_converter::video_run::{LaunchOutcome, VideoAction, VideoRun, VideoStage};

#[test]
fn scan_skips_already_converted_videos() {
    let entries = vec![
        ScanEntry { path: "d/a.mp4".to_string(), is_file: true, size: Some(1), dest_exists: true },
        ScanEntry { path: "d/b.mov".to_string(), is_file: true, size: Some(2), dest_exists: false },
        ScanEntry { path: "d/web".to_string(), is_file: false, size: None, dest_exists: false },
    ];
    let res = select_videos(PathStyle::Unix, "d", false, VideoFormat::Mp4, &entries).unwrap();
    assert_eq!(res.files, vec!["d/b.mov"]);
    assert_eq!(res.total_size, 2);
    assert_eq!(res.folder_count, 1);
}

#[test]
fn recursive_video_scan_skips_web_folders() {
    let entries = vec![
        ScanEntry { path: "d/a.mp4".to_string(), is_file: true, size: Some(1), dest_exists: false },
        ScanEntry { path: "d/web/a.mp4".to_string(), is_file: true, size: Some(2), dest_exists: false },
        ScanEntry { path: "d/x/c.MKV".to_string(), is_file: true, size: Some(4), dest_exists: false },
        ScanEntry { path: "d/x/web.avi".to_string(), is_file: true, size: Some(8), dest_exists: false },
        ScanEntry { path: "d/x/n.txt".to_string(), is_file: true, size: Some(16), dest_exists: false },
    ];
    let res = select_videos(PathStyle::Unix, "d", true, VideoFormat::Webm, &entries).unwrap();
    assert_eq!(res.files, vec!["d/a.mp4", "d/x/c.MKV", "d/x/web.avi"]);
    assert_eq!(res.total_size, 13);
    assert_eq!(res.folder_count, 2);
}

fn expect_check(run: &VideoRun) {
    assert!(matches!(run.next_action(), VideoAction::CheckCancel));
}

#[test]
fn run_converts_skips_and_fails() {
    let files = vec!["v/a.mov".to_string(), "v/b.mp4".to_string(), "v/c.avi".to_string()];
    let mut run = VideoRun::new(PathStyle::Unix, files, VideoFormat::Mp4, 80, 1080, false);
    // File 1: converted.
    expect_check(&run);
    run.on_next(false);
    match run.next_action() {
        VideoAction::Inspect { input, dest } => {
            assert_eq!(input, "v/a.mov");
            assert_eq!(dest.as_deref(), Some("v/web/a.mp4"));
        }
        _ => panic!("expected inspection"),
    }
    run.on_inspected(1000, false);
    match run.next_action() {
        VideoAction::CreateDir { dir } => assert_eq!(dir, "v/web"),
        _ => panic!("expected folder creation"),
    }
    run.on_dir_created(None);
    match run.next_action() {
        VideoAction::Launch { args } => {
            assert_eq!(args[4], "v/a.mov");
            assert_eq!(args.last().unwrap(), "v/web/a.mp4");
            assert!(args.windows(2).any(|w| w[0] == "-crf" && w[1] == "21"));
        }
        _ => panic!("expected launch"),
    }
    let step = run.on_launched(LaunchOutcome::Started { cancelled: false });
    let p = step.emit.unwrap();
    assert_eq!((p.current, p.total, p.status.as_str(), p.file_percent), (1, 3, "encoding", 0));
    assert!(matches!(run.next_action(), VideoAction::Watch));
    assert!(run.on_percent(0).emit.is_none());
    assert_eq!(run.on_percent(42).emit.unwrap().file_percent, 42);
    assert!(run.on_percent(42).emit.is_none());
    run.on_stderr_line("some line".to_string());
    let step = run.on_exited(false, true, 400);
    let p = step.emit.unwrap();
    assert_eq!((p.status.as_str(), p.file_percent, p.size_before, p.size_after), ("ok", 100, 1000, 400));
    assert_eq!(p.file_name, "a.mov");
    assert!(step.remove.is_none());
    // File 2: already converted.
    expect_check(&run);
    run.on_next(false);
    let p = run.on_inspected(5, true).emit.unwrap();
    assert_eq!((p.current, p.status.as_str(), p.file_percent), (2, "skip", 100));
    // File 3: FFmpeg fails; its last non-blank line is the message.
    run.on_next(false);
    run.on_inspected(7, false);
    run.on_dir_created(None);
    run.on_launched(LaunchOutcome::Started { cancelled: false });
    for l in ["first", "Invalid data found", "   "] {
        run.on_stderr_line(l.to_string());
    }
    let step = run.on_exited(false, false, 0);
    let p = step.emit.unwrap();
    assert_eq!(p.status, "error");
    assert_eq!(p.error_message.as_deref(), Some("Invalid data found"));
    assert_eq!(step.remove.as_deref(), Some("v/web/c.mp4"));
    assert_eq!(run.stage(), VideoStage::Done);
    assert!(matches!(run.next_action(), VideoAction::Finish));
    let r = run.report();
    assert_eq!((r.converted, r.skipped, r.errors, r.cancelled), (1, 1, 1, false));
    assert_eq!((r.total_size_before, r.total_size_after), (1000, 400));
    assert_eq!(r.first_output_dir.as_deref(), Some("v/web"));
}

#[test]
fn run_failures_before_encoding() {
    let files = vec!["/".to_string(), "a.mp4".to_string(), "b.mp4".to_string(), "c.mp4".to_string()];
    let mut run = VideoRun::new(PathStyle::Unix, files, VideoFormat::Webm, 50, 720, true);
    run.on_next(false);
    let p = run.on_inspected(0, false).emit.unwrap();
    assert_eq!(p.error_message.as_deref(), Some("Invalid path"));
    run.on_next(false);
    run.on_inspected(3, false);
    let p = run.on_dir_created(Some("denied".to_string())).emit.unwrap();
    assert_eq!(p.error_message.as_deref(), Some("Cannot create output dir: denied"));
    assert_eq!(p.size_before, 3);
    run.on_next(false);
    run.on_inspected(3, false);
    run.on_dir_created(None);
    let p = run.on_launched(LaunchOutcome::Unavailable("no sidecar".to_string())).emit.unwrap();
    assert_eq!(p.error_message.as_deref(), Some("ffmpeg not available: no sidecar"));
    run.on_next(false);
    run.on_inspected(3, false);
    run.on_dir_created(None);
    let p = run.on_launched(LaunchOutcome::SpawnFailed("busy".to_string())).emit.unwrap();
    assert_eq!(p.error_message.as_deref(), Some("ffmpeg spawn failed: busy"));
    assert_eq!(run.stage(), VideoStage::Done);
    assert_eq!(run.report().errors, 4);
}

#[test]
fn run_cancellation() {
    let files = vec!["a.mp4".to_string(), "b.mp4".to_string()];
    let mut run = VideoRun::new(PathStyle::Unix, files.clone(), VideoFormat::Mp4, 80, 1080, false);
    run.on_next(true);
    assert_eq!(run.stage(), VideoStage::Done);
    assert!(run.report().cancelled);

    let mut run = VideoRun::new(PathStyle::Unix, files.clone(), VideoFormat::Mp4, 80, 1080, false);
    run.on_next(false);
    run.on_inspected(1, false);
    run.on_dir_created(None);
    let step = run.on_launched(LaunchOutcome::Started { cancelled: true });
    assert!(step.kill);
    assert!(run.report().cancelled);

    let mut run = VideoRun::new(PathStyle::Unix, files, VideoFormat::Mp4, 80, 1080, false);
    run.on_next(false);
    run.on_inspected(1, false);
    run.on_dir_created(None);
    run.on_launched(LaunchOutcome::Started { cancelled: false });
    let step = run.on_exited(true, false, 0);
    assert_eq!(step.remove.as_deref(), Some("web/a.mp4"));
    assert!(step.emit.is_none());
    assert_eq!(run.stage(), VideoStage::Done);
    let r = run.report();
    assert!(r.cancelled);
    assert_eq!(r.converted + r.skipped + r.errors, 0);
}

#[test]
fn run_tail_keeps_last_twelve_lines() {
    let mut run = VideoRun::new(PathStyle::Unix, vec!["a.mp4".to_string()], VideoFormat::Mp4, 80, 1080, false);
    run.on_next(false);
    run.on_inspected(1, false);
    run.on_dir_created(None);
    run.on_launched(LaunchOutcome::Started { cancelled: false });
    for i in 0..20 {
        run.on_stderr_line(format!("line {}", i));
    }
    for _ in 0..12 {
        run.on_stderr_line(" ".to_string());
    }
    let p = run.on_exited(false, false, 0).emit.unwrap();
    assert_eq!(p.error_message.as_deref(), Some("ffmpeg failed"));
}

#[test]
fn run_ignores_events_out_of_turn() {
    let mut run = VideoRun::new(PathStyle::Unix, vec!["a.mp4".to_string()], VideoFormat::Mp4, 80, 1080, false);
    assert!(run.on_exited(false, true, 5).emit.is_none());
    assert!(run.on_inspected(1, true).emit.is_none());
    assert_eq!(run.stage(), VideoStage::Next);
    assert_eq!(run.report().skipped, 0);
    let empty = VideoRun::new(PathStyle::Unix, vec![], VideoFormat::Mp4, 80, 1080, false);
    assert_eq!(empty.stage(), VideoStage::Done);
}

#[test]
fn cancelled_run_stops_before_its_last_file() {
    let files = vec!["a.mp4".to_string(), "b.mp4".to_string()];
    let mut run = VideoRun::new(PathStyle::Unix, files, VideoFormat::Mp4, 80, 1080, false);
    run.on_next(false);
    run.on_inspected(1, true);
    run.on_next(true);
    assert_eq!(run.stage(), VideoStage::Done);
    let r = run.report();
    assert!(r.cancelled);
    assert_eq!(r.converted + r.skipped + r.errors, 1);
    assert!(r.converted + r.skipped + r.errors < 2);
}

#[test]
fn windows_video_scan_skips_web_folders() {
    let w = PathStyle::Windows;
    let entries = vec![
        ScanEntry { path: r"C:\v\a.mp4".to_string(), is_file: true, size: Some(4), dest_exists: false },
        ScanEntry { path: r"C:\v\web\a.mp4".to_string(), is_file: true, size: Some(4), dest_exists: false },
        ScanEntry { path: r"C:\v\b.mov".to_string(), is_file: true, size: Some(1), dest_exists: true },
    ];
    let r = select_videos(w, r"C:\v", true, VideoFormat::Mp4, &entries).unwrap();
    assert_eq!(r.files, vec![r"C:\v\a.mp4"]);
    assert_eq!(r.total_size, 4);
}
