use webp_converter::converter::{
    file_display_name, image_output_path, is_image_file, resize_target, select_images, webp_dest,
    webp_dir_for, ConvertProgress, ConvertReport, ImageFailure,
};
use webp_converter::paths::PathStyle;
use webp_converter::scan::ScanEntry;

fn entry(path: &str, is_file: bool, size: Option<u64>, dest_exists: bool) -> ScanEntry {
    ScanEntry { path: path.to_string(), is_file, size, dest_exists }
}

#[test]
fn detects_image_extensions_case_insensitive() {
    for p in ["a.jpg", "b.JPEG", "c.Png", "d.gif", "e.BMP", "f.tiff", "g.tif"] {
        assert!(is_image_file(PathStyle::Unix, p), "{}", p);
    }
    for p in ["a.webp", "noext", ".png", "a.mp4", "a.jpg.txt"] {
        assert!(!is_image_file(PathStyle::Unix, p), "{}", p);
    }
}

#[test]
fn image_output_goes_to_webp_folder() {
    assert_eq!(image_output_path(PathStyle::Unix, "C:/photos/cat.JPG").unwrap(), "C:/photos/webp/cat.webp");
    assert_eq!(image_output_path(PathStyle::Unix, "cat.png").unwrap(), "webp/cat.webp");
    assert_eq!(image_output_path(PathStyle::Unix, "/a/b.c.png").unwrap(), "/a/webp/b.c.webp");
    assert!(image_output_path(PathStyle::Unix, "/").is_none());
    assert_eq!(webp_dest(PathStyle::Unix, "/pics", "/pics/x.gif"), "/pics/webp/x.webp");
    assert_eq!(webp_dest(PathStyle::Unix, "/pics/", "/pics/x.gif"), "/pics/webp/x.webp");
    assert_eq!(webp_dest(PathStyle::Unix, "d", "a/.."), "d/webp/.webp");
}

#[test]
fn webp_dir_next_to_file() {
    assert_eq!(webp_dir_for(PathStyle::Unix, "/a/b/c.png").unwrap(), "/a/b/webp");
    assert_eq!(webp_dir_for(PathStyle::Unix, "c.png").unwrap(), "webp");
    assert!(webp_dir_for(PathStyle::Unix, "").is_none());
}

#[test]
fn display_name_of_paths() {
    assert_eq!(file_display_name(PathStyle::Unix, "/a/b/c.png"), "c.png");
    assert_eq!(file_display_name(PathStyle::Unix, "/"), "");
}

#[test]
fn selects_unconverted_images_recursively() {
    let entries = vec![
        entry("root", false, None, false),
        entry("root/a.png", true, Some(10), false),
        entry("root/b.JPG", true, Some(5), true),
        entry("root/webp/a.webp", true, Some(3), false),
        entry("root/webp/c.png", true, Some(3), false),
        entry("root/sub/c.gif", true, None, false),
        entry("root/sub/d.txt", true, Some(7), false),
        entry("root/sub/e.bmp", true, Some(1), false),
        entry("root/dir.png", false, Some(4), false),
    ];
    let r = select_images(PathStyle::Unix, "root", true, &entries).unwrap();
    assert_eq!(r.files, vec!["root/a.png", "root/sub/c.gif", "root/sub/e.bmp"]);
    assert_eq!(r.total_size, 11);
    assert_eq!(r.folder_count, 2);
}

#[test]
fn selects_unconverted_images_in_one_folder() {
    let entries = vec![
        entry("f/a.png", true, Some(10), false),
        entry("f/b.png", true, Some(20), true),
        entry("f/c.tif", true, Some(1), false),
        entry("f/webp", false, None, false),
    ];
    let r = select_images(PathStyle::Unix, "f", false, &entries).unwrap();
    assert_eq!(r.files, vec!["f/a.png", "f/c.tif"]);
    assert_eq!(r.total_size, 11);
    assert_eq!(r.folder_count, 1);
    let empty = select_images(PathStyle::Unix, "f", false, &vec![]).unwrap();
    assert!(empty.files.is_empty());
    assert_eq!(empty.folder_count, 0);
}

#[test]
fn image_scan_total_overflow_is_reported() {
    let entries = vec![
        entry("a.png", true, Some(u64::MAX), false),
        entry("b.png", true, Some(1), false),
    ];
    assert!(select_images(PathStyle::Unix, ".", false, &entries).is_none());
}

#[test]
fn progress_constructors() {
    let p = ConvertProgress::invalid_path("x".to_string());
    assert_eq!(p.status, "error");
    assert_eq!(p.error_message.as_deref(), Some("Invalid path"));
    let p = ConvertProgress::skipped("x".to_string());
    assert_eq!(p.status, "skip");
    assert!(p.error_message.is_none());
    let p = ConvertProgress::failed("x".to_string(), 7, ImageFailure::CreateDir("denied".to_string()));
    assert_eq!(p.error_message.as_deref(), Some("Cannot create output dir: denied"));
    assert_eq!(p.size_before, 7);
    let p = ConvertProgress::failed("x".to_string(), 7, ImageFailure::Open("bad".to_string()));
    assert_eq!(p.error_message.as_deref(), Some("Cannot open image: bad"));
    let p = ConvertProgress::failed("x".to_string(), 7, ImageFailure::Write("full".to_string()));
    assert_eq!(p.error_message.as_deref(), Some("Cannot write WebP: full"));
    let p = ConvertProgress::converted("x".to_string(), 100, 30);
    assert_eq!((p.status.as_str(), p.size_before, p.size_after), ("ok", 100, 30));
}

#[test]
fn report_counts_each_outcome_once() {
    let mut r = ConvertReport::new();
    r.record(PathStyle::Unix, &ConvertProgress::skipped("a".to_string()), "/d/a.png");
    r.record(PathStyle::Unix, &ConvertProgress::converted("b".to_string(), 100, 40), "/d/b.png");
    r.record(PathStyle::Unix, &ConvertProgress::invalid_path("c".to_string()), "c");
    r.record(PathStyle::Unix, &ConvertProgress::converted("e".to_string(), 50, 10), "/other/e.png");
    assert_eq!((r.converted, r.skipped, r.errors), (2, 1, 1));
    assert_eq!((r.total_size_before, r.total_size_after), (150, 50));
    assert_eq!(r.first_output_dir.as_deref(), Some("/d/webp"));
}

#[test]
fn resize_caps_width_keeping_ratio() {
    assert_eq!(resize_target(1920, 1080, 1920), None);
    assert_eq!(resize_target(800, 600, 1920), None);
    assert_eq!(resize_target(4000, 3000, 1920), Some((1920, 1440)));
    assert_eq!(resize_target(3000, 1001, 1000), Some((1000, 333)));
    assert_eq!(resize_target(10000, 1, 10), Some((10, 0)));
    assert_eq!(resize_target(u32::MAX, u32::MAX, u32::MAX - 1), Some((u32::MAX - 1, u32::MAX - 1)));
}

use webp_converter::image_job::{ImageAction, ImageJob, ImageStage};

#[test]
fn image_job_converts() {
    let mut job = ImageJob::new(PathStyle::Unix, "/pics/cat.PNG");
    match job.next_action() {
        ImageAction::CheckExists { dest } => assert_eq!(dest, "/pics/webp/cat.webp"),
        _ => panic!("expected a check"),
    }
    job.on_checked(false);
    match job.next_action() {
        ImageAction::Prepare { dir } => assert_eq!(dir, "/pics/webp"),
        _ => panic!("expected preparation"),
    }
    job.on_prepared(1000, None);
    match job.next_action() {
        ImageAction::Convert { dest } => assert_eq!(dest, "/pics/webp/cat.webp"),
        _ => panic!("expected conversion"),
    }
    job.on_converted(Ok(300));
    assert_eq!(job.stage(), ImageStage::Done);
    let p = job.outcome().unwrap();
    assert_eq!((p.file_name.as_str(), p.status.as_str(), p.size_before, p.size_after), ("cat.PNG", "ok", 1000, 300));
}

#[test]
fn image_job_outcomes() {
    let job = ImageJob::new(PathStyle::Unix, "/");
    assert!(matches!(job.next_action(), ImageAction::Finish));
    assert_eq!(job.outcome().unwrap().error_message.as_deref(), Some("Invalid path"));

    let mut job = ImageJob::new(PathStyle::Unix, "a.jpg");
    job.on_checked(true);
    assert_eq!(job.outcome().unwrap().status, "skip");

    let mut job = ImageJob::new(PathStyle::Unix, "a.jpg");
    job.on_checked(false);
    job.on_prepared(5, Some("read-only".to_string()));
    let p = job.outcome().unwrap();
    assert_eq!(p.error_message.as_deref(), Some("Cannot create output dir: read-only"));
    assert_eq!(p.size_before, 5);

    let mut job = ImageJob::new(PathStyle::Unix, "a.jpg");
    job.on_checked(false);
    job.on_prepared(5, None);
    job.on_converted(Err(ImageFailure::Open("truncated".to_string())));
    assert_eq!(job.outcome().unwrap().error_message.as_deref(), Some("Cannot open image: truncated"));

    let mut job = ImageJob::new(PathStyle::Unix, "a.jpg");
    job.on_converted(Ok(1));
    assert_eq!(job.stage(), ImageStage::Checking);
}

#[test]
fn image_job_outcomes_follow_one_shape() {
    let mut outcomes = Vec::new();
    outcomes.push(ImageJob::new(PathStyle::Unix, "/").outcome().unwrap());
    let mut job = ImageJob::new(PathStyle::Unix, "d/a.png");
    job.on_checked(true);
    outcomes.push(job.outcome().unwrap());
    let mut job = ImageJob::new(PathStyle::Unix, "d/a.png");
    job.on_checked(false);
    job.on_prepared(9, Some("denied".to_string()));
    outcomes.push(job.outcome().unwrap());
    let mut job = ImageJob::new(PathStyle::Unix, "d/a.png");
    job.on_checked(false);
    job.on_prepared(9, None);
    job.on_converted(Ok(4));
    outcomes.push(job.outcome().unwrap());
    for p in &outcomes {
        assert_eq!((p.current, p.total), (0, 0));
        assert!(["ok", "skip", "error"].contains(&p.status.as_str()));
        assert_eq!(p.error_message.is_some(), p.status == "error");
        if p.status != "ok" {
            assert_eq!(p.size_after, 0);
        }
    }
    assert_eq!(outcomes[3].file_name, "a.png");
    assert_eq!(outcomes[3].size_after, 4);
}

#[test]
fn windows_image_paths() {
    let w = PathStyle::Windows;
    assert_eq!(image_output_path(w, r"C:\photos\cat.JPG").unwrap(), r"C:\photos\webp\cat.webp");
    assert_eq!(image_output_path(w, r"C:\cat.png").unwrap(), r"C:\webp\cat.webp");
    assert_eq!(webp_dir_for(w, r"C:\photos\cat.JPG").unwrap(), r"C:\photos\webp");
    assert_eq!(file_display_name(w, r"C:\photos\cat.JPG"), "cat.JPG");
    assert!(is_image_file(w, r"C:\photos\cat.JPG"));
    assert!(!is_image_file(w, r"C:\photos.png\cat"));
    let entries = vec![
        entry(r"C:\root\a.png", true, Some(10), false),
        entry(r"C:\root\webp\a.png", true, Some(3), false),
        entry(r"C:\root\sub\b.png", true, Some(2), false),
        entry(r"C:\root\sub/webp/c.png", true, Some(2), false),
    ];
    let r = select_images(w, r"C:\root", true, &entries).unwrap();
    assert_eq!(r.files, vec![r"C:\root\a.png", r"C:\root\sub\b.png"]);
    assert_eq!(r.folder_count, 2);
    let mut rep = ConvertReport::new();
    rep.record(w, &ConvertProgress::converted("a".to_string(), 1, 1), r"C:\root\a.png");
    assert_eq!(rep.first_output_dir.as_deref(), Some(r"C:\root\webp"));
}
