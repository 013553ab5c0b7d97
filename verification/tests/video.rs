use webp_converter::paths::PathStyle;
use webp_converter::video::{is_video_file_in, output_path_in};
use webp_converter::video::{build_ffmpeg_args, is_video_file, output_path, quality_to_crf, VideoFormat};

#[test]
fn detects_video_extensions_case_insensitive() {
    assert!(is_video_file("a.mp4"));
    assert!(is_video_file("A.MOV"));
    assert!(is_video_file("clip.MKV"));
    assert!(!is_video_file("photo.jpg"));
    assert!(!is_video_file("noext"));
}

#[test]
fn derives_output_path_in_web_subdir() {
    let out = output_path("C:/clips/holiday.mov", VideoFormat::Mp4).unwrap();
    let s = out.replace('\\', "/");
    assert_eq!(s, "C:/clips/web/holiday.mp4");
}

#[test]
fn derives_webm_output_path() {
    let out = output_path("/videos/a.mp4", VideoFormat::Webm).unwrap();
    let s = out.replace('\\', "/");
    assert_eq!(s, "/videos/web/a.webm");
}

#[test]
fn maps_quality_to_h264_crf() {
    assert_eq!(quality_to_crf(100, VideoFormat::Mp4), 18);
    assert_eq!(quality_to_crf(80, VideoFormat::Mp4), 21);
    assert_eq!(quality_to_crf(50, VideoFormat::Mp4), 26);
    assert_eq!(quality_to_crf(1, VideoFormat::Mp4), 34);
}

#[test]
fn maps_quality_to_vp9_crf() {
    assert_eq!(quality_to_crf(100, VideoFormat::Webm), 24);
    assert_eq!(quality_to_crf(80, VideoFormat::Webm), 27);
    assert_eq!(quality_to_crf(50, VideoFormat::Webm), 32);
    assert_eq!(quality_to_crf(1, VideoFormat::Webm), 40);
}

#[test]
fn clamps_out_of_range_quality() {
    assert_eq!(quality_to_crf(0, VideoFormat::Mp4), 34); // clamps up to 1
    assert_eq!(quality_to_crf(200, VideoFormat::Mp4), 18); // clamps down to 100
}

#[test]
fn builds_h264_args_with_faststart_and_audio() {
    let args = build_ffmpeg_args("in.mov", "out.mp4", VideoFormat::Mp4, 21, 1080, false);
    assert!(args.contains(&"libx264".to_string()));
    assert!(args.windows(2).any(|w| w[0] == "-crf" && w[1] == "21"));
    assert!(args.windows(2).any(|w| w[0] == "-movflags" && w[1] == "+faststart"));
    assert!(args.windows(2).any(|w| w[0] == "-c:a" && w[1] == "aac"));
    assert!(args.contains(&"scale=-2:min(1080\\,ih)".to_string()));
    assert!(args.windows(2).any(|w| w[0] == "-progress" && w[1] == "pipe:1"));
    let i_in = args.iter().position(|a| a == "in.mov").unwrap();
    let i_out = args.iter().position(|a| a == "out.mp4").unwrap();
    assert!(i_in < i_out, "input must come before output");
}

#[test]
fn builds_vp9_args() {
    let args = build_ffmpeg_args("in.mp4", "out.webm", VideoFormat::Webm, 27, 720, false);
    assert!(args.contains(&"libvpx-vp9".to_string()));
    assert!(args.windows(2).any(|w| w[0] == "-b:v" && w[1] == "0"));
    assert!(args.windows(2).any(|w| w[0] == "-c:a" && w[1] == "libopus"));
    assert!(!args.contains(&"+faststart".to_string()));
    assert!(args.contains(&"scale=-2:min(720\\,ih)".to_string()));
}

#[test]
fn silent_uses_an_and_no_audio_codec() {
    let args = build_ffmpeg_args("in.mov", "out.mp4", VideoFormat::Mp4, 21, 1080, true);
    assert!(args.contains(&"-an".to_string()));
    assert!(!args.contains(&"aac".to_string()));
}

#[test]
fn h264_args_exact_vector() {
    let args = build_ffmpeg_args("in.mov", "out.mp4", VideoFormat::Mp4, 21, 1080, false);
    let expected = vec![
        "-hide_banner", "-nostats", "-y", "-i", "in.mov", "-c:v", "libx264", "-crf", "21",
        "-preset", "medium", "-pix_fmt", "yuv420p", "-vf", "scale=-2:min(1080\\,ih)", "-c:a",
        "aac", "-b:a", "128k", "-movflags", "+faststart", "-progress", "pipe:1", "out.mp4",
    ];
    assert_eq!(args, expected);
}

#[test]
fn vp9_silent_args_exact_vector() {
    let args = build_ffmpeg_args("a b.mkv", "web/a b.webm", VideoFormat::Webm, 0, 0, true);
    let expected = vec![
        "-hide_banner", "-nostats", "-y", "-i", "a b.mkv", "-c:v", "libvpx-vp9", "-crf", "0",
        "-b:v", "0", "-row-mt", "1", "-deadline", "good", "-cpu-used", "2", "-pix_fmt", "yuv420p",
        "-vf", "scale=-2:min(0\\,ih)", "-an", "-progress", "pipe:1", "web/a b.webm",
    ];
    assert_eq!(args, expected);
}

#[test]
fn args_render_large_numbers_in_decimal() {
    let args = build_ffmpeg_args("i", "o", VideoFormat::Mp4, 255, u32::MAX, false);
    assert!(args.windows(2).any(|w| w[0] == "-crf" && w[1] == "255"));
    assert!(args.contains(&"scale=-2:min(4294967295\\,ih)".to_string()));
}

#[test]
fn lenient_format_parse() {
    assert_eq!(VideoFormat::from_str_lenient("webm"), VideoFormat::Webm);
    assert_eq!(VideoFormat::from_str_lenient("WebM"), VideoFormat::Webm);
    assert_eq!(VideoFormat::from_str_lenient("mp4"), VideoFormat::Mp4);
    assert_eq!(VideoFormat::from_str_lenient(""), VideoFormat::Mp4);
    assert_eq!(VideoFormat::from_str_lenient("webm "), VideoFormat::Mp4);
    assert_eq!(VideoFormat::from_str_lenient("anything"), VideoFormat::Mp4);
}

#[test]
fn format_extension_round_trips() {
    for f in [VideoFormat::Mp4, VideoFormat::Webm] {
        assert_eq!(VideoFormat::from_str_lenient(f.extension()), f);
    }
    assert_eq!(VideoFormat::Mp4.extension(), "mp4");
    assert_eq!(VideoFormat::Webm.extension(), "webm");
}

#[test]
fn kelvin_sign_lowercases_to_k() {
    assert!(is_video_file("clip.m\u{212a}v"));
    assert!(!is_video_file("clip.m\u{212a}"));
}

#[test]
fn all_video_extensions_recognised() {
    for e in ["mp4", "mov", "avi", "mkv", "webm", "m4v", "flv", "wmv", "mpg", "mpeg", "m2ts", "3gp"] {
        assert!(is_video_file(&format!("x.{}", e)));
        assert!(is_video_file(&format!("x.{}", e.to_uppercase())));
    }
    assert!(!is_video_file(".mp4"));
    assert!(is_video_file("x.mp4/"), "a trailing slash still names x.mp4");
}

#[test]
fn crf_never_rises_with_quality() {
    for f in [VideoFormat::Mp4, VideoFormat::Webm] {
        let mut prev = quality_to_crf(0, f);
        for q in 0..=120u32 {
            let c = quality_to_crf(q, f);
            assert!(c <= prev);
            prev = c;
        }
    }
}

#[test]
fn crf_matches_rounded_formula() {
    for q in 1..=100u32 {
        let mp4 = (34.0f64 - q as f64 * 0.16).round().clamp(18.0, 34.0) as u8;
        let webm = (40.0f64 - q as f64 * 0.16).round().clamp(24.0, 40.0) as u8;
        assert_eq!(quality_to_crf(q, VideoFormat::Mp4), mp4);
        assert_eq!(quality_to_crf(q, VideoFormat::Webm), webm);
    }
}

#[test]
fn output_path_edge_cases() {
    assert_eq!(output_path("a.mp4", VideoFormat::Mp4).unwrap(), "web/a.mp4");
    assert_eq!(output_path("/a.mov", VideoFormat::Webm).unwrap(), "/web/a.webm");
    assert_eq!(output_path("./a.tar.mp4", VideoFormat::Mp4).unwrap(), "./web/a.tar.mp4");
    assert_eq!(output_path("dir//clip.avi/", VideoFormat::Mp4).unwrap(), "dir/web/clip.mp4");
    assert!(output_path("/", VideoFormat::Mp4).is_none());
    assert!(output_path("", VideoFormat::Mp4).is_none());
    assert!(output_path("a/..", VideoFormat::Mp4).is_none());
}

#[test]
fn output_is_never_the_source() {
    for src in ["web/a.mp4", "a.mp4", "/web/web/x.mov", "x", "./web/a.mp4"] {
        for f in [VideoFormat::Mp4, VideoFormat::Webm] {
            if let Some(o) = output_path(src, f) {
                assert_ne!(o, src);
            }
        }
    }
}

#[test]
fn sources_differing_in_extension_share_an_output() {
    for dir in ["/v", "", "/", "v/", "./v", "a/./b"] {
        let mov = output_path(&format!("{}{}clip.mov", dir, if dir.is_empty() || dir.ends_with('/') { "" } else { "/" }), VideoFormat::Mp4);
        let avi = output_path(&format!("{}{}clip.avi", dir, if dir.is_empty() || dir.ends_with('/') { "" } else { "/" }), VideoFormat::Mp4);
        assert!(mov.is_some());
        assert_eq!(mov, avi);
    }
    assert_eq!(output_path("/v/clip.mov", VideoFormat::Mp4).unwrap(), "/v/web/clip.mp4");
    assert_eq!(output_path("/v/clip.avi", VideoFormat::Mp4).unwrap(), "/v/web/clip.mp4");
    assert_eq!(output_path("/v/a.b.mkv", VideoFormat::Webm), output_path("/v/a.b.3gp", VideoFormat::Webm));
}

#[test]
fn windows_video_paths() {
    let w = PathStyle::Windows;
    assert_eq!(output_path_in(w, r"C:\clips\holiday.mov", VideoFormat::Mp4).unwrap(), r"C:\clips\web\holiday.mp4");
    assert_eq!(output_path_in(w, "C:/clips/holiday.mov", VideoFormat::Mp4).unwrap(), r"C:/clips\web\holiday.mp4");
    assert_eq!(output_path_in(w, r"C:\clip.avi", VideoFormat::Webm).unwrap(), r"C:\web\clip.webm");
    assert!(output_path_in(w, r"C:\", VideoFormat::Mp4).is_none());
    assert_eq!(output_path_in(w, r"C:\v\clip.mov", VideoFormat::Mp4), output_path_in(w, r"C:\v\clip.avi", VideoFormat::Mp4));
    assert!(is_video_file_in(w, r"C:\v\CLIP.MKV"));
    assert!(!is_video_file_in(w, r"C:\v.mp4\clip"));
}
