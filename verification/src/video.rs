//! Video side of the converter: which files are videos, where their web
//! versions go, how the quality slider maps to a constant-rate factor, the
//! FFmpeg command line, reading FFmpeg's output lines, and the bookkeeping
//! of a conversion run.
use vstd::prelude::*;
use crate::paths::{
    extension, file_name, file_stem, has_drive, is_sep, join, parent, path_extension, path_file_stem, path_join,
    path_parent, PathStyle,
};
use crate::text::{
    chars_of, decimal, decimal_string, find, find_char, find_first, index_of, lowercase,
    lowercase_among, lowercase_eq, matches_at, skip_ws_forward, string_of, trim, trim_bounds, trim_start,
};
use crate::paths::slice_range;
use crate::scan::{gather, has_segment, opt_views, path_has_segment, picks_summary, str_views, ScanEntry};

verus! {

/// Name of the folder, next to the source files, that receives converted videos.
pub const VIDEO_OUTPUT_DIR: &'static str = "web";

/// Output container and codec family.
#[derive(Debug, Clone, Copy, PartialEq, Eq, Structural)]
pub enum VideoFormat {
    /// MP4 with H.264 video and AAC audio.
    Mp4,
    /// WebM with VP9 video and Opus audio.
    Webm,
}

/// The file extensions (lowercase) recognised as videos.
pub const VIDEO_EXTENSIONS: [&'static str; 12] = [
    "mp4", "mov", "avi", "mkv", "webm", "m4v", "flv", "wmv", "mpg", "mpeg", "m2ts", "3gp",
];

/// The file extensions (lowercase) recognised as videos, as character sequences.
pub open spec fn video_extensions() -> Seq<Seq<char>> {
    crate::text::str_views(VIDEO_EXTENSIONS@)
}

/// An extension names a video when its lowercase is one of [`video_extensions`].
pub open spec fn is_video_ext(e: Seq<char>) -> bool {
    video_extensions().contains(lowercase(e))
}

/// A path names a video file when it has an extension naming a video.
pub open spec fn spec_is_video_file(style: PathStyle, path: Seq<char>) -> bool {
    match extension(style, path) {
        Some(e) => is_video_ext(e),
        None => false,
    }
}

impl VideoFormat {
    /// The file extension of the format.
    pub open spec fn ext(self) -> Seq<char> {
        match self {
            VideoFormat::Mp4 => "mp4"@,
            VideoFormat::Webm => "webm"@,
        }
    }

    /// Lenient parse: anything that isn't "webm" falls back to MP4.
    pub open spec fn parse_lenient(s: Seq<char>) -> VideoFormat {
        if lowercase(s) == "webm"@ {
            VideoFormat::Webm
        } else {
            VideoFormat::Mp4
        }
    }

    /// Lenient parse: `Webm` when `s` lowercases to `webm`; anything else
    /// falls back to `Mp4`.
    pub fn from_str_lenient(s: &str) -> (f: VideoFormat)
        ensures
            f == Self::parse_lenient(s@),
    {
        let c = chars_of(s);
        let w = chars_of("webm");
        if lowercase_eq(&c, 0, c.len(), &w) {
            assert(c@.subrange(0, c@.len() as int) =~= s@);
            VideoFormat::Webm
        } else {
            assert(c@.subrange(0, c@.len() as int) =~= s@);
            VideoFormat::Mp4
        }
    }

    /// The file extension of the format: `mp4` or `webm`.
    pub fn extension(&self) -> (e: &'static str)
        ensures
            e@ == self.ext(),
    {
        match self {
            VideoFormat::Mp4 => "mp4",
            VideoFormat::Webm => "webm",
        }
    }
}

/// Whether the extension `e` names a video (see [`is_video_ext`]).
pub fn is_video_extension(e: &str) -> (b: bool)
    ensures
        b == is_video_ext(e@),
{
    lowercase_among(e, &VIDEO_EXTENSIONS)
}

/// Whether `path` names a video file: its extension, lowercased, is one of
/// [`video_extensions`].
pub fn is_video_file_in(style: PathStyle, path: &str) -> (b: bool)
    ensures
        b == spec_is_video_file(style, path@),
{
    match path_extension(style, path) {
        Some(e) => is_video_extension(&e),
        None => false,
    }
}

/// Whether `path` names a video file, reading it as the platform at hand
/// does (see [`PathStyle::host`]): whichever of the two styles that is,
/// the answer is that of [`is_video_file_in`].
pub fn is_video_file(path: &str) -> (b: bool)
    ensures
        b == spec_is_video_file(PathStyle::Unix, path@) || b == spec_is_video_file(PathStyle::Windows, path@),
{
    is_video_file_in(PathStyle::host(), path)
}

/// Where the web version of the video `src` goes: a `web` folder next to it,
/// same stem, the format's extension.
pub open spec fn spec_output_path(style: PathStyle, src: Seq<char>, format: VideoFormat) -> Option<Seq<char>> {
    match (parent(style, src), file_stem(style, src)) {
        (Some(p), Some(stem)) => Some(
            join(style, join(style, p, VIDEO_OUTPUT_DIR@), stem + "."@ + format.ext()),
        ),
        _ => None,
    }
}

/// Where the web version of the video `src` goes: `<parent>/web/<stem>.<ext>`;
/// `None` when `src` has no parent or no file name.
pub fn output_path_in(style: PathStyle, src: &str, format: VideoFormat) -> (r: Option<String>)
    ensures
        r matches Some(o) ==> spec_output_path(style, src@, format) == Some(o@),
        r is None ==> spec_output_path(style, src@, format) is None,
{
    let p = match path_parent(style, src) {
        Some(p) => p,
        None => return None,
    };
    let stem = match path_file_stem(style, src) {
        Some(s) => s,
        None => return None,
    };
    let out_dir = path_join(style, p.as_str(), VIDEO_OUTPUT_DIR);
    let mut name = stem;
    name.append(".");
    name.append(format.extension());
    Some(path_join(style, out_dir.as_str(), name.as_str()))
}


/// Where the web version of the video `src` goes, reading it as the
/// platform at hand does (see [`PathStyle::host`]): whichever of the two
/// styles that is, the answer is that of [`output_path_in`].
pub fn output_path(src: &str, format: VideoFormat) -> (r: Option<String>)
    ensures
        ({
            let v = match r {
                Some(o) => Some(o@),
                None => None,
            };
            v == spec_output_path(PathStyle::Unix, src@, format) || v == spec_output_path(PathStyle::Windows, src@, format)
        }),
{
    output_path_in(PathStyle::host(), src, format)
}

/// The web version of a video does not depend on the video's extension:
/// two videos of one stem in one folder (say `clip.mov` and `clip.avi`) go
/// to the same `web/<stem>.<ext>`, whatever the folder, for any stem that
/// ends in a name (not empty, not ending in a separator, not a bare drive)
/// and extensions that are not empty and hold no `.` or separator.
pub proof fn lemma_output_ignores_extension(
    style: PathStyle,
    dir: Seq<char>,
    stem: Seq<char>,
    e1: Seq<char>,
    e2: Seq<char>,
    format: VideoFormat,
)
    requires
        crate::paths::needs_sep(style, stem),
        e1.len() > 0,
        e2.len() > 0,
        crate::paths::no_sep(style, e1),
        crate::paths::no_sep(style, e2),
        forall|j: int| 0 <= j < e1.len() ==> e1[j] != '.',
        forall|j: int| 0 <= j < e2.len() ==> e2[j] != '.',
    ensures
        spec_output_path(style, join(style, dir, stem.push('.') + e1), format) is Some,
        spec_output_path(style, join(style, dir, stem.push('.') + e1), format) == spec_output_path(
            style,
            join(style, dir, stem.push('.') + e2),
            format,
        ),
{
    crate::paths::lemma_join_other_extension(style, dir, stem, e1, e2);
}

/// The web version of a video lies in the `web` folder next to it, under the
/// video's stem and the format's extension, and is never the video itself
/// (for a stem that does not begin like a drive, as `C:` does).
pub proof fn lemma_output_beside_source(style: PathStyle, src: Seq<char>, format: VideoFormat)
    requires
        spec_output_path(style, src, format) is Some,
        !has_drive(style, file_stem(style, src)->0),
    ensures
        file_name(style, spec_output_path(style, src, format)->0) == Some(
            file_stem(style, src)->0 + "."@ + format.ext(),
        ),
        parent(style, spec_output_path(style, src, format)->0) == Some(
            join(style, parent(style, src)->0, VIDEO_OUTPUT_DIR@),
        ),
        spec_output_path(style, src, format)->0 != src,
{
    reveal_strlit("web");
    reveal_strlit(".");
    reveal_strlit("mp4");
    reveal_strlit("webm");
    let stem = file_stem(style, src)->0;
    let n = stem + "."@ + format.ext();
    crate::paths::lemma_file_stem_no_sep(style, src);
    assert(crate::paths::no_sep(style, n)) by {
        assert forall|k: int| 0 <= k < n.len() implies !is_sep(style, #[trigger] n[k]) by {
            if k < stem.len() {
                assert(n[k] == stem[k]);
            }
        }
    }
    assert(!has_drive(style, n)) by {
        if stem.len() >= 2 {
            assert(n[0] == stem[0] && n[1] == stem[1]);
        } else {
            assert(n[1] == '.');
        }
    }
    assert(n.len() > 2);
    crate::paths::lemma_output_in_subfolder(style, src, VIDEO_OUTPUT_DIR@, n);
}

/// The quality slider value brought into `1..=100`.
pub open spec fn clamp_quality(q: u32) -> int {
    if q < 1 {
        1
    } else if q > 100 {
        100
    } else {
        q as int
    }
}

/// CRF at quality 0 (the low end of the range) for the format.
pub open spec fn crf_ceiling(format: VideoFormat) -> int {
    match format {
        VideoFormat::Mp4 => 34,
        VideoFormat::Webm => 40,
    }
}

/// Lowest CRF (best quality) the format is allowed.
pub open spec fn crf_floor(format: VideoFormat) -> int {
    match format {
        VideoFormat::Mp4 => 18,
        VideoFormat::Webm => 24,
    }
}

/// `n / d` rounded to the nearest integer, halves away from zero (`n >= 0`).
pub open spec fn round_div(n: int, d: int) -> int {
    (2 * n + d) / (2 * d)
}

/// The CRF for a quality slider value: `ceiling - 0.16 * q` for the clamped
/// `q`, rounded to the nearest integer and kept within `[floor, ceiling]`.
pub open spec fn spec_crf(quality: u32, format: VideoFormat) -> int {
    let r = round_div(100 * crf_ceiling(format) - 16 * clamp_quality(quality), 100);
    if r < crf_floor(format) {
        crf_floor(format)
    } else if r > crf_ceiling(format) {
        crf_ceiling(format)
    } else {
        r
    }
}

/// Maps a 1..=100 quality slider to a codec CRF (lower CRF = higher quality).
/// H.264 visually-lossless ~18, web-good ~21-26.
/// VP9 web-good ~24-32.
pub fn quality_to_crf(quality: u32, format: VideoFormat) -> (crf: u8)
    ensures
        crf == spec_crf(quality, format),
        crf_floor(format) <= crf <= crf_ceiling(format),
        100 * crf - 50 <= 100 * crf_ceiling(format) - 16 * clamp_quality(quality) < 100 * crf + 50,
{
    let q: u32 = if quality < 1 {
        1
    } else if quality > 100 {
        100
    } else {
        quality
    };
    let (ceiling, floor): (u32, u32) = match format {
        VideoFormat::Mp4 => (34, 18),
        VideoFormat::Webm => (40, 24),
    };
    let r: u32 = (2 * (100 * ceiling - 16 * q) + 100) / 200;
    let c: u32 = if r < floor {
        floor
    } else if r > ceiling {
        ceiling
    } else {
        r
    };
    c as u8
}

/// A higher quality never gives a higher CRF (higher = better/larger).
pub proof fn lemma_crf_monotone(q1: u32, q2: u32, format: VideoFormat)
    requires
        q1 <= q2,
    ensures
        spec_crf(q2, format) <= spec_crf(q1, format),
{
    let n1 = 100 * crf_ceiling(format) - 16 * clamp_quality(q1);
    let n2 = 100 * crf_ceiling(format) - 16 * clamp_quality(q2);
    assert(n2 <= n1);
    assert((2 * n2 + 100) / 200 <= (2 * n1 + 100) / 200) by (nonlinear_arith)
        requires
            n2 <= n1,
    ;
}

/// Reading back the extension of a format gives the format.
pub proof fn lemma_format_round_trip(format: VideoFormat)
    ensures
        VideoFormat::parse_lenient(format.ext()) == format,
{
    reveal_strlit("mp4");
    reveal_strlit("webm");
    if format == VideoFormat::Mp4 {
        assert(lowercase("mp4"@).len() != "webm"@.len());
    } else {
        assert(lowercase("webm"@) =~= "webm"@);
    }
}

/// The scale filter that caps the height at `max_height`, keeps the width
/// even and never upscales: `scale=-2:min(<max_height>\,ih)`.
pub open spec fn scale_filter(max_height: u32) -> Seq<char> {
    "scale=-2:min("@ + decimal(max_height as nat) + "\\,ih)"@
}

/// Video codec options for the format.
pub open spec fn codec_args(format: VideoFormat, crf: u8) -> Seq<Seq<char>> {
    match format {
        VideoFormat::Mp4 => seq![
            "-c:v"@, "libx264"@, "-crf"@, decimal(crf as nat), "-preset"@, "medium"@,
            "-pix_fmt"@, "yuv420p"@,
        ],
        VideoFormat::Webm => seq![
            "-c:v"@, "libvpx-vp9"@, "-crf"@, decimal(crf as nat), "-b:v"@, "0"@, "-row-mt"@,
            "1"@, "-deadline"@, "good"@, "-cpu-used"@, "2"@, "-pix_fmt"@, "yuv420p"@,
        ],
    }
}

/// Audio options: none at all when silent, else the format's codec at 128k.
pub open spec fn audio_args(format: VideoFormat, silent: bool) -> Seq<Seq<char>> {
    if silent {
        seq!["-an"@]
    } else {
        match format {
            VideoFormat::Mp4 => seq!["-c:a"@, "aac"@, "-b:a"@, "128k"@],
            VideoFormat::Webm => seq!["-c:a"@, "libopus"@, "-b:a"@, "128k"@],
        }
    }
}

/// Container options: MP4 moves its index to the front for web playback.
pub open spec fn container_args(format: VideoFormat) -> Seq<Seq<char>> {
    match format {
        VideoFormat::Mp4 => seq!["-movflags"@, "+faststart"@],
        VideoFormat::Webm => Seq::empty(),
    }
}

/// The FFmpeg argument vector for one input and one output file.
pub open spec fn spec_ffmpeg_args(
    input: Seq<char>,
    output: Seq<char>,
    format: VideoFormat,
    crf: u8,
    max_height: u32,
    silent: bool,
) -> Seq<Seq<char>> {
    seq!["-hide_banner"@, "-nostats"@, "-y"@, "-i"@, input] + codec_args(format, crf) + seq![
        "-vf"@,
        scale_filter(max_height),
    ] + audio_args(format, silent) + container_args(format) + seq!["-progress"@, "pipe:1"@, output]
}

/// The words of the FFmpeg command line, told apart by their length and
/// first characters.
proof fn lemma_arg_words()
    ensures
        "+faststart"@.len() == 10 && "+faststart"@[0] == '+' && "+faststart"@[1] == 'f' && "+faststart"@[3] == 's',
        "-an"@.len() == 3 && "-an"@[0] == '-' && "-an"@[1] == 'a',
        "-b:v"@.len() == 4 && "-b:v"@[0] == '-' && "-b:v"@[1] == 'b' && "-b:v"@[3] == 'v',
        "-c:a"@.len() == 4 && "-c:a"@[0] == '-' && "-c:a"@[1] == 'c' && "-c:a"@[3] == 'a',
        "-c:v"@.len() == 4 && "-c:v"@[0] == '-' && "-c:v"@[1] == 'c' && "-c:v"@[3] == 'v',
        "-cpu-used"@.len() == 9 && "-cpu-used"@[0] == '-' && "-cpu-used"@[1] == 'c' && "-cpu-used"@[3] == 'u',
        "-crf"@.len() == 4 && "-crf"@[0] == '-' && "-crf"@[1] == 'c' && "-crf"@[3] == 'f',
        "-deadline"@.len() == 9 && "-deadline"@[0] == '-' && "-deadline"@[1] == 'd' && "-deadline"@[3] == 'a',
        "-pix_fmt"@.len() == 8 && "-pix_fmt"@[0] == '-' && "-pix_fmt"@[1] == 'p' && "-pix_fmt"@[3] == 'x',
        "-preset"@.len() == 7 && "-preset"@[0] == '-' && "-preset"@[1] == 'p' && "-preset"@[3] == 'e',
        "-row-mt"@.len() == 7 && "-row-mt"@[0] == '-' && "-row-mt"@[1] == 'r' && "-row-mt"@[3] == 'w',
        "0"@.len() == 1 && "0"@[0] == '0',
        "1"@.len() == 1 && "1"@[0] == '1',
        "2"@.len() == 1 && "2"@[0] == '2',
        "good"@.len() == 4 && "good"@[0] == 'g' && "good"@[1] == 'o' && "good"@[3] == 'd',
        "libvpx-vp9"@.len() == 10 && "libvpx-vp9"@[0] == 'l' && "libvpx-vp9"@[1] == 'i' && "libvpx-vp9"@[3] == 'v',
        "libx264"@.len() == 7 && "libx264"@[0] == 'l' && "libx264"@[1] == 'i' && "libx264"@[3] == 'x',
        "medium"@.len() == 6 && "medium"@[0] == 'm' && "medium"@[1] == 'e' && "medium"@[3] == 'i',
        "yuv420p"@.len() == 7 && "yuv420p"@[0] == 'y' && "yuv420p"@[1] == 'u' && "yuv420p"@[3] == '4',
        "-hide_banner"@.len() == 12 && "-hide_banner"@[0] == '-' && "-hide_banner"@[1] == 'h' && "-hide_banner"@[3] == 'd',
        "-nostats"@.len() == 8 && "-nostats"@[0] == '-' && "-nostats"@[1] == 'n' && "-nostats"@[3] == 's',
        "-y"@.len() == 2 && "-y"@[0] == '-' && "-y"@[1] == 'y',
        "-i"@.len() == 2 && "-i"@[0] == '-' && "-i"@[1] == 'i',
        "-vf"@.len() == 3 && "-vf"@[0] == '-' && "-vf"@[1] == 'v',
        "scale=-2:min("@.len() == 13 && "scale=-2:min("@[0] == 's' && "scale=-2:min("@[1] == 'c' && "scale=-2:min("@[3] == 'l',
        "aac"@.len() == 3 && "aac"@[0] == 'a' && "aac"@[1] == 'a',
        "libopus"@.len() == 7 && "libopus"@[0] == 'l' && "libopus"@[1] == 'i' && "libopus"@[3] == 'o',
        "-b:a"@.len() == 4 && "-b:a"@[0] == '-' && "-b:a"@[1] == 'b' && "-b:a"@[3] == 'a',
        "128k"@.len() == 4 && "128k"@[0] == '1' && "128k"@[1] == '2' && "128k"@[3] == 'k',
        "-movflags"@.len() == 9 && "-movflags"@[0] == '-' && "-movflags"@[1] == 'm' && "-movflags"@[3] == 'v',
        "-progress"@.len() == 9 && "-progress"@[0] == '-' && "-progress"@[1] == 'p' && "-progress"@[3] == 'o',
        "pipe:1"@.len() == 6 && "pipe:1"@[0] == 'p' && "pipe:1"@[1] == 'i' && "pipe:1"@[3] == 'e',
{
    reveal_strlit("+faststart");
    reveal_strlit("-an");
    reveal_strlit("-b:v");
    reveal_strlit("-c:a");
    reveal_strlit("-c:v");
    reveal_strlit("-cpu-used");
    reveal_strlit("-crf");
    reveal_strlit("-deadline");
    reveal_strlit("-pix_fmt");
    reveal_strlit("-preset");
    reveal_strlit("-row-mt");
    reveal_strlit("0");
    reveal_strlit("1");
    reveal_strlit("2");
    reveal_strlit("good");
    reveal_strlit("libvpx-vp9");
    reveal_strlit("libx264");
    reveal_strlit("medium");
    reveal_strlit("yuv420p");
    reveal_strlit("-hide_banner");
    reveal_strlit("-nostats");
    reveal_strlit("-y");
    reveal_strlit("-i");
    reveal_strlit("-vf");
    reveal_strlit("scale=-2:min(");
    reveal_strlit("aac");
    reveal_strlit("libopus");
    reveal_strlit("-b:a");
    reveal_strlit("128k");
    reveal_strlit("-movflags");
    reveal_strlit("-progress");
    reveal_strlit("pipe:1");
}

/// None of the video codec options is `-an`, `-c:a` or `+faststart`.
proof fn lemma_codec_words(format: VideoFormat, crf: u8)
    ensures
        forall|k: int| 0 <= k < codec_args(format, crf).len() ==> {
            let w = #[trigger] codec_args(format, crf)[k];
            w != "-an"@ && w != "-c:a"@ && w != "+faststart"@
        },
{
    lemma_arg_words();
    crate::text::lemma_decimal_digit_first(crf as nat);
    let c = codec_args(format, crf);
    assert forall|k: int| 0 <= k < c.len() implies c[k] != "-an"@ && c[k] != "-c:a"@ && c[k] != "+faststart"@ by {
        if k == 3 {
            assert(c[k] == decimal(crf as nat));
            assert(c[k][0] != "-an"@[0] && c[k][0] != "+faststart"@[0]);
        } else if format == VideoFormat::Mp4 {
            if k == 0 { assert(c[k] == "-c:v"@); }
            else if k == 1 { assert(c[k] == "libx264"@); }
            else if k == 2 { assert(c[k] == "-crf"@); }
            else if k == 4 { assert(c[k] == "-preset"@); }
            else if k == 5 { assert(c[k] == "medium"@); }
            else if k == 6 { assert(c[k] == "-pix_fmt"@); }
            else if k == 7 { assert(c[k] == "yuv420p"@); }
        } else {
            if k == 0 { assert(c[k] == "-c:v"@); }
            else if k == 1 { assert(c[k] == "libvpx-vp9"@); }
            else if k == 2 { assert(c[k] == "-crf"@); }
            else if k == 4 { assert(c[k] == "-b:v"@); }
            else if k == 5 { assert(c[k] == "0"@); }
            else if k == 6 { assert(c[k] == "-row-mt"@); }
            else if k == 7 { assert(c[k] == "1"@); }
            else if k == 8 { assert(c[k] == "-deadline"@); }
            else if k == 9 { assert(c[k] == "good"@); }
            else if k == 10 { assert(c[k] == "-cpu-used"@); }
            else if k == 11 { assert(c[k] == "2"@); }
            else if k == 12 { assert(c[k] == "-pix_fmt"@); }
            else if k == 13 { assert(c[k] == "yuv420p"@); }
        }
    }
}

/// The options of an argument vector: everything between the input file
/// (which follows `-i`) and the output file (which comes last).
pub open spec fn options(args: Seq<Seq<char>>) -> Seq<Seq<char>> {
    args.subrange(5, args.len() - 1)
}

/// Shape of the FFmpeg command line: the input follows `-i` and comes before
/// the output, which is the last argument; the video codec comes first among
/// the options, with the CRF after `-crf`; audio is dropped (`-an`) exactly
/// when silent, and otherwise given a codec with `-c:a`; only MP4 gets
/// `+faststart`; progress goes to `pipe:1`.
pub proof fn lemma_ffmpeg_args_shape(
    input: Seq<char>,
    output: Seq<char>,
    format: VideoFormat,
    crf: u8,
    max_height: u32,
    silent: bool,
)
    ensures
        ({
            let a = spec_ffmpeg_args(input, output, format, crf, max_height, silent);
            let o = options(a);
            &&& a.len() >= 16
            &&& a[3] == "-i"@ && a[4] == input
            &&& a.last() == output
            &&& a[5] == "-c:v"@ && a[7] == "-crf"@ && a[8] == decimal(crf as nat)
            &&& a[a.len() - 3] == "-progress"@ && a[a.len() - 2] == "pipe:1"@
            &&& o.contains("-an"@) <==> silent
            &&& o.contains("-c:a"@) <==> !silent
            &&& o.contains("+faststart"@) <==> format == VideoFormat::Mp4
            &&& o.contains(scale_filter(max_height))
        }),
{
    lemma_arg_words();
    crate::text::lemma_decimal_digit_first(crf as nat);
    let a = spec_ffmpeg_args(input, output, format, crf, max_height, silent);
    let o = options(a);
    let c = codec_args(format, crf);
    let sf = scale_filter(max_height);
    let au = audio_args(format, silent);
    let ct = container_args(format);
    assert(sf[0] == 's');
    assert(o =~= c + seq!["-vf"@, sf] + au + ct + seq!["-progress"@, "pipe:1"@]);
    let rest = c + seq!["-vf"@, sf] + ct + seq!["-progress"@, "pipe:1"@];
    // Which option words occur where.
    lemma_codec_words(format, crf);
    assert(sf != "-an"@ && sf != "-c:a"@ && sf != "+faststart"@) by {
        assert(sf[0] != "-an"@[0]);
        assert(sf[0] != "+faststart"@[0]);
    }
    assert forall|k: int| 0 <= k < au.len() implies au[k] != "+faststart"@ by {
        if silent {
            assert(au[k] == "-an"@);
        } else if format == VideoFormat::Mp4 {
            if k == 0 { assert(au[k] == "-c:a"@); } else if k == 1 { assert(au[k] == "aac"@); }
            else if k == 2 { assert(au[k] == "-b:a"@); } else { assert(au[k] == "128k"@); }
        } else {
            if k == 0 { assert(au[k] == "-c:a"@); } else if k == 1 { assert(au[k] == "libopus"@); }
            else if k == 2 { assert(au[k] == "-b:a"@); } else { assert(au[k] == "128k"@); }
        }
    }
    assert forall|k: int| 0 <= k < ct.len() implies ct[k] != "-an"@ && ct[k] != "-c:a"@ by {}
    if silent {
        assert(o[c.len() as int + 2] == "-an"@);
        assert(!o.contains("-c:a"@)) by {
            if o.contains("-c:a"@) {
                let k = choose|k: int| 0 <= k < o.len() && o[k] == "-c:a"@;
                if k < c.len() {
                    assert(o[k] == c[k]);
                }
            }
        }
    } else {
        assert(o[c.len() as int + 2] == "-c:a"@);
        assert(!o.contains("-an"@)) by {
            if o.contains("-an"@) {
                let k = choose|k: int| 0 <= k < o.len() && o[k] == "-an"@;
                if k < c.len() {
                    assert(o[k] == c[k]);
                } else if c.len() + 2 <= k < c.len() + 2 + au.len() {
                    assert(o[k] == au[k - c.len() - 2]);
                }
            }
        }
    }
    if format == VideoFormat::Mp4 {
        assert(o[(c.len() + au.len() + 3) as int] == "+faststart"@);
    } else {
        assert(!o.contains("+faststart"@)) by {
            if o.contains("+faststart"@) {
                let k = choose|k: int| 0 <= k < o.len() && o[k] == "+faststart"@;
                if k < c.len() {
                    assert(o[k] == c[k]);
                } else if c.len() + 2 <= k < c.len() + 2 + au.len() {
                    assert(o[k] == au[k - c.len() - 2]);
                }
            }
        }
    }
    assert(o[c.len() as int + 1] == sf);
}

/// Where `-b:v` and `-b:a` can stand among the video codec options: `-b:v`
/// only for WebM, fourth after the codec; `-b:a` never.
proof fn lemma_codec_bitrates(format: VideoFormat, crf: u8)
    ensures
        forall|k: int| 0 <= k < codec_args(format, crf).len() ==> {
            let w = #[trigger] codec_args(format, crf)[k];
            &&& w == "-b:v"@ ==> format == VideoFormat::Webm && k == 4
            &&& w != "-b:a"@
        },
        format == VideoFormat::Webm ==> codec_args(format, crf).len() == 14 && codec_args(format, crf)[4]
            == "-b:v"@ && codec_args(format, crf)[5] == "0"@,
{
    lemma_arg_words();
    crate::text::lemma_decimal_digit_first(crf as nat);
    let c = codec_args(format, crf);
    assert forall|k: int| 0 <= k < c.len() implies (c[k] == "-b:v"@ ==> format == VideoFormat::Webm && k == 4)
        && c[k] != "-b:a"@ by {
        if k == 3 {
            assert(c[k] == decimal(crf as nat));
            assert(c[k][0] != "-b:v"@[0]);
        } else if format == VideoFormat::Mp4 {
            if k == 0 { assert(c[k] == "-c:v"@); }
            else if k == 1 { assert(c[k] == "libx264"@); }
            else if k == 2 { assert(c[k] == "-crf"@); }
            else if k == 4 { assert(c[k] == "-preset"@); }
            else if k == 5 { assert(c[k] == "medium"@); }
            else if k == 6 { assert(c[k] == "-pix_fmt"@); }
            else if k == 7 { assert(c[k] == "yuv420p"@); }
        } else {
            if k == 0 { assert(c[k] == "-c:v"@); }
            else if k == 1 { assert(c[k] == "libvpx-vp9"@); }
            else if k == 2 { assert(c[k] == "-crf"@); }
            else if k == 4 { assert(c[k] == "-b:v"@); }
            else if k == 5 { assert(c[k] == "0"@); }
            else if k == 6 { assert(c[k] == "-row-mt"@); }
            else if k == 7 { assert(c[k] == "1"@); }
            else if k == 8 { assert(c[k] == "-deadline"@); }
            else if k == 9 { assert(c[k] == "good"@); }
            else if k == 10 { assert(c[k] == "-cpu-used"@); }
            else if k == 11 { assert(c[k] == "2"@); }
            else if k == 12 { assert(c[k] == "-pix_fmt"@); }
            else if k == 13 { assert(c[k] == "yuv420p"@); }
        }
    }
}

/// The bitrates FFmpeg is given: the video bitrate `-b:v` appears at most
/// once, only for WebM, and always as `-b:v 0` (constant quality); the
/// audio bitrate `-b:a` appears exactly when there is sound, at most once,
/// as `-c:a <codec> -b:a 128k` with AAC for MP4 and Opus for WebM.
pub proof fn lemma_ffmpeg_bitrates(
    input: Seq<char>,
    output: Seq<char>,
    format: VideoFormat,
    crf: u8,
    max_height: u32,
    silent: bool,
)
    ensures
        ({
            let o = options(spec_ffmpeg_args(input, output, format, crf, max_height, silent));
            &&& forall|i: int, j: int|
                0 <= i < o.len() && 0 <= j < o.len() && o[i] == "-b:v"@ && o[j] == "-b:v"@ ==> i == j
            &&& forall|i: int|
                0 <= i < o.len() && #[trigger] o[i] == "-b:v"@ ==> format == VideoFormat::Webm && i + 1 < o.len()
                    && o[i + 1] == "0"@
            &&& format == VideoFormat::Webm ==> o.contains("-b:v"@)
            &&& forall|i: int, j: int|
                0 <= i < o.len() && 0 <= j < o.len() && o[i] == "-b:a"@ && o[j] == "-b:a"@ ==> i == j
            &&& forall|i: int|
                0 <= i < o.len() && #[trigger] o[i] == "-b:a"@ ==> {
                    &&& !silent
                    &&& 2 <= i && i + 1 < o.len()
                    &&& o[i - 2] == "-c:a"@
                    &&& o[i - 1] == (if format == VideoFormat::Mp4 { "aac"@ } else { "libopus"@ })
                    &&& o[i + 1] == "128k"@
                }
            &&& !silent ==> o.contains("-b:a"@)
        }),
{
    lemma_arg_words();
    reveal_strlit("scale=-2:min(");
    lemma_codec_bitrates(format, crf);
    let a = spec_ffmpeg_args(input, output, format, crf, max_height, silent);
    let o = options(a);
    let c = codec_args(format, crf);
    let sf = scale_filter(max_height);
    let au = audio_args(format, silent);
    let ct = container_args(format);
    assert(sf[0] == 's');
    assert(o =~= c + seq!["-vf"@, sf] + au + ct + seq!["-progress"@, "pipe:1"@]);
    let cl = c.len() as int;
    let al = au.len() as int;
    let tl = ct.len() as int;
    assert(o.len() == cl + 2 + al + tl + 2);
    assert(sf != "-b:v"@ && sf != "-b:a"@) by {
        assert(sf[0] != "-b:v"@[0]);
    }
    // Where each of the two words stands in `o`.
    assert forall|i: int| 0 <= i < o.len() implies
        (o[i] == "-b:v"@ ==> format == VideoFormat::Webm && i == 4)
        && (o[i] == "-b:a"@ ==> !silent && i == cl + 4) by {
        if i < cl {
            assert(o[i] == c[i]);
        } else if i == cl {
            assert(o[i] == "-vf"@);
        } else if i == cl + 1 {
            assert(o[i] == sf);
        } else if i < cl + 2 + al {
            let k = i - cl - 2;
            assert(o[i] == au[k]);
            if silent {
                assert(au[k] == "-an"@);
            } else if format == VideoFormat::Mp4 {
                if k == 0 { assert(au[k] == "-c:a"@); } else if k == 1 { assert(au[k] == "aac"@); }
                else if k == 2 { assert(au[k] == "-b:a"@); } else { assert(au[k] == "128k"@); }
            } else {
                if k == 0 { assert(au[k] == "-c:a"@); } else if k == 1 { assert(au[k] == "libopus"@); }
                else if k == 2 { assert(au[k] == "-b:a"@); } else { assert(au[k] == "128k"@); }
            }
        } else if i < cl + 2 + al + tl {
            let k = i - cl - 2 - al;
            assert(o[i] == ct[k]);
            if k == 0 { assert(ct[k] == "-movflags"@); } else { assert(ct[k] == "+faststart"@); }
        } else if i == cl + 2 + al + tl {
            assert(o[i] == "-progress"@);
        } else {
            assert(o[i] == "pipe:1"@);
        }
    }
    if format == VideoFormat::Webm {
        assert(o[4] == c[4] && o[5] == c[5]);
    }
    if !silent {
        assert(o[cl + 2] == au[0] && o[cl + 3] == au[1] && o[cl + 4] == au[2] && o[cl + 5] == au[3]);
        assert(au[2] == "-b:a"@);
    }
}

fn push_arg(args: &mut Vec<String>, a: String)
    ensures
        str_views(final(args)@) == str_views(old(args)@).push(a@),
{
    let ghost a_view = a@;
    args.push(a);
    assert(str_views(args@) =~= str_views(old(args)@).push(a_view));
}

fn push_lit(args: &mut Vec<String>, a: &str)
    ensures
        str_views(final(args)@) == str_views(old(args)@).push(a@),
{
    push_arg(args, String::from_str(a));
}

/// Builds the FFmpeg argument vector for one input → one output file.
/// Args are passed to the sidecar as a single argv (no shell), so the comma
/// inside the scale `min()` expression is escaped with a backslash, which
/// ffmpeg's filtergraph parser turns back into a literal comma.
pub fn build_ffmpeg_args(
    input: &str,
    output: &str,
    format: VideoFormat,
    crf: u8,
    max_height: u32,
    silent: bool,
) -> (args: Vec<String>)
    ensures
        str_views(args@) == spec_ffmpeg_args(input@, output@, format, crf, max_height, silent),
{
    let mut args: Vec<String> = Vec::new();
    push_lit(&mut args, "-hide_banner");
    push_lit(&mut args, "-nostats");
    push_lit(&mut args, "-y");
    push_lit(&mut args, "-i");
    push_lit(&mut args, input);
    let ghost head = str_views(args@);
    match format {
        VideoFormat::Mp4 => {
            push_lit(&mut args, "-c:v");
            push_lit(&mut args, "libx264");
            push_lit(&mut args, "-crf");
            push_arg(&mut args, decimal_string(crf as u32));
            push_lit(&mut args, "-preset");
            push_lit(&mut args, "medium");
            push_lit(&mut args, "-pix_fmt");
            push_lit(&mut args, "yuv420p");
        },
        VideoFormat::Webm => {
            push_lit(&mut args, "-c:v");
            push_lit(&mut args, "libvpx-vp9");
            push_lit(&mut args, "-crf");
            push_arg(&mut args, decimal_string(crf as u32));
            push_lit(&mut args, "-b:v");
            push_lit(&mut args, "0");
            push_lit(&mut args, "-row-mt");
            push_lit(&mut args, "1");
            push_lit(&mut args, "-deadline");
            push_lit(&mut args, "good");
            push_lit(&mut args, "-cpu-used");
            push_lit(&mut args, "2");
            push_lit(&mut args, "-pix_fmt");
            push_lit(&mut args, "yuv420p");
        },
    }
    assert(str_views(args@) =~= head + codec_args(format, crf));
    let ghost with_codec = str_views(args@);

    // Cap height, keep width even (-2), never upscale (min with ih).
    push_lit(&mut args, "-vf");
    let mut filter = String::from_str("scale=-2:min(");
    crate::text::push_decimal(&mut filter, max_height);
    filter.append("\\,ih)");
    push_arg(&mut args, filter);
    assert(str_views(args@) =~= with_codec + seq!["-vf"@, scale_filter(max_height)]);
    let ghost with_filter = str_views(args@);

    if silent {
        push_lit(&mut args, "-an");
    } else {
        match format {
            VideoFormat::Mp4 => {
                push_lit(&mut args, "-c:a");
                push_lit(&mut args, "aac");
                push_lit(&mut args, "-b:a");
                push_lit(&mut args, "128k");
            },
            VideoFormat::Webm => {
                push_lit(&mut args, "-c:a");
                push_lit(&mut args, "libopus");
                push_lit(&mut args, "-b:a");
                push_lit(&mut args, "128k");
            },
        }
    }
    assert(str_views(args@) =~= with_filter + audio_args(format, silent));
    let ghost with_audio = str_views(args@);

    if format == VideoFormat::Mp4 {
        push_lit(&mut args, "-movflags");
        push_lit(&mut args, "+faststart");
    }
    assert(str_views(args@) =~= with_audio + container_args(format));
    let ghost with_container = str_views(args@);

    push_lit(&mut args, "-progress");
    push_lit(&mut args, "pipe:1");
    push_lit(&mut args, output);
    assert(str_views(args@) =~= with_container + seq!["-progress"@, "pipe:1"@, output@]);
    args
}

} // verus!

verus! {

/// The text of the clock time in an FFmpeg `Duration: HH:MM:SS.ss, ...`
/// line: what follows the first `Duration:`, up to the next comma, with
/// surrounding white space removed.
pub open spec fn spec_duration_text(line: Seq<char>) -> Option<Seq<char>> {
    match find(line, "Duration:"@) {
        Some(i) => {
            let rest = trim_start(line.skip(i + "Duration:"@.len()));
            Some(trim(rest.take(index_of(rest, ','))))
        },
        None => None,
    }
}

/// The clock-time text of a `Duration:` line (see [`spec_duration_text`]).
pub fn duration_text(line: &str) -> (r: Option<String>)
    ensures
        r matches Some(t) ==> spec_duration_text(line@) == Some(t@),
        r is None ==> spec_duration_text(line@) is None,
{
    let s = chars_of(line);
    let key = chars_of("Duration:");
    match find_first(&s, &key) {
        None => None,
        Some(i) => {
            let n = s.len();
            let lo = i + key.len();
            let a = skip_ws_forward(&s, lo, n);
            let comma = find_char(&s, a, n, ',');
            let (x, y) = trim_bounds(&s, a, comma);
            proof {
                assert(s@.subrange(lo as int, n as int) =~= line@.skip(lo as int));
                let rest = s@.subrange(a as int, n as int);
                assert(rest.take(comma - a) =~= s@.subrange(a as int, comma as int));
            }
            Some(string_of(slice_range(&s, x, y)))
        },
    }
}

/// The three fields of an `H:M:S` clock time, each with surrounding white
/// space removed; `None` unless the text splits at `:` into exactly three.
pub open spec fn spec_clock_fields(s: Seq<char>) -> Option<(Seq<char>, Seq<char>, Seq<char>)> {
    let i = index_of(s, ':');
    if i >= s.len() {
        None
    } else {
        let r = s.skip(i + 1);
        let j = index_of(r, ':');
        if j >= r.len() {
            None
        } else {
            let t = r.skip(j + 1);
            if index_of(t, ':') < t.len() {
                None
            } else {
                Some((trim(s.take(i)), trim(r.take(j)), trim(t)))
            }
        }
    }
}

/// The fields of an `H:M:S` clock text: when `a`, `b` and `c` hold no `:`,
/// the text `a:b:c` reads as exactly `a`, `b` and `c`, each trimmed.
pub proof fn lemma_clock_fields_split(a: Seq<char>, b: Seq<char>, c: Seq<char>)
    requires
        forall|k: int| 0 <= k < a.len() ==> a[k] != ':',
        forall|k: int| 0 <= k < b.len() ==> b[k] != ':',
        forall|k: int| 0 <= k < c.len() ==> c[k] != ':',
    ensures
        spec_clock_fields(a + seq![':'] + b + seq![':'] + c) == Some((trim(a), trim(b), trim(c))),
{
    let s = a + seq![':'] + b + seq![':'] + c;
    let rest = seq![':'] + b + seq![':'] + c;
    assert(s =~= a + rest);
    crate::text::lemma_index_of_after(a, rest, ':');
    assert(rest[0] == ':');
    let i = a.len() as int;
    assert(index_of(s, ':') == i);
    let r = s.skip(i + 1);
    let rest2 = seq![':'] + c;
    assert(r =~= b + rest2);
    crate::text::lemma_index_of_after(b, rest2, ':');
    assert(rest2[0] == ':');
    let j = b.len() as int;
    assert(index_of(r, ':') == j);
    let t = r.skip(j + 1);
    assert(t =~= c);
    crate::text::lemma_index_of_after(c, Seq::<char>::empty(), ':');
    assert(c + Seq::<char>::empty() =~= c);
    assert(index_of(t, ':') == t.len());
    assert(s.take(i) =~= a);
    assert(r.take(j) =~= b);
}

/// Splits an `H:M:S` clock time into its three trimmed fields (see
/// [`spec_clock_fields`]).
pub fn clock_fields(text: &str) -> (r: Option<(String, String, String)>)
    ensures
        r matches Some((h, m, sec)) ==> spec_clock_fields(text@) == Some((h@, m@, sec@)),
        r is None ==> spec_clock_fields(text@) is None,
{
    let s = chars_of(text);
    let n = s.len();
    assert(s@.subrange(0, n as int) =~= text@);
    let c1 = find_char(&s, 0, n, ':');
    if c1 == n {
        return None;
    }
    assert(s@.subrange(c1 + 1, n as int) =~= text@.skip(c1 + 1));
    let c2 = find_char(&s, c1 + 1, n, ':');
    if c2 == n {
        return None;
    }
    assert(s@.subrange(c2 + 1, n as int) =~= text@.skip(c1 + 1).skip(c2 - c1));
    let c3 = find_char(&s, c2 + 1, n, ':');
    if c3 < n {
        return None;
    }
    let (a1, b1) = trim_bounds(&s, 0, c1);
    let (a2, b2) = trim_bounds(&s, c1 + 1, c2);
    let (a3, b3) = trim_bounds(&s, c2 + 1, n);
    proof {
        assert(s@.subrange(0, c1 as int) =~= text@.take(c1 as int));
        assert(s@.subrange(c1 + 1, c2 as int) =~= text@.skip(c1 + 1).take(c2 - c1 - 1));
    }
    Some((
        string_of(slice_range(&s, a1, b1)),
        string_of(slice_range(&s, a2, b2)),
        string_of(slice_range(&s, a3, b3)),
    ))
}

/// The elapsed-time field of an FFmpeg `-progress` line.
pub enum OutTime {
    /// `out_time_us=` or `out_time_ms=`: microseconds (the latter is an
    /// FFmpeg quirk), as text.
    Microseconds(String),
    /// `out_time=`: an `H:M:S` clock time, as text.
    Clock(String),
}

/// `s` starts with `p`.
pub open spec fn starts_with(s: Seq<char>, p: Seq<char>) -> bool {
    p.len() <= s.len() && s.take(p.len() as int) == p
}

/// The elapsed-time field of a progress line, once trimmed: `(true, text)`
/// for `out_time_us=`/`out_time_ms=` (microseconds), `(false, text)` for
/// `out_time=` (clock time), the text trimmed in turn; `None` otherwise.
pub open spec fn spec_out_time(line: Seq<char>) -> Option<(bool, Seq<char>)> {
    let l = trim(line);
    if starts_with(l, "out_time_us="@) {
        Some((true, trim(l.skip("out_time_us="@.len() as int))))
    } else if starts_with(l, "out_time_ms="@) {
        Some((true, trim(l.skip("out_time_ms="@.len() as int))))
    } else if starts_with(l, "out_time="@) {
        Some((false, trim(l.skip("out_time="@.len() as int))))
    } else {
        None
    }
}

/// `out_time_ms=` is read exactly as `out_time_us=`, as microseconds,
/// whatever follows it.
pub proof fn lemma_out_time_ms_as_us(v: Seq<char>)
    ensures
        spec_out_time("out_time_ms="@ + v) == spec_out_time("out_time_us="@ + v),
        spec_out_time("out_time_us="@ + v) matches Some((us, _)) && us,
{
    reveal_strlit("out_time_ms=");
    reveal_strlit("out_time_us=");
    let pm = "out_time_ms="@;
    let pu = "out_time_us="@;
    assert(pm.len() == 12 && pm[0] == 'o' && pm[9] == 'm' && pm[11] == '=');
    assert(pu.len() == 12 && pu[0] == 'o' && pu[9] == 'u' && pu[11] == '=');
    crate::text::lemma_trim_end_after(pm, v);
    crate::text::lemma_trim_end_after(pu, v);
    assert((pm + v)[0] == 'o' && (pu + v)[0] == 'o');
    assert(trim_start(pm + v) == pm + v);
    assert(trim_start(pu + v) == pu + v);
    let t = crate::text::trim_end(v);
    let lm = pm + t;
    let lu = pu + t;
    assert(trim(pm + v) == lm);
    assert(trim(pu + v) == lu);
    assert(lm.take(12) =~= pm);
    assert(lu.take(12) =~= pu);
    assert(lm.take(12)[9] != pu[9]);
    assert(lm.skip(12) =~= t);
    assert(lu.skip(12) =~= t);
}

/// Reads the elapsed-time field of a `-progress pipe:1` line (see
/// [`spec_out_time`]).
pub fn out_time_text(line: &str) -> (r: Option<OutTime>)
    ensures
        r matches Some(OutTime::Microseconds(t)) ==> spec_out_time(line@) == Some((true, t@)),
        r matches Some(OutTime::Clock(t)) ==> spec_out_time(line@) == Some((false, t@)),
        r is None ==> spec_out_time(line@) is None,
{
    let s = chars_of(line);
    let n = s.len();
    assert(s@.subrange(0, n as int) =~= line@);
    let (a, b) = trim_bounds(&s, 0, n);
    let ghost l = s@.subrange(a as int, b as int);
    let us = chars_of("out_time_us=");
    let ms = chars_of("out_time_ms=");
    let clock = chars_of("out_time=");
    let is_us = us.len() <= b - a && matches_at(&s, a, &us);
    let is_ms = ms.len() <= b - a && matches_at(&s, a, &ms);
    let is_clock = clock.len() <= b - a && matches_at(&s, a, &clock);
    proof {
        assert(us.len() <= b - a ==> l.take(us@.len() as int) =~= s@.subrange(a as int, a + us@.len()));
        assert(ms.len() <= b - a ==> l.take(ms@.len() as int) =~= s@.subrange(a as int, a + ms@.len()));
        assert(clock.len() <= b - a ==> l.take(clock@.len() as int) =~= s@.subrange(a as int, a + clock@.len()));
    }
    if is_us || is_ms {
        let k = if is_us { us.len() } else { ms.len() };
        let (x, y) = trim_bounds(&s, a + k, b);
        assert(s@.subrange(a + k, b as int) =~= l.skip(k as int));
        Some(OutTime::Microseconds(string_of(slice_range(&s, x, y))))
    } else if is_clock {
        let k = clock.len();
        let (x, y) = trim_bounds(&s, a + k, b);
        assert(s@.subrange(a + k, b as int) =~= l.skip(k as int));
        Some(OutTime::Clock(string_of(slice_range(&s, x, y))))
    } else {
        None
    }
}

} // verus!

verus! {

/// Videos found by a scan and still to convert.
pub struct VideoScanResult {
    /// Their paths, in the order the walk met them.
    pub files: Vec<String>,
    /// Their total size in bytes.
    pub total_size: u64,
    /// How many distinct folders they are in.
    pub folder_count: usize,
}

/// Where one video of a run stands.
pub struct VideoProgress {
    /// 1-based position of the file in the run.
    pub current: usize,
    /// Number of files in the run.
    pub total: usize,
    /// The file's name.
    pub file_name: String,
    /// 0..=100 within the current file.
    pub file_percent: u8,
    /// Size of the source file, in bytes.
    pub size_before: u64,
    /// Size of the web version, in bytes.
    pub size_after: u64,
    /// `encoding`, `ok`, `skip` or `error`.
    pub status: String,
    /// Why it failed, for `error`.
    pub error_message: Option<String>,
}

/// Totals of a video conversion run.
pub struct VideoReport {
    /// Files converted.
    pub converted: usize,
    /// Files skipped because their web version existed.
    pub skipped: usize,
    /// Files that failed.
    pub errors: usize,
    /// The run was cancelled.
    pub cancelled: bool,
    /// Total size of the converted source files.
    pub total_size_before: u64,
    /// Total size of their web versions.
    pub total_size_after: u64,
    /// The `web` folder of the first file converted.
    pub first_output_dir: Option<String>,
}

/// The folder an entry met while scanning `folder` counts towards, when the
/// entry is a video still to convert: not under a `web` folder (when
/// walking subfolders), a regular file, a video, with an output path and no
/// web version there yet. Walking subfolders, that folder is the file's
/// parent; otherwise it is `folder` itself.
pub open spec fn video_scan_key(style: PathStyle, folder: Seq<char>, recursive: bool, format: VideoFormat, e: ScanEntry) -> Option<Seq<char>> {
    if (recursive && has_segment(style, e.path@, VIDEO_OUTPUT_DIR@)) || !e.is_file || !spec_is_video_file(style, e.path@)
        || spec_output_path(style, e.path@, format) is None || e.dest_exists {
        None
    } else if recursive {
        parent(style, e.path@)
    } else {
        Some(folder)
    }
}

/// The keys of all entries.
pub open spec fn video_scan_keys(style: PathStyle, folder: Seq<char>, recursive: bool, format: VideoFormat, entries: Seq<ScanEntry>) -> Seq<Option<Seq<char>>> {
    entries.map_values(|e: ScanEntry| video_scan_key(style, folder, recursive, format, e))
}

/// Picks, among the entries met while scanning `folder`, the videos still to
/// convert (see [`video_scan_key`]); `None` when their total size does not
/// fit in a `u64`. The caller computes each entry's `dest_exists` for its
/// [`output_path`].
pub fn select_videos(style: PathStyle, folder: &str, recursive: bool, format: VideoFormat, entries: &Vec<ScanEntry>) -> (r: Option<VideoScanResult>)
    ensures
        r is None <==> picks_summary(entries@, video_scan_keys(style, folder@, recursive, format, entries@)).1 > u64::MAX,
        r matches Some(res) ==> {
            let s = picks_summary(entries@, video_scan_keys(style, folder@, recursive, format, entries@));
            &&& str_views(res.files@) == s.0
            &&& res.total_size == s.1
            &&& res.folder_count == s.2
        },
{
    let mut keys: Vec<Option<String>> = Vec::new();
    let mut i: usize = 0;
    while i < entries.len()
        invariant
            i <= entries@.len(),
            keys@.len() == i,
            forall|k: int| 0 <= k < i ==> opt_views(keys@)[k] == video_scan_key(style, folder@, recursive, format, #[trigger] entries@[k]),
        decreases entries.len() - i,
    {
        let e = &entries[i];
        let key = if (recursive && path_has_segment(style, e.path.as_str(), VIDEO_OUTPUT_DIR)) || !e.is_file
            || !is_video_file_in(style, e.path.as_str()) || output_path_in(style, e.path.as_str(), format).is_none()
            || e.dest_exists {
            None
        } else if recursive {
            path_parent(style, e.path.as_str())
        } else {
            Some(String::from_str(folder))
        };
        keys.push(key);
        i += 1;
    }
    assert(opt_views(keys@) =~= video_scan_keys(style, folder@, recursive, format, entries@));
    match gather(entries, &keys) {
        Some((files, total_size, folder_count)) => Some(VideoScanResult { files, total_size, folder_count }),
        None => None,
    }
}

/// A scan lists only regular video files that have an output path and no
/// web version yet, and, walking subfolders, none inside a `web` folder.
pub proof fn lemma_video_scan_lists_pending(style: PathStyle, 
    folder: Seq<char>,
    recursive: bool,
    format: VideoFormat,
    entries: Seq<ScanEntry>,
    j: int,
)
    requires
        0 <= j < picks_summary(entries, video_scan_keys(style, folder, recursive, format, entries)).0.len(),
    ensures
        exists|i: int| {
            &&& 0 <= i < entries.len()
            &&& entries[i].path@ == picks_summary(entries, video_scan_keys(style, folder, recursive, format, entries)).0[j]
            &&& entries[i].is_file && !entries[i].dest_exists
            &&& spec_is_video_file(style, entries[i].path@)
            &&& extension(style, entries[i].path@) matches Some(x) && seq![
                "mp4"@,
                "mov"@,
                "avi"@,
                "mkv"@,
                "webm"@,
                "m4v"@,
                "flv"@,
                "wmv"@,
                "mpg"@,
                "mpeg"@,
                "m2ts"@,
                "3gp"@,
            ].contains(lowercase(x))
            &&& spec_output_path(style, entries[i].path@, format) is Some
            &&& recursive ==> !has_segment(style, entries[i].path@, VIDEO_OUTPUT_DIR@)
            &&& recursive ==> !has_segment(style, entries[i].path@, "web"@)
        },
{
    assert(video_extensions() =~= seq![
        "mp4"@, "mov"@, "avi"@, "mkv"@, "webm"@, "m4v"@, "flv"@, "wmv"@, "mpg"@, "mpeg"@, "m2ts"@, "3gp"@,
    ]);
    assert(VIDEO_OUTPUT_DIR@ == "web"@);
    let keys = video_scan_keys(style, folder, recursive, format, entries);
    crate::scan::lemma_picked_from_keys(entries, keys, entries.len() as int, j);
    let i = choose|i: int| 0 <= i < entries.len() && keys[i] is Some && entries[i].path@ == picks_summary(entries, keys).0[j];
    assert(keys[i] == video_scan_key(style, folder, recursive, format, entries[i]));
}

/// A scan misses no video still to convert: an entry that is a regular
/// file whose extension, lowercased, is one of `mp4`, `mov`, `avi`, `mkv`,
/// `webm`, `m4v`, `flv`, `wmv`, `mpg`, `mpeg`, `m2ts`, `3gp`, with no web
/// version yet and, walking subfolders, under no `web` folder, is listed.
pub proof fn lemma_video_scan_complete(
    style: PathStyle,
    folder: Seq<char>,
    recursive: bool,
    format: VideoFormat,
    entries: Seq<ScanEntry>,
    i: int,
)
    requires
        0 <= i < entries.len(),
        entries[i].is_file,
        !entries[i].dest_exists,
        extension(style, entries[i].path@) matches Some(x) && seq![
            "mp4"@,
            "mov"@,
            "avi"@,
            "mkv"@,
            "webm"@,
            "m4v"@,
            "flv"@,
            "wmv"@,
            "mpg"@,
            "mpeg"@,
            "m2ts"@,
            "3gp"@,
        ].contains(lowercase(x)),
        recursive ==> !has_segment(style, entries[i].path@, "web"@),
    ensures
        picks_summary(entries, video_scan_keys(style, folder, recursive, format, entries)).0.contains(
            entries[i].path@,
        ),
{
    let keys = video_scan_keys(style, folder, recursive, format, entries);
    let path = entries[i].path@;
    assert(video_extensions() =~= seq![
        "mp4"@, "mov"@, "avi"@, "mkv"@, "webm"@, "m4v"@, "flv"@, "wmv"@, "mpg"@, "mpeg"@, "m2ts"@, "3gp"@,
    ]);
    assert(VIDEO_OUTPUT_DIR@ == "web"@);
    crate::paths::lemma_named_file_has_parent(style, path);
    assert(spec_output_path(style, path, format) is Some);
    assert(keys[i] == video_scan_key(style, folder, recursive, format, entries[i]));
    assert(keys[i] is Some);
    crate::scan::lemma_key_picked(entries, keys, entries.len() as int, i);
}

/// A scan counts the folders of the videos it lists: walking subfolders,
/// as many as there are distinct parents of the listed files; otherwise
/// one (the folder scanned) when it lists anything, and none when not.
pub proof fn lemma_video_scan_folders(
    style: PathStyle,
    folder: Seq<char>,
    recursive: bool,
    format: VideoFormat,
    entries: Seq<ScanEntry>,
)
    ensures
        ({
            let s = picks_summary(entries, video_scan_keys(style, folder, recursive, format, entries));
            &&& recursive ==> s.2 == Set::new(
                |d: Seq<char>| exists|j: int| 0 <= j < s.0.len() && parent(style, s.0[j]) == Some(d),
            ).len()
            &&& !recursive ==> s.2 == (if s.0.len() > 0 { 1nat } else { 0nat })
        }),
{
    let keys = video_scan_keys(style, folder, recursive, format, entries);
    let n = entries.len() as int;
    let p = crate::scan::picked_paths(entries, keys, n);
    if recursive {
        let key_of = |q: Seq<char>| parent(style, q);
        assert forall|i: int| 0 <= i < keys.len() && keys[i] is Some implies keys[i] == key_of(
            #[trigger] entries[i].path@,
        ) by {
            assert(keys[i] == video_scan_key(style, folder, recursive, format, entries[i]));
        }
        crate::scan::lemma_keys_of_picked(entries, keys, key_of);
        assert(crate::scan::picked_keys(keys, n) =~= Set::new(
            |d: Seq<char>| exists|j: int| 0 <= j < p.len() && parent(style, p[j]) == Some(d),
        ));
    } else {
        assert forall|i: int| 0 <= i < keys.len() && (#[trigger] keys[i]) is Some implies keys[i] == Some(folder) by {
            assert(keys[i] == video_scan_key(style, folder, recursive, format, entries[i]));
        }
        crate::scan::lemma_single_key(entries, keys, folder);
    }
}

} // verus!
