//! Image side of the converter: which files are images, where their WebP
//! versions go, which files a scan picks, the resize that caps the width,
//! and the bookkeeping of a conversion run.
use vstd::prelude::*;
use image::DynamicImage;
use crate::paths::{
    file_name, file_stem, has_drive, is_sep, join, parent, path_extension, path_file_name, path_file_stem,
    path_join, path_parent, PathStyle,
};
use crate::scan::{gather, has_segment, opt_views, path_has_segment, picks_summary, str_views, ScanEntry};
use crate::text::lowercase;

verus! {

/// Name of the folder, next to the source files, that receives WebP files.
pub const OUTPUT_DIR: &'static str = "webp";

/// The file extensions (lowercase) recognised as images.
pub const IMAGE_EXTENSIONS: [&'static str; 7] = ["jpg", "jpeg", "png", "gif", "bmp", "tiff", "tif"];

/// The file extensions (lowercase) recognised as images, as character sequences.
pub open spec fn image_extensions() -> Seq<Seq<char>> {
    crate::text::str_views(IMAGE_EXTENSIONS@)
}

/// An extension names an image when its lowercase is one of [`image_extensions`].
pub open spec fn is_image_ext(e: Seq<char>) -> bool {
    image_extensions().contains(lowercase(e))
}

/// A path names an image file when it has an extension naming an image.
pub open spec fn spec_is_image_file(style: PathStyle, path: Seq<char>) -> bool {
    match crate::paths::extension(style, path) {
        Some(e) => is_image_ext(e),
        None => false,
    }
}

/// Whether the extension `e` names an image (see [`is_image_ext`]).
pub fn is_image_extension(e: &str) -> (b: bool)
    ensures
        b == is_image_ext(e@),
{
    crate::text::lowercase_among(e, &IMAGE_EXTENSIONS)
}

/// Whether `path` names an image file: its extension, lowercased, is one of
/// [`image_extensions`].
pub fn is_image_file(style: PathStyle, path: &str) -> (b: bool)
    ensures
        b == spec_is_image_file(style, path@),
{
    match path_extension(style, path) {
        Some(e) => is_image_extension(&e),
        None => false,
    }
}

/// The stem of the path's file name, empty when it has none.
pub open spec fn stem_or_empty(style: PathStyle, path: Seq<char>) -> Seq<char> {
    match file_stem(style, path) {
        Some(t) => t,
        None => Seq::empty(),
    }
}

/// Where the WebP version of the image `path` goes when its folder is `dir`:
/// `<dir>/webp/<stem>.webp`.
pub open spec fn spec_webp_dest(style: PathStyle, dir: Seq<char>, path: Seq<char>) -> Seq<char> {
    join(style, join(style, dir, OUTPUT_DIR@), stem_or_empty(style, path) + ".webp"@)
}

/// `<dir>/webp/<stem of path>.webp` (see [`spec_webp_dest`]).
pub fn webp_dest(style: PathStyle, dir: &str, path: &str) -> (r: String)
    ensures
        r@ == spec_webp_dest(style, dir@, path@),
{
    let out_dir = path_join(style, dir, OUTPUT_DIR);
    let mut name = match path_file_stem(style, path) {
        Some(s) => s,
        None => String::new(),
    };
    name.append(".webp");
    path_join(style, out_dir.as_str(), name.as_str())
}

/// Where the WebP version of the image `path` goes: in a `webp` folder next
/// to it; `None` when the path has no parent.
pub open spec fn spec_image_output_path(style: PathStyle, path: Seq<char>) -> Option<Seq<char>> {
    match parent(style, path) {
        Some(p) => Some(spec_webp_dest(style, p, path)),
        None => None,
    }
}

/// Where the WebP version of the image `path` goes (see [`spec_image_output_path`]).
pub fn image_output_path(style: PathStyle, path: &str) -> (r: Option<String>)
    ensures
        r matches Some(o) ==> spec_image_output_path(style, path@) == Some(o@),
        r is None ==> spec_image_output_path(style, path@) is None,
{
    match path_parent(style, path) {
        Some(p) => Some(webp_dest(style, p.as_str(), path)),
        None => None,
    }
}

/// The WebP version of an image lies in the `webp` folder next to it, under
/// the image's stem with the `webp` extension, and is never the image itself
/// (for a stem that does not begin like a drive, as `C:` does).
pub proof fn lemma_image_output_beside_source(style: PathStyle, path: Seq<char>)
    requires
        parent(style, path) is Some,
        !has_drive(style, stem_or_empty(style, path)),
    ensures
        file_name(style, spec_image_output_path(style, path)->0) == Some(stem_or_empty(style, path) + ".webp"@),
        parent(style, spec_image_output_path(style, path)->0) == Some(join(style, parent(style, path)->0, OUTPUT_DIR@)),
        spec_image_output_path(style, path)->0 != path,
{
    reveal_strlit("webp");
    reveal_strlit(".webp");
    let stem = stem_or_empty(style, path);
    let n = stem + ".webp"@;
    crate::paths::lemma_file_stem_no_sep(style, path);
    assert(crate::paths::no_sep(style, n)) by {
        assert forall|k: int| 0 <= k < n.len() implies !is_sep(style, #[trigger] n[k]) by {
            if k < stem.len() {
                assert(n[k] == stem[k]);
            }
        }
    }
    assert(!has_drive(style, n)) by {
        if stem.len() >= 2 {
            assert(n[0] == stem[0] && n[1] == stem[1]);
        } else {
            assert(n[1] == '.' || n[1] == 'w');
        }
    }
    assert(n.len() > 2);
    crate::paths::lemma_output_in_subfolder(style, path, OUTPUT_DIR@, n);
}

/// The folder the WebP versions of images next to `file_path` go to.
pub open spec fn spec_webp_dir_for(style: PathStyle, file_path: Seq<char>) -> Option<Seq<char>> {
    match parent(style, file_path) {
        Some(p) => Some(join(style, p, OUTPUT_DIR@)),
        None => None,
    }
}

/// The `webp` folder next to `file_path`, when it has a parent.
pub fn webp_dir_for(style: PathStyle, file_path: &str) -> (r: Option<String>)
    ensures
        r matches Some(d) ==> spec_webp_dir_for(style, file_path@) == Some(d@),
        r is None ==> spec_webp_dir_for(style, file_path@) is None,
{
    match path_parent(style, file_path) {
        Some(p) => Some(path_join(style, p.as_str(), OUTPUT_DIR)),
        None => None,
    }
}

/// Images found by a scan and still to convert.
pub struct ScanResult {
    /// Their paths, in the order the walk met them.
    pub files: Vec<String>,
    /// Their total size in bytes.
    pub total_size: u64,
    /// How many distinct folders they are in.
    pub folder_count: usize,
}

/// The folder an entry met while scanning `folder` counts towards, when the
/// entry is an image still to convert: not under a `webp` folder (when
/// walking subfolders), a regular file, an image, with a parent (when
/// walking subfolders) and no WebP version yet. Walking subfolders, that
/// folder is the file's parent; otherwise it is `folder` itself.
pub open spec fn image_scan_key(style: PathStyle, folder: Seq<char>, recursive: bool, e: ScanEntry) -> Option<Seq<char>> {
    if (recursive && has_segment(style, e.path@, OUTPUT_DIR@)) || !e.is_file || !spec_is_image_file(style, e.path@)
        || e.dest_exists {
        None
    } else if recursive {
        parent(style, e.path@)
    } else {
        Some(folder)
    }
}

/// The keys of all entries.
pub open spec fn image_scan_keys(style: PathStyle, folder: Seq<char>, recursive: bool, entries: Seq<ScanEntry>) -> Seq<
    Option<Seq<char>>,
> {
    entries.map_values(|e: ScanEntry| image_scan_key(style, folder, recursive, e))
}

/// Picks, among the entries met while scanning `folder`, the images still to
/// convert (see [`image_scan_key`]); `None` when their total size does not
/// fit in a `u64`. The caller computes each entry's `dest_exists` for
/// [`webp_dest`] of its folder (the file's parent when walking subfolders,
/// `folder` otherwise).
pub fn select_images(style: PathStyle, folder: &str, recursive: bool, entries: &Vec<ScanEntry>) -> (r: Option<ScanResult>)
    ensures
        r is None <==> picks_summary(entries@, image_scan_keys(style, folder@, recursive, entries@)).1 > u64::MAX,
        r matches Some(res) ==> {
            let s = picks_summary(entries@, image_scan_keys(style, folder@, recursive, entries@));
            &&& str_views(res.files@) == s.0
            &&& res.total_size == s.1
            &&& res.folder_count == s.2
        },
{
    let mut keys: Vec<Option<String>> = Vec::new();
    let mut i: usize = 0;
    while i < entries.len()
        invariant
            i <= entries@.len(),
            keys@.len() == i,
            forall|k: int| 0 <= k < i ==> opt_views(keys@)[k] == image_scan_key(style, folder@, recursive, #[trigger] entries@[k]),
        decreases entries.len() - i,
    {
        let e = &entries[i];
        let key = if (recursive && path_has_segment(style, e.path.as_str(), OUTPUT_DIR)) || !e.is_file
            || !is_image_file(style, e.path.as_str()) || e.dest_exists {
            None
        } else if recursive {
            path_parent(style, e.path.as_str())
        } else {
            Some(String::from_str(folder))
        };
        keys.push(key);
        i += 1;
    }
    assert(opt_views(keys@) =~= image_scan_keys(style, folder@, recursive, entries@));
    match gather(entries, &keys) {
        Some((files, total_size, folder_count)) => Some(ScanResult { files, total_size, folder_count }),
        None => None,
    }
}

/// A scan lists only regular image files with no WebP version yet, and,
/// walking subfolders, none inside a `webp` folder.
pub proof fn lemma_image_scan_lists_pending(style: PathStyle, folder: Seq<char>, recursive: bool, entries: Seq<ScanEntry>, j: int)
    requires
        0 <= j < picks_summary(entries, image_scan_keys(style, folder, recursive, entries)).0.len(),
    ensures
        exists|i: int| {
            &&& 0 <= i < entries.len()
            &&& entries[i].path@ == picks_summary(entries, image_scan_keys(style, folder, recursive, entries)).0[j]
            &&& entries[i].is_file && !entries[i].dest_exists
            &&& spec_is_image_file(style, entries[i].path@)
            &&& crate::paths::extension(style, entries[i].path@) matches Some(x) && seq![
                "jpg"@,
                "jpeg"@,
                "png"@,
                "gif"@,
                "bmp"@,
                "tiff"@,
                "tif"@,
            ].contains(lowercase(x))
            &&& recursive ==> !has_segment(style, entries[i].path@, OUTPUT_DIR@)
            &&& recursive ==> !has_segment(style, entries[i].path@, "webp"@)
        },
{
    assert(image_extensions() =~= seq!["jpg"@, "jpeg"@, "png"@, "gif"@, "bmp"@, "tiff"@, "tif"@]);
    assert(OUTPUT_DIR@ == "webp"@);
    let keys = image_scan_keys(style, folder, recursive, entries);
    crate::scan::lemma_picked_from_keys(entries, keys, entries.len() as int, j);
    let i = choose|i: int| 0 <= i < entries.len() && keys[i] is Some && entries[i].path@ == picks_summary(entries, keys).0[j];
    assert(keys[i] == image_scan_key(style, folder, recursive, entries[i]));
}

/// A scan misses no image still to convert: an entry that is a regular
/// file whose extension, lowercased, is `jpg`, `jpeg`, `png`, `gif`,
/// `bmp`, `tiff` or `tif`, with no WebP version yet and, walking
/// subfolders, under no `webp` folder, is listed.
pub proof fn lemma_image_scan_complete(
    style: PathStyle,
    folder: Seq<char>,
    recursive: bool,
    entries: Seq<ScanEntry>,
    i: int,
)
    requires
        0 <= i < entries.len(),
        entries[i].is_file,
        !entries[i].dest_exists,
        crate::paths::extension(style, entries[i].path@) matches Some(x) && seq![
            "jpg"@,
            "jpeg"@,
            "png"@,
            "gif"@,
            "bmp"@,
            "tiff"@,
            "tif"@,
        ].contains(lowercase(x)),
        recursive ==> !has_segment(style, entries[i].path@, "webp"@),
    ensures
        picks_summary(entries, image_scan_keys(style, folder, recursive, entries)).0.contains(entries[i].path@),
{
    let keys = image_scan_keys(style, folder, recursive, entries);
    let path = entries[i].path@;
    assert(image_extensions() =~= seq!["jpg"@, "jpeg"@, "png"@, "gif"@, "bmp"@, "tiff"@, "tif"@]);
    assert(OUTPUT_DIR@ == "webp"@);
    crate::paths::lemma_named_file_has_parent(style, path);
    assert(keys[i] == image_scan_key(style, folder, recursive, entries[i]));
    assert(keys[i] is Some);
    crate::scan::lemma_key_picked(entries, keys, entries.len() as int, i);
}

/// A scan counts the folders of the images it lists: walking subfolders,
/// as many as there are distinct parents of the listed files; otherwise
/// one (the folder scanned) when it lists anything, and none when not.
pub proof fn lemma_image_scan_folders(style: PathStyle, folder: Seq<char>, recursive: bool, entries: Seq<ScanEntry>)
    ensures
        ({
            let s = picks_summary(entries, image_scan_keys(style, folder, recursive, entries));
            &&& recursive ==> s.2 == Set::new(
                |d: Seq<char>| exists|j: int| 0 <= j < s.0.len() && parent(style, s.0[j]) == Some(d),
            ).len()
            &&& !recursive ==> s.2 == (if s.0.len() > 0 { 1nat } else { 0nat })
        }),
{
    let keys = image_scan_keys(style, folder, recursive, entries);
    let n = entries.len() as int;
    let p = crate::scan::picked_paths(entries, keys, n);
    if recursive {
        let key_of = |q: Seq<char>| parent(style, q);
        assert forall|i: int| 0 <= i < keys.len() && keys[i] is Some implies keys[i] == key_of(
            #[trigger] entries[i].path@,
        ) by {
            assert(keys[i] == image_scan_key(style, folder, recursive, entries[i]));
        }
        crate::scan::lemma_keys_of_picked(entries, keys, key_of);
        assert(crate::scan::picked_keys(keys, n) =~= Set::new(
            |d: Seq<char>| exists|j: int| 0 <= j < p.len() && parent(style, p[j]) == Some(d),
        ));
    } else {
        assert forall|i: int| 0 <= i < keys.len() && (#[trigger] keys[i]) is Some implies keys[i] == Some(folder) by {
            assert(keys[i] == image_scan_key(style, folder, recursive, entries[i]));
        }
        crate::scan::lemma_single_key(entries, keys, folder);
    }
}

/// What converting one image came to.
pub struct ConvertProgress {
    /// 1-based position of the file in the run.
    pub current: usize,
    /// Number of files in the run.
    pub total: usize,
    /// The file's name.
    pub file_name: String,
    /// Size of the source file, in bytes.
    pub size_before: u64,
    /// Size of the WebP file, in bytes.
    pub size_after: u64,
    /// `ok`, `skip` or `error`.
    pub status: String,
    /// Why it failed, for `error`.
    pub error_message: Option<String>,
}

/// Totals of an image conversion run.
pub struct ConvertReport {
    /// Files converted.
    pub converted: usize,
    /// Files skipped because their WebP version existed.
    pub skipped: usize,
    /// Files that failed.
    pub errors: usize,
    /// Total size of the converted source files.
    pub total_size_before: u64,
    /// Total size of their WebP versions.
    pub total_size_after: u64,
    /// The `webp` folder of the first file converted.
    pub first_output_dir: Option<String>,
}

/// Why converting an image failed, with the error's own description.
pub enum ImageFailure {
    /// The `webp` folder could not be created.
    CreateDir(String),
    /// The image could not be opened or decoded.
    Open(String),
    /// The WebP file could not be written.
    Write(String),
}

/// The message for a failure: `Cannot create output dir: `, `Cannot open
/// image: ` or `Cannot write WebP: `, then the error's description.
pub open spec fn failure_message(f: ImageFailure) -> Seq<char> {
    match f {
        ImageFailure::CreateDir(d) => "Cannot create output dir: "@ + d@,
        ImageFailure::Open(d) => "Cannot open image: "@ + d@,
        ImageFailure::Write(d) => "Cannot write WebP: "@ + d@,
    }
}

/// The name shown for a file: its file name, empty when it has none.
pub open spec fn display_name(style: PathStyle, path: Seq<char>) -> Seq<char> {
    match file_name(style, path) {
        Some(n) => n,
        None => Seq::empty(),
    }
}

/// The name shown for the file at `path` (see [`display_name`]).
pub fn file_display_name(style: PathStyle, path: &str) -> (r: String)
    ensures
        r@ == display_name(style, path@),
{
    match path_file_name(style, path) {
        Some(n) => n,
        None => String::new(),
    }
}

impl ConvertProgress {
    /// An image with no parent folder: `error`, `Invalid path`.
    pub fn invalid_path(file_name: String) -> (p: ConvertProgress)
        ensures
            p.current == 0 && p.total == 0,
            p.file_name@ == file_name@,
            p.size_before == 0 && p.size_after == 0,
            p.status@ == "error"@,
            p.error_message matches Some(m) && m@ == "Invalid path"@,
    {
        ConvertProgress {
            current: 0,
            total: 0,
            file_name,
            size_before: 0,
            size_after: 0,
            status: String::from_str("error"),
            error_message: Some(String::from_str("Invalid path")),
        }
    }

    /// An image whose WebP version exists already: `skip`.
    pub fn skipped(file_name: String) -> (p: ConvertProgress)
        ensures
            p.current == 0 && p.total == 0,
            p.file_name@ == file_name@,
            p.size_before == 0 && p.size_after == 0,
            p.status@ == "skip"@,
            p.error_message is None,
    {
        ConvertProgress {
            current: 0,
            total: 0,
            file_name,
            size_before: 0,
            size_after: 0,
            status: String::from_str("skip"),
            error_message: None,
        }
    }

    /// An image whose conversion failed: `error`, with [`failure_message`].
    pub fn failed(file_name: String, size_before: u64, failure: ImageFailure) -> (p: ConvertProgress)
        ensures
            p.current == 0 && p.total == 0,
            p.file_name@ == file_name@,
            p.size_before == size_before && p.size_after == 0,
            p.status@ == "error"@,
            p.error_message matches Some(m) && m@ == failure_message(failure),
    {
        let ghost f = failure;
        let msg = match failure {
            ImageFailure::CreateDir(d) => {
                let mut m = String::from_str("Cannot create output dir: ");
                m.append(d.as_str());
                m
            },
            ImageFailure::Open(d) => {
                let mut m = String::from_str("Cannot open image: ");
                m.append(d.as_str());
                m
            },
            ImageFailure::Write(d) => {
                let mut m = String::from_str("Cannot write WebP: ");
                m.append(d.as_str());
                m
            },
        };
        ConvertProgress {
            current: 0,
            total: 0,
            file_name,
            size_before,
            size_after: 0,
            status: String::from_str("error"),
            error_message: Some(msg),
        }
    }

    /// An image converted: `ok`, with both sizes.
    pub fn converted(file_name: String, size_before: u64, size_after: u64) -> (p: ConvertProgress)
        ensures
            p.current == 0 && p.total == 0,
            p.file_name@ == file_name@,
            p.size_before == size_before && p.size_after == size_after,
            p.status@ == "ok"@,
            p.error_message is None,
    {
        ConvertProgress {
            current: 0,
            total: 0,
            file_name,
            size_before,
            size_after,
            status: String::from_str("ok"),
            error_message: None,
        }
    }
}

/// Whether the size totals can take `p` in.
pub open spec fn can_record(r: ConvertReport, p: ConvertProgress) -> bool {
    &&& r.converted < usize::MAX
    &&& r.skipped < usize::MAX
    &&& r.errors < usize::MAX
    &&& r.total_size_before + p.size_before <= u64::MAX
    &&& r.total_size_after + p.size_after <= u64::MAX
}

impl ConvertReport {
    /// An empty report.
    pub fn new() -> (r: ConvertReport)
        ensures
            r.converted == 0 && r.skipped == 0 && r.errors == 0,
            r.total_size_before == 0 && r.total_size_after == 0,
            r.first_output_dir is None,
    {
        ConvertReport {
            converted: 0,
            skipped: 0,
            errors: 0,
            total_size_before: 0,
            total_size_after: 0,
            first_output_dir: None,
        }
    }

    /// Counts one image's outcome: `ok` adds to the converted files and the
    /// size totals, and sets the first output folder (the `webp` folder next
    /// to `file_path`) if none is set; `skip` counts a skip; any other
    /// status counts an error.
    pub fn record(&mut self, style: PathStyle, progress: &ConvertProgress, file_path: &str)
        requires
            can_record(*old(self), *progress),
        ensures
            progress.status@ == "ok"@ ==> {
                &&& final(self).converted == old(self).converted + 1
                &&& final(self).skipped == old(self).skipped
                &&& final(self).errors == old(self).errors
                &&& final(self).total_size_before == old(self).total_size_before + progress.size_before
                &&& final(self).total_size_after == old(self).total_size_after + progress.size_after
                &&& match old(self).first_output_dir {
                    Some(d) => final(self).first_output_dir matches Some(d2) && d2@ == d@,
                    None => match spec_webp_dir_for(style, file_path@) {
                        Some(d) => final(self).first_output_dir matches Some(d2) && d2@ == d,
                        None => final(self).first_output_dir is None,
                    },
                }
            },
            progress.status@ != "ok"@ ==> {
                &&& final(self).converted == old(self).converted
                &&& final(self).total_size_before == old(self).total_size_before
                &&& final(self).total_size_after == old(self).total_size_after
                &&& final(self).first_output_dir == old(self).first_output_dir
                &&& progress.status@ == "skip"@ ==> final(self).skipped == old(self).skipped + 1
                    && final(self).errors == old(self).errors
                &&& progress.status@ != "skip"@ ==> final(self).errors == old(self).errors + 1
                    && final(self).skipped == old(self).skipped
            },
    {
        let ok = String::from_str("ok");
        let skip = String::from_str("skip");
        if progress.status == ok {
            self.converted = self.converted + 1;
            self.total_size_before = self.total_size_before + progress.size_before;
            self.total_size_after = self.total_size_after + progress.size_after;
            if self.first_output_dir.is_none() {
                self.first_output_dir = webp_dir_for(style, file_path);
            }
        } else if progress.status == skip {
            self.skipped = self.skipped + 1;
        } else {
            self.errors = self.errors + 1;
        }
    }
}

/// The size an image of `w`×`h` is brought to so that it is at most
/// `max_width` wide: `None` (unchanged) when it already is; otherwise
/// `max_width` wide and `h * max_width / w` high, rounded down, which keeps
/// the aspect ratio.
pub open spec fn spec_resize_target(w: u32, h: u32, max_width: u32) -> Option<(u32, u32)> {
    if w > max_width {
        Some((max_width, ((h as int * max_width as int) / (w as int)) as u32))
    } else {
        None
    }
}

/// See [`spec_resize_target`].
pub fn resize_target(w: u32, h: u32, max_width: u32) -> (r: Option<(u32, u32)>)
    ensures
        r == spec_resize_target(w, h, max_width),
        r matches Some((nw, nh)) ==> nw == max_width && nh <= h && nh as int * w as int <= h as int
            * max_width as int,
{
    if w > max_width {
        let (h64, m64) = (h as u64, max_width as u64);
        assert(h64 * m64 <= 0xffff_ffff_u64 * 0xffff_ffff_u64) by (nonlinear_arith)
            requires
                h64 <= 0xffff_ffff_u64,
                m64 <= 0xffff_ffff_u64,
        ;
        let prod: u64 = h64 * m64;
        let nh64: u64 = prod / (w as u64);
        assert(nh64 <= h) by (nonlinear_arith)
            requires
                prod == h * max_width,
                nh64 == prod / (w as u64),
                max_width < w,
        ;
        assert(nh64 * w <= prod) by (nonlinear_arith)
            requires
                nh64 == prod / (w as u64),
                w > 0,
        ;
        Some((max_width, nh64 as u32))
    } else {
        None
    }
}

/// `image::DynamicImage`, a decoded image, carried through without looking inside.
#[verifier::external_type_specification]
#[verifier::external_body]
pub struct ExDynamicImage(DynamicImage);

/// Width and height, in pixels, that an image was made with.
pub uninterp spec fn image_size(img: DynamicImage) -> (u32, u32);

/// The size `image::DynamicImage::resize` gives an image of `w`×`h` asked to
/// fit `nwidth`×`nheight`.
pub uninterp spec fn fitted_size(w: u32, h: u32, nwidth: u32, nheight: u32) -> (u32, u32);

/// The larger of `n` and 1.
pub open spec fn at_least_one(n: u32) -> u32 {
    if n == 0 {
        1
    } else {
        n
    }
}

/// Width and height of the image (`GenericImageView::dimensions` of
/// `image::DynamicImage`): the contract claims that they are the image's
/// [`image_size`].
#[verifier::external_body]
fn image_dimensions(img: &DynamicImage) -> (r: (u32, u32))
    ensures
        r == image_size(*img),
{
    image::GenericImageView::dimensions(img)
}

/// The resampling filters of `image::imageops::FilterType`.
#[derive(Debug, Clone, Copy, PartialEq, Eq, Structural)]
pub enum ResizeFilter {
    /// Nearest neighbour.
    Nearest,
    /// Linear.
    Triangle,
    /// Cubic.
    CatmullRom,
    /// Gaussian.
    Gaussian,
    /// Lanczos with window 3.
    Lanczos3,
}

/// `image::DynamicImage::resize` with the given filter: the image scaled
/// to the largest size that fits `nwidth`×`nheight` keeping its aspect
/// ratio. The contract claims that the result's size is [`fitted_size`] of
/// the image's size and the bounds (a function of those alone), and that it
/// fits the bounds, with at least one pixel each way, as the crate never
/// makes an empty side. The filter, passed on as the matching
/// `FilterType`, bears on the pixels only, which are left unsaid.
#[verifier::external_body]
fn image_resize(img: &DynamicImage, nwidth: u32, nheight: u32, filter: ResizeFilter) -> (r: DynamicImage)
    ensures
        image_size(r) == fitted_size(image_size(*img).0, image_size(*img).1, nwidth, nheight),
        image_size(r).0 <= at_least_one(nwidth),
        image_size(r).1 <= at_least_one(nheight),
{
    let f = match filter {
        ResizeFilter::Nearest => image::imageops::FilterType::Nearest,
        ResizeFilter::Triangle => image::imageops::FilterType::Triangle,
        ResizeFilter::CatmullRom => image::imageops::FilterType::CatmullRom,
        ResizeFilter::Gaussian => image::imageops::FilterType::Gaussian,
        ResizeFilter::Lanczos3 => image::imageops::FilterType::Lanczos3,
    };
    img.resize(nwidth, nheight, f)
}

/// Shrinks an image wider than `max_width` to that width, keeping its
/// aspect ratio (see [`resize_target`]), with the Lanczos3 filter; never
/// enlarges one. An image no
/// wider than `max_width` comes back unchanged; a wider one is resized to
/// fit `max_width`×`h * max_width / w` (rounded down): it comes back with
/// the size the resize gives for those bounds, at most `max_width` wide and
/// at most that high (at least one pixel each way), so never taller than it
/// was unless it had no height at all.
pub fn limit_width(img: DynamicImage, max_width: u32) -> (r: DynamicImage)
    ensures
        image_size(img).0 <= max_width ==> r == img,
        image_size(img).0 > max_width ==> {
            let (w, h) = image_size(img);
            &&& image_size(r) == fitted_size(w, h, max_width, (spec_resize_target(w, h, max_width)->0).1)
            &&& image_size(r).0 <= at_least_one(max_width)
            &&& image_size(r).1 <= at_least_one((spec_resize_target(w, h, max_width)->0).1)
            &&& image_size(r).1 <= at_least_one(h)
        },
{
    let (w, h) = image_dimensions(&img);
    match resize_target(w, h, max_width) {
        Some((nw, nh)) => image_resize(&img, nw, nh, ResizeFilter::Lanczos3),
        None => img,
    }
}

} // verus!
