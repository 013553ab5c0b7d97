use std::path::Path;
use webp_converter::paths::{path_extension, path_file_name, path_file_stem, path_join, path_parent, PathStyle};

const SAMPLES: &[&str] = &[
    "", "/", "//", ".", "..", "./", "../", "a", "a/", "a//", "/a", "/a/", "a/b", "a//b", "a/./b",
    "a/b/.", "a/b/./", "./a", ".//a", "././a", "a/..", "../a", "/..", "/.", "/./a", ".a", ".a.b",
    "a.", "a..", "a.b.c", "..a", "a/.b", "a/b.c/", "dir/clip.MP4", "C:/clips/holiday.mov",
    "/videos/a.mp4", "x/./", ".hidden/", "a/b/c.tar.gz", " sp ace/f ile.txt ", "é/ü.ñ",
];

#[test]
fn file_name_matches_std_path() {
    for p in SAMPLES {
        assert_eq!(path_file_name(PathStyle::Unix, p), Path::new(p).file_name().map(|x| x.to_string_lossy().to_string()), "file_name of {:?}", p);
    }
}

#[test]
fn parent_matches_std_path() {
    for p in SAMPLES {
        let std_parent = Path::new(p).parent().map(|q| q.to_string_lossy().to_string());
        assert_eq!(path_parent(PathStyle::Unix, p), std_parent, "parent of {:?}", p);
    }
}

#[test]
fn stem_and_extension_match_std_path() {
    for p in SAMPLES {
        assert_eq!(path_file_stem(PathStyle::Unix, p), Path::new(p).file_stem().map(|x| x.to_string_lossy().to_string()), "file_stem of {:?}", p);
        assert_eq!(path_extension(PathStyle::Unix, p), Path::new(p).extension().map(|x| x.to_string_lossy().to_string()), "extension of {:?}", p);
    }
}

#[test]
fn join_matches_std_path() {
    for base in SAMPLES {
        for name in ["web", "a.mp4", "/abs", "", "x/y"] {
            let std_join = Path::new(base).join(name).to_string_lossy().to_string();
            assert_eq!(path_join(PathStyle::Unix, base, name), std_join, "{:?} joined with {:?}", base, name);
        }
    }
}

const W: PathStyle = PathStyle::Windows;

fn some(s: &str) -> Option<String> {
    Some(s.to_string())
}

#[test]
fn host_style_is_unix_here() {
    assert_eq!(PathStyle::host(), if std::path::is_separator('\\') { PathStyle::Windows } else { PathStyle::Unix });
}

#[test]
fn windows_file_names_and_parents() {
    assert_eq!(path_file_name(W, r"C:\photos\a.jpg"), some("a.jpg"));
    assert_eq!(path_parent(W, r"C:\photos\a.jpg"), some(r"C:\photos"));
    assert_eq!(path_parent(W, r"C:\a.jpg"), some(r"C:\"));
    assert_eq!(path_parent(W, r"C:\"), None);
    assert_eq!(path_parent(W, "C:"), None);
    assert_eq!(path_file_name(W, "C:"), None);
    assert_eq!(path_parent(W, "C:a.jpg"), some("C:"));
    assert_eq!(path_parent(W, "C:."), some("C:"));
    assert_eq!(path_parent(W, r"C:/photos\sub/"), some("C:/photos"));
    assert_eq!(path_file_name(W, r"C:/photos\sub/"), some("sub"));
    assert_eq!(path_parent(W, r"\photos\a.jpg"), some(r"\photos"));
    assert_eq!(path_parent(W, r".\a.jpg"), some("."));
    assert_eq!(path_parent(W, "1:a"), some(""));
    assert_eq!(path_file_stem(W, r"d\clip.MOV"), some("clip"));
    assert_eq!(path_extension(W, r"d\clip.MOV"), some("MOV"));
    assert_eq!(path_extension(W, r"a.mp4\x"), None);
    assert_eq!(path_extension(PathStyle::Unix, r"a.mp4\x"), some(r"mp4\x"));
}

#[test]
fn windows_join() {
    assert_eq!(path_join(W, r"C:\photos", "webp"), r"C:\photos\webp");
    assert_eq!(path_join(W, r"C:\photos\", "webp"), r"C:\photos\webp");
    assert_eq!(path_join(W, "C:/photos/", "webp"), "C:/photos/webp");
    assert_eq!(path_join(W, "C:", "webp"), "C:webp");
    assert_eq!(path_join(W, r"C:\photos", r"\x"), r"C:\x");
    assert_eq!(path_join(W, "a", "D:b"), "D:b");
    assert_eq!(path_join(W, "a/b", "c"), r"a/b\c");
    assert_eq!(path_join(W, "", "c"), "c");
}
