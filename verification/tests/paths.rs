use std::path::Path;

use stokepile::paths::{extension_chars, file_name_chars, is_relative, join_path, parent_chars, stem_chars};

const SAMPLES: &[&str] = &[
    "", "/", "//", "a", "/a", "a/", "a//", "a/b", "a//b", "a/./b", "./a", "../a", "a/..", "a/.", "/.", ".", "..",
    "a/b/", "/a/b/.", ".hidden", "a.tar.gz", "a.", "/x/y/z.mp4", "a/.//b/", "///a///b///", "/./a", "./", "a/../b",
    "/tmp/foo/bar/butts.manifest", "bar/butts", "x/.y", "x/..y", "x/y..", "/a/b/c/d",
];

fn chars(s: &str) -> Vec<char> {
    s.chars().collect()
}

fn text(v: &[char]) -> String {
    v.iter().collect()
}

#[test]
fn file_names_agree_with_std() {
    for p in SAMPLES {
        let ours = file_name_chars(&chars(p)).map(|v| text(&v));
        let std = Path::new(p).file_name().map(|n| n.to_string_lossy().into_owned());
        assert_eq!(ours, std, "file name of {:?}", p);
    }
}

#[test]
fn parents_agree_with_std() {
    for p in SAMPLES {
        let ours = parent_chars(&chars(p)).map(|v| text(&v));
        let std = Path::new(p).parent().map(|n| n.to_string_lossy().into_owned());
        assert_eq!(ours, std, "parent of {:?}", p);
    }
}

#[test]
fn stems_and_extensions_agree_with_std() {
    for p in SAMPLES {
        if let Some(name) = file_name_chars(&chars(p)) {
            let stem = text(&stem_chars(&name));
            let ext = extension_chars(&name).map(|v| text(&v));
            let path = Path::new(p);
            assert_eq!(Some(stem), path.file_stem().map(|s| s.to_string_lossy().into_owned()), "stem of {:?}", p);
            assert_eq!(ext, path.extension().map(|s| s.to_string_lossy().into_owned()), "extension of {:?}", p);
        }
    }
}

#[test]
fn joins_agree_with_std() {
    for a in SAMPLES {
        for b in SAMPLES {
            let std = Path::new(a).join(b).to_string_lossy().into_owned();
            assert_eq!(join_path(a, b), std, "{:?} joined with {:?}", a, b);
        }
    }
}

#[test]
fn relative_paths() {
    for p in SAMPLES {
        assert_eq!(is_relative(p), Path::new(p).is_relative(), "{:?}", p);
    }
}
