use ottobangumi::utils::{file_extension, file_stem};
use std::path::Path;

#[test]
fn stem_and_extension_of_plain_name() {
    assert_eq!(file_stem("video.mkv"), Some("video"));
    assert_eq!(file_extension("video.mkv"), Some("mkv"));
}

#[test]
fn stem_and_extension_edge_cases() {
    assert_eq!(file_stem(""), None);
    assert_eq!(file_extension(""), None);
    assert_eq!(file_stem("/"), None);
    assert_eq!(file_stem("."), None);
    assert_eq!(file_stem(".."), None);
    assert_eq!(file_stem("a/.."), None);
    assert_eq!(file_stem("a/."), Some("a"));
    assert_eq!(file_stem("a/b/"), Some("b"));
    assert_eq!(file_stem("a//b.c//"), Some("b"));
    assert_eq!(file_extension("a//b.c//"), Some("c"));
    assert_eq!(file_stem(".bashrc"), Some(".bashrc"));
    assert_eq!(file_extension(".bashrc"), None);
    assert_eq!(file_stem("foo"), Some("foo"));
    assert_eq!(file_extension("foo"), None);
    assert_eq!(file_stem("foo."), Some("foo"));
    assert_eq!(file_extension("foo."), Some(""));
    assert_eq!(file_stem("a.b.c"), Some("a.b"));
    assert_eq!(file_extension("a.b.c"), Some("c"));
    assert_eq!(file_stem("..a"), Some("."));
    assert_eq!(file_extension("..a"), Some("a"));
    assert_eq!(file_stem("..."), Some(".."));
    assert_eq!(file_extension("..."), Some(""));
    assert_eq!(file_stem("dir.d/名字 01.简体.mkv"), Some("名字 01.简体"));
    assert_eq!(file_extension("dir.d/名字 01.简体.mkv"), Some("mkv"));
    assert_eq!(file_stem("dir.d/name"), Some("name"));
    assert_eq!(file_extension("dir.d/name"), None);
}

#[test]
fn stem_and_extension_agree_with_paths_of_this_platform() {
    if std::path::MAIN_SEPARATOR != '/' {
        return;
    }
    let pieces = ["", "a", ".", "..", "/", "b.c", ".d", "e.", "名.字", "./", "x.y.z"];
    for first in pieces {
        for second in pieces {
            for third in pieces {
                let path = format!("{}{}{}", first, second, third);
                let stem = Path::new(&path).file_stem().and_then(|s| s.to_str());
                let extension = Path::new(&path).extension().and_then(|s| s.to_str());
                assert_eq!(file_stem(&path), stem, "stem of {:?}", path);
                assert_eq!(file_extension(&path), extension, "extension of {:?}", path);
            }
        }
    }
}
