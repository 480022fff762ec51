use std::path::Path;

use whisper_stt::path::{file_name, file_stem, join, same, with_file_name};

/// Every path of up to six characters over the ones that matter.
fn paths() -> Vec<String> {
    let mut all = vec![String::new()];
    let mut last = all.clone();
    for _ in 0..6 {
        let mut next = Vec::new();
        for path in &last {
            for c in ['/', '.', 'a'] {
                next.push(format!("{path}{c}"));
            }
        }
        all.extend(next.iter().cloned());
        last = next;
    }
    all
}

#[test]
fn file_names_are_those_of_the_standard_library() {
    for path in paths() {
        let expected = Path::new(&path).file_name().map(|name| name.to_str().unwrap().to_string());
        assert_eq!(file_name(&path), expected, "file name of {path:?}");
    }
}

#[test]
fn file_stems_are_those_of_the_standard_library() {
    for path in paths() {
        let expected = Path::new(&path).file_stem().map(|stem| stem.to_str().unwrap().to_string());
        assert_eq!(file_stem(&path), expected, "file stem of {path:?}");
    }
}

#[test]
fn renaming_is_that_of_the_standard_library() {
    for path in paths() {
        let expected = Path::new(&path).with_file_name("b.part");
        assert_eq!(
            with_file_name(&path, "b.part"),
            expected.to_str().unwrap(),
            "renaming {path:?}"
        );
    }
}

#[test]
fn joining_is_that_of_the_standard_library() {
    for dir in ["", "/", ".", "models", "models/", "a//", "/tmp", "a/."] {
        for name in ["", "x.bin", "/x.bin", "./x", "../x", "sub/x"] {
            let expected = Path::new(dir).join(name);
            assert_eq!(join(dir, name), expected.to_str().unwrap());
        }
    }
}

#[test]
fn a_joined_name_is_found_again() {
    assert_eq!(
        file_name(&join("models/", "ggml-tiny.bin")).as_deref(),
        Some("ggml-tiny.bin")
    );
    assert_eq!(file_stem("models/ggml-tiny.bin").as_deref(), Some("ggml-tiny"));
    assert_eq!(file_stem("models/.hidden").as_deref(), Some(".hidden"));
    assert_eq!(file_name("models/.."), None);
}

#[test]
fn sameness_is_that_of_the_standard_library() {
    let short: Vec<String> = paths().into_iter().filter(|path| path.len() <= 5).collect();
    for a in &short {
        for b in &short {
            assert_eq!(same(a, b), Path::new(a) == Path::new(b), "{a:?} and {b:?}");
        }
    }
}
