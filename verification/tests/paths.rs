use claude_code_sync::path::{first_component, from_system, join_paths, path_extension, path_file_name, relative_to, strip_prefix, to_system};
use claude_code_sync::text::{chars_of, decimal_text, text_before, text_precedes};
use std::path::Path;

fn samples() -> Vec<&'static str> {
    vec![
        "", "/", "//", ".", "./", "..", "../..", "a", "a/", "/a", "//a", "/a/", "a/b", "a//b", "a/./b", "./a", "././a",
        "a/.", "a/..", "a/../b", "/.", "/..", "/./a", "/a/./", "/home/u/history/projects", "/home/u/history/projects/",
        "/home/u/history/projects/-home-u-x/1.jsonl", ".a", ".a/b", "...", "a/.../b", "é/ü", "/é/x.jsonl", "a.b/c", " /x", "a b",
        "a.", "a..b", "..a", ".a.b", "x.tar.gz", "/x.", "./.", "./..",
    ]
}

#[test]
fn file_names_are_those_of_std() {
    for p in samples() {
        let expected = Path::new(p).file_name().map(|n| n.to_str().unwrap().to_string());
        assert_eq!(path_file_name(p), expected, "{p:?}");
    }
}

#[test]
fn extensions_are_those_of_std() {
    for p in samples() {
        let expected = Path::new(p).extension().map(|n| n.to_str().unwrap().to_string());
        assert_eq!(path_extension(p), expected, "{p:?}");
    }
}

#[test]
fn first_components_are_those_of_std() {
    for p in samples() {
        let expected = Path::new(p).components().next().map(|c| c.as_os_str().to_str().unwrap().to_string());
        assert_eq!(first_component(p), expected, "{p:?}");
    }
}

#[test]
fn joining_is_that_of_std() {
    for a in samples() {
        for b in samples() {
            let expected = Path::new(a).join(b).to_str().unwrap().to_string();
            assert_eq!(join_paths(a, b), expected, "{a:?} {b:?}");
        }
    }
}

#[test]
fn stripping_is_that_of_std() {
    for a in samples() {
        for b in samples() {
            let stripped = Path::new(a).strip_prefix(b).ok().map(|p| p.to_str().unwrap().to_string());
            assert_eq!(strip_prefix(a, b), stripped, "{a:?} {b:?}");
            let relative = Path::new(a).strip_prefix(b).unwrap_or(Path::new(a)).to_str().unwrap();
            assert_eq!(relative_to(a, b), relative, "{a:?} {b:?}");
        }
    }
}

#[test]
fn stripping_undoes_joining() {
    let base = "/home/u/history/projects/";
    for p in vec!["x/1.jsonl", "1.jsonl", "a/b/c"] {
        assert_eq!(strip_prefix(&join_paths(base, p), base), Some(p.to_string()));
    }
    assert_eq!(strip_prefix(&join_paths("", "x/1.jsonl"), ""), Some("x/1.jsonl".to_string()));
}

#[test]
fn moving_there_and_back() {
    let file = "/home/u/history/projects/-x/1.jsonl";
    let pushed = join_paths("/repo/projects", &relative_to(file, "/home/u/history/projects"));
    assert_eq!(pushed, "/repo/projects/-x/1.jsonl");
    let back = join_paths("/home/u/history/projects", &relative_to(&pushed, "/repo/projects"));
    assert_eq!(back, file);
}

#[test]
fn text_before_a_separator() {
    assert_eq!(text_before("2025-01-02T03:04", 'T'), "2025-01-02");
    assert_eq!(text_before("abc", 'T'), "abc");
    assert_eq!(text_before("", '/'), "");
    assert_eq!(text_before("/x", '/'), "");
    assert_eq!(text_before("é/ü", '/'), "é");
}

#[test]
fn characters_of_a_text() {
    assert_eq!(chars_of("aé/"), vec!['a', 'é', '/']);
    assert!(chars_of("").is_empty());
}

#[test]
fn decimal_numbers() {
    for n in vec![0usize, 1, 9, 10, 99, 100, 1_234_567_890, usize::MAX] {
        assert_eq!(decimal_text(n), format!("{n}"));
    }
}

#[test]
fn order_of_texts_is_that_of_std() {
    let texts = vec!["", "a", "b", "ab", "aa", "-x", "Z", "é", "z", "ab/c", "\u{ffff}", "\u{10000}"];
    for a in &texts {
        for b in &texts {
            assert_eq!(text_precedes(a, b), a < b, "{a:?} {b:?}");
        }
    }
}

#[test]
fn paths_of_other_systems() {
    assert_eq!(from_system("C:\\Users\\u\\x.jsonl", '\\'), "/C:/Users/u/x.jsonl");
    assert_eq!(from_system("x\\1.jsonl", '\\'), "x/1.jsonl");
    assert_eq!(from_system("\\\\server\\share\\x", '\\'), "//server/share/x");
    assert_eq!(from_system("", '\\'), "");
    assert_eq!(from_system("C:", '\\'), "/C:");
    assert_eq!(from_system("1:\\x", '\\'), "1:/x");
    assert_eq!(to_system("/C:/Users/u/x.jsonl", "\\"), "C:\\Users\\u\\x.jsonl");
    assert_eq!(to_system("x/1.jsonl", "\\"), "x\\1.jsonl");
    assert_eq!(to_system("/x", "\\"), "\\x");
}

#[test]
fn paths_stay_as_they_stand_with_slashes() {
    for p in samples() {
        assert_eq!(from_system(p, '/'), p);
        assert_eq!(to_system(p, "/"), p);
    }
    assert_eq!(from_system("C:/a\\b", '/'), "C:/a\\b");
    assert_eq!(to_system("/C:/a\\b", "/"), "/C:/a\\b");
}

#[test]
fn system_paths_come_back() {
    for p in vec!["C:\\Users\\u", "x\\y", "\\\\server\\share", "z:", "", "C:x", ".\\a"] {
        assert_eq!(to_system(&from_system(p, '\\'), "\\"), p);
    }
}

#[test]
fn drives_replace_the_base() {
    let base = from_system("C:\\a", '\\');
    let other = from_system("D:\\x", '\\');
    assert_eq!(to_system(&join_paths(&base, &other), "\\"), "D:\\x");
    let file = from_system("C:\\a\\-x\\1.jsonl", '\\');
    assert_eq!(strip_prefix(&file, &base), Some("-x/1.jsonl".to_string()));
    assert_eq!(to_system(&join_paths(&other, "-x/1.jsonl"), "\\"), "D:\\x\\-x\\1.jsonl");
}
