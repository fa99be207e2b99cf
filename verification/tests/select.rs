use car::extract::{PathError, Resolved};
use car::select::{
    compile, exec, exec_selected, file_name, is_selected, regex_fault, valid_regex, RegexFault,
};

fn v(s: &str) -> Vec<u8> {
    s.as_bytes().to_vec()
}

#[test]
fn file_names() {
    assert_eq!(file_name(b"a/b/c.txt"), Some(v("c.txt")));
    assert_eq!(file_name(b"c.txt"), Some(v("c.txt")));
    assert_eq!(file_name(b"a/b/"), Some(v("b")));
    assert_eq!(file_name(b"a/b/."), Some(v("b")));
    assert_eq!(file_name(b"a/.."), None);
    assert_eq!(file_name(b"/"), None);
    assert_eq!(file_name(b""), None);
    assert_eq!(file_name(b"."), None);
}

#[test]
fn file_names_agree_with_std() {
    for s in ["a/b/c.txt", "x", "a/", "a/.", "a/..", "/", "", ".", "..", "/a/b//", "./x.y"] {
        let theirs = std::path::Path::new(s)
            .file_name()
            .map(|n| v(n.to_str().unwrap()));
        assert_eq!(file_name(s.as_bytes()), theirs, "{:?}", s);
    }
}

#[test]
fn without_pattern_everything_is_selected() {
    assert!(is_selected(b"a/b/c.txt", &None));
    assert!(is_selected(b"..", &None));
    assert!(is_selected(b"", &None));
}

#[test]
fn pattern_is_held_against_the_file_name() {
    let re = Some(compile("^c.*\\.txt$").unwrap());
    assert!(is_selected(b"a/b/c.txt", &re));
    assert!(is_selected(b"cc.txt", &re));
    assert!(!is_selected(b"c.txt/b", &re));
    assert!(!is_selected(b"a/b/d.txt", &re));
    assert!(!is_selected(b"a/..", &re));
    assert!(!is_selected(b"", &re));
    let any = Some(compile("b").unwrap());
    assert!(!is_selected(b"b/c", &any));
    assert!(is_selected(b"c/abc", &any));
}

#[test]
fn name_that_is_not_text_is_not_selected() {
    let re = Some(compile(".*").unwrap());
    assert!(is_selected(b"a/ok", &re));
    assert!(!is_selected(&[b'a', b'/', 0xFF, 0xFE], &re));
    assert!(is_selected(&[b'a', b'/', 0xFF, 0xFE], &None));
}

#[test]
fn selected_entries_are_resolved() {
    let re = Some(compile("txt$").unwrap());
    assert_eq!(
        exec(b"a/c.txt", &re, Some(b"out")),
        Ok(Some(Resolved {
            dirs: vec![v("out/a")],
            file: v("out/a/c.txt")
        }))
    );
    assert_eq!(exec(b"a/c.bin", &re, Some(b"out")), Ok(None));
    assert_eq!(exec(b"../c.txt", &re, Some(b"out")), Err(PathError::Traversal));
    assert_eq!(exec(b"../c.bin", &re, Some(b"out")), Ok(None));
    assert_eq!(exec(b"/c.txt", &None, None), Err(PathError::NotRelative));
    assert_eq!(
        exec(b"c.txt", &None, None),
        Ok(Some(Resolved {
            dirs: vec![],
            file: v("c.txt")
        }))
    );
}

#[test]
fn the_flag_decides() {
    assert_eq!(exec_selected(b"a/b", false, None), Ok(None));
    assert_eq!(exec_selected(b"../b", false, None), Ok(None));
    assert_eq!(exec_selected(b"../b", true, None), Err(PathError::Traversal));
    assert_eq!(
        exec_selected(b"a/b", true, None),
        Ok(Some(Resolved {
            dirs: vec![v("a")],
            file: v("a/b")
        }))
    );
}

#[test]
fn patterns_are_checked() {
    assert_eq!(valid_regex("a+b"), Ok(()));
    assert!(matches!(valid_regex("a("), Err(RegexFault::Syntax(_))));
    assert!(matches!(compile("["), Err(RegexFault::Syntax(_))));
    assert!(matches!(
        valid_regex("\\w{100000}\\w{100000}"),
        Err(RegexFault::CompiledTooBig(_))
    ));
}

#[test]
fn compiling_is_the_same_every_time() {
    for p in ["a+", "(", "[a-z]{2,3}$", "\\", "*"] {
        assert_eq!(valid_regex(p), valid_regex(p));
        assert_eq!(valid_regex(p).is_ok(), compile(p).is_ok());
    }
}

#[test]
fn faults_keep_what_the_error_says() {
    assert_eq!(
        regex_fault(regex::Error::CompiledTooBig(77)),
        RegexFault::CompiledTooBig(77)
    );
    assert_eq!(
        regex_fault(regex::Error::Syntax("bad".to_string())),
        RegexFault::Syntax("bad".to_string())
    );
}
