use car::extract::{
    build_path, components, entry_path, place, unpack, Component, PathError, Resolved,
};

fn v(s: &str) -> Vec<u8> {
    s.as_bytes().to_vec()
}

fn resolved(dirs: &[&str], file: &str) -> Resolved {
    Resolved {
        dirs: dirs.iter().map(|d| v(d)).collect(),
        file: v(file),
    }
}

#[test]
fn nested_path_lands_below_root() {
    let r = unpack(Some(b"root"), b"a/b/c.txt").unwrap();
    assert_eq!(r, resolved(&["root/a", "root/a/b"], "root/a/b/c.txt"));
}

#[test]
fn parent_dir_at_start_is_rejected() {
    assert_eq!(
        unpack(Some(b"root"), b"../etc/passwd"),
        Err(PathError::Traversal)
    );
}

#[test]
fn absolute_path_is_rejected() {
    assert_eq!(
        unpack(Some(b"root"), b"/etc/passwd"),
        Err(PathError::NotRelative)
    );
}

#[test]
fn parent_dir_in_the_middle_is_rejected() {
    assert_eq!(
        unpack(Some(b"root"), b"a/../b.txt"),
        Err(PathError::Traversal)
    );
}

#[test]
fn parent_dir_at_end_is_rejected() {
    assert_eq!(unpack(Some(b"root"), b"a/b/.."), Err(PathError::Traversal));
}

#[test]
fn empty_path_is_rejected() {
    assert_eq!(unpack(Some(b"root"), b""), Err(PathError::Empty));
    assert_eq!(unpack(None, b""), Err(PathError::Empty));
    assert_eq!(unpack(None, b"."), Err(PathError::Empty));
    assert_eq!(unpack(None, b"./"), Err(PathError::Empty));
}

#[test]
fn leading_current_dir_is_ignored() {
    let r = unpack(Some(b"root"), b"./a.txt").unwrap();
    assert_eq!(r, resolved(&[], "root/a.txt"));
}

#[test]
fn without_root_the_path_is_relative_to_the_working_directory() {
    let r = unpack(None, b"a/b/c.txt").unwrap();
    assert_eq!(r, resolved(&["a", "a/b"], "a/b/c.txt"));
    let r = build_path(b"x.bin").unwrap();
    assert_eq!(r, resolved(&[], "x.bin"));
}

#[test]
fn root_with_trailing_separator_gets_no_second_one() {
    let r = unpack(Some(b"/tmp/out/"), b"a/b").unwrap();
    assert_eq!(r, resolved(&["/tmp/out/a"], "/tmp/out/a/b"));
}

#[test]
fn absolute_root_is_kept() {
    let r = unpack(Some(b"/tmp/out"), b"a").unwrap();
    assert_eq!(r, resolved(&[], "/tmp/out/a"));
}

#[test]
fn backslashes_become_separators() {
    assert_eq!(entry_path(b"a\\b\\c.txt"), v("a/b/c.txt"));
    assert_eq!(entry_path(b"a/b"), v("a/b"));
    let r = unpack(Some(b"root"), b"a\\b\\c.txt").unwrap();
    assert_eq!(r, resolved(&["root/a", "root/a/b"], "root/a/b/c.txt"));
    assert_eq!(
        unpack(Some(b"root"), b"a\\..\\..\\x"),
        Err(PathError::Traversal)
    );
    assert_eq!(unpack(Some(b"root"), b"\\x"), Err(PathError::NotRelative));
}

#[test]
fn repeated_and_trailing_separators_are_dropped() {
    let r = unpack(Some(b"root"), b"a//b///c/").unwrap();
    assert_eq!(r, resolved(&["root/a", "root/a/b"], "root/a/b/c"));
}

#[test]
fn inner_current_dir_is_dropped() {
    let r = unpack(Some(b"root"), b"a/./b").unwrap();
    assert_eq!(r, resolved(&["root/a"], "root/a/b"));
}

#[test]
fn dots_inside_names_are_names() {
    let r = unpack(None, b"..a/b../...").unwrap();
    assert_eq!(r, resolved(&["..a", "..a/b.."], "..a/b../..."));
}

#[test]
fn components_of_paths() {
    assert_eq!(components(b""), Vec::<Component>::new());
    assert_eq!(components(b"/"), vec![Component::RootDir]);
    assert_eq!(
        components(b"/a/./b/../c"),
        vec![
            Component::RootDir,
            Component::Normal(v("a")),
            Component::Normal(v("b")),
            Component::ParentDir,
            Component::Normal(v("c")),
        ]
    );
    assert_eq!(
        components(b"./a/."),
        vec![Component::CurDir, Component::Normal(v("a"))]
    );
    assert_eq!(components(b"."), vec![Component::CurDir]);
    assert_eq!(components(b".."), vec![Component::ParentDir]);
    assert_eq!(components(b"//"), vec![Component::RootDir]);
}

#[test]
fn components_agree_with_std_on_unix_paths() {
    let samples: &[&str] = &[
        "", "/", "a", "a/b", "/a/b", "./a", "a/./b", "a/b/.", "a//b", "a/b/", "../a", "a/..",
        "/..", "./", ".", "..", "./../x", "a/.b/c.", "...", "/./a", "//a//", ".a", "a/../..",
    ];
    for s in samples {
        let ours = components(s.as_bytes());
        let theirs: Vec<Component> = std::path::Path::new(s)
            .components()
            .map(|c| match c {
                std::path::Component::Prefix(_) => Component::Prefix,
                std::path::Component::RootDir => Component::RootDir,
                std::path::Component::CurDir => Component::CurDir,
                std::path::Component::ParentDir => Component::ParentDir,
                std::path::Component::Normal(n) => Component::Normal(v(n.to_str().unwrap())),
            })
            .collect();
        assert_eq!(ours, theirs, "{:?}", s);
    }
}

#[test]
fn prefix_and_root_anywhere_are_rejected() {
    let parts = vec![
        Component::Normal(v("a")),
        Component::RootDir,
        Component::Normal(v("b")),
    ];
    assert_eq!(place(&parts, Some(b"root")), Err(PathError::NotRelative));
    let parts = vec![Component::Normal(v("a")), Component::Prefix];
    assert_eq!(place(&parts, Some(b"root")), Err(PathError::NotRelative));
    let parts = vec![Component::Prefix, Component::ParentDir];
    assert_eq!(place(&parts, None), Err(PathError::NotRelative));
    let parts = vec![Component::ParentDir, Component::RootDir];
    assert_eq!(place(&parts, None), Err(PathError::Traversal));
}

#[test]
fn current_dir_components_are_passed_over() {
    let parts = vec![
        Component::CurDir,
        Component::Normal(v("a")),
        Component::CurDir,
        Component::Normal(v("b")),
        Component::CurDir,
    ];
    assert_eq!(
        place(&parts, Some(b"r")),
        Ok(resolved(&["r/a"], "r/a/b"))
    );
    assert_eq!(
        place(&[Component::CurDir, Component::CurDir], Some(b"r")),
        Err(PathError::Empty)
    );
}

#[test]
fn path_error_texts() {
    assert_eq!(PathError::NotRelative.message(), "Must be relative path");
    assert_eq!(PathError::Empty.message(), "Path has no length");
    assert_eq!(PathError::Traversal.message(), "URHAXSUX");
}
