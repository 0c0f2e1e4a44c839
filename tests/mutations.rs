use explorer_core::naming::{duplicate_candidate, duplicate_name, extension_start};
use explorer_core::ops::{
    archive_child_path, archive_dir_entry, copy_step, delete_action, folder_display_name,
    move_fallback, DeleteAction, FsStep,
};

fn names(v: &[&str]) -> Vec<String> {
    v.iter().map(|s| s.to_string()).collect()
}

#[test]
fn duplicate_file_skips_taken_names() {
    let existing = names(&["report.txt", "report (copy).txt"]);
    assert_eq!(duplicate_name("report.txt", false, &existing), "report (copy 2).txt");
}

#[test]
fn duplicate_directory_skips_taken_names() {
    let existing = names(&["Assets", "Assets (copy)"]);
    assert_eq!(duplicate_name("Assets", true, &existing), "Assets (copy 2)");
}

#[test]
fn duplicate_first_attempt_and_gaps() {
    assert_eq!(duplicate_name("a.txt", false, &names(&["a.txt"])), "a (copy).txt");
    let existing = names(&["a (copy).txt", "a (copy 2).txt", "a (copy 4).txt"]);
    assert_eq!(duplicate_name("a.txt", false, &existing), "a (copy 3).txt");
    assert_eq!(duplicate_name("x", false, &Vec::new()), "x (copy)");
}

#[test]
fn duplicate_candidates() {
    assert_eq!(duplicate_candidate("archive.tar.gz", false, 1), "archive.tar (copy).gz");
    assert_eq!(duplicate_candidate("archive.tar.gz", false, 12), "archive.tar (copy 12).gz");
    assert_eq!(duplicate_candidate(".bashrc", false, 1), ".bashrc (copy)");
    assert_eq!(duplicate_candidate("v1.2", true, 3), "v1 (copy 3)");
    assert_eq!(extension_start("a.b.c"), Some(3));
    assert_eq!(extension_start(".."), None);
    assert_eq!(extension_start("plain"), None);
}

#[test]
fn delete_modes() {
    assert_eq!(delete_action(true, true), DeleteAction::Trash);
    assert_eq!(delete_action(true, false), DeleteAction::Trash);
    assert_eq!(delete_action(false, true), DeleteAction::RemoveTree);
    assert_eq!(delete_action(false, false), DeleteAction::RemoveFile);
}

#[test]
fn move_after_failed_rename() {
    let steps = move_fallback("/a/f.txt", "/b/f.txt", false, false);
    assert_eq!(steps.len(), 2);
    match (&steps[0], &steps[1]) {
        (FsStep::CopyFile { from, to }, FsStep::RemoveFile(p)) => {
            assert_eq!(from, "/a/f.txt");
            assert_eq!(to, "/b/f.txt");
            assert_eq!(p, "/a/f.txt");
        }
        other => panic!("unexpected {:?}", other),
    }
    let steps = move_fallback("/a/d", "/b/d", true, false);
    assert!(matches!(&steps[0], FsStep::CopyTree { .. }));
    assert!(matches!(&steps[1], FsStep::RemoveTree(p) if p == "/a/d"));
    assert!(move_fallback("/a/d", "/b/d", true, true).is_empty());
}

#[test]
fn copy_steps() {
    assert!(matches!(copy_step("/a/d", "/b/d", true), FsStep::CopyTree { .. }));
    match copy_step("/a/f", "/b/f", false) {
        FsStep::CopyFile { from, to } => {
            assert_eq!(from, "/a/f");
            assert_eq!(to, "/b/f");
        }
        other => panic!("unexpected {:?}", other),
    }
}

#[test]
fn archive_names() {
    assert_eq!(archive_dir_entry("photos"), "photos/");
    assert_eq!(archive_child_path("photos", "a.jpg"), "photos/a.jpg");
}

#[test]
fn folder_names() {
    assert_eq!(folder_display_name("/Users/me/Projects"), "Projects");
    assert_eq!(folder_display_name("C:\\Users\\me"), "me");
    assert_eq!(folder_display_name("plain"), "plain");
    assert_eq!(folder_display_name("/trailing/"), "");
}
