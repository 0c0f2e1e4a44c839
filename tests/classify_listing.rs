use explorer_core::classify::{classify_entry, classify_extension, classify_file, FileType};
use explorer_core::listing::{build_listing, should_list, EntryMeta, RawEntry};
use explorer_core::text::{decimal, extension_of, hexadecimal, starts_with_char, text_eq};

#[test]
fn classify_upper_case_extension() {
    assert_eq!(classify_file("photo.JPG"), FileType::Image);
}

#[test]
fn classify_uses_last_extension() {
    assert_eq!(classify_file("archive.tar.gz"), FileType::Archive);
    assert_eq!(extension_of("archive.tar.gz"), Some("gz"));
}

#[test]
fn classify_without_extension() {
    assert_eq!(classify_file("noext"), FileType::Other);
    assert_eq!(extension_of("noext"), None);
    assert_eq!(classify_file("zip"), FileType::Other);
    assert_eq!(classify_file("rs"), FileType::Other);
    assert_eq!(classify_file(""), FileType::Other);
    assert_eq!(classify_file(".md"), FileType::Document);
}

#[test]
fn classify_directory_ignores_name() {
    assert_eq!(classify_entry("photo.jpg", true), FileType::Directory);
    assert_eq!(classify_entry("archive.zip", true), FileType::Directory);
    assert_eq!(classify_entry("photo.jpg", false), FileType::Image);
}

#[test]
fn classify_each_family() {
    assert_eq!(classify_file("clip.MKV"), FileType::Video);
    assert_eq!(classify_file("notes.md"), FileType::Document);
    assert_eq!(classify_file("main.rs"), FileType::Code);
    assert_eq!(classify_file("setup.dmg"), FileType::Archive);
    assert_eq!(classify_file("data.bin"), FileType::Other);
    assert_eq!(classify_file("trailing."), FileType::Other);
    assert_eq!(extension_of("trailing."), Some(""));
    assert_eq!(classify_extension("yml"), FileType::Code);
    assert_eq!(classify_extension("YML"), FileType::Other);
}

#[test]
fn text_helpers() {
    assert!(text_eq("abc", "abc"));
    assert!(!text_eq("abc", "abd"));
    assert!(starts_with_char(".hidden", '.'));
    assert!(!starts_with_char("", '.'));
    assert_eq!(decimal(0), "0");
    assert_eq!(decimal(1234), "1234");
    assert_eq!(hexadecimal(255), "ff");
    assert_eq!(hexadecimal(0x1a2b), "1a2b");
    assert_eq!(hexadecimal(u64::MAX), "ffffffffffffffff");
}

#[test]
fn listing_filters() {
    assert!(should_list("readme.txt", 0));
    assert!(!should_list(".git", 0));
    assert!(!should_list("Desktop.INI", 0));
    assert!(!should_list("thumbs.db", 0));
    assert!(!should_list("NTUSER.DAT", 0));
    assert!(!should_list("visible.txt", 2));
    assert!(!should_list("visible.txt", 4));
    assert!(should_list("visible.txt", 1));
}

fn raw(name: &str, meta: Option<EntryMeta>) -> RawEntry {
    RawEntry { name: name.to_string(), path: format!("/d/{}", name), meta }
}

fn meta(is_dir: bool, len: u64) -> Option<EntryMeta> {
    Some(EntryMeta { is_dir, len, modified: 1_700_000_000_000, attributes: 0 })
}

#[test]
fn listing_keeps_order_and_fills_fields() {
    let raws = vec![
        raw("b.png", meta(false, 42)),
        raw(".hidden", meta(false, 1)),
        raw("unreadable.txt", None),
        raw("src.rs", meta(true, 4096)),
        raw("Thumbs.db", meta(false, 7)),
        raw("a.txt", meta(false, 3)),
    ];
    let out = build_listing(&raws);
    let names: Vec<&str> = out.iter().map(|e| e.name.as_str()).collect();
    assert_eq!(names, vec!["b.png", "src.rs", "a.txt"]);
    assert_eq!(out[0].file_type, FileType::Image);
    assert_eq!(out[0].size, 42);
    assert_eq!(out[0].path, "/d/b.png");
    assert_eq!(out[0].modified, 1_700_000_000_000);
    assert!(out[1].is_dir);
    assert_eq!(out[1].size, 0);
    assert_eq!(out[1].file_type, FileType::Directory);
    assert_eq!(out[2].file_type, FileType::Document);
}

#[test]
fn listing_of_nothing() {
    assert!(build_listing(&Vec::new()).is_empty());
}
