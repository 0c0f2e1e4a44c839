//! The file-type tag of a directory entry, from its name's extension.

use vstd::prelude::*;
use crate::text::{ext_of, extension_of, lower_of, lowercase, text_eq};

verus! {

/// The semantic kind of a directory entry.
#[derive(Clone, Copy, Debug, PartialEq, Eq, Structural)]
pub enum FileType {
    Image,
    Video,
    Document,
    Code,
    Archive,
    Directory,
    Other,
}

pub open spec fn is_image_ext(e: Seq<char>) -> bool {
    e == "jpg"@ || e == "jpeg"@ || e == "png"@ || e == "gif"@ || e == "webp"@ || e == "bmp"@
        || e == "svg"@ || e == "ico"@
}

pub open spec fn is_video_ext(e: Seq<char>) -> bool {
    e == "mp4"@ || e == "mov"@ || e == "avi"@ || e == "mkv"@ || e == "webm"@
}

pub open spec fn is_document_ext(e: Seq<char>) -> bool {
    e == "pdf"@ || e == "doc"@ || e == "docx"@ || e == "xls"@ || e == "xlsx"@ || e == "ppt"@
        || e == "pptx"@ || e == "txt"@ || e == "md"@
}

pub open spec fn is_code_ext(e: Seq<char>) -> bool {
    e == "rs"@ || e == "js"@ || e == "ts"@ || e == "tsx"@ || e == "jsx"@ || e == "py"@ || e
        == "go"@ || e == "java"@ || e == "c"@ || e == "cpp"@ || e == "h"@ || e == "css"@ || e
        == "html"@ || e == "json"@ || e == "toml"@ || e == "yaml"@ || e == "yml"@
}

pub open spec fn is_archive_ext(e: Seq<char>) -> bool {
    e == "zip"@ || e == "tar"@ || e == "gz"@ || e == "7z"@ || e == "rar"@ || e == "dmg"@ || e
        == "pkg"@
}

/// The tag of a lower-case extension.
pub open spec fn type_of_ext(e: Seq<char>) -> FileType {
    if is_image_ext(e) {
        FileType::Image
    } else if is_video_ext(e) {
        FileType::Video
    } else if is_document_ext(e) {
        FileType::Document
    } else if is_code_ext(e) {
        FileType::Code
    } else if is_archive_ext(e) {
        FileType::Archive
    } else {
        FileType::Other
    }
}

/// The tag of a file name: its extension (the text after its last `.`),
/// lower-cased, decides; a name without a `.` has none and is `Other`.
pub open spec fn type_of_name(name: Seq<char>) -> FileType {
    if name.contains('.') {
        type_of_ext(lower_of(ext_of(name)))
    } else {
        FileType::Other
    }
}

/// The tag of a directory entry: directories are always `Directory`.
pub open spec fn type_of_entry(name: Seq<char>, is_dir: bool) -> FileType {
    if is_dir {
        FileType::Directory
    } else {
        type_of_name(name)
    }
}

/// The tag of an extension that is already lower-case.
pub fn classify_extension(ext: &str) -> (r: FileType)
    ensures
        r == type_of_ext(ext@),
{
    if text_eq(ext, "jpg") || text_eq(ext, "jpeg") || text_eq(ext, "png") || text_eq(ext, "gif")
        || text_eq(ext, "webp") || text_eq(ext, "bmp") || text_eq(ext, "svg") || text_eq(
        ext,
        "ico",
    ) {
        FileType::Image
    } else if text_eq(ext, "mp4") || text_eq(ext, "mov") || text_eq(ext, "avi") || text_eq(
        ext,
        "mkv",
    ) || text_eq(ext, "webm") {
        FileType::Video
    } else if text_eq(ext, "pdf") || text_eq(ext, "doc") || text_eq(ext, "docx") || text_eq(
        ext,
        "xls",
    ) || text_eq(ext, "xlsx") || text_eq(ext, "ppt") || text_eq(ext, "pptx") || text_eq(
        ext,
        "txt",
    ) || text_eq(ext, "md") {
        FileType::Document
    } else if text_eq(ext, "rs") || text_eq(ext, "js") || text_eq(ext, "ts") || text_eq(ext, "tsx")
        || text_eq(ext, "jsx") || text_eq(ext, "py") || text_eq(ext, "go") || text_eq(ext, "java")
        || text_eq(ext, "c") || text_eq(ext, "cpp") || text_eq(ext, "h") || text_eq(ext, "css")
        || text_eq(ext, "html") || text_eq(ext, "json") || text_eq(ext, "toml") || text_eq(
        ext,
        "yaml",
    ) || text_eq(ext, "yml") {
        FileType::Code
    } else if text_eq(ext, "zip") || text_eq(ext, "tar") || text_eq(ext, "gz") || text_eq(ext, "7z")
        || text_eq(ext, "rar") || text_eq(ext, "dmg") || text_eq(ext, "pkg") {
        FileType::Archive
    } else {
        FileType::Other
    }
}

/// The tag of a file name, from the lower-cased text after its last `.`;
/// a missing or unknown extension gives `Other`.
pub fn classify_file(name: &str) -> (r: FileType)
    ensures
        r == type_of_name(name@),
        !name@.contains('.') ==> r == FileType::Other,
{
    match extension_of(name) {
        Some(ext) => {
            let lower = lowercase(ext);
            classify_extension(lower.as_str())
        },
        None => FileType::Other,
    }
}

/// The tag of a directory entry; a directory is `Directory` whatever its name.
pub fn classify_entry(name: &str, is_dir: bool) -> (r: FileType)
    ensures
        r == type_of_entry(name@, is_dir),
        is_dir ==> r == FileType::Directory,
{
    if is_dir {
        FileType::Directory
    } else {
        classify_file(name)
    }
}

} // verus!
