//! Icons, colours and previews chosen from a file's name.

use vstd::prelude::*;
use crate::constants::{ICO_IMG, ICO_ARCHIVE, ICO_PDF, ICO_BIN, ICO_CODE, ICO_FILE, COL_ZIP, COL_FILE};
use crate::paths::{extension, extension_of, to_lowercase, lowercase_of};
use crate::types::PreviewContent;
use crate::text::owned;

verus! {

/// `e` is one of the words in `list`.
pub open spec fn one_of(e: Seq<char>, list: Seq<&'static str>) -> bool {
    exists|i: int| 0 <= i < list.len() && (#[trigger] list[i])@ == e
}

/// Whether `e` is one of the words in `list`.
pub fn is_one_of(e: &String, list: &Vec<&'static str>) -> (r: bool)
    ensures
        r == one_of(e@, list@),
{
    let mut i: usize = 0;
    while i < list.len()
        invariant
            i <= list.len(),
            forall|j: int| 0 <= j < i ==> (#[trigger] list@[j])@ != e@,
        decreases list.len() - i,
    {
        let w = owned(list[i]);
        if w == *e {
            return true;
        }
        i = i + 1;
    }
    false
}

/// The lowercase extension of `p`, or nothing.
pub open spec fn lower_ext(p: Seq<char>) -> Seq<char> {
    match extension_of(p) {
        Some(e) => lowercase_of(e),
        None => Seq::empty(),
    }
}

/// The lowercase extension of `p` (empty when it has none).
pub fn lower_extension(p: &str) -> (r: String)
    ensures
        r@ == lower_ext(p@),
{
    match extension(p) {
        Some(e) => to_lowercase(e.as_str()),
        None => String::new(),
    }
}

pub open spec fn image_exts() -> Seq<&'static str> {
    seq!["png", "jpg", "jpeg", "gif", "bmp", "webp", "svg", "ico"]
}

pub open spec fn archive_exts() -> Seq<&'static str> {
    seq!["zip", "tar", "gz", "bz2", "xz", "7z", "rar"]
}

pub open spec fn binary_icon_exts() -> Seq<&'static str> {
    seq!["exe", "dll", "so", "dylib", "bin"]
}

pub open spec fn code_exts() -> Seq<&'static str> {
    seq!["rs", "js", "ts", "py", "go", "c", "cpp", "h", "java", "rb", "lua", "sh", "bash"]
}

/// The icon for a file with lowercase extension `e`.
pub open spec fn icon_for(e: Seq<char>) -> Seq<char> {
    if one_of(e, image_exts()) {
        ICO_IMG@
    } else if one_of(e, archive_exts()) {
        ICO_ARCHIVE@
    } else if e == "pdf"@ {
        ICO_PDF@
    } else if one_of(e, binary_icon_exts()) {
        ICO_BIN@
    } else if one_of(e, code_exts()) {
        ICO_CODE@
    } else {
        ICO_FILE@
    }
}

/// The icon shown for a file named `name`, by its extension.
pub fn file_icon(name: &str) -> (r: &'static str)
    ensures
        r@ == icon_for(lower_ext(name@)),
{
    let ext = lower_extension(name);
    let images = vec!["png", "jpg", "jpeg", "gif", "bmp", "webp", "svg", "ico"];
    let archives = vec!["zip", "tar", "gz", "bz2", "xz", "7z", "rar"];
    let binaries = vec!["exe", "dll", "so", "dylib", "bin"];
    let code = vec!["rs", "js", "ts", "py", "go", "c", "cpp", "h", "java", "rb", "lua", "sh", "bash"];
    if is_one_of(&ext, &images) {
        ICO_IMG
    } else if is_one_of(&ext, &archives) {
        ICO_ARCHIVE
    } else if ext == owned("pdf") {
        ICO_PDF
    } else if is_one_of(&ext, &binaries) {
        ICO_BIN
    } else if is_one_of(&ext, &code) {
        ICO_CODE
    } else {
        ICO_FILE
    }
}

/// The icon colour for a file named `name`: archives stand out.
pub fn file_icon_color(name: &str) -> (r: u32)
    ensures
        r == if lower_ext(name@) == "zip"@ { COL_ZIP } else { COL_FILE },
{
    let ext = lower_extension(name);
    if ext == owned("zip") {
        COL_ZIP
    } else {
        COL_FILE
    }
}

pub open spec fn text_exts() -> Seq<&'static str> {
    seq![
        "txt", "md", "rs", "toml", "yaml", "yml", "json", "js", "ts", "css", "html", "htm", "xml",
        "sh", "bash", "zsh", "fish", "py", "rb", "go", "c", "cpp", "h", "hpp", "java", "kt",
        "swift", "ini", "cfg", "conf", "log", "csv", "sql", "lua", "vim", "env",
    ]
}

pub open spec fn video_exts() -> Seq<&'static str> {
    seq!["mp4", "mkv", "avi", "mov", "wmv", "flv"]
}

pub open spec fn audio_exts() -> Seq<&'static str> {
    seq!["mp3", "flac", "wav", "ogg", "aac", "m4a"]
}

pub open spec fn program_exts() -> Seq<&'static str> {
    seq!["exe", "dll", "so", "dylib"]
}

fn text_ext_list() -> (r: Vec<&'static str>)
    ensures
        r@ == text_exts(),
{
    vec![
        "txt", "md", "rs", "toml", "yaml", "yml", "json", "js", "ts", "css", "html", "htm", "xml",
        "sh", "bash", "zsh", "fish", "py", "rb", "go", "c", "cpp", "h", "hpp", "java", "kt",
        "swift", "ini", "cfg", "conf", "log", "csv", "sql", "lua", "vim", "env",
    ]
}

/// Whether the preview of `path` (not a directory) tries to show it as text.
pub fn preview_reads_text(path: &str) -> (r: bool)
    ensures
        r == one_of(lower_ext(path@), text_exts()),
{
    let ext = lower_extension(path);
    is_one_of(&ext, &text_ext_list())
}

/// The kind of a non-text file by its lowercase extension `e`.
pub open spec fn kind_for(e: Seq<char>) -> Seq<char> {
    if one_of(e, image_exts()) {
        "Image"@
    } else if one_of(e, video_exts()) {
        "Video"@
    } else if one_of(e, audio_exts()) {
        "Audio"@
    } else if one_of(e, archive_exts()) {
        "Archive"@
    } else if e == "pdf"@ {
        "PDF"@
    } else if one_of(e, program_exts()) {
        "Binary"@
    } else {
        "File"@
    }
}

/// The preview of `path` from what inspecting it found: `is_dir`, the
/// number of items of a directory (when it could be read), the text of a
/// file read as text (when that was tried and worked), and the file's size
/// (when known). A directory shows its item count (0 when unreadable);
/// a file with a text extension whose text was read shows the text;
/// anything else shows its size and kind.
pub fn build_preview(path: &str, is_dir: bool, item_count: Option<usize>, text: Option<String>, size: Option<u64>) -> (r: PreviewContent)
    ensures
        is_dir ==> r == (PreviewContent::Directory { item_count: match item_count { Some(n) => n, None => 0 } }),
        !is_dir && one_of(lower_ext(path@), text_exts()) && text is Some ==> r == PreviewContent::Text(text->Some_0),
        !is_dir && !(one_of(lower_ext(path@), text_exts()) && text is Some) ==> (r matches PreviewContent::Binary { size: s, kind }
            && s == (match size { Some(n) => n, None => 0 }) && kind@ == kind_for(lower_ext(path@))),
{
    if is_dir {
        return PreviewContent::Directory { item_count: match item_count { Some(n) => n, None => 0 } };
    }
    let ext = lower_extension(path);
    if is_one_of(&ext, &text_ext_list()) {
        match text {
            Some(t) => return PreviewContent::Text(t),
            None => {},
        }
    }
    let size = match size { Some(n) => n, None => 0 };
    let images = vec!["png", "jpg", "jpeg", "gif", "bmp", "webp", "svg", "ico"];
    let videos = vec!["mp4", "mkv", "avi", "mov", "wmv", "flv"];
    let audios = vec!["mp3", "flac", "wav", "ogg", "aac", "m4a"];
    let archives = vec!["zip", "tar", "gz", "bz2", "xz", "7z", "rar"];
    let programs = vec!["exe", "dll", "so", "dylib"];
    let kind: &'static str = if is_one_of(&ext, &images) {
        "Image"
    } else if is_one_of(&ext, &videos) {
        "Video"
    } else if is_one_of(&ext, &audios) {
        "Audio"
    } else if is_one_of(&ext, &archives) {
        "Archive"
    } else if ext == owned("pdf") {
        "PDF"
    } else if is_one_of(&ext, &programs) {
        "Binary"
    } else {
        "File"
    };
    PreviewContent::Binary { size, kind }
}

/// Law: the extensions whose files the preview shows as text are exactly
/// txt, md, rs, toml, yaml, yml, json, js, ts, css, html, htm, xml, sh,
/// bash, zsh, fish, py, rb, go, c, cpp, h, hpp, java, kt, swift, ini, cfg,
/// conf, log, csv, sql, lua, vim and env.
pub proof fn law_text_extensions(e: Seq<char>)
    ensures
        one_of(e, text_exts()) <==> (e == "txt"@ || e == "md"@ || e == "rs"@ || e == "toml"@ || e == "yaml"@
            || e == "yml"@ || e == "json"@ || e == "js"@ || e == "ts"@ || e == "css"@ || e == "html"@
            || e == "htm"@ || e == "xml"@ || e == "sh"@ || e == "bash"@ || e == "zsh"@ || e == "fish"@
            || e == "py"@ || e == "rb"@ || e == "go"@ || e == "c"@ || e == "cpp"@ || e == "h"@ || e == "hpp"@
            || e == "java"@ || e == "kt"@ || e == "swift"@ || e == "ini"@ || e == "cfg"@ || e == "conf"@
            || e == "log"@ || e == "csv"@ || e == "sql"@ || e == "lua"@ || e == "vim"@ || e == "env"@),
{
    let l = text_exts();
    if e == "txt"@ { assert(l[0]@ == e); }
    else if e == "md"@ { assert(l[1]@ == e); }
    else if e == "rs"@ { assert(l[2]@ == e); }
    else if e == "toml"@ { assert(l[3]@ == e); }
    else if e == "yaml"@ { assert(l[4]@ == e); }
    else if e == "yml"@ { assert(l[5]@ == e); }
    else if e == "json"@ { assert(l[6]@ == e); }
    else if e == "js"@ { assert(l[7]@ == e); }
    else if e == "ts"@ { assert(l[8]@ == e); }
    else if e == "css"@ { assert(l[9]@ == e); }
    else if e == "html"@ { assert(l[10]@ == e); }
    else if e == "htm"@ { assert(l[11]@ == e); }
    else if e == "xml"@ { assert(l[12]@ == e); }
    else if e == "sh"@ { assert(l[13]@ == e); }
    else if e == "bash"@ { assert(l[14]@ == e); }
    else if e == "zsh"@ { assert(l[15]@ == e); }
    else if e == "fish"@ { assert(l[16]@ == e); }
    else if e == "py"@ { assert(l[17]@ == e); }
    else if e == "rb"@ { assert(l[18]@ == e); }
    else if e == "go"@ { assert(l[19]@ == e); }
    else if e == "c"@ { assert(l[20]@ == e); }
    else if e == "cpp"@ { assert(l[21]@ == e); }
    else if e == "h"@ { assert(l[22]@ == e); }
    else if e == "hpp"@ { assert(l[23]@ == e); }
    else if e == "java"@ { assert(l[24]@ == e); }
    else if e == "kt"@ { assert(l[25]@ == e); }
    else if e == "swift"@ { assert(l[26]@ == e); }
    else if e == "ini"@ { assert(l[27]@ == e); }
    else if e == "cfg"@ { assert(l[28]@ == e); }
    else if e == "conf"@ { assert(l[29]@ == e); }
    else if e == "log"@ { assert(l[30]@ == e); }
    else if e == "csv"@ { assert(l[31]@ == e); }
    else if e == "sql"@ { assert(l[32]@ == e); }
    else if e == "lua"@ { assert(l[33]@ == e); }
    else if e == "vim"@ { assert(l[34]@ == e); }
    else if e == "env"@ { assert(l[35]@ == e); }
    if one_of(e, l) {
        let i = choose|i: int| 0 <= i < l.len() && (#[trigger] l[i])@ == e;
        assert(0 <= i < 36);
    }
}

/// Law: `image_exts` holds exactly png, jpg, jpeg, gif, bmp, webp, svg, ico.
pub proof fn law_image_exts(e: Seq<char>)
    ensures
        one_of(e, image_exts()) <==> (e == "png"@ || e == "jpg"@ || e == "jpeg"@ || e == "gif"@ || e == "bmp"@ || e == "webp"@ || e == "svg"@ || e == "ico"@),
{
    let l = image_exts();
    if e == "png"@ { assert(l[0]@ == e); }
    else if e == "jpg"@ { assert(l[1]@ == e); }
    else if e == "jpeg"@ { assert(l[2]@ == e); }
    else if e == "gif"@ { assert(l[3]@ == e); }
    else if e == "bmp"@ { assert(l[4]@ == e); }
    else if e == "webp"@ { assert(l[5]@ == e); }
    else if e == "svg"@ { assert(l[6]@ == e); }
    else if e == "ico"@ { assert(l[7]@ == e); }
    if one_of(e, l) {
        let i = choose|i: int| 0 <= i < l.len() && (#[trigger] l[i])@ == e;
        assert(0 <= i < 8);
    }
}

/// Law: `archive_exts` holds exactly zip, tar, gz, bz2, xz, 7z, rar.
pub proof fn law_archive_exts(e: Seq<char>)
    ensures
        one_of(e, archive_exts()) <==> (e == "zip"@ || e == "tar"@ || e == "gz"@ || e == "bz2"@ || e == "xz"@ || e == "7z"@ || e == "rar"@),
{
    let l = archive_exts();
    if e == "zip"@ { assert(l[0]@ == e); }
    else if e == "tar"@ { assert(l[1]@ == e); }
    else if e == "gz"@ { assert(l[2]@ == e); }
    else if e == "bz2"@ { assert(l[3]@ == e); }
    else if e == "xz"@ { assert(l[4]@ == e); }
    else if e == "7z"@ { assert(l[5]@ == e); }
    else if e == "rar"@ { assert(l[6]@ == e); }
    if one_of(e, l) {
        let i = choose|i: int| 0 <= i < l.len() && (#[trigger] l[i])@ == e;
        assert(0 <= i < 7);
    }
}

/// Law: `binary_icon_exts` holds exactly exe, dll, so, dylib, bin.
pub proof fn law_binary_icon_exts(e: Seq<char>)
    ensures
        one_of(e, binary_icon_exts()) <==> (e == "exe"@ || e == "dll"@ || e == "so"@ || e == "dylib"@ || e == "bin"@),
{
    let l = binary_icon_exts();
    if e == "exe"@ { assert(l[0]@ == e); }
    else if e == "dll"@ { assert(l[1]@ == e); }
    else if e == "so"@ { assert(l[2]@ == e); }
    else if e == "dylib"@ { assert(l[3]@ == e); }
    else if e == "bin"@ { assert(l[4]@ == e); }
    if one_of(e, l) {
        let i = choose|i: int| 0 <= i < l.len() && (#[trigger] l[i])@ == e;
        assert(0 <= i < 5);
    }
}

/// Law: `code_exts` holds exactly rs, js, ts, py, go, c, cpp, h, java, rb, lua, sh, bash.
pub proof fn law_code_exts(e: Seq<char>)
    ensures
        one_of(e, code_exts()) <==> (e == "rs"@ || e == "js"@ || e == "ts"@ || e == "py"@ || e == "go"@ || e == "c"@ || e == "cpp"@ || e == "h"@ || e == "java"@ || e == "rb"@ || e == "lua"@ || e == "sh"@ || e == "bash"@),
{
    let l = code_exts();
    if e == "rs"@ { assert(l[0]@ == e); }
    else if e == "js"@ { assert(l[1]@ == e); }
    else if e == "ts"@ { assert(l[2]@ == e); }
    else if e == "py"@ { assert(l[3]@ == e); }
    else if e == "go"@ { assert(l[4]@ == e); }
    else if e == "c"@ { assert(l[5]@ == e); }
    else if e == "cpp"@ { assert(l[6]@ == e); }
    else if e == "h"@ { assert(l[7]@ == e); }
    else if e == "java"@ { assert(l[8]@ == e); }
    else if e == "rb"@ { assert(l[9]@ == e); }
    else if e == "lua"@ { assert(l[10]@ == e); }
    else if e == "sh"@ { assert(l[11]@ == e); }
    else if e == "bash"@ { assert(l[12]@ == e); }
    if one_of(e, l) {
        let i = choose|i: int| 0 <= i < l.len() && (#[trigger] l[i])@ == e;
        assert(0 <= i < 13);
    }
}

/// Law: `video_exts` holds exactly mp4, mkv, avi, mov, wmv, flv.
pub proof fn law_video_exts(e: Seq<char>)
    ensures
        one_of(e, video_exts()) <==> (e == "mp4"@ || e == "mkv"@ || e == "avi"@ || e == "mov"@ || e == "wmv"@ || e == "flv"@),
{
    let l = video_exts();
    if e == "mp4"@ { assert(l[0]@ == e); }
    else if e == "mkv"@ { assert(l[1]@ == e); }
    else if e == "avi"@ { assert(l[2]@ == e); }
    else if e == "mov"@ { assert(l[3]@ == e); }
    else if e == "wmv"@ { assert(l[4]@ == e); }
    else if e == "flv"@ { assert(l[5]@ == e); }
    if one_of(e, l) {
        let i = choose|i: int| 0 <= i < l.len() && (#[trigger] l[i])@ == e;
        assert(0 <= i < 6);
    }
}

/// Law: `audio_exts` holds exactly mp3, flac, wav, ogg, aac, m4a.
pub proof fn law_audio_exts(e: Seq<char>)
    ensures
        one_of(e, audio_exts()) <==> (e == "mp3"@ || e == "flac"@ || e == "wav"@ || e == "ogg"@ || e == "aac"@ || e == "m4a"@),
{
    let l = audio_exts();
    if e == "mp3"@ { assert(l[0]@ == e); }
    else if e == "flac"@ { assert(l[1]@ == e); }
    else if e == "wav"@ { assert(l[2]@ == e); }
    else if e == "ogg"@ { assert(l[3]@ == e); }
    else if e == "aac"@ { assert(l[4]@ == e); }
    else if e == "m4a"@ { assert(l[5]@ == e); }
    if one_of(e, l) {
        let i = choose|i: int| 0 <= i < l.len() && (#[trigger] l[i])@ == e;
        assert(0 <= i < 6);
    }
}

/// Law: `program_exts` holds exactly exe, dll, so, dylib.
pub proof fn law_program_exts(e: Seq<char>)
    ensures
        one_of(e, program_exts()) <==> (e == "exe"@ || e == "dll"@ || e == "so"@ || e == "dylib"@),
{
    let l = program_exts();
    if e == "exe"@ { assert(l[0]@ == e); }
    else if e == "dll"@ { assert(l[1]@ == e); }
    else if e == "so"@ { assert(l[2]@ == e); }
    else if e == "dylib"@ { assert(l[3]@ == e); }
    if one_of(e, l) {
        let i = choose|i: int| 0 <= i < l.len() && (#[trigger] l[i])@ == e;
        assert(0 <= i < 4);
    }
}

} // verus!
