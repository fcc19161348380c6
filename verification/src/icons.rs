//! Icon for a listing row, in one of four modes: Nerd-Font glyphs, kitty
//! image sprites, a plain ASCII marker, or none.
//!
//! The configured mode is process-wide state, held by the caller; the
//! functions here take it as an argument.

use vstd::prelude::*;
use crate::paths::{path_extension, extension};
use crate::text::{ascii_lower, chars_of, seq_eq, to_ascii_lower};

verus! {

#[derive(Debug, Clone, Copy, PartialEq, Eq, Structural)]
pub enum IconMode {
    Off,
    Ascii,
    Nerd,
    Image,
}

/// Whether `k` spells the literal `lit`.
fn eq_lit(k: &[char], lit: &str) -> (r: bool)
    ensures
        r == (k@ == lit@),
{
    let v = chars_of(lit);
    seq_eq(k, v.as_slice())
}

/// The icon mode a config value names (case-insensitively); anything
/// unknown means Nerd-Font glyphs.
pub open spec fn mode_spec(k: Seq<char>) -> IconMode {
    if k == "off"@ || k == "none"@ || k == "false"@ {
        IconMode::Off
    } else if k == "ascii"@ || k == "text"@ {
        IconMode::Ascii
    } else if k == "image"@ || k == "kitty"@ {
        IconMode::Image
    } else {
        IconMode::Nerd
    }
}

/// Reads an icon mode from a config value.
pub fn parse_mode(s: &str) -> (r: IconMode)
    ensures
        r == mode_spec(ascii_lower(s@)),
{
    let v = chars_of(s);
    let k = to_ascii_lower(v.as_slice());
    let k = k.as_slice();
    if eq_lit(k, "off") || eq_lit(k, "none") || eq_lit(k, "false") {
        IconMode::Off
    } else if eq_lit(k, "ascii") || eq_lit(k, "text") {
        IconMode::Ascii
    } else if eq_lit(k, "image") || eq_lit(k, "kitty") {
        IconMode::Image
    } else {
        IconMode::Nerd
    }
}

/// An icon to draw.
pub enum Icon {
    /// Nothing (icons are off).
    Blank,
    /// A text glyph.
    Glyph(&'static str),
    /// A kitty image sprite with this image id.
    Sprite(u32),
}

/// The ASCII marker: `@` for links, `>` for directories, a space for files.
pub open spec fn ascii_spec(is_dir: bool, is_symlink: bool) -> Seq<char> {
    if is_symlink {
        "@"@
    } else if is_dir {
        ">"@
    } else {
        " "@
    }
}

fn ascii_for(is_dir: bool, is_symlink: bool) -> (r: &'static str)
    ensures
        r@ == ascii_spec(is_dir, is_symlink),
{
    if is_symlink {
        "@"
    } else if is_dir {
        ">"
    } else {
        " "
    }
}

/// The extension of an already lowercased name, or empty.
pub open spec fn ext_of(lower: Seq<char>) -> Seq<char> {
    match path_extension(lower) {
        Some(e) => e,
        None => Seq::empty(),
    }
}

fn ext_chars(lower: &[char]) -> (r: Vec<char>)
    ensures
        r@ == ext_of(lower@),
{
    let s = crate::text::string_of(lower);
    match extension(s.as_str()) {
        Some(e) => chars_of(e.as_str()),
        None => Vec::new(),
    }
}

/// The sprite keyword for a row.
pub open spec fn sprite_kind_spec(name: Seq<char>, is_dir: bool, is_symlink: bool) -> Seq<char> {
    let lower = ascii_lower(name);
    if is_symlink {
        "symlink"@
    } else if is_dir {
        sprite_dir_kind_spec(lower)
    } else {
        match sprite_special_file_spec(lower) {
            Some(k) => k,
            None => sprite_ext_kind_spec(ext_of(lower)),
        }
    }
}

/// The sprite keyword for a row (the name of its image asset).
pub fn sprite_kind_for(name: &str, is_dir: bool, is_symlink: bool) -> (r: &'static str)
    ensures
        r@ == sprite_kind_spec(name@, is_dir, is_symlink),
{
    if is_symlink {
        return "symlink";
    }
    let v = chars_of(name);
    let lower = to_ascii_lower(v.as_slice());
    if is_dir {
        return sprite_dir_kind(lower.as_slice());
    }
    if let Some(k) = sprite_special_file(lower.as_slice()) {
        return k;
    }
    let ext = ext_chars(lower.as_slice());
    sprite_ext_kind(ext.as_slice())
}

/// The Nerd-Font glyph for a row.
pub open spec fn nerd_spec(name: Seq<char>, is_dir: bool, is_symlink: bool) -> Seq<char> {
    let lower = ascii_lower(name);
    if is_symlink {
        ""@
    } else if is_dir {
        nerd_dir_spec(lower)
    } else {
        match nerd_special_file_spec(lower) {
            Some(k) => k,
            None => nerd_ext_spec(ext_of(lower)),
        }
    }
}

/// The Nerd-Font glyph for a row: by link, then directory name, well-known
/// file name, and extension.
pub fn nerd_for(name: &str, is_dir: bool, is_symlink: bool) -> (r: &'static str)
    ensures
        r@ == nerd_spec(name@, is_dir, is_symlink),
{
    if is_symlink {
        return "";
    }
    let v = chars_of(name);
    let lower = to_ascii_lower(v.as_slice());
    if is_dir {
        return nerd_dir(lower.as_slice());
    }
    if let Some(k) = nerd_special_file(lower.as_slice()) {
        return k;
    }
    let ext = ext_chars(lower.as_slice());
    nerd_ext(ext.as_slice())
}

/// The Nerd-Font glyph whatever the mode.
pub fn icon_for(name: &str, is_dir: bool, is_symlink: bool) -> (r: &'static str)
    ensures
        r@ == nerd_spec(name@, is_dir, is_symlink),
{
    nerd_for(name, is_dir, is_symlink)
}

/// The icon for a row in `mode`. In image mode `sprite_id` is the image id
/// registered for the row's sprite keyword (`sprite_kind_for`), 0 when there
/// is none, in which case the Nerd-Font glyph is used.
pub fn resolve(mode: IconMode, name: &str, is_dir: bool, is_symlink: bool, sprite_id: u32) -> (r: Icon)
    ensures
        match mode {
            IconMode::Off => r is Blank,
            IconMode::Ascii => r matches Icon::Glyph(g) && g@ == ascii_spec(is_dir, is_symlink),
            IconMode::Nerd => r matches Icon::Glyph(g) && g@ == nerd_spec(name@, is_dir, is_symlink),
            IconMode::Image => if sprite_id == 0 {
                r matches Icon::Glyph(g) && g@ == nerd_spec(name@, is_dir, is_symlink)
            } else {
                r == Icon::Sprite(sprite_id)
            },
        },
{
    match mode {
        IconMode::Off => Icon::Blank,
        IconMode::Ascii => Icon::Glyph(ascii_for(is_dir, is_symlink)),
        IconMode::Nerd => Icon::Glyph(nerd_for(name, is_dir, is_symlink)),
        IconMode::Image => {
            if sprite_id == 0 {
                Icon::Glyph(nerd_for(name, is_dir, is_symlink))
            } else {
                Icon::Sprite(sprite_id)
            }
        },
    }
}

/// Sprite keyword for a directory, by lowercased name.
pub open spec fn sprite_dir_kind_spec(k: Seq<char>) -> Seq<char> {
    if k == "downloads"@ {
        "folder_dl"@
    } else if k == "documents"@ || k == "doc"@ || k == "docs"@ {
        "folder_docs"@
    } else if k == "pictures"@ || k == "images"@ || k == "img"@ || k == "photos"@ {
        "folder_pics"@
    } else if k == "videos"@ || k == "video"@ || k == "movies"@ {
        "folder_vid"@
    } else if k == "music"@ || k == "audio"@ || k == "songs"@ {
        "folder_music"@
    } else if k == "projects"@ || k == "code"@ || k == "dev"@ || k == "src"@ {
        "folder_proj"@
    } else if k == ".config"@ || k == "config"@ {
        "folder_cfg"@
    } else if k == ".git"@ || k == ".github"@ {
        "folder_git"@
    } else if k == "node_modules"@ {
        "folder_node"@
    } else if k == "target"@ || k == "build"@ || k == "dist"@ || k == "out"@ {
        "folder_proj"@
    } else if k == ".cache"@ || k == "cache"@ {
        "folder_cache"@
    } else if k == ".trash"@ || k == "trash"@ {
        "folder_trash"@
    } else if k == "home"@ {
        "folder_home"@
    } else {
        "folder"@
    }
}

fn sprite_dir_kind(k: &[char]) -> (r: &'static str)
    ensures
        r@ == sprite_dir_kind_spec(k@),
{
    if eq_lit(k, "downloads") {
        "folder_dl"
    } else if eq_lit(k, "documents") || eq_lit(k, "doc") || eq_lit(k, "docs") {
        "folder_docs"
    } else if eq_lit(k, "pictures") || eq_lit(k, "images") || eq_lit(k, "img") || eq_lit(k, "photos") {
        "folder_pics"
    } else if eq_lit(k, "videos") || eq_lit(k, "video") || eq_lit(k, "movies") {
        "folder_vid"
    } else if eq_lit(k, "music") || eq_lit(k, "audio") || eq_lit(k, "songs") {
        "folder_music"
    } else if eq_lit(k, "projects") || eq_lit(k, "code") || eq_lit(k, "dev") || eq_lit(k, "src") {
        "folder_proj"
    } else if eq_lit(k, ".config") || eq_lit(k, "config") {
        "folder_cfg"
    } else if eq_lit(k, ".git") || eq_lit(k, ".github") {
        "folder_git"
    } else if eq_lit(k, "node_modules") {
        "folder_node"
    } else if eq_lit(k, "target") || eq_lit(k, "build") || eq_lit(k, "dist") || eq_lit(k, "out") {
        "folder_proj"
    } else if eq_lit(k, ".cache") || eq_lit(k, "cache") {
        "folder_cache"
    } else if eq_lit(k, ".trash") || eq_lit(k, "trash") {
        "folder_trash"
    } else if eq_lit(k, "home") {
        "folder_home"
    } else {
        "folder"
    }
}

/// Sprite keyword for a well-known file name (already lowercased).
pub open spec fn sprite_special_file_spec(k: Seq<char>) -> Option<Seq<char>> {
    if k == "readme"@ || k == "readme.md"@ || k == "readme.txt"@ {
        Some("readme"@)
    } else if k == "license"@ || k == "license.md"@ || k == "license.txt"@ {
        Some("license"@)
    } else if k == "makefile"@ || k == "gnumakefile"@ {
        Some("makefile"@)
    } else if k == "dockerfile"@ || k == ".dockerignore"@ {
        Some("dockerfile"@)
    } else if k == "cargo.toml"@ || k == "cargo.lock"@ {
        Some("cargo"@)
    } else if k == ".gitignore"@ || k == ".gitattributes"@ || k == ".gitmodules"@ {
        Some("gitignore"@)
    } else if k == "package.json"@ || k == "package-lock.json"@ || k == "yarn.lock"@ {
        Some("package"@)
    } else if k == ".env"@ || k == ".env.local"@ || k == ".env.example"@ {
        Some("env"@)
    } else {
        None
    }
}

fn sprite_special_file(k: &[char]) -> (r: Option<&'static str>)
    ensures
        match r { Some(g) => sprite_special_file_spec(k@) == Some(g@), None => sprite_special_file_spec(k@) is None },
{
    if eq_lit(k, "readme") || eq_lit(k, "readme.md") || eq_lit(k, "readme.txt") {
        Some("readme")
    } else if eq_lit(k, "license") || eq_lit(k, "license.md") || eq_lit(k, "license.txt") {
        Some("license")
    } else if eq_lit(k, "makefile") || eq_lit(k, "gnumakefile") {
        Some("makefile")
    } else if eq_lit(k, "dockerfile") || eq_lit(k, ".dockerignore") {
        Some("dockerfile")
    } else if eq_lit(k, "cargo.toml") || eq_lit(k, "cargo.lock") {
        Some("cargo")
    } else if eq_lit(k, ".gitignore") || eq_lit(k, ".gitattributes") || eq_lit(k, ".gitmodules") {
        Some("gitignore")
    } else if eq_lit(k, "package.json") || eq_lit(k, "package-lock.json") || eq_lit(k, "yarn.lock") {
        Some("package")
    } else if eq_lit(k, ".env") || eq_lit(k, ".env.local") || eq_lit(k, ".env.example") {
        Some("env")
    } else {
        None
    }
}

/// Sprite keyword for a file extension.
pub open spec fn sprite_ext_kind_spec(k: Seq<char>) -> Seq<char> {
    if k == "rs"@ {
        "rs"@
    } else if k == "c"@ || k == "h"@ {
        "c"@
    } else if k == "cpp"@ || k == "cc"@ || k == "cxx"@ || k == "hpp"@ || k == "hxx"@ {
        "cpp"@
    } else if k == "py"@ || k == "pyc"@ || k == "pyo"@ {
        "py"@
    } else if k == "js"@ || k == "mjs"@ || k == "cjs"@ || k == "jsx"@ {
        "js"@
    } else if k == "ts"@ || k == "tsx"@ {
        "ts"@
    } else if k == "html"@ || k == "htm"@ {
        "html"@
    } else if k == "css"@ || k == "scss"@ || k == "sass"@ {
        "css"@
    } else if k == "lua"@ {
        "lua"@
    } else if k == "go"@ {
        "go"@
    } else if k == "zig"@ {
        "zig"@
    } else if k == "java"@ || k == "jar"@ || k == "class"@ || k == "kt"@ || k == "kts"@ {
        "java"@
    } else if k == "rb"@ {
        "rb"@
    } else if k == "php"@ {
        "php"@
    } else if k == "sh"@ || k == "bash"@ || k == "zsh"@ || k == "fish"@ {
        "sh"@
    } else if k == "md"@ || k == "markdown"@ {
        "md"@
    } else if k == "toml"@ {
        "toml"@
    } else if k == "json"@ || k == "json5"@ {
        "json"@
    } else if k == "yaml"@ || k == "yml"@ {
        "yaml"@
    } else if k == "xml"@ {
        "xml"@
    } else if k == "ini"@ || k == "conf"@ || k == "cfg"@ {
        "conf"@
    } else if k == "log"@ {
        "log"@
    } else if k == "txt"@ || k == "rst"@ || k == "tex"@ {
        "txt"@
    } else if k == "zip"@ || k == "tar"@ || k == "gz"@ || k == "bz2"@ || k == "xz"@ || k == "zst"@ || k == "7z"@ || k == "rar"@ || k == "tgz"@ || k == "tbz2"@ {
        "archive"@
    } else if k == "png"@ || k == "jpg"@ || k == "jpeg"@ || k == "gif"@ || k == "webp"@ || k == "bmp"@ || k == "ico"@ || k == "tiff"@ || k == "svg"@ {
        "image"@
    } else if k == "mp4"@ || k == "mkv"@ || k == "webm"@ || k == "avi"@ || k == "mov"@ || k == "flv"@ || k == "wmv"@ || k == "m4v"@ {
        "video"@
    } else if k == "mp3"@ || k == "flac"@ || k == "wav"@ || k == "ogg"@ || k == "opus"@ || k == "m4a"@ || k == "aac"@ {
        "audio"@
    } else if k == "pdf"@ {
        "pdf"@
    } else if k == "exe"@ || k == "bin"@ || k == "appimage"@ {
        "exe"@
    } else if k == "iso"@ || k == "img"@ || k == "deb"@ || k == "rpm"@ || k == "pkg"@ {
        "iso"@
    } else if k == "ttf"@ || k == "otf"@ || k == "woff"@ || k == "woff2"@ {
        "font"@
    } else if k == "lock"@ {
        "lock"@
    } else {
        "file_generic"@
    }
}

fn sprite_ext_kind(k: &[char]) -> (r: &'static str)
    ensures
        r@ == sprite_ext_kind_spec(k@),
{
    if eq_lit(k, "rs") {
        "rs"
    } else if eq_lit(k, "c") || eq_lit(k, "h") {
        "c"
    } else if eq_lit(k, "cpp") || eq_lit(k, "cc") || eq_lit(k, "cxx") || eq_lit(k, "hpp") || eq_lit(k, "hxx") {
        "cpp"
    } else if eq_lit(k, "py") || eq_lit(k, "pyc") || eq_lit(k, "pyo") {
        "py"
    } else if eq_lit(k, "js") || eq_lit(k, "mjs") || eq_lit(k, "cjs") || eq_lit(k, "jsx") {
        "js"
    } else if eq_lit(k, "ts") || eq_lit(k, "tsx") {
        "ts"
    } else if eq_lit(k, "html") || eq_lit(k, "htm") {
        "html"
    } else if eq_lit(k, "css") || eq_lit(k, "scss") || eq_lit(k, "sass") {
        "css"
    } else if eq_lit(k, "lua") {
        "lua"
    } else if eq_lit(k, "go") {
        "go"
    } else if eq_lit(k, "zig") {
        "zig"
    } else if eq_lit(k, "java") || eq_lit(k, "jar") || eq_lit(k, "class") || eq_lit(k, "kt") || eq_lit(k, "kts") {
        "java"
    } else if eq_lit(k, "rb") {
        "rb"
    } else if eq_lit(k, "php") {
        "php"
    } else if eq_lit(k, "sh") || eq_lit(k, "bash") || eq_lit(k, "zsh") || eq_lit(k, "fish") {
        "sh"
    } else if eq_lit(k, "md") || eq_lit(k, "markdown") {
        "md"
    } else if eq_lit(k, "toml") {
        "toml"
    } else if eq_lit(k, "json") || eq_lit(k, "json5") {
        "json"
    } else if eq_lit(k, "yaml") || eq_lit(k, "yml") {
        "yaml"
    } else if eq_lit(k, "xml") {
        "xml"
    } else if eq_lit(k, "ini") || eq_lit(k, "conf") || eq_lit(k, "cfg") {
        "conf"
    } else if eq_lit(k, "log") {
        "log"
    } else if eq_lit(k, "txt") || eq_lit(k, "rst") || eq_lit(k, "tex") {
        "txt"
    } else if eq_lit(k, "zip") || eq_lit(k, "tar") || eq_lit(k, "gz") || eq_lit(k, "bz2") || eq_lit(k, "xz") || eq_lit(k, "zst") || eq_lit(k, "7z") || eq_lit(k, "rar") || eq_lit(k, "tgz") || eq_lit(k, "tbz2") {
        "archive"
    } else if eq_lit(k, "png") || eq_lit(k, "jpg") || eq_lit(k, "jpeg") || eq_lit(k, "gif") || eq_lit(k, "webp") || eq_lit(k, "bmp") || eq_lit(k, "ico") || eq_lit(k, "tiff") || eq_lit(k, "svg") {
        "image"
    } else if eq_lit(k, "mp4") || eq_lit(k, "mkv") || eq_lit(k, "webm") || eq_lit(k, "avi") || eq_lit(k, "mov") || eq_lit(k, "flv") || eq_lit(k, "wmv") || eq_lit(k, "m4v") {
        "video"
    } else if eq_lit(k, "mp3") || eq_lit(k, "flac") || eq_lit(k, "wav") || eq_lit(k, "ogg") || eq_lit(k, "opus") || eq_lit(k, "m4a") || eq_lit(k, "aac") {
        "audio"
    } else if eq_lit(k, "pdf") {
        "pdf"
    } else if eq_lit(k, "exe") || eq_lit(k, "bin") || eq_lit(k, "appimage") {
        "exe"
    } else if eq_lit(k, "iso") || eq_lit(k, "img") || eq_lit(k, "deb") || eq_lit(k, "rpm") || eq_lit(k, "pkg") {
        "iso"
    } else if eq_lit(k, "ttf") || eq_lit(k, "otf") || eq_lit(k, "woff") || eq_lit(k, "woff2") {
        "font"
    } else if eq_lit(k, "lock") {
        "lock"
    } else {
        "file_generic"
    }
}

/// Nerd-Font glyph for a directory, by lowercased name.
pub open spec fn nerd_dir_spec(k: Seq<char>) -> Seq<char> {
    if k == "downloads"@ {
        ""@
    } else if k == "documents"@ || k == "doc"@ || k == "docs"@ {
        ""@
    } else if k == "pictures"@ || k == "images"@ || k == "img"@ || k == "photos"@ {
        ""@
    } else if k == "videos"@ || k == "video"@ || k == "movies"@ {
        ""@
    } else if k == "music"@ || k == "audio"@ || k == "songs"@ {
        ""@
    } else if k == "desktop"@ {
        ""@
    } else if k == "projects"@ || k == "code"@ || k == "dev"@ || k == "src"@ {
        ""@
    } else if k == ".config"@ || k == "config"@ {
        ""@
    } else if k == ".git"@ {
        ""@
    } else if k == ".github"@ {
        ""@
    } else if k == "node_modules"@ {
        ""@
    } else if k == "target"@ || k == "build"@ || k == "dist"@ || k == "out"@ {
        ""@
    } else if k == ".cache"@ || k == "cache"@ {
        ""@
    } else if k == ".trash"@ || k == "trash"@ {
        ""@
    } else if k == "home"@ {
        ""@
    } else if k == "public"@ {
        ""@
    } else if k == "templates"@ {
        ""@
    } else {
        ""@
    }
}

fn nerd_dir(k: &[char]) -> (r: &'static str)
    ensures
        r@ == nerd_dir_spec(k@),
{
    if eq_lit(k, "downloads") {
        ""
    } else if eq_lit(k, "documents") || eq_lit(k, "doc") || eq_lit(k, "docs") {
        ""
    } else if eq_lit(k, "pictures") || eq_lit(k, "images") || eq_lit(k, "img") || eq_lit(k, "photos") {
        ""
    } else if eq_lit(k, "videos") || eq_lit(k, "video") || eq_lit(k, "movies") {
        ""
    } else if eq_lit(k, "music") || eq_lit(k, "audio") || eq_lit(k, "songs") {
        ""
    } else if eq_lit(k, "desktop") {
        ""
    } else if eq_lit(k, "projects") || eq_lit(k, "code") || eq_lit(k, "dev") || eq_lit(k, "src") {
        ""
    } else if eq_lit(k, ".config") || eq_lit(k, "config") {
        ""
    } else if eq_lit(k, ".git") {
        ""
    } else if eq_lit(k, ".github") {
        ""
    } else if eq_lit(k, "node_modules") {
        ""
    } else if eq_lit(k, "target") || eq_lit(k, "build") || eq_lit(k, "dist") || eq_lit(k, "out") {
        ""
    } else if eq_lit(k, ".cache") || eq_lit(k, "cache") {
        ""
    } else if eq_lit(k, ".trash") || eq_lit(k, "trash") {
        ""
    } else if eq_lit(k, "home") {
        ""
    } else if eq_lit(k, "public") {
        ""
    } else if eq_lit(k, "templates") {
        ""
    } else {
        ""
    }
}

/// Nerd-Font glyph for a well-known file name (already lowercased).
pub open spec fn nerd_special_file_spec(k: Seq<char>) -> Option<Seq<char>> {
    if k == "readme"@ || k == "readme.md"@ || k == "readme.txt"@ {
        Some(""@)
    } else if k == "license"@ || k == "license.md"@ || k == "license.txt"@ {
        Some(""@)
    } else if k == "makefile"@ || k == "gnumakefile"@ {
        Some(""@)
    } else if k == "dockerfile"@ || k == ".dockerignore"@ {
        Some(""@)
    } else if k == "cargo.toml"@ || k == "cargo.lock"@ {
        Some(""@)
    } else if k == ".gitignore"@ || k == ".gitattributes"@ || k == ".gitmodules"@ {
        Some(""@)
    } else if k == "package.json"@ || k == "package-lock.json"@ {
        Some(""@)
    } else if k == "yarn.lock"@ {
        Some(""@)
    } else if k == ".env"@ || k == ".env.local"@ || k == ".env.example"@ {
        Some(""@)
    } else if k == ".bashrc"@ || k == ".zshrc"@ || k == ".profile"@ || k == ".bash_profile"@ {
        Some(""@)
    } else if k == "kitty.conf"@ {
        Some(""@)
    } else {
        None
    }
}

fn nerd_special_file(k: &[char]) -> (r: Option<&'static str>)
    ensures
        match r { Some(g) => nerd_special_file_spec(k@) == Some(g@), None => nerd_special_file_spec(k@) is None },
{
    if eq_lit(k, "readme") || eq_lit(k, "readme.md") || eq_lit(k, "readme.txt") {
        Some("")
    } else if eq_lit(k, "license") || eq_lit(k, "license.md") || eq_lit(k, "license.txt") {
        Some("")
    } else if eq_lit(k, "makefile") || eq_lit(k, "gnumakefile") {
        Some("")
    } else if eq_lit(k, "dockerfile") || eq_lit(k, ".dockerignore") {
        Some("")
    } else if eq_lit(k, "cargo.toml") || eq_lit(k, "cargo.lock") {
        Some("")
    } else if eq_lit(k, ".gitignore") || eq_lit(k, ".gitattributes") || eq_lit(k, ".gitmodules") {
        Some("")
    } else if eq_lit(k, "package.json") || eq_lit(k, "package-lock.json") {
        Some("")
    } else if eq_lit(k, "yarn.lock") {
        Some("")
    } else if eq_lit(k, ".env") || eq_lit(k, ".env.local") || eq_lit(k, ".env.example") {
        Some("")
    } else if eq_lit(k, ".bashrc") || eq_lit(k, ".zshrc") || eq_lit(k, ".profile") || eq_lit(k, ".bash_profile") {
        Some("")
    } else if eq_lit(k, "kitty.conf") {
        Some("")
    } else {
        None
    }
}

/// Nerd-Font glyph for a file extension.
pub open spec fn nerd_ext_spec(k: Seq<char>) -> Seq<char> {
    if k == "rs"@ {
        ""@
    } else if k == "c"@ || k == "h"@ {
        ""@
    } else if k == "cpp"@ || k == "cc"@ || k == "cxx"@ || k == "hpp"@ || k == "hxx"@ {
        ""@
    } else if k == "py"@ || k == "pyc"@ || k == "pyo"@ {
        ""@
    } else if k == "js"@ || k == "mjs"@ || k == "cjs"@ {
        ""@
    } else if k == "ts"@ || k == "tsx"@ {
        ""@
    } else if k == "jsx"@ {
        ""@
    } else if k == "html"@ || k == "htm"@ {
        ""@
    } else if k == "css"@ {
        ""@
    } else if k == "scss"@ || k == "sass"@ {
        ""@
    } else if k == "lua"@ {
        ""@
    } else if k == "go"@ {
        ""@
    } else if k == "zig"@ {
        ""@
    } else if k == "java"@ || k == "jar"@ || k == "class"@ {
        ""@
    } else if k == "kt"@ || k == "kts"@ {
        ""@
    } else if k == "rb"@ {
        ""@
    } else if k == "php"@ {
        ""@
    } else if k == "swift"@ {
        ""@
    } else if k == "sh"@ || k == "bash"@ || k == "zsh"@ || k == "fish"@ {
        ""@
    } else if k == "vim"@ || k == "nvim"@ {
        ""@
    } else if k == "el"@ {
        ""@
    } else if k == "hs"@ {
        ""@
    } else if k == "ml"@ || k == "mli"@ {
        ""@
    } else if k == "ex"@ || k == "exs"@ {
        ""@
    } else if k == "dart"@ {
        ""@
    } else if k == "json"@ || k == "json5"@ {
        ""@
    } else if k == "toml"@ {
        ""@
    } else if k == "yaml"@ || k == "yml"@ {
        ""@
    } else if k == "xml"@ {
        "󰗀"@
    } else if k == "md"@ || k == "markdown"@ {
        ""@
    } else if k == "tex"@ || k == "latex"@ {
        ""@
    } else if k == "csv"@ || k == "tsv"@ {
        ""@
    } else if k == "ini"@ || k == "conf"@ || k == "cfg"@ {
        ""@
    } else if k == "log"@ {
        ""@
    } else if k == "txt"@ {
        ""@
    } else if k == "zip"@ || k == "tar"@ || k == "gz"@ || k == "bz2"@ || k == "xz"@ || k == "zst"@ || k == "7z"@ || k == "rar"@ || k == "tgz"@ || k == "tbz2"@ {
        ""@
    } else if k == "png"@ || k == "jpg"@ || k == "jpeg"@ || k == "gif"@ || k == "webp"@ || k == "bmp"@ || k == "ico"@ || k == "tiff"@ || k == "svg"@ {
        ""@
    } else if k == "mp4"@ || k == "mkv"@ || k == "webm"@ || k == "avi"@ || k == "mov"@ || k == "flv"@ || k == "wmv"@ || k == "m4v"@ {
        ""@
    } else if k == "mp3"@ || k == "flac"@ || k == "wav"@ || k == "ogg"@ || k == "opus"@ || k == "m4a"@ || k == "aac"@ {
        ""@
    } else if k == "pdf"@ {
        ""@
    } else if k == "doc"@ || k == "docx"@ {
        ""@
    } else if k == "xls"@ || k == "xlsx"@ {
        ""@
    } else if k == "ppt"@ || k == "pptx"@ {
        ""@
    } else if k == "exe"@ || k == "bin"@ || k == "appimage"@ {
        ""@
    } else if k == "iso"@ || k == "img"@ {
        ""@
    } else if k == "deb"@ {
        ""@
    } else if k == "rpm"@ {
        ""@
    } else if k == "pkg"@ {
        ""@
    } else if k == "ttf"@ || k == "otf"@ || k == "woff"@ || k == "woff2"@ {
        ""@
    } else if k == "lock"@ {
        ""@
    } else if k == ""@ {
        ""@
    } else {
        ""@
    }
}

fn nerd_ext(k: &[char]) -> (r: &'static str)
    ensures
        r@ == nerd_ext_spec(k@),
{
    if eq_lit(k, "rs") {
        ""
    } else if eq_lit(k, "c") || eq_lit(k, "h") {
        ""
    } else if eq_lit(k, "cpp") || eq_lit(k, "cc") || eq_lit(k, "cxx") || eq_lit(k, "hpp") || eq_lit(k, "hxx") {
        ""
    } else if eq_lit(k, "py") || eq_lit(k, "pyc") || eq_lit(k, "pyo") {
        ""
    } else if eq_lit(k, "js") || eq_lit(k, "mjs") || eq_lit(k, "cjs") {
        ""
    } else if eq_lit(k, "ts") || eq_lit(k, "tsx") {
        ""
    } else if eq_lit(k, "jsx") {
        ""
    } else if eq_lit(k, "html") || eq_lit(k, "htm") {
        ""
    } else if eq_lit(k, "css") {
        ""
    } else if eq_lit(k, "scss") || eq_lit(k, "sass") {
        ""
    } else if eq_lit(k, "lua") {
        ""
    } else if eq_lit(k, "go") {
        ""
    } else if eq_lit(k, "zig") {
        ""
    } else if eq_lit(k, "java") || eq_lit(k, "jar") || eq_lit(k, "class") {
        ""
    } else if eq_lit(k, "kt") || eq_lit(k, "kts") {
        ""
    } else if eq_lit(k, "rb") {
        ""
    } else if eq_lit(k, "php") {
        ""
    } else if eq_lit(k, "swift") {
        ""
    } else if eq_lit(k, "sh") || eq_lit(k, "bash") || eq_lit(k, "zsh") || eq_lit(k, "fish") {
        ""
    } else if eq_lit(k, "vim") || eq_lit(k, "nvim") {
        ""
    } else if eq_lit(k, "el") {
        ""
    } else if eq_lit(k, "hs") {
        ""
    } else if eq_lit(k, "ml") || eq_lit(k, "mli") {
        ""
    } else if eq_lit(k, "ex") || eq_lit(k, "exs") {
        ""
    } else if eq_lit(k, "dart") {
        ""
    } else if eq_lit(k, "json") || eq_lit(k, "json5") {
        ""
    } else if eq_lit(k, "toml") {
        ""
    } else if eq_lit(k, "yaml") || eq_lit(k, "yml") {
        ""
    } else if eq_lit(k, "xml") {
        "󰗀"
    } else if eq_lit(k, "md") || eq_lit(k, "markdown") {
        ""
    } else if eq_lit(k, "tex") || eq_lit(k, "latex") {
        ""
    } else if eq_lit(k, "csv") || eq_lit(k, "tsv") {
        ""
    } else if eq_lit(k, "ini") || eq_lit(k, "conf") || eq_lit(k, "cfg") {
        ""
    } else if eq_lit(k, "log") {
        ""
    } else if eq_lit(k, "txt") {
        ""
    } else if eq_lit(k, "zip") || eq_lit(k, "tar") || eq_lit(k, "gz") || eq_lit(k, "bz2") || eq_lit(k, "xz") || eq_lit(k, "zst") || eq_lit(k, "7z") || eq_lit(k, "rar") || eq_lit(k, "tgz") || eq_lit(k, "tbz2") {
        ""
    } else if eq_lit(k, "png") || eq_lit(k, "jpg") || eq_lit(k, "jpeg") || eq_lit(k, "gif") || eq_lit(k, "webp") || eq_lit(k, "bmp") || eq_lit(k, "ico") || eq_lit(k, "tiff") || eq_lit(k, "svg") {
        ""
    } else if eq_lit(k, "mp4") || eq_lit(k, "mkv") || eq_lit(k, "webm") || eq_lit(k, "avi") || eq_lit(k, "mov") || eq_lit(k, "flv") || eq_lit(k, "wmv") || eq_lit(k, "m4v") {
        ""
    } else if eq_lit(k, "mp3") || eq_lit(k, "flac") || eq_lit(k, "wav") || eq_lit(k, "ogg") || eq_lit(k, "opus") || eq_lit(k, "m4a") || eq_lit(k, "aac") {
        ""
    } else if eq_lit(k, "pdf") {
        ""
    } else if eq_lit(k, "doc") || eq_lit(k, "docx") {
        ""
    } else if eq_lit(k, "xls") || eq_lit(k, "xlsx") {
        ""
    } else if eq_lit(k, "ppt") || eq_lit(k, "pptx") {
        ""
    } else if eq_lit(k, "exe") || eq_lit(k, "bin") || eq_lit(k, "appimage") {
        ""
    } else if eq_lit(k, "iso") || eq_lit(k, "img") {
        ""
    } else if eq_lit(k, "deb") {
        ""
    } else if eq_lit(k, "rpm") {
        ""
    } else if eq_lit(k, "pkg") {
        ""
    } else if eq_lit(k, "ttf") || eq_lit(k, "otf") || eq_lit(k, "woff") || eq_lit(k, "woff2") {
        ""
    } else if eq_lit(k, "lock") {
        ""
    } else if eq_lit(k, "") {
        ""
    } else {
        ""
    }
}

} // verus!
