//! Which program opens a file. Launching it is the caller's part.

use vstd::prelude::*;
use crate::config::{Config, table_get, table_view};
use crate::paths::{path_extension, path_file_name, extension, file_name};
use crate::text::{chars_of, owned, seq_eq, to_lowercase, unicode_lower};

verus! {

/// Programs that take over the terminal (the UI is suspended for them).
pub open spec fn terminal_app_spec(base: Seq<char>) -> bool {
    base == "nvim"@ || base == "vim"@ || base == "vi"@ || base == "emacs"@ || base == "nano"@
        || base == "less"@ || base == "more"@ || base == "lvim"@ || base == "hx"@ || base
        == "helix"@
}

/// The program name of a command: its file name, or the command itself.
pub open spec fn base_name(cmd: Seq<char>) -> Seq<char> {
    match path_file_name(cmd) {
        Some(b) => b,
        None => cmd,
    }
}

fn eq_lit(k: &[char], lit: &str) -> (r: bool)
    ensures
        r == (k@ == lit@),
{
    let v = chars_of(lit);
    seq_eq(k, v.as_slice())
}

/// Whether `cmd` names a terminal program (an editor or pager), judged by
/// its file name.
pub fn is_terminal_app(cmd: &str) -> (r: bool)
    ensures
        r == terminal_app_spec(base_name(cmd@)),
{
    let base = match file_name(cmd) {
        Some(b) => b,
        None => owned(cmd),
    };
    let v = chars_of(base.as_str());
    let k = v.as_slice();
    eq_lit(k, "nvim") || eq_lit(k, "vim") || eq_lit(k, "vi") || eq_lit(k, "emacs") || eq_lit(
        k,
        "nano",
    ) || eq_lit(k, "less") || eq_lit(k, "more") || eq_lit(k, "lvim") || eq_lit(k, "hx")
        || eq_lit(k, "helix")
}

/// The opener for `path`: the one configured for its lowercased extension,
/// else `xdg-open`.
pub open spec fn opener_spec(path: Seq<char>, openers: Map<Seq<char>, Seq<char>>) -> Seq<char> {
    match path_extension(path) {
        Some(e) => if openers.contains_key(unicode_lower(e)) {
            openers[unicode_lower(e)]
        } else {
            "xdg-open"@
        },
        None => "xdg-open"@,
    }
}

/// The command that opens `path`.
pub fn opener_for(path: &str, config: &Config) -> (r: String)
    ensures
        r@ == opener_spec(path@, table_view(config.openers@)),
{
    match extension(path) {
        Some(e) => {
            let l = to_lowercase(e.as_str());
            match table_get(&config.openers, l.as_str()) {
                Some(c) => c,
                None => owned("xdg-open"),
            }
        },
        None => owned("xdg-open"),
    }
}

/// The program name shown after opening: the command's file name, or the
/// command itself.
pub fn short_cmd(cmd: &str) -> (r: String)
    ensures
        r@ == base_name(cmd@),
{
    match file_name(cmd) {
        Some(b) => b,
        None => owned(cmd),
    }
}

} // verus!
