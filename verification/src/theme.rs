//! Colours: the OneShot defaults, `#RRGGBB` values from the config file,
//! and how each config key overrides them.

use vstd::prelude::*;
use crate::text::chars_of;

verus! {

/// A colour as red, green and blue.
#[derive(Debug, Clone, Copy, PartialEq, Eq, Structural)]
pub struct Rgb {
    pub r: u8,
    pub g: u8,
    pub b: u8,
}

#[derive(Debug, Clone, Copy, PartialEq, Eq, Structural)]
pub struct Theme {
    pub bg: Rgb,
    pub fg: Rgb,
    pub accent: Rgb,
    pub dim: Rgb,
    pub highlight_bg: Rgb,
    pub visual_bg: Rgb,
    pub dir_fg: Rgb,
    pub file_fg: Rgb,
    pub error_fg: Rgb,
    pub warn_fg: Rgb,
    pub ok_fg: Rgb,
    pub git_ignored_fg: Rgb,
    pub symlink_fg: Rgb,
}

/// The OneShot colours.
pub open spec fn oneshot() -> Theme {
    Theme {
        bg: Rgb { r: 0x0a, g: 0x00, b: 0x10 },
        fg: Rgb { r: 0xc7, g: 0x92, b: 0xea },
        accent: Rgb { r: 0x00, g: 0xe5, b: 0xc8 },
        dim: Rgb { r: 0x6c, g: 0x70, b: 0x86 },
        highlight_bg: Rgb { r: 0x32, g: 0x14, b: 0x52 },
        visual_bg: Rgb { r: 0x1c, g: 0x10, b: 0x32 },
        dir_fg: Rgb { r: 0x00, g: 0xe5, b: 0xc8 },
        file_fg: Rgb { r: 0xc7, g: 0x92, b: 0xea },
        error_fg: Rgb { r: 0xff, g: 0x55, b: 0x55 },
        warn_fg: Rgb { r: 0xff, g: 0xb8, b: 0x6c },
        ok_fg: Rgb { r: 0x00, g: 0xe5, b: 0xc8 },
        git_ignored_fg: Rgb { r: 0x46, g: 0x4a, b: 0x60 },
        symlink_fg: Rgb { r: 0xff, g: 0xd1, b: 0x70 },
    }
}

impl Default for Theme {
    fn default() -> (r: Theme)
        ensures
            r == oneshot(),
    {
        Theme {
            bg: Rgb { r: 0x0a, g: 0x00, b: 0x10 },
            fg: Rgb { r: 0xc7, g: 0x92, b: 0xea },
            accent: Rgb { r: 0x00, g: 0xe5, b: 0xc8 },
            dim: Rgb { r: 0x6c, g: 0x70, b: 0x86 },
            highlight_bg: Rgb { r: 0x32, g: 0x14, b: 0x52 },
            visual_bg: Rgb { r: 0x1c, g: 0x10, b: 0x32 },
            dir_fg: Rgb { r: 0x00, g: 0xe5, b: 0xc8 },
            file_fg: Rgb { r: 0xc7, g: 0x92, b: 0xea },
            error_fg: Rgb { r: 0xff, g: 0x55, b: 0x55 },
            warn_fg: Rgb { r: 0xff, g: 0xb8, b: 0x6c },
            ok_fg: Rgb { r: 0x00, g: 0xe5, b: 0xc8 },
            git_ignored_fg: Rgb { r: 0x46, g: 0x4a, b: 0x60 },
            symlink_fg: Rgb { r: 0xff, g: 0xd1, b: 0x70 },
        }
    }
}

/// The value of a hexadecimal digit, if `c` is one.
pub open spec fn hex_digit(c: char) -> Option<u8> {
    if '0' <= c && c <= '9' {
        Some(((c as u32) - 48) as u8)
    } else if 'a' <= c && c <= 'f' {
        Some(((c as u32) - 87) as u8)
    } else if 'A' <= c && c <= 'F' {
        Some(((c as u32) - 55) as u8)
    } else {
        None
    }
}

/// The byte written by the two hex digits at `i`.
pub open spec fn hex_byte(s: Seq<char>, i: int) -> Option<u8> {
    match (hex_digit(s[i]), hex_digit(s[i + 1])) {
        (Some(h), Some(l)) => Some((h * 16 + l) as u8),
        _ => None,
    }
}

/// The colour `#RRGGBB` names: a `#` and six hex digits, nothing else.
pub open spec fn hex_spec(s: Seq<char>) -> Option<Rgb> {
    if s.len() == 7 && s[0] == '#' {
        match (hex_byte(s, 1), hex_byte(s, 3), hex_byte(s, 5)) {
            (Some(r), Some(g), Some(b)) => Some(Rgb { r, g, b }),
            _ => None,
        }
    } else {
        None
    }
}

fn hex_digit_exec(c: char) -> (r: Option<u8>)
    ensures
        r == hex_digit(c),
{
    if '0' <= c && c <= '9' {
        Some((c as u32 - 48) as u8)
    } else if 'a' <= c && c <= 'f' {
        Some((c as u32 - 87) as u8)
    } else if 'A' <= c && c <= 'F' {
        Some((c as u32 - 55) as u8)
    } else {
        None
    }
}

fn hex_byte_exec(s: &[char], i: usize) -> (r: Option<u8>)
    requires
        i + 1 < s@.len(),
    ensures
        r == hex_byte(s@, i as int),
{
    match (hex_digit_exec(s[i]), hex_digit_exec(s[i + 1])) {
        (Some(h), Some(l)) => Some(h * 16 + l),
        _ => None,
    }
}

/// Reads a `#RRGGBB` colour.
pub fn parse_hex(s: &str) -> (r: Option<Rgb>)
    ensures
        r == hex_spec(s@),
{
    let v = chars_of(s);
    if v.len() != 7 || v[0] != '#' {
        return None;
    }
    match (hex_byte_exec(v.as_slice(), 1), hex_byte_exec(v.as_slice(), 3), hex_byte_exec(v.as_slice(), 5)) {
        (Some(r), Some(g), Some(b)) => Some(Rgb { r, g, b }),
        _ => None,
    }
}

/// The `[theme]` table as read: each key optional.
pub struct RawTheme {
    pub bg: Option<String>,
    pub fg: Option<String>,
    pub accent: Option<String>,
    pub dim: Option<String>,
    pub visual_bg: Option<String>,
    pub dir_fg: Option<String>,
    pub file_fg: Option<String>,
    pub error_fg: Option<String>,
    pub warn_fg: Option<String>,
    pub git_ignored_fg: Option<String>,
    pub symlink_fg: Option<String>,
}

/// The colour a config value sets, if it is present and well formed.
pub open spec fn setting(v: Option<String>) -> Option<Rgb> {
    match v {
        Some(s) => hex_spec(s@),
        None => None,
    }
}

fn setting_exec(v: &Option<String>) -> (r: Option<Rgb>)
    ensures
        r == setting(*v),
{
    match v {
        Some(s) => parse_hex(s.as_str()),
        None => None,
    }
}

/// `c` when set, else `d`.
pub open spec fn or_keep(c: Option<Rgb>, d: Rgb) -> Rgb {
    match c {
        Some(x) => x,
        None => d,
    }
}

/// The theme `t` with the config's colours applied in order: `fg` also
/// colours files, `accent` also colours directories and success, and a
/// later `dir_fg` or `file_fg` wins over those. Values that are not
/// `#RRGGBB` are ignored.
pub open spec fn themed(t: Theme, raw: RawTheme) -> Theme {
    let fg = setting(raw.fg);
    let accent = setting(raw.accent);
    Theme {
        bg: or_keep(setting(raw.bg), t.bg),
        fg: or_keep(fg, t.fg),
        accent: or_keep(accent, t.accent),
        dim: or_keep(setting(raw.dim), t.dim),
        highlight_bg: t.highlight_bg,
        visual_bg: or_keep(setting(raw.visual_bg), t.visual_bg),
        dir_fg: or_keep(setting(raw.dir_fg), or_keep(accent, t.dir_fg)),
        file_fg: or_keep(setting(raw.file_fg), or_keep(fg, t.file_fg)),
        error_fg: or_keep(setting(raw.error_fg), t.error_fg),
        warn_fg: or_keep(setting(raw.warn_fg), t.warn_fg),
        ok_fg: or_keep(accent, t.ok_fg),
        git_ignored_fg: or_keep(setting(raw.git_ignored_fg), t.git_ignored_fg),
        symlink_fg: or_keep(setting(raw.symlink_fg), t.symlink_fg),
    }
}

fn keep(c: Option<Rgb>, d: Rgb) -> (r: Rgb)
    ensures
        r == or_keep(c, d),
{
    match c {
        Some(x) => x,
        None => d,
    }
}

/// Applies the `[theme]` table to `t`.
pub fn apply_theme(t: Theme, raw: &RawTheme) -> (r: Theme)
    ensures
        r == themed(t, *raw),
{
    let fg = setting_exec(&raw.fg);
    let accent = setting_exec(&raw.accent);
    Theme {
        bg: keep(setting_exec(&raw.bg), t.bg),
        fg: keep(fg, t.fg),
        accent: keep(accent, t.accent),
        dim: keep(setting_exec(&raw.dim), t.dim),
        highlight_bg: t.highlight_bg,
        visual_bg: keep(setting_exec(&raw.visual_bg), t.visual_bg),
        dir_fg: keep(setting_exec(&raw.dir_fg), keep(accent, t.dir_fg)),
        file_fg: keep(setting_exec(&raw.file_fg), keep(fg, t.file_fg)),
        error_fg: keep(setting_exec(&raw.error_fg), t.error_fg),
        warn_fg: keep(setting_exec(&raw.warn_fg), t.warn_fg),
        ok_fg: keep(accent, t.ok_fg),
        git_ignored_fg: keep(setting_exec(&raw.git_ignored_fg), t.git_ignored_fg),
        symlink_fg: keep(setting_exec(&raw.symlink_fg), t.symlink_fg),
    }
}

} // verus!
