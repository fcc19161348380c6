use base64::Engine;
use machina::archive::{create, default_name, detect_type, extract, is_archive, ArchiveError};
use machina::bulk_rename::{listing, new_names, plan, CountMismatch, RenameStep};
use machina::config::{bookmark_text, expand_tilde, Config, RawConfig, RawGeneral};
use machina::dir_size::{total_bytes, SizeCache, SizeEntry};
use machina::icons::{parse_mode, resolve, Icon, IconMode};
use machina::kgp::{fit_box, kitty_payload};
use machina::opener::{is_terminal_app, opener_for, short_cmd};
use machina::ops::{dest_candidate, unique_name};
use machina::keybind::pending_after;
use machina::keys::{shell_way, ShellWay};
use machina::shell::ShellCmd;
use machina::preview::{
    archive_lines, binary_lines, clip_line, dir_listing, dir_lines, empty_lines, error_lines,
    file_kind, image_area, image_lines, is_image_path, FileKind,
};
use machina::theme::{parse_hex, Rgb, RawTheme, Theme};
use machina::undo::{undo_report_text, UndoOp, UndoStack};
use machina::view::Tone;
use machina::watch::{split_args, watch_targets, window_args, worth_reload, Change, WatchList};

#[test]
fn archive_names_and_kinds() {
    assert_eq!(default_name(&["/a/photos".to_string()]), "photos.tar.gz");
    assert_eq!(default_name(&["/a".to_string(), "/b".to_string()]), "archive.tar.gz");
    assert_eq!(default_name(&[]), "archive.tar.gz");
    assert_eq!(default_name(&["/".to_string()]), "archive.tar.gz");
    assert_eq!(detect_type("X.TAR.GZ"), Ok("tar.gz"));
    assert_eq!(detect_type("a.tgz"), Ok("tar.gz"));
    assert_eq!(detect_type("a.tbz2"), Ok("tar.bz2"));
    assert_eq!(detect_type("a.txz"), Ok("tar.xz"));
    assert_eq!(detect_type("a.tar"), Ok("tar"));
    assert_eq!(detect_type("a.Zip"), Ok("zip"));
    assert_eq!(detect_type("a.7z"), Ok("7z"));
    assert_eq!(detect_type("a.rar"), Ok("rar"));
    assert_eq!(detect_type("a.gz"), Err(ArchiveError::Unsupported));
    assert!(is_archive("b.tar.xz"));
    assert!(!is_archive("b.txt"));
    assert_eq!(ArchiveError::Unsupported.message(), "unsupported archive format");
}

#[test]
fn archive_tool_runs() {
    match extract("/d/a.tar.gz", "/out", false) {
        Err(e) => assert_eq!(e, ArchiveError::NotFound),
        Ok(_) => panic!("expected NotFound"),
    }
    match extract("/d/a.md", "/out", true) {
        Err(e) => assert_eq!(e, ArchiveError::Unsupported),
        Ok(_) => panic!("expected Unsupported"),
    }
    let t = extract("/d/a.tar.bz2", "/out", true).ok().unwrap();
    assert_eq!(t.program, "tar");
    assert_eq!(t.args, vec!["-xjf", "/d/a.tar.bz2"]);
    assert_eq!(t.cwd, Some("/out".to_string()));
    let z = extract("/d/a.7z", "/out", true).ok().unwrap();
    assert_eq!(z.program, "7z");
    assert_eq!(z.args, vec!["x", "/d/a.7z", "-o/out"]);
    assert_eq!(z.cwd, None);
    let args = create("pack.tar.gz", "/w", &["/w/a".to_string(), "/elsewhere/b".to_string()]).unwrap();
    assert_eq!(args, vec!["-czf", "/w/pack.tar.gz", "a", "/elsewhere/b"]);
    assert_eq!(create("/abs.tar.gz", "/w", &["/w/a".to_string()]).unwrap()[1], "/abs.tar.gz");
    assert_eq!(create("x", "/w", &[]), Err(ArchiveError::NoFiles));
}

#[test]
fn bulk_rename_listing_and_plan() {
    let paths = vec!["/d/a.txt".to_string(), "/d/b.txt".to_string()];
    assert_eq!(
        listing(&paths),
        "# bulk rename: edit names below, save & quit. Lines must match count.\n# parent: /d\na.txt\nb.txt\n"
    );
    let body = "# comment\n  # indented comment\na.txt\n\n  \nc.txt\r\n";
    let names = new_names(body);
    assert_eq!(names, vec!["a.txt", "c.txt"]);
    let steps = plan(&paths, &names).ok().unwrap();
    assert!(matches!(steps[0], RenameStep::Keep));
    match &steps[1] {
        RenameStep::Rename { src, dest } => {
            assert_eq!(src, "/d/b.txt");
            assert_eq!(dest, "/d/c.txt");
        }
        _ => panic!("expected Rename"),
    }
    let slash = plan(&paths, &["a.txt".to_string(), "x/y".to_string()]).ok().unwrap();
    assert!(matches!(slash[1], RenameStep::Skip));
    match plan(&paths, &["one".to_string()]) {
        Err(e) => assert_eq!(e, CountMismatch { expected: 2, got: 1 }),
        Ok(_) => panic!("expected a count mismatch"),
    }
}

#[test]
fn bookmark_text_rewrites() {
    assert_eq!(bookmark_text("", "w", "/home/u/w"), "\n[bookmarks]\nw = \"/home/u/w\"\n");
    assert_eq!(
        bookmark_text("[general]\nshow_hidden = true", "w", "/x"),
        "[general]\nshow_hidden = true\n\n[bookmarks]\nw = \"/x\"\n"
    );
    assert_eq!(
        bookmark_text("[bookmarks]\nh = \"~\"\n\n[openers]\npdf = \"z\"\n", "w", "/x"),
        "[bookmarks]\nw = \"/x\"\nh = \"~\"\n\n[openers]\npdf = \"z\"\n"
    );
    assert_eq!(
        bookmark_text("[bookmarks]\nw = \"/old\"\nh = \"~\"", "w", "/new"),
        "[bookmarks]\nw = \"/new\"\nh = \"~\""
    );
    assert_eq!(
        bookmark_text("[openers]\nw = \"vim\"\n[bookmarks]\nw = \"/old\"\nh = \"~\"\n[theme]\nw = 1\n", "w", "/new"),
        "[openers]\nw = \"vim\"\n[bookmarks]\nw = \"/new\"\nh = \"~\"\n[theme]\nw = 1\n"
    );
}

#[test]
fn config_defaults_and_merge() {
    let d = Config::default_with("/home/u", "lvim".to_string());
    assert!(!d.show_hidden);
    assert!(d.confirm_delete);
    assert_eq!(opener_for("/x/Song.FLAC", &d), "mpv");
    assert_eq!(opener_for("/x/main.rs", &d), "lvim");
    assert_eq!(opener_for("/x/doc.pdf", &d), "zathura");
    assert_eq!(opener_for("/x/unknown.zzz", &d), "xdg-open");
    assert_eq!(opener_for("/x/Makefile", &d), "xdg-open");
    let raw = RawConfig {
        general: RawGeneral {
            show_hidden: true,
            confirm_delete: false,
            editor: "hx".to_string(),
            respect_gitignore: false,
            icons: "ASCII".to_string(),
        },
        bookmarks: vec![("w".to_string(), "~/work".to_string()), ("h".to_string(), "/root".to_string())],
        openers: vec![("PNG".to_string(), "feh".to_string())],
        theme: RawTheme {
            bg: None,
            fg: Some("#112233".to_string()),
            accent: Some("00e5c8".to_string()),
            dim: None,
            visual_bg: None,
            dir_fg: None,
            file_fg: Some("#AbCdEf".to_string()),
            error_fg: None,
            warn_fg: None,
            git_ignored_fg: None,
            symlink_fg: None,
        },
    };
    let c = raw.into_config(d, Some("/home/u"));
    assert!(c.show_hidden);
    assert!(!c.confirm_delete);
    assert_eq!(c.editor, "hx");
    assert_eq!(c.icons, IconMode::Ascii);
    assert_eq!(c.theme.fg, Rgb { r: 0x11, g: 0x22, b: 0x33 });
    assert_eq!(c.theme.file_fg, Rgb { r: 0xab, g: 0xcd, b: 0xef });
    assert_eq!(c.theme.accent, Theme::default().accent);
    assert_eq!(c.theme.bg, Theme::default().bg);
    assert_eq!(opener_for("/x/a.png", &c), "feh");
    assert_eq!(machina::config::table_get(&c.bookmarks, "w"), Some("/home/u/work".to_string()));
    assert_eq!(machina::config::table_get(&c.bookmarks, "h"), Some("/root".to_string()));
    assert_eq!(machina::config::table_get(&c.bookmarks, "d"), Some("/home/u/Downloads".to_string()));
    assert_eq!(expand_tilde("~/a", Some("/h")), "/h/a");
    assert_eq!(expand_tilde("~a", Some("/h")), "~a");
    assert_eq!(expand_tilde("~/a", None), "~/a");
}

#[test]
fn size_cache_round_trip() {
    let mut c = SizeCache::new();
    assert_eq!(c.lookup("/a", 5), None);
    c.store("/a".to_string(), 5, 100);
    assert_eq!(c.lookup("/a", 5), Some(100));
    assert_eq!(c.lookup("/a", 6), None);
    c.store("/b".to_string(), 1, 7);
    c.store("/a".to_string(), 6, 200);
    assert_eq!(c.lookup("/a", 6), Some(200));
    assert_eq!(c.lookup("/b", 1), Some(7));
    assert_eq!(c.entries.len(), 2);
    let d = SizeCache::from_entries(vec![
        ("/x".to_string(), SizeEntry { mtime_secs: 1, bytes: 1 }),
        ("/x".to_string(), SizeEntry { mtime_secs: 2, bytes: 2 }),
    ]);
    assert_eq!(d.lookup("/x", 2), Some(2));
    assert_eq!(d.entries.len(), 1);
    assert_eq!(total_bytes(&[1, 2, 3]), 6);
    assert_eq!(total_bytes(&[]), 0);
}

#[test]
fn undo_history() {
    let mut u = UndoStack::default();
    for i in 0..33 {
        u.push(UndoOp::Created { path: format!("/f{}", i) });
    }
    assert_eq!(u.ops.len(), 32);
    match u.pop() {
        Some(UndoOp::Created { path }) => assert_eq!(path, "/f32"),
        _ => panic!("expected the newest"),
    }
    let m = UndoOp::Move { src: "/a/x.txt".to_string(), dst: "/b/x.txt".to_string() };
    assert_eq!(undo_report_text(&m), Ok("undo move: x.txt ← /b/x.txt".to_string()));
    assert_eq!(
        undo_report_text(&UndoOp::Trashed { paths: vec![] }),
        Err("trash undo: open trash browser (T) to restore".to_string())
    );
    let mut e = UndoStack::default();
    assert!(e.pop().is_none());
}

#[test]
fn kitty_frames_match_base64_chunks() {
    let png: Vec<u8> = (0..7000u32).map(|i| (i % 251) as u8).collect();
    let b64 = base64::engine::general_purpose::STANDARD.encode(&png);
    let mut expected = String::new();
    let chunks: Vec<&str> = b64.as_bytes().chunks(4096).map(|c| std::str::from_utf8(c).unwrap()).collect();
    for (i, c) in chunks.iter().enumerate() {
        let m = if i + 1 == chunks.len() { 0 } else { 1 };
        if i == 0 {
            expected.push_str(&format!("\x1b_Ga=T,f=100,m={};{}\x1b\\", m, c));
        } else {
            expected.push_str(&format!("\x1b_Gm={};{}\x1b\\", m, c));
        }
    }
    assert_eq!(kitty_payload(&png), expected);
    assert_eq!(kitty_payload(&[]), "");
    assert_eq!(kitty_payload(b"hi"), "\x1b_Ga=T,f=100,m=0;aGk=\x1b\\");
    assert_eq!(kitty_payload(b"Man"), "\x1b_Ga=T,f=100,m=0;TWFu\x1b\\");
    assert_eq!(fit_box(100, 100, 20, 10), None);
    assert_eq!(fit_box(400, 100, 20, 10), Some((160, 160)));
    assert_eq!(fit_box(5, 5, 0, 0), Some((1, 1)));
}

#[test]
fn openers_and_icons() {
    assert!(is_terminal_app("/usr/bin/nvim"));
    assert!(is_terminal_app("hx"));
    assert!(!is_terminal_app("imv"));
    assert_eq!(short_cmd("/usr/local/bin/zathura"), "zathura");
    assert_eq!(parse_mode("OFF"), IconMode::Off);
    assert_eq!(parse_mode("text"), IconMode::Ascii);
    assert_eq!(parse_mode("kitty"), IconMode::Image);
    assert_eq!(parse_mode("whatever"), IconMode::Nerd);
    assert!(matches!(resolve(IconMode::Ascii, "d", true, false, 0), Icon::Glyph(">")));
    assert!(matches!(resolve(IconMode::Ascii, "l", false, true, 0), Icon::Glyph("@")));
    assert!(matches!(resolve(IconMode::Off, "x", false, false, 0), Icon::Blank));
    assert!(matches!(resolve(IconMode::Image, "x", false, false, 9), Icon::Sprite(9)));
    assert_eq!(machina::icons::sprite_kind_for("Downloads", true, false), "folder_dl");
    assert_eq!(machina::icons::sprite_kind_for("x", false, true), "symlink");
}

#[test]
fn paste_conflict_names() {
    assert_eq!(dest_candidate("/d", "a.txt", 1), "/d/a (1).txt");
    assert_eq!(dest_candidate("/d", ".bashrc", 2), "/d/.bashrc (2)");
    assert_eq!(dest_candidate("/d", "archive.tar.gz", 3), "/d/archive.tar (3).gz");
    assert_eq!(dest_candidate("/d", "noext", 1), "/d/noext (1)");
}

#[test]
fn preview_kinds_and_listings() {
    assert_eq!(file_kind("/a/b.PNG"), FileKind::Image);
    assert_eq!(file_kind("/a/b.zip"), FileKind::Zip);
    assert_eq!(file_kind("/a/b.tgz"), FileKind::Tar { gz: true });
    assert_eq!(file_kind("/a/b.xz"), FileKind::Tar { gz: false });
    assert_eq!(file_kind("/a/b.rs"), FileKind::Other);
    assert!(is_image_path("/x/A.JPG"));
    assert!(!is_image_path("/x/a.svg"));
    let entries = vec![("b".to_string(), false), ("a".to_string(), true), ("c".to_string(), false)];
    let (items, total) = dir_listing(&entries);
    assert_eq!(total, 3);
    assert_eq!(items, vec!["  b", "  c", "📁 a"]);
    let many: Vec<(String, bool)> = (0..250).map(|i| (format!("f{:03}", i), false)).collect();
    let (items, total) = dir_listing(&many);
    assert_eq!(total, 250);
    assert_eq!(items.len(), 200);
    assert_eq!(items[199], "  f199");
    let lines = archive_lines(&[Some("x".to_string()), None, Some("y".to_string())], 200);
    assert_eq!(lines, vec!["  x", "  y"]);
    assert_eq!(archive_lines(&[Some("x".to_string()), Some("y".to_string())], 1), vec!["  x"]);
}

#[test]
fn text_lines_are_clipped() {
    assert_eq!(clip_line("short"), Some(("short", false)));
    let long = "é".repeat(600);
    let (kept, cut) = clip_line(&long).unwrap();
    assert!(cut);
    assert_eq!(kept.len(), 1024);
    assert_eq!(clip_line("a\0b"), None);
    let late_nul = format!("{}\0", "a".repeat(1100));
    assert_eq!(clip_line(&late_nul), Some((&late_nul[..1024], true)));
}

#[test]
fn preview_lines() {
    let d = dir_lines(&["📁 sub".to_string(), "  f".to_string()], 2);
    assert_eq!(d[0], (Tone::Title, " 2 items total".to_string()));
    assert_eq!(d[1], (Tone::Plain, "".to_string()));
    assert_eq!(d[2].0, Tone::Dir);
    assert_eq!(d[3].0, Tone::Plain);
    assert_eq!(image_lines(640, 480, "1.2 KB")[0].1, " 640×480   1.2 KB");
    assert_eq!(binary_lines("3 B")[2].1, " Size: 3 B");
    assert_eq!(empty_lines()[0], (Tone::Dim, " (empty)".to_string()));
    assert_eq!(error_lines("Cannot read: x")[0], (Tone::Error, " Cannot read: x".to_string()));
    assert_eq!(image_area((1, 1, 10, 10)), Some((1, 3, 10, 8)));
    assert_eq!(image_area((1, 1, 10, 3)), None);
}

#[test]
fn watching_and_tmux() {
    let mut w = WatchList::new();
    assert!(!w.is_watched("/a"));
    w.record("/a".to_string());
    assert!(w.is_watched("/a"));
    assert_eq!(w.take_all(), vec!["/a"]);
    assert!(!w.is_watched("/a"));
    assert!(!worth_reload(&[Change::Other, Change::Other]));
    assert!(worth_reload(&[Change::Other, Change::Renamed]));
    assert!(!worth_reload(&[]));
    assert_eq!(split_args("/w", &["nvim".to_string(), "f".to_string()], true), vec!["split-window", "-h", "-c", "/w", "nvim", "f"]);
    assert_eq!(window_args("/w", &["zsh".to_string()]), vec!["new-window", "-c", "/w", "zsh"]);
    let mut f = machina::folder::Folder::new("/t".to_string());
    f.refill(Some(vec![]), None);
    let mut app = machina::app::App::new(f, Config::default_with("/", "nvim".to_string()));
    assert_eq!(watch_targets(&app), vec!["/t"]);
    let mut g = machina::folder::Folder::new("/u".to_string());
    g.refill(None, None);
    app.toggle_split(g);
    assert_eq!(watch_targets(&app), vec!["/u", "/t"]);
}

#[test]
fn hex_colours() {
    assert_eq!(parse_hex("#0a0010"), Some(Rgb { r: 0x0a, g: 0x00, b: 0x10 }));
    assert_eq!(parse_hex("#FFB86C"), Some(Rgb { r: 0xff, g: 0xb8, b: 0x6c }));
    assert_eq!(parse_hex("0a0010"), None);
    assert_eq!(parse_hex("#0a001"), None);
    assert_eq!(parse_hex("#0g0010"), None);
    assert_eq!(parse_hex("#0a00100"), None);
}

#[test]
fn unique_names_skip_taken_ones() {
    let none: Vec<String> = vec![];
    assert_eq!(unique_name("a.txt", &none), "a.txt");
    let taken = vec!["a.txt".to_string(), "a (1).txt".to_string(), "b".to_string()];
    assert_eq!(unique_name("a.txt", &taken), "a (2).txt");
    assert_eq!(unique_name("b", &taken), "b (1)");
    let mut all: Vec<String> = vec!["c".to_string()];
    for n in 1..1000 {
        all.push(format!("c ({})", n));
    }
    assert_eq!(unique_name("c", &all), "c");
}

#[test]
fn chord_key_expires_after_one_second() {
    assert_eq!(pending_after(Some('g'), 0), Some('g'));
    assert_eq!(pending_after(Some('g'), 1_000_000_000), Some('g'));
    assert_eq!(pending_after(Some('g'), 1_000_000_001), None);
    assert_eq!(pending_after(None, 5), None);
}

#[test]
fn shell_commands_run_where_they_should() {
    let bg = ShellCmd { raw: "make".to_string(), background: true };
    let fg = ShellCmd { raw: "make".to_string(), background: false };
    assert_eq!(shell_way(&bg, true), ShellWay::Background);
    assert_eq!(shell_way(&fg, true), ShellWay::Tmux);
    assert_eq!(shell_way(&fg, false), ShellWay::Foreground);
}

fn png(w: u32, h: u32) -> Vec<u8> {
    let img = image::RgbaImage::from_pixel(w, h, image::Rgba([10, 20, 30, 255]));
    let mut out = std::io::Cursor::new(Vec::new());
    image::DynamicImage::ImageRgba8(img).write_to(&mut out, image::ImageFormat::Png).unwrap();
    out.into_inner()
}

#[test]
fn images_are_scaled_to_their_cells() {
    let small = machina::kgp::resize_for_cells(&png(4, 4), 10, 10).unwrap();
    let back = image::load_from_memory(&small).unwrap();
    assert_eq!((back.width(), back.height()), (4, 4));
    let big = machina::kgp::resize_for_cells(&png(200, 100), 5, 5).unwrap();
    let back = image::load_from_memory(&big).unwrap();
    assert_eq!((back.width(), back.height()), (40, 20));
    assert_eq!(machina::kgp::resize_for_cells(b"not an image", 5, 5), None);
}
