use machina::app::{App, ConfirmKind};
use machina::config::Config;
use machina::folder::{FileEntry, Folder};
use machina::git::GitStatus;
use machina::view::{
    body, chord_hints, confirm_box, confirm_title, git_place, git_segment, header, help_box,
    hint_box, hint_line, input_bar, pane_order, pane_rows, pane_title, paste_box, paste_info,
    paste_options, short_path, status, tab_strip, Body, GitTone, RowTone, Tone,
};

fn entry(dir: &str, name: &str, is_dir: bool) -> FileEntry {
    FileEntry {
        path: format!("{}/{}", dir, name),
        name: name.to_string(),
        is_dir,
        size: 10,
        modified: "01-02 03:04".to_string(),
        git: None,
    }
}

fn folder_at(dir: &str, items: &[(&str, bool)]) -> Folder {
    let mut f = Folder::new(dir.to_string());
    f.refill(Some(items.iter().map(|(n, d)| entry(dir, n, *d)).collect()), None);
    f
}

fn app() -> App {
    App::new(
        folder_at("/t", &[("a.txt", false), ("a-very-long-file-name.txt", false), ("dir", true)]),
        Config::default_with("/home/u", "nvim".to_string()),
    )
}

fn git(clean: bool, ahead: u32, behind: u32, staged: usize, modified: usize, untracked: usize) -> GitStatus {
    GitStatus { branch: "main".to_string(), clean, modified, untracked, staged, ahead, behind }
}

#[test]
fn git_segment_text_and_colour() {
    let (t, s) = git_segment(&git(true, 0, 0, 0, 0, 0));
    assert_eq!(t, GitTone::Clean);
    assert_eq!(s, "  main ");
    let (t, s) = git_segment(&git(false, 1, 2, 3, 4, 5));
    assert_eq!(t, GitTone::Dirty);
    assert_eq!(s, "  main ↑1 ↓2 +3 ~4 ?5 ");
    let (t, _) = git_segment(&git(true, 1, 0, 0, 0, 0));
    assert_eq!(t, GitTone::Moved);
    assert_eq!(git_place(0, 80, "  main "), Some((72, 8)));
    assert_eq!(git_place(5, 7, "  main "), None);
}

#[test]
fn header_shows_markers() {
    let mut a = app();
    let h = header(&a);
    assert_eq!(h.len(), 3);
    assert_eq!(h[0], (Tone::Brand, " machina ".to_string()));
    assert_eq!(h[2].1, "/t");
    a.current_mut().toggle_hidden();
    a.current_mut().set_filter("a".to_string());
    a.toggle_selected("/t/a.txt".to_string());
    let h = header(&a);
    let texts: Vec<String> = h.iter().map(|p| p.1.clone()).collect();
    assert_eq!(texts, vec![" machina ", " ", "/t", "  [hidden]", "  /a", "  [1 selected]"]);
}

#[test]
fn tab_strip_labels() {
    let mut a = app();
    a.new_tab(folder_at("/", &[]));
    a.split = Some(0);
    let t = tab_strip(&a);
    assert_eq!(t.len(), 4);
    assert_eq!(t[0], (Tone::Partner, " 1 t ".to_string()));
    assert_eq!(t[2], (Tone::Active, " 2 / ".to_string()));
    assert_eq!(t[3], (Tone::Plain, " ".to_string()));
}

#[test]
fn pane_rows_cut_and_mark() {
    let mut a = app();
    a.toggle_selected("/t/a.txt".to_string());
    let sizes: Vec<String> = vec!["".to_string(), "10 B".to_string(), "10 B".to_string()];
    let rows = pane_rows(&a, 0, true, 10, 36, &sizes);
    assert_eq!(rows.len(), 3);
    assert_eq!(rows[0].tone, RowTone::Cursor);
    assert!(rows[0].cursor);
    assert_eq!(rows[0].name, format!("    {:<10}", "dir"));
    assert_eq!(rows[0].size, format!(" {:>9} ", ""));
    assert_eq!(rows[0].time, format!("{:>11}", "01-02 03:04"));
    assert_eq!(rows[1].tone, RowTone::File);
    assert_eq!(rows[1].name, "    a-very-lo…");
    assert_eq!(rows[2].tone, RowTone::Marked);
    assert_eq!(rows[2].name, "*   a.txt     ");
    assert_eq!(rows[2].size, "      10 B ");
    assert_eq!(pane_title(&a, 0, true), " 3 files ");
    assert_eq!(pane_title(&a, 0, false), " t: 3 files ");
}

#[test]
fn status_line() {
    let mut a = app();
    assert!(status(&a, None).is_empty());
    a.message("hello".to_string());
    let s = status(&a, Some('g'));
    let texts: Vec<String> = s.iter().map(|p| p.1.clone()).collect();
    assert_eq!(texts, vec![" hello", "  ", "(g)"]);
}

#[test]
fn popups_are_centred() {
    assert_eq!(confirm_box((0, 0, 100, 40)), (10, 17, 80, 5));
    assert_eq!(confirm_box((0, 0, 50, 10)), (5, 2, 40, 5));
    assert_eq!(paste_box((0, 0, 100, 40)), (20, 16, 60, 7));
    assert_eq!(paste_box((2, 3, 30, 7)), (4, 3, 26, 7));
    assert_eq!(help_box((0, 0, 100, 50)), (10, 8, 80, 34));
    assert_eq!(help_box((0, 0, 3, 3)), (1, 1, 0, 0));
    assert_eq!(confirm_title(&ConfirmKind::DeletePermanent), (" ! PERMANENT DELETE ", Tone::Error));
    assert_eq!(confirm_title(&ConfirmKind::DeleteTrash).0, " trash ");
}

#[test]
fn paste_dialog_texts() {
    let a = app();
    assert_eq!(paste_info(&a, &None), " 0 item(s) → /t");
    assert_eq!(paste_info(&a, &Some("/x".to_string())), " 0 item(s) → /x");
    let o = paste_options(1);
    assert_eq!(o.len(), 6);
    assert_eq!(o[2], (Tone::Active, "  Move  ".to_string()));
    assert_eq!(o[0], (Tone::Plain, "  Copy  ".to_string()));
}

#[test]
fn chord_hints_list_bookmarks_sorted() {
    let a = app();
    let (label, hints) = chord_hints(&a, 'g', Some("/home/u")).unwrap();
    assert_eq!(label, "g — goto/tab");
    let keys: Vec<String> = hints.iter().map(|h| h.key.clone()).collect();
    assert_eq!(keys, vec!["g", "t", "T", "D", "c", "d", "h", "r"]);
    let descs: Vec<String> = hints.iter().map(|h| h.desc.clone()).collect();
    assert_eq!(descs[3], "→ ~/Documents");
    assert_eq!(descs[6], "→ ~");
    assert_eq!(descs[7], "→ /");
    let (label, y) = chord_hints(&a, 'y', None).unwrap();
    assert_eq!(label, "y — yank/copy");
    assert_eq!(y.len(), 4);
    assert!(chord_hints(&a, 'q', None).is_none());
    let ((x, y0, w, h), kw) = hint_box((0, 0, 100, 40), &hints);
    assert_eq!(kw, 1);
    assert_eq!((w, h), (20, 10));
    assert_eq!((x, y0), (78, 27));
    let (key, desc) = hint_line(&hints[0], 3);
    assert_eq!(key, "   g ");
    assert_eq!(desc, "  top of list");
}

#[test]
fn short_paths() {
    assert_eq!(short_path("/home/u/Downloads", Some("/home/u")), "~/Downloads");
    assert_eq!(short_path("/etc", Some("/home/u")), "/etc");
    assert_eq!(short_path("/home/u", Some("/home/u")), "~");
    assert_eq!(short_path("/home/u", None), "/home/u");
}

#[test]
fn input_bar_and_body() {
    let mut a = app();
    assert!(input_bar(&a).is_empty());
    a.input.open(machina::input::InputAction::Search, "search: ".to_string(), "ab".to_string());
    let b = input_bar(&a);
    let texts: Vec<String> = b.iter().map(|p| p.1.clone()).collect();
    assert_eq!(texts, vec!["search: ", " ", "ab", "▏"]);
    assert_eq!(body(&a), Body::Preview);
    a.preview_visible = false;
    assert_eq!(body(&a), Body::Single);
    a.new_tab(folder_at("/x", &[]));
    a.split = Some(0);
    assert_eq!(body(&a), Body::Split { left: 0, right: 1 });
    assert_eq!(pane_order(3, 1), (1, 3));
}
