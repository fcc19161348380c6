use machina::folder::{FileEntry, Folder};

fn entry(dir: &str, name: &str, is_dir: bool) -> FileEntry {
    FileEntry {
        path: format!("{}/{}", dir, name),
        name: name.to_string(),
        is_dir,
        size: 10,
        modified: "01-02 03:04".to_string(),
        git: None,
    }
}

fn folder_at(dir: &str, items: &[(&str, bool)]) -> Folder {
    let mut f = Folder::new(dir.to_string());
    f.refill(Some(items.iter().map(|(n, d)| entry(dir, n, *d)).collect()), None);
    f
}

fn names(f: &Folder) -> Vec<String> {
    f.files.iter().map(|e| e.name.clone()).collect()
}

#[test]
fn listing_puts_directories_first_then_names_ignoring_case() {
    let f = folder_at("/t", &[("b.txt", false), ("A", true), ("a.txt", false), ("z", true), ("B.md", false)]);
    assert_eq!(names(&f), vec!["A", "z", "a.txt", "B.md", "b.txt"]);
    assert_eq!(f.cursor, 0);
    assert_eq!(f.offset, 0);
}

#[test]
fn unreadable_directory_shows_nothing() {
    let mut f = Folder::new("/nope".to_string());
    f.refill(None, None);
    assert!(f.files.is_empty());
    assert!(f.all_files.is_empty());
    assert!(f.hovered().is_none());
}

#[test]
fn dotfiles_hidden_until_toggled() {
    let mut f = folder_at("/t", &[(".git", true), (".bashrc", false), ("x", false)]);
    assert_eq!(names(&f), vec!["x"]);
    f.toggle_hidden();
    assert!(f.show_hidden);
    assert_eq!(names(&f), vec![".git", ".bashrc", "x"]);
    f.toggle_hidden();
    assert_eq!(names(&f), vec!["x"]);
}

#[test]
fn hidden_twice_shows_same_entries() {
    let mut f = folder_at("/t", &[(".a", false), ("b", false), ("c", true)]);
    let before = names(&f);
    f.toggle_hidden();
    f.toggle_hidden();
    assert_eq!(names(&f), before);
}

#[test]
fn filter_is_case_insensitive_and_clears() {
    let mut f = folder_at("/t", &[("Notes.TXT", false), ("main.rs", false), ("todo.txt", false)]);
    f.cursor_down(40);
    f.set_filter("txt".to_string());
    assert_eq!(names(&f), vec!["Notes.TXT", "todo.txt"]);
    assert_eq!(f.cursor, 0);
    f.clear_filter();
    assert_eq!(names(&f), vec!["main.rs", "Notes.TXT", "todo.txt"]);
    assert!(f.filter.is_empty());
}

#[test]
fn filter_and_clear_shows_everything_again() {
    let mut f = folder_at("/t", &[("one", false), ("two", false)]);
    f.set_filter("zzz".to_string());
    assert!(f.files.is_empty());
    assert_eq!(f.cursor, 0);
    f.clear_filter();
    assert_eq!(names(&f), vec!["one", "two"]);
}

fn many(n: usize) -> Folder {
    let items: Vec<(String, bool)> = (0..n).map(|i| (format!("f{:03}", i), false)).collect();
    let refs: Vec<(&str, bool)> = items.iter().map(|(s, d)| (s.as_str(), *d)).collect();
    folder_at("/m", &refs)
}

#[test]
fn cursor_moves_and_stops_at_ends() {
    let mut f = many(3);
    f.cursor_up();
    assert_eq!(f.cursor, 0);
    f.cursor_down(40);
    f.cursor_down(40);
    f.cursor_down(40);
    assert_eq!(f.cursor, 2);
    f.cursor_up();
    assert_eq!(f.cursor, 1);
    f.cursor_top();
    assert_eq!((f.cursor, f.offset), (0, 0));
}

#[test]
fn cursor_down_scrolls_within_rows() {
    let mut f = many(50);
    for _ in 0..10 {
        f.cursor_down(10);
    }
    // 6 rows visible: the cursor stays on the last of them.
    assert_eq!(f.cursor, 10);
    assert_eq!(f.offset, 5);
}

#[test]
fn paging_moves_by_rows() {
    let mut f = many(100);
    f.page_down(40);
    assert_eq!(f.cursor, 36);
    assert_eq!(f.offset, 1);
    f.page_down(40);
    assert_eq!(f.cursor, 72);
    f.page_down(40);
    assert_eq!(f.cursor, 99);
    f.page_up(40);
    assert_eq!(f.cursor, 63);
    f.page_up(40);
    f.page_up(40);
    assert_eq!(f.cursor, 0);
    assert_eq!(f.offset, 0);
}

#[test]
fn bottom_scrolls_last_entry_into_view() {
    let mut f = many(100);
    f.cursor_bottom();
    assert_eq!(f.cursor, 99);
    assert_eq!(f.offset, 80);
    let mut e = many(0);
    e.cursor_bottom();
    assert_eq!(e.cursor, 0);
}

#[test]
fn jump_to_char_wraps_and_ignores_case() {
    let mut f = folder_at("/j", &[("apple", false), ("banana", false), ("Avocado", false), ("cherry", false)]);
    assert_eq!(names(&f), vec!["apple", "Avocado", "banana", "cherry"]);
    assert!(f.jump_to_char('a'));
    assert_eq!(f.cursor, 1);
    assert!(f.jump_to_char('A'));
    assert_eq!(f.cursor, 0);
    assert!(f.jump_to_char('C'));
    assert_eq!(f.cursor, 3);
    assert!(!f.jump_to_char('x'));
    assert_eq!(f.cursor, 3);
    let mut empty = many(0);
    assert!(!empty.jump_to_char('a'));
}

#[test]
fn parent_puts_cursor_on_directory_left() {
    let mut f = folder_at("/t/sub", &[("inner", false)]);
    let listing: Vec<FileEntry> = vec![entry("/t", "aaa", true), entry("/t", "sub", true), entry("/t", "zzz", false)];
    f.parent(Some(listing), None);
    assert_eq!(f.path, "/t");
    assert_eq!(f.cursor, 1);
    assert_eq!(f.hovered().unwrap().name, "sub");
}

#[test]
fn parent_of_root_does_nothing() {
    let mut f = folder_at("/", &[("bin", true)]);
    f.parent(Some(vec![]), None);
    assert_eq!(f.path, "/");
    assert_eq!(names(&f), vec!["bin"]);
}

#[test]
fn enter_dir_only_for_directories() {
    let mut f = folder_at("/t", &[("d", true), ("file", false)]);
    assert_eq!(f.dir_to_enter(), Some("/t/d".to_string()));
    assert!(f.enter_dir(Some(vec![entry("/t/d", "x", false)]), None));
    assert_eq!(f.path, "/t/d");
    assert_eq!(names(&f), vec!["x"]);
    assert!(!f.enter_dir(Some(vec![]), None));
    assert_eq!(f.path, "/t/d");
}

#[test]
fn select_name_finds_entry() {
    let mut f = folder_at("/t", &[("a", false), ("b", false), ("c", false)]);
    assert!(f.select_name("c"));
    assert_eq!(f.cursor, 2);
    assert!(!f.select_name("nope"));
    assert_eq!(f.cursor, 2);
    assert_eq!(f.position("b"), Some(1));
}

#[test]
fn visible_files_window() {
    let f = many(10);
    let v = f.visible_files(7);
    assert_eq!(v.len(), 3);
    assert_eq!(v[0].name, "f000");
    let all = f.visible_files(100);
    assert_eq!(all.len(), 10);
}

#[test]
fn load_path_clears_filter() {
    let mut f = folder_at("/t", &[("a", false)]);
    f.set_filter("a".to_string());
    f.load_path("/u".to_string(), Some(vec![entry("/u", "b", false)]), None);
    assert_eq!(f.path, "/u");
    assert!(f.filter.is_empty());
    assert_eq!(names(&f), vec!["b"]);
}
