use machina::highlight::{syntax_for_file, text_preview_lines, Highlighter};

fn joined(line: &[((u8, u8, u8), String)]) -> String {
    line.iter().map(|(_, t)| t.as_str()).collect()
}

#[test]
fn syntax_is_chosen_by_name_extension_then_first_line() {
    let hl = Highlighter::load().unwrap();
    assert_eq!(syntax_for_file(&hl, "/x/main.rs", None), "Rust");
    assert_eq!(syntax_for_file(&hl, "/x/script", Some("#!/bin/bash\n")), "Bourne Again Shell (bash)");
    assert_eq!(syntax_for_file(&hl, "/x/notes", None), "Plain Text");
}

#[test]
fn text_preview_is_clipped_and_highlighted() {
    let hl = Highlighter::load().unwrap();
    let raw = vec!["fn main() {}".to_string(), "".to_string(), "x".repeat(1100)];
    let lines = text_preview_lines(&hl, "/x/main.rs", None, &raw).unwrap();
    assert_eq!(lines.len(), 3);
    assert_eq!(joined(&lines[0]), "fn main() {}");
    assert_eq!(joined(&lines[1]), "");
    assert_eq!(joined(&lines[2]), format!("{}…", "x".repeat(1024)));
    assert!(lines[0].len() > 1);
}

#[test]
fn zero_bytes_mark_binary_and_only_200_lines_are_read() {
    let hl = Highlighter::load().unwrap();
    let raw = vec!["ok".to_string(), "a\0b".to_string()];
    assert!(text_preview_lines(&hl, "/x/f.txt", None, &raw).is_none());
    let mut many: Vec<String> = (0..200).map(|i| i.to_string()).collect();
    many.push("\0".to_string());
    assert_eq!(text_preview_lines(&hl, "/x/f.txt", None, &many).unwrap().len(), 200);
}
