use machina::git::parse_porcelain;
use machina::input::parse_create;
use machina::shell::{expand, parse, shell_quote};

#[test]
fn porcelain_clean_branch() {
    let g = parse_porcelain("## main...origin/main\n").unwrap();
    assert_eq!(g.branch, "main");
    assert!(g.clean);
    assert_eq!((g.ahead, g.behind), (0, 0));
    assert_eq!((g.staged, g.modified, g.untracked), (0, 0, 0));
}

#[test]
fn porcelain_ahead_behind_and_changes() {
    let text = "## main...origin/main [ahead 1, behind 2]\nM  staged.rs\n M modified.rs\nMM both.rs\n?? new.txt\nA  added.rs\n";
    let g = parse_porcelain(text).unwrap();
    assert_eq!(g.branch, "main");
    assert_eq!(g.ahead, 1);
    assert_eq!(g.behind, 2);
    assert!(!g.clean);
    assert_eq!(g.staged, 3);
    assert_eq!(g.modified, 2);
    assert_eq!(g.untracked, 1);
    assert!(g.is_dirty());
}

#[test]
fn porcelain_detached_head_and_odd_lines() {
    let g = parse_porcelain("## HEAD (no branch)\r\nX\n").unwrap();
    assert_eq!(g.branch, "HEAD");
    assert!(!g.clean);
    assert_eq!((g.staged, g.modified, g.untracked), (0, 0, 0));
    let e = parse_porcelain("").unwrap();
    assert_eq!(e.branch, "?");
    assert!(e.clean);
    let bad = parse_porcelain("## dev [ahead x, behind 99999999999]").unwrap();
    assert_eq!(bad.branch, "dev");
    assert_eq!((bad.ahead, bad.behind), (0, 0));
}

#[test]
fn create_syntax() {
    assert_eq!(parse_create("d=photos"), Some((true, "photos".to_string())));
    assert_eq!(parse_create("d= a/b// "), Some((true, "a/b".to_string())));
    assert_eq!(parse_create("f=notes.md"), Some((false, "notes.md".to_string())));
    assert_eq!(parse_create("newdir/"), Some((true, "newdir".to_string())));
    assert_eq!(parse_create("  plain.txt "), Some((false, "plain.txt".to_string())));
    assert_eq!(parse_create(""), None);
    assert_eq!(parse_create("d="), None);
    assert_eq!(parse_create("d=///"), None);
    assert_eq!(parse_create("f=  "), None);
    assert_eq!(parse_create("/"), None);
}

#[test]
fn shell_parse_background() {
    let c = parse("ls -la").unwrap();
    assert_eq!(c.raw, "ls -la");
    assert!(!c.background);
    let b = parse("  sleep 1 & ").unwrap();
    assert_eq!(b.raw, "sleep 1");
    assert!(b.background);
    assert!(parse("  &  ").is_none());
    assert!(parse("").is_none());
}

#[test]
fn shell_quoting() {
    assert_eq!(shell_quote("plain/path-1.txt"), "plain/path-1.txt");
    assert_eq!(shell_quote("with space"), "'with space'");
    assert_eq!(shell_quote("it's"), "'it'\\''s'");
    assert_eq!(shell_quote(""), "''");
    assert_eq!(shell_quote("ünï"), "'ünï'");
}

#[test]
fn template_expansion() {
    let sel = vec!["/a b".to_string(), "/c".to_string()];
    assert_eq!(expand("cp $@ $d", Some("/h/f.txt"), &sel, "/dst dir"), "cp '/a b' /c '/dst dir'");
    assert_eq!(expand("echo $f $F", Some("/h/my file.txt"), &[], "/"), "echo '/h/my file.txt' 'my file.txt'");
    assert_eq!(expand("rm $@", Some("/h/x"), &[], "/"), "rm /h/x");
    assert_eq!(expand("echo $f$x$", None, &[], "/"), "echo $x$");
    assert_eq!(expand("$$d", None, &[], "/w"), "$/w");
}
