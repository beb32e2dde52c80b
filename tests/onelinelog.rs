use gde::git::{Commit, Error, OnelineLog, RangeStr};

#[test]
fn test_range() {
    let source = "| * e252a0a - (origin/single-binary-for-windows) Add configuration to generate a single binary for Windows (2023-08-15 12:52:25 +0900) <Niumlaque>";
    let chars = source.chars().collect::<Vec<_>>();
    let r = RangeStr::new(chars);
    assert_eq!(Some(" e252a0a "), r.first_str('*', '-').as_deref());
    assert_eq!(
        Some("origin/single-binary-for-windows"),
        r.first_str('(', ')').as_deref()
    );
    assert_eq!(
        Some("2023-08-15 12:52:25 +0900"),
        r.last_str('(', ')').as_deref()
    );
    assert_eq!(Some("Niumlaque"), r.last_str('<', '>').as_deref());

    let expected = "Add configuration to generate a single binary for Windows";
    let (_, ar1) = r.first_range('(', ')').unwrap();
    let (dr0, _) = r.last_range('(', ')').unwrap();
    let actual = r.str_from_range(ar1 + 1, dr0 - 1).trim().to_string();
    assert_eq!(expected, actual);

    let (hr0, _) = r.first_range('*', '-').unwrap();
    let tree_head = r.str_from_range(0, hr0 - 1);
    assert_eq!("| ", tree_head);
}

#[test]
fn test_commit() {
    let source = "* 6d14782 - Initial commit (2023-08-06 23:23:20 +0900) <Niumlaque>";
    let c = Commit::from_str(source).ok().unwrap();
    assert_eq!("", c.tree_head());
    assert_eq!("6d14782", c.hash());
    assert_eq!(None, c.aliases());
    assert_eq!("Initial commit", c.message());
    assert_eq!("2023-08-06 23:23:20 +0900", c.date());
    assert_eq!("Niumlaque", c.author());
    assert_eq!(source, c.to_string());

    let source = "| * e252a0a - (origin/single-binary-for-windows) Add configuration to generate a single binary for Windows (2023-08-15 12:52:25 +0900) <Niumlaque>";
    let c = Commit::from_str(source).ok().unwrap();
    assert_eq!("| ", c.tree_head());
    assert_eq!("e252a0a", c.hash());
    assert_eq!(Some("origin/single-binary-for-windows"), c.aliases());
    assert_eq!(
        "Add configuration to generate a single binary for Windows",
        c.message()
    );
    assert_eq!("2023-08-15 12:52:25 +0900", c.date());
    assert_eq!("Niumlaque", c.author());
    assert_eq!(source, c.to_string());

    let source = "*   3706c44 - (HEAD -> master, origin/master, origin/HEAD) )|-(()<\\>a><*---*( (2023-08-15 12:52:59 +0900) <Niumlaque>";
    let c = Commit::from_str(source).ok().unwrap();
    assert_eq!("", c.tree_head());
    assert_eq!("3706c44", c.hash());
    assert_eq!(
        Some("HEAD -> master, origin/master, origin/HEAD"),
        c.aliases()
    );
    assert_eq!(")|-(()<\\>a><*---*(", c.message());
    assert_eq!("2023-08-15 12:52:59 +0900", c.date());
    assert_eq!("Niumlaque", c.author());
    assert_eq!(source, c.to_string());
}

#[test]
fn padding_keeps_alignment() {
    let source = "*   3706c44 - Merge (2023-08-15 12:52:59 +0900) <Niumlaque>";
    let c = Commit::from_str(source).ok().unwrap();
    assert_eq!("  ", c.hash_padding());
    assert_eq!("3706c44", c.hash());
    assert_eq!(source, c.to_string());
}

#[test]
fn decoration_lines_are_kept_verbatim() {
    for line in ["|\\  ", "| |", "|/", "  / /", ""] {
        match OnelineLog::from(line) {
            OnelineLog::TreeBranches(s) => assert_eq!(line, s),
            OnelineLog::Commit(_) => panic!("parsed a decoration line as a commit"),
        }
        assert_eq!(line, OnelineLog::from(line).to_string());
    }
}

#[test]
fn line_without_author_is_decoration() {
    let line = "* 6d14782 - Initial commit (2023-08-06)";
    assert!(matches!(OnelineLog::from(line), OnelineLog::TreeBranches(_)));
    match Commit::from_str(line) {
        Err(Error::LogParse(s)) => assert_eq!(line, s),
        _ => panic!("expected a parse error"),
    }
}

#[test]
fn dash_must_follow_star() {
    assert!(matches!(
        OnelineLog::from("- * 6d14782 (x) <a>"),
        OnelineLog::TreeBranches(_)
    ));
    assert!(matches!(
        OnelineLog::from("-- no star here (x) <a>"),
        OnelineLog::TreeBranches(_)
    ));
    let c = Commit::from_str("|- * 6d14782 - m (x) <a>").ok().unwrap();
    assert_eq!("|- ", c.tree_head());
}

#[test]
fn single_group_means_no_aliases() {
    let c = Commit::from_str("* abc - fix bug (2023-01-01) <me>").ok().unwrap();
    assert_eq!(None, c.aliases());
    assert_eq!("fix bug", c.message());
    assert_eq!("2023-01-01", c.date());
}

#[test]
fn two_groups_give_aliases() {
    let c = Commit::from_str("* abc - (tag: v1) fix bug (2023-01-01) <me>")
        .ok()
        .unwrap();
    assert_eq!(Some("tag: v1"), c.aliases());
    assert_eq!("fix bug", c.message());
}

#[test]
fn render_then_parse_round_trips() {
    let c = Commit::new(
        "| | ".to_string(),
        " ".to_string(),
        "0a1b2c3".to_string(),
        Some("origin/main, main".to_string()),
        "Tidy up the parser".to_string(),
        "2024-02-03 04:05:06 +0000".to_string(),
        "Someone".to_string(),
    );
    let text = c.to_string();
    assert_eq!(
        "| | *  0a1b2c3 - (origin/main, main) Tidy up the parser (2024-02-03 04:05:06 +0000) <Someone>",
        text
    );
    let back = Commit::from_str(&text).ok().unwrap();
    assert_eq!(c.tree_head(), back.tree_head());
    assert_eq!(c.hash_padding(), back.hash_padding());
    assert_eq!(c.hash(), back.hash());
    assert_eq!(c.aliases(), back.aliases());
    assert_eq!(c.message(), back.message());
    assert_eq!(c.date(), back.date());
    assert_eq!(c.author(), back.author());
}

#[test]
fn message_is_trimmed_of_unicode_space() {
    let c = Commit::from_str("* abc -\u{3000}hello\u{a0} (d) <a>").ok().unwrap();
    assert_eq!("hello", c.message());
}

#[test]
fn error_messages() {
    assert_eq!(
        "Could not parse \"xyz\"",
        Error::LogParse("xyz".to_string()).to_string()
    );
    assert_eq!("boom", Error::Command("boom".to_string()).to_string());
    assert_eq!("io", Error::Io("io".to_string()).to_string());
    assert_eq!("utf", Error::FromUtf8("utf".to_string()).to_string());
}
