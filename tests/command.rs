use gde::git::command::{lines, names};
use gde::git::{CommandOutput, Error, Git, GitCheckout, GitDiff, GitLog, GitLsTree, GitReset};

fn out(success: bool, stdout: &str, stderr: &str) -> CommandOutput {
    CommandOutput {
        success,
        stdout: stdout.to_string(),
        stderr: stderr.to_string(),
    }
}

fn git() -> Git {
    Git::from_path("/usr/bin/git", &out(true, "git version 2.39.2\n", ""))
        .ok()
        .unwrap()
}

fn command_message(r: Error) -> String {
    match r {
        Error::Command(m) => m,
        _ => panic!("expected a command error"),
    }
}

#[test]
fn version_is_read_from_first_line() {
    let g = git();
    assert_eq!("2.39.2", g.version());
    assert_eq!("/usr/bin/git", g.path());
    assert_eq!(
        "other 1.0",
        Git::get_version(&out(true, "other 1.0\nmore", "")).ok().unwrap()
    );
    let e = Git::from_path("git", &out(true, "", "oops")).err().unwrap();
    assert_eq!("Failed to get version", command_message(e));
    let c = Git::version_command("git");
    assert_eq!(vec!["--version".to_string()], c.args);
    assert!(c.dir.is_none());
}

#[test]
fn rootdir_and_hash() {
    let g = git();
    assert_eq!(
        "/repo",
        Git::get_rootdir(&out(true, "/repo\n", "")).ok().unwrap()
    );
    let e = Git::get_rootdir(&out(false, "", "fatal")).err().unwrap();
    assert_eq!("Failed to get root directory", command_message(e));
    assert_eq!(
        "abcdef",
        Git::get_hash("HEAD", &out(true, "abcdef\n", "")).ok().unwrap()
    );
    let e = Git::get_hash("HEAD", &out(false, "", "")).err().unwrap();
    assert_eq!("Failed to get hash of HEAD", command_message(e));
    let c = g.hash_command("/repo/sub", "HEAD");
    assert_eq!(vec!["rev-parse".to_string(), "HEAD".to_string()], c.args);
    assert_eq!(Some("/repo/sub".to_string()), c.dir);
    let c = g.rootdir_command("/repo/sub");
    assert_eq!(3, c.args.len());
    assert_eq!("/usr/bin/git", c.program);
}

#[test]
fn diff_commands_and_output() {
    let d = GitDiff::new(git(), "HEAD".to_string(), None, "/repo".to_string());
    assert_eq!(
        vec!["diff", "--name-only", "HEAD"],
        d.name_only().args.iter().map(|s| s.as_str()).collect::<Vec<_>>()
    );
    let d = GitDiff::new(
        git(),
        "a1".to_string(),
        Some("b2".to_string()),
        "/repo".to_string(),
    );
    assert_eq!(
        vec!["diff", "--staged", "--name-only", "a1", "b2"],
        d.staged_name_only()
            .args
            .iter()
            .map(|s| s.as_str())
            .collect::<Vec<_>>()
    );
    assert_eq!(
        vec!["x".to_string(), "y/z".to_string()],
        GitDiff::parse_names(&out(true, "x\n\ny/z\n", "")).ok().unwrap()
    );
    let e = GitDiff::parse_names(&out(false, "", "bad")).err().unwrap();
    assert_eq!("Failed to get differences (bad)", command_message(e));
}

#[test]
fn log_ls_checkout_reset() {
    let l = GitLog::new(git(), true, "/repo".to_string());
    let args = l.tree().args;
    assert_eq!("--all", args[2]);
    assert_eq!("--pretty=format:%h -%d %s (%ci) <%an>", args[3]);
    assert_eq!(
        vec!["a".to_string(), "".to_string(), "b".to_string()],
        GitLog::parse_tree(&out(true, "a\n\nb", "")).ok().unwrap()
    );
    let e = GitLog::parse_tree(&out(false, "", "e")).err().unwrap();
    assert_eq!("Failed to get logs (e)", command_message(e));

    let t = GitLsTree::new(git(), "c1".to_string(), "/repo".to_string());
    assert_eq!(
        vec!["ls-tree", "-r", "--name-only", "c1"],
        t.name_only().args.iter().map(|s| s.as_str()).collect::<Vec<_>>()
    );
    let e = GitLsTree::parse_names(&out(false, "", "e")).err().unwrap();
    assert_eq!("Failed to get tree of files (e)", command_message(e));

    let c = GitCheckout::new(git(), "c1".to_string(), "/repo".to_string());
    assert_eq!(
        vec!["checkout", "c1", "a/b"],
        c.checkout("a/b").args.iter().map(|s| s.as_str()).collect::<Vec<_>>()
    );
    assert_eq!("/repo", c.root_dir());
    assert!(GitCheckout::parse_checkout(&out(true, "", "")).is_ok());
    let e = GitCheckout::parse_checkout(&out(false, "", "x")).err().unwrap();
    assert_eq!("Failed to checkout", command_message(e));

    let r = GitReset::new(git(), "c1".to_string(), "/repo".to_string());
    assert_eq!(
        vec!["reset", "--hard", "c1"],
        r.hard().args.iter().map(|s| s.as_str()).collect::<Vec<_>>()
    );
    let e = GitReset::parse_hard(&out(false, "", "locked")).err().unwrap();
    assert_eq!("locked", command_message(e));
}

#[test]
fn splitting_lines() {
    assert_eq!(vec![""], lines(""));
    assert_eq!(vec!["a", "", "b", ""], lines("a\n\nb\n"));
    assert!(names("\n\n").is_empty());
    assert_eq!(vec!["a", "b"], names("a\n\nb\n"));
}
