use gde::extract::{parent_dir_of, Action, Endpoint, Event, ExtractError, Report};
use gde::FilesCopy;

struct Sim {
    unstaged: Vec<&'static str>,
    staged: Vec<&'static str>,
    diff: Vec<&'static str>,
    from_paths: Vec<&'static str>,
    to_paths: Vec<&'static str>,
    fail_materialize_at: Option<usize>,
    materialized: usize,
    tree: String,
    log: Vec<String>,
}

fn ep(e: Endpoint) -> &'static str {
    match e {
        Endpoint::From => "from",
        Endpoint::To => "to",
    }
}

fn paths(v: &[&str]) -> Event {
    Event::Paths(v.iter().map(|s| s.to_string()).collect())
}

impl Sim {
    fn new(diff: Vec<&'static str>) -> Sim {
        Sim {
            unstaged: vec![],
            staged: vec![],
            diff,
            from_paths: vec![],
            to_paths: vec![],
            fail_materialize_at: None,
            materialized: 0,
            tree: "HEAD0".to_string(),
            log: vec![],
        }
    }

    fn answer(&mut self, a: &Action) -> Event {
        match a {
            Action::ChangedPaths { from, to, staged } => {
                self.log.push(format!("diff {from} {to:?} {staged}"));
                match (to, staged) {
                    (None, false) => paths(&self.unstaged),
                    (None, true) => paths(&self.staged),
                    (Some(_), _) => paths(&self.diff),
                }
            }
            Action::CreateOutputDir => {
                self.log.push("mkout".to_string());
                Event::Done(String::new())
            }
            Action::ListPaths { revision } => {
                self.log.push(format!("ls {revision}"));
                if revision == "R1" {
                    paths(&self.from_paths)
                } else {
                    paths(&self.to_paths)
                }
            }
            Action::CreateDir { endpoint, dir } => {
                self.log.push(format!("mkdir {}/{}", ep(*endpoint), dir));
                Event::Done(String::new())
            }
            Action::Materialize { revision, path } => {
                self.materialized += 1;
                self.tree = format!("mixed:{revision}");
                self.log.push(format!("materialize {revision} {path}"));
                if Some(self.materialized) == self.fail_materialize_at {
                    Event::Failed("cannot".to_string())
                } else {
                    Event::Done(format!("/repo/{path}"))
                }
            }
            Action::CopyFile { endpoint, source, path } => {
                self.log.push(format!("copy {source} {}/{}", ep(*endpoint), path));
                Event::Done(format!("/out/{}/{}", ep(*endpoint), path))
            }
            Action::Restore { revision, path } => {
                self.log.push(format!("restore {revision} {path}"));
                Event::Done(String::new())
            }
            Action::HardReset { revision } => {
                self.log.push(format!("reset {revision}"));
                self.tree = revision.clone();
                Event::Done(String::new())
            }
            Action::Finish(_) | Action::Abort(_) => panic!("no answer to a final action"),
        }
    }
}

fn files_copy() -> FilesCopy {
    FilesCopy::new(
        "git".to_string(),
        "R1".to_string(),
        "R2".to_string(),
        "/repo".to_string(),
        "/out".to_string(),
        "HEAD0".to_string(),
    )
}

fn run(sim: &mut Sim) -> Result<Report, ExtractError> {
    let (mut x, mut a) = files_copy().start();
    loop {
        match a {
            Action::Finish(r) => return Ok(r),
            Action::Abort(e) => return Err(e),
            _ => {
                let e = sim.answer(&a);
                a = x.step(e);
            }
        }
    }
}

#[test]
fn unstaged_changes_stop_before_any_mutation() {
    let mut sim = Sim::new(vec!["a.txt"]);
    sim.unstaged = vec!["dirty.txt"];
    assert!(matches!(run(&mut sim), Err(ExtractError::DirtyWorkingTree)));
    assert_eq!(vec!["diff HEAD None false".to_string()], sim.log);
}

#[test]
fn staged_changes_stop_before_any_mutation() {
    let mut sim = Sim::new(vec!["a.txt"]);
    sim.staged = vec!["dirty.txt"];
    assert!(matches!(run(&mut sim), Err(ExtractError::DirtyWorkingTree)));
    assert_eq!(
        vec![
            "diff HEAD None false".to_string(),
            "diff HEAD None true".to_string()
        ],
        sim.log
    );
}

#[test]
fn empty_diff_reports_nothing() {
    let mut sim = Sim::new(vec![]);
    let r = run(&mut sim).ok().unwrap();
    assert_eq!(0, r.total);
    assert!(r.from_copies.is_empty());
    assert!(r.to_copies.is_empty());
    assert!(!sim.log.iter().any(|l| l.starts_with("mk")));
}

#[test]
fn full_extraction_copies_both_endpoints() {
    let mut sim = Sim::new(vec!["README.md", "src/bin/gde.rs", "src/git/mod.rs"]);
    sim.from_paths = vec!["README.md", "src/bin/gde.rs", "src/git/mod.rs", "other"];
    sim.to_paths = vec!["README.md", "src/bin/gde.rs", "src/git/mod.rs"];
    let r = run(&mut sim).ok().unwrap();
    assert_eq!(3, r.total);
    assert_eq!(3, r.from_copies.len());
    assert_eq!(3, r.to_copies.len());
    assert_eq!("/repo/src/bin/gde.rs", r.from_copies[1].source);
    assert_eq!("/out/from/src/bin/gde.rs", r.from_copies[1].dest);
    assert_eq!("/out/to/src/git/mod.rs", r.to_copies[2].dest);
    assert!(sim.log.contains(&"mkdir from/src/bin".to_string()));
    assert!(sim.log.contains(&"mkdir to/".to_string()));
    assert!(sim.log.contains(&"restore HEAD0 README.md".to_string()));
    assert_eq!("HEAD0", sim.tree);
    assert_eq!(2, sim.log.iter().filter(|l| l.starts_with("reset")).count());
}

#[test]
fn failed_third_materialize_still_restores() {
    let mut sim = Sim::new(vec!["a", "b/c", "d/e/f"]);
    sim.from_paths = vec!["a", "b/c", "d/e/f"];
    sim.to_paths = vec!["a", "b/c", "d/e/f"];
    sim.fail_materialize_at = Some(3);
    match run(&mut sim) {
        Err(ExtractError::MaterializeFailed(p)) => assert_eq!("d/e/f", p),
        _ => panic!("expected a materialize failure"),
    }
    assert_eq!("HEAD0", sim.tree);
    assert_eq!(Some(&"reset HEAD0".to_string()), sim.log.last());
}

#[test]
fn deleted_path_gets_directory_but_no_copy() {
    let mut sim = Sim::new(vec!["gone/old.rs", "kept.rs"]);
    sim.from_paths = vec!["kept.rs"];
    sim.to_paths = vec!["kept.rs", "gone/old.rs"];
    let r = run(&mut sim).ok().unwrap();
    assert!(sim.log.contains(&"mkdir from/gone".to_string()));
    assert_eq!(1, r.from_copies.len());
    assert_eq!("/out/from/kept.rs", r.from_copies[0].dest);
    assert_eq!(2, r.to_copies.len());
    assert!(!sim.log.contains(&"materialize R1 gone/old.rs".to_string()));
}

#[test]
fn each_error_variant_has_a_cause() {
    // the diff itself fails
    let (mut x, _) = files_copy().start();
    let a = x.step(Event::Failed("bad revision".to_string()));
    assert!(matches!(a, Action::Abort(ExtractError::DiffComputationFailed(ref t)) if t == "bad revision"));

    // the output directory cannot be made
    let (mut x, _) = files_copy().start();
    x.step(Event::Paths(vec![]));
    x.step(Event::Paths(vec![]));
    assert!(matches!(x.step(Event::Paths(vec!["a".to_string()])), Action::CreateOutputDir));
    let a = x.step(Event::Failed("denied".to_string()));
    assert!(matches!(a, Action::Abort(ExtractError::Io(ref t)) if t == "denied"));

    // listing fails: reset first, then the error
    let (mut x, _) = files_copy().start();
    x.step(Event::Paths(vec![]));
    x.step(Event::Paths(vec![]));
    x.step(Event::Paths(vec!["a".to_string()]));
    assert!(matches!(x.step(Event::Done(String::new())), Action::ListPaths { ref revision } if revision == "R1"));
    assert!(matches!(x.step(Event::Failed("ls".to_string())), Action::HardReset { ref revision } if revision == "HEAD0"));
    let a = x.step(Event::Done(String::new()));
    assert!(matches!(a, Action::Abort(ExtractError::ListingFailed(ref t)) if t == "ls"));

    // restore fails: reset first, then the error naming the path
    let (mut x, _) = files_copy().start();
    x.step(Event::Paths(vec![]));
    x.step(Event::Paths(vec![]));
    x.step(Event::Paths(vec!["a".to_string()]));
    x.step(Event::Done(String::new()));
    assert!(matches!(x.step(Event::Paths(vec!["a".to_string()])), Action::CreateDir { ref dir, .. } if dir.is_empty()));
    assert!(matches!(x.step(Event::Done(String::new())), Action::Materialize { .. }));
    assert!(matches!(x.step(Event::Done("/repo/a".to_string())), Action::CopyFile { .. }));
    assert!(matches!(x.step(Event::Done("/out/from/a".to_string())), Action::Restore { .. }));
    assert!(matches!(x.step(Event::Failed("locked".to_string())), Action::HardReset { .. }));
    match x.step(Event::Done(String::new())) {
        Action::Abort(ExtractError::RestoreFailed(p, t)) => {
            assert_eq!("a", p);
            assert_eq!("locked", t);
        }
        _ => panic!("expected a restore failure"),
    }

    // the reset itself fails
    let (mut x, _) = files_copy().start();
    x.step(Event::Paths(vec![]));
    x.step(Event::Paths(vec![]));
    x.step(Event::Paths(vec!["a".to_string()]));
    x.step(Event::Done(String::new()));
    x.step(Event::Paths(vec![]));
    x.step(Event::Done(String::new()));
    let a = x.step(Event::Failed("reset".to_string()));
    assert!(matches!(a, Action::Abort(ExtractError::HardResetFailed(ref t)) if t == "reset"));
}

#[test]
fn parent_directories() {
    assert_eq!("src/bin", parent_dir_of(&"src/bin/gde.rs".to_string()));
    assert_eq!("", parent_dir_of(&"README.md".to_string()));
    assert_eq!("a", parent_dir_of(&"a/".to_string()));
}

#[test]
fn files_copy_keeps_its_settings() {
    let f = files_copy();
    assert_eq!("git", f.git());
    assert_eq!("R1", f.from());
    assert_eq!("R2", f.to());
    assert_eq!("/repo", f.target());
    assert_eq!("/out", f.output());
    assert_eq!("HEAD0", f.current());
}
