//! The git commands the library needs, described as program, directory and
//! arguments, and the interpretation of what they print. Running a command
//! is left to the caller, who hands back its [`CommandOutput`].

use vstd::prelude::*;

use super::error::Error;
use crate::extract::strs;
use crate::git::onelinelog::{push_char, to_chars};

verus! {

/// A command to run: `program args...`, inside `dir` when one is given.
pub struct GitCommand {
    pub program: String,
    pub dir: Option<String>,
    pub args: Vec<String>,
}

/// What a finished command reported.
pub struct CommandOutput {
    pub success: bool,
    pub stdout: String,
    pub stderr: String,
}

/// The pieces of `s` between newlines, as `str::split('\n')` yields them.
pub open spec fn split_lines(s: Seq<char>) -> Seq<Seq<char>>
    decreases s.len(),
{
    if s.len() == 0 {
        seq![Seq::empty()]
    } else {
        let rest = split_lines(s.drop_last());
        if s.last() == '\n' {
            rest.push(Seq::empty())
        } else {
            rest.update(rest.len() - 1, rest.last().push(s.last()))
        }
    }
}

/// The non-empty lines of `s`.
pub open spec fn nonempty_lines(s: Seq<char>) -> Seq<Seq<char>> {
    split_lines(s).filter(|l: Seq<char>| l.len() > 0)
}

/// The text before the first newline.
pub open spec fn first_line(s: Seq<char>) -> Seq<char> {
    split_lines(s)[0]
}

proof fn lemma_split_lines_nonempty(s: Seq<char>)
    ensures
        split_lines(s).len() > 0,
    decreases s.len(),
{
    if s.len() > 0 {
        lemma_split_lines_nonempty(s.drop_last());
    }
}

/// The pieces of `s` between newlines.
pub fn lines(s: &str) -> (r: Vec<String>)
    ensures
        strs(r@) == split_lines(s@),
{
    let c = to_chars(s);
    let mut done: Vec<String> = Vec::new();
    let mut cur = String::new();
    let mut i: usize = 0;
    while i < c.len()
        invariant
            i <= c@.len(),
            c@ == s@,
            strs(done@).push(cur@) == split_lines(s@.subrange(0, i as int)),
        decreases c.len() - i,
    {
        let ghost prefix = s@.subrange(0, i + 1);
        assert(prefix.drop_last() =~= s@.subrange(0, i as int));
        let ghost before = strs(done@);
        if c[i] == '\n' {
            let mut next = String::new();
            std::mem::swap(&mut next, &mut cur);
            done.push(next);
            assert(strs(done@) =~= before.push(next@));
        } else {
            push_char(&mut cur, c[i]);
        }
        i = i + 1;
        assert(strs(done@).push(cur@) =~= split_lines(s@.subrange(0, i as int)));
    }
    assert(s@.subrange(0, c@.len() as int) =~= s@);
    let ghost before = strs(done@);
    done.push(cur);
    assert(strs(done@) =~= before.push(cur@));
    done
}

/// The non-empty lines of `s`.
pub fn names(s: &str) -> (r: Vec<String>)
    ensures
        strs(r@) == nonempty_lines(s@),
{
    let all = lines(s);
    let mut r: Vec<String> = Vec::new();
    let mut i: usize = 0;
    let ghost pred = |l: Seq<char>| l.len() > 0;
    while i < all.len()
        invariant
            i <= all@.len(),
            strs(all@) == split_lines(s@),
            strs(r@) == strs(all@).subrange(0, i as int).filter(pred),
            pred == (|l: Seq<char>| l.len() > 0),
        decreases all.len() - i,
    {
        let ghost sub = strs(all@).subrange(0, i + 1);
        assert(sub.drop_last() =~= strs(all@).subrange(0, i as int));
        assert(sub.last() == all@[i as int]@);
        proof {
            reveal(Seq::filter);
        }
        let ghost before = strs(r@);
        if all[i].unicode_len() > 0 {
            r.push(all[i].clone());
            assert(strs(r@) =~= before.push(all@[i as int]@));
        }
        i = i + 1;
    }
    assert(strs(all@).subrange(0, all@.len() as int) =~= strs(all@));
    r
}

/// The text before the first newline of `s`.
pub fn first_line_of(s: &str) -> (r: String)
    ensures
        r@ == first_line(s@),
{
    let all = lines(s);
    proof {
        lemma_split_lines_nonempty(s@);
    }
    assert(all@.len() > 0);
    all[0].clone()
}

fn text(s: &str) -> (r: String)
    ensures
        r@ == s@,
{
    String::from_str(s)
}

/// `"<prefix> (<detail>)"`.
fn with_detail(prefix: &str, detail: &str) -> (r: String)
    ensures
        r@ == prefix@ + " ("@ + detail@ + ")"@,
{
    let mut r = String::from_str(prefix);
    r.append(" (");
    r.append(detail);
    r.append(")");
    r
}

pub open spec fn version_text(line: Seq<char>) -> Seq<char> {
    if "git version "@.is_prefix_of(line) {
        line.subrange("git version "@.len() as int, line.len() as int)
    } else {
        line
    }
}

/// A git executable and the version it reported.
#[derive(Clone)]
pub struct Git {
    version: String,
    path: String,
}

impl Git {
    pub closed spec fn version_spec(&self) -> Seq<char> {
        self.version@
    }

    pub closed spec fn path_spec(&self) -> Seq<char> {
        self.path@
    }

    /// `<path> --version`.
    pub fn version_command(path: &str) -> (r: GitCommand)
        ensures
            r.program@ == path@,
            r.dir is None,
            strs(r.args@) == seq!["--version"@],
    {
        let mut args: Vec<String> = Vec::new();
        args.push(text("--version"));
        assert(strs(args@) =~= seq!["--version"@]);
        GitCommand { program: text(path), dir: None, args }
    }

    /// The version number from the output of `git --version`: the first line
    /// without its `git version ` prefix. Anything on standard error fails.
    pub fn get_version(out: &CommandOutput) -> (r: Result<String, Error>)
        ensures
            out.stderr@.len() > 0 ==> (r matches Err(Error::Command(m)) && m@
                == "Failed to get version"@),
            out.stderr@.len() == 0 ==> (r matches Ok(v) && v@ == version_text(
                first_line(out.stdout@),
            )),
    {
        if out.stderr.as_str().unicode_len() > 0 {
            return Err(Error::Command(text("Failed to get version")));
        }
        let line = first_line_of(out.stdout.as_str());
        let prefix = "git version ";
        proof {
            reveal_strlit("git version ");
        }
        let n = line.as_str().unicode_len();
        let p = prefix.unicode_len();
        let mut matches = p <= n;
        let mut i: usize = 0;
        while matches && i < p
            invariant
                p == prefix@.len(),
                n == line@.len(),
                matches ==> p <= n,
                i <= p,
                matches ==> forall|k: int| 0 <= k < i ==> prefix@[k] == line@[k],
                !matches ==> !prefix@.is_prefix_of(line@),
            decreases p - i + (if matches { 1int } else { 0 }),
        {
            if prefix.get_char(i) != line.as_str().get_char(i) {
                matches = false;
            } else {
                i = i + 1;
            }
        }
        if matches {
            assert(prefix@.is_prefix_of(line@));
            Ok(text(line.as_str().substring_char(p, n)))
        } else {
            Ok(line)
        }
    }

    /// A git executable from its path and the output of `<path> --version`.
    pub fn from_path(path: &str, out: &CommandOutput) -> (r: Result<Git, Error>)
        ensures
            out.stderr@.len() > 0 ==> (r matches Err(Error::Command(m)) && m@
                == "Failed to get version"@),
            out.stderr@.len() == 0 ==> (r matches Ok(g) && g.path_spec() == path@
                && g.version_spec() == version_text(first_line(out.stdout@))),
    {
        match Git::get_version(out) {
            Ok(version) => Ok(Git { version, path: text(path) }),
            Err(e) => Err(e),
        }
    }

    pub fn version(&self) -> (r: &str)
        ensures
            r@ == self.version_spec(),
    {
        self.version.as_str()
    }

    pub fn path(&self) -> (r: &str)
        ensures
            r@ == self.path_spec(),
    {
        self.path.as_str()
    }

    /// Asks for the top directory of the working tree that holds `dir`.
    pub fn rootdir_command(&self, dir: &str) -> (r: GitCommand)
        ensures
            r.program@ == self.path_spec(),
            r.dir matches Some(d) && d@ == dir@,
            strs(r.args@) == seq![
                "rev-parse"@,
                "--show-superproject-working-tree"@,
                "--show-toplevel"@,
            ],
    {
        let mut args: Vec<String> = Vec::new();
        args.push(text("rev-parse"));
        args.push(text("--show-superproject-working-tree"));
        args.push(text("--show-toplevel"));
        assert(strs(args@) =~= seq![
            "rev-parse"@,
            "--show-superproject-working-tree"@,
            "--show-toplevel"@,
        ]);
        GitCommand { program: self.path.clone(), dir: Some(text(dir)), args }
    }

    /// The top directory: the first line printed by a successful command.
    pub fn get_rootdir(out: &CommandOutput) -> (r: Result<String, Error>)
        ensures
            !out.success ==> (r matches Err(Error::Command(m)) && m@
                == "Failed to get root directory"@),
            out.success ==> (r matches Ok(d) && d@ == first_line(out.stdout@)),
    {
        if !out.success {
            return Err(Error::Command(text("Failed to get root directory")));
        }
        Ok(first_line_of(out.stdout.as_str()))
    }

    /// Asks, inside `dir`, for the full hash of `commit`.
    pub fn hash_command(&self, dir: &str, commit: &str) -> (r: GitCommand)
        ensures
            r.program@ == self.path_spec(),
            r.dir matches Some(d) && d@ == dir@,
            strs(r.args@) == seq!["rev-parse"@, commit@],
    {
        let mut args: Vec<String> = Vec::new();
        args.push(text("rev-parse"));
        args.push(text(commit));
        assert(strs(args@) =~= seq!["rev-parse"@, commit@]);
        GitCommand { program: self.path.clone(), dir: Some(text(dir)), args }
    }

    /// The hash of `commit`: the first line printed by a successful command.
    pub fn get_hash(commit: &str, out: &CommandOutput) -> (r: Result<String, Error>)
        ensures
            !out.success ==> (r matches Err(Error::Command(m)) && m@ == "Failed to get hash of "@
                + commit@),
            out.success ==> (r matches Ok(h) && h@ == first_line(out.stdout@)),
    {
        if !out.success {
            let mut m = text("Failed to get hash of ");
            m.append(commit);
            return Err(Error::Command(m));
        }
        Ok(first_line_of(out.stdout.as_str()))
    }
}

/// `git diff --name-only <from> [<to>]`, staged or not.
pub struct GitDiff {
    inner: Git,
    from: String,
    to: Option<String>,
    root_dir: String,
}

pub open spec fn diff_args(staged: bool, from: Seq<char>, to: Option<Seq<char>>) -> Seq<Seq<char>> {
    seq!["diff"@] + (if staged {
        seq!["--staged"@]
    } else {
        Seq::empty()
    }) + seq!["--name-only"@, from] + match to {
        Some(t) => seq![t],
        None => Seq::empty(),
    }
}

impl GitDiff {
    pub closed spec fn git_spec(&self) -> Seq<char> {
        self.inner.path@
    }

    pub closed spec fn from_spec(&self) -> Seq<char> {
        self.from@
    }

    pub closed spec fn to_spec(&self) -> Option<Seq<char>> {
        match self.to {
            Some(t) => Some(t@),
            None => None,
        }
    }

    pub closed spec fn root_spec(&self) -> Seq<char> {
        self.root_dir@
    }

    pub fn new(git: Git, from: String, to: Option<String>, root_dir: String) -> (r: GitDiff)
        ensures
            r.git_spec() == git.path_spec(),
            r.from_spec() == from@,
            r.to_spec() == (match to {
                Some(t) => Some(t@),
                None => None,
            }),
            r.root_spec() == root_dir@,
    {
        GitDiff { inner: git, from, to, root_dir }
    }

    fn command(&self, staged: bool) -> (r: GitCommand)
        ensures
            r.program@ == self.git_spec(),
            r.dir matches Some(d) && d@ == self.root_spec(),
            strs(r.args@) == diff_args(staged, self.from_spec(), self.to_spec()),
    {
        let mut args: Vec<String> = Vec::new();
        args.push(text("diff"));
        if staged {
            args.push(text("--staged"));
        }
        args.push(text("--name-only"));
        args.push(self.from.clone());
        match &self.to {
            Some(t) => {
                args.push(t.clone());
            },
            None => {},
        }
        assert(strs(args@) =~= diff_args(staged, self.from_spec(), self.to_spec()));
        GitCommand { program: self.inner.path.clone(), dir: Some(self.root_dir.clone()), args }
    }

    /// The command listing the paths with unstaged changes.
    pub fn name_only(&self) -> (r: GitCommand)
        ensures
            r.program@ == self.git_spec(),
            r.dir matches Some(d) && d@ == self.root_spec(),
            strs(r.args@) == diff_args(false, self.from_spec(), self.to_spec()),
    {
        self.command(false)
    }

    /// The command listing the paths with staged changes.
    pub fn staged_name_only(&self) -> (r: GitCommand)
        ensures
            r.program@ == self.git_spec(),
            r.dir matches Some(d) && d@ == self.root_spec(),
            strs(r.args@) == diff_args(true, self.from_spec(), self.to_spec()),
    {
        self.command(true)
    }

    /// The changed paths: the non-empty lines of a successful diff.
    pub fn parse_names(out: &CommandOutput) -> (r: Result<Vec<String>, Error>)
        ensures
            !out.success ==> (r matches Err(Error::Command(m)) && m@
                == "Failed to get differences"@ + " ("@ + out.stderr@ + ")"@),
            out.success ==> (r matches Ok(v) && strs(v@) == nonempty_lines(out.stdout@)),
    {
        if !out.success {
            return Err(Error::Command(with_detail("Failed to get differences", out.stderr.as_str())));
        }
        Ok(names(out.stdout.as_str()))
    }
}

pub open spec fn log_args(all: bool) -> Seq<Seq<char>> {
    seq!["log"@, "--graph"@] + (if all {
        seq!["--all"@]
    } else {
        Seq::empty()
    }) + seq![
        "--pretty=format:%h -%d %s (%ci) <%an>"@,
        "--abbrev-commit"@,
        "--date=relative"@,
    ]
}

/// `git log --graph` in the one-line format the log parser reads.
pub struct GitLog {
    inner: Git,
    all: bool,
    root_dir: String,
}

impl GitLog {
    pub closed spec fn git_spec(&self) -> Seq<char> {
        self.inner.path@
    }

    pub closed spec fn all_spec(&self) -> bool {
        self.all
    }

    pub closed spec fn root_spec(&self) -> Seq<char> {
        self.root_dir@
    }

    pub fn new(git: Git, all: bool, root_dir: String) -> (r: GitLog)
        ensures
            r.git_spec() == git.path_spec(),
            r.all_spec() == all,
            r.root_spec() == root_dir@,
    {
        GitLog { inner: git, all, root_dir }
    }

    /// The command printing the revision graph, of every branch when `all`.
    pub fn tree(&self) -> (r: GitCommand)
        ensures
            r.program@ == self.git_spec(),
            r.dir matches Some(d) && d@ == self.root_spec(),
            strs(r.args@) == log_args(self.all_spec()),
    {
        let mut args: Vec<String> = Vec::new();
        args.push(text("log"));
        args.push(text("--graph"));
        if self.all {
            args.push(text("--all"));
        }
        args.push(text("--pretty=format:%h -%d %s (%ci) <%an>"));
        args.push(text("--abbrev-commit"));
        args.push(text("--date=relative"));
        assert(strs(args@) =~= log_args(self.all));
        GitCommand { program: self.inner.path.clone(), dir: Some(self.root_dir.clone()), args }
    }

    /// The lines of the revision graph printed by a successful command.
    pub fn parse_tree(out: &CommandOutput) -> (r: Result<Vec<String>, Error>)
        ensures
            !out.success ==> (r matches Err(Error::Command(m)) && m@ == "Failed to get logs"@
                + " ("@ + out.stderr@ + ")"@),
            out.success ==> (r matches Ok(v) && strs(v@) == split_lines(out.stdout@)),
    {
        if !out.success {
            return Err(Error::Command(with_detail("Failed to get logs", out.stderr.as_str())));
        }
        Ok(lines(out.stdout.as_str()))
    }
}

/// `git ls-tree -r --name-only <commit>`.
pub struct GitLsTree {
    inner: Git,
    commit: String,
    root_dir: String,
}

impl GitLsTree {
    pub closed spec fn git_spec(&self) -> Seq<char> {
        self.inner.path@
    }

    pub closed spec fn commit_spec(&self) -> Seq<char> {
        self.commit@
    }

    pub closed spec fn root_spec(&self) -> Seq<char> {
        self.root_dir@
    }

    pub fn new(git: Git, commit: String, root_dir: String) -> (r: GitLsTree)
        ensures
            r.git_spec() == git.path_spec(),
            r.commit_spec() == commit@,
            r.root_spec() == root_dir@,
    {
        GitLsTree { inner: git, commit, root_dir }
    }

    /// The command listing every path of the commit.
    pub fn name_only(&self) -> (r: GitCommand)
        ensures
            r.program@ == self.git_spec(),
            r.dir matches Some(d) && d@ == self.root_spec(),
            strs(r.args@) == seq!["ls-tree"@, "-r"@, "--name-only"@, self.commit_spec()],
    {
        let mut args: Vec<String> = Vec::new();
        args.push(text("ls-tree"));
        args.push(text("-r"));
        args.push(text("--name-only"));
        args.push(self.commit.clone());
        assert(strs(args@) =~= seq!["ls-tree"@, "-r"@, "--name-only"@, self.commit@]);
        GitCommand { program: self.inner.path.clone(), dir: Some(self.root_dir.clone()), args }
    }

    /// The paths: the non-empty lines of a successful listing.
    pub fn parse_names(out: &CommandOutput) -> (r: Result<Vec<String>, Error>)
        ensures
            !out.success ==> (r matches Err(Error::Command(m)) && m@
                == "Failed to get tree of files"@ + " ("@ + out.stderr@ + ")"@),
            out.success ==> (r matches Ok(v) && strs(v@) == nonempty_lines(out.stdout@)),
    {
        if !out.success {
            return Err(
                Error::Command(with_detail("Failed to get tree of files", out.stderr.as_str())),
            );
        }
        Ok(names(out.stdout.as_str()))
    }
}

/// `git checkout <commit> <path>`.
pub struct GitCheckout {
    inner: Git,
    commit: String,
    root_dir: String,
}

impl GitCheckout {
    pub closed spec fn git_spec(&self) -> Seq<char> {
        self.inner.path@
    }

    pub closed spec fn commit_spec(&self) -> Seq<char> {
        self.commit@
    }

    pub closed spec fn root_spec(&self) -> Seq<char> {
        self.root_dir@
    }

    pub fn new(git: Git, commit: String, root_dir: String) -> (r: GitCheckout)
        ensures
            r.git_spec() == git.path_spec(),
            r.commit_spec() == commit@,
            r.root_spec() == root_dir@,
    {
        GitCheckout { inner: git, commit, root_dir }
    }

    /// The top directory of the working tree, where checked-out paths land.
    pub fn root_dir(&self) -> (r: &str)
        ensures
            r@ == self.root_spec(),
    {
        self.root_dir.as_str()
    }

    /// The command writing `path` as of the commit into the working tree.
    pub fn checkout(&self, path: &str) -> (r: GitCommand)
        ensures
            r.program@ == self.git_spec(),
            r.dir matches Some(d) && d@ == self.root_spec(),
            strs(r.args@) == seq!["checkout"@, self.commit_spec(), path@],
    {
        let mut args: Vec<String> = Vec::new();
        args.push(text("checkout"));
        args.push(self.commit.clone());
        args.push(text(path));
        assert(strs(args@) =~= seq!["checkout"@, self.commit@, path@]);
        GitCommand { program: self.inner.path.clone(), dir: Some(self.root_dir.clone()), args }
    }

    /// Whether the checkout succeeded.
    pub fn parse_checkout(out: &CommandOutput) -> (r: Result<(), Error>)
        ensures
            !out.success ==> (r matches Err(Error::Command(m)) && m@ == "Failed to checkout"@),
            out.success ==> r is Ok,
    {
        if !out.success {
            return Err(Error::Command(text("Failed to checkout")));
        }
        Ok(())
    }
}

/// `git reset --hard <commit>`.
pub struct GitReset {
    inner: Git,
    commit: String,
    root_dir: String,
}

impl GitReset {
    pub closed spec fn git_spec(&self) -> Seq<char> {
        self.inner.path@
    }

    pub closed spec fn commit_spec(&self) -> Seq<char> {
        self.commit@
    }

    pub closed spec fn root_spec(&self) -> Seq<char> {
        self.root_dir@
    }

    pub fn new(git: Git, commit: String, root_dir: String) -> (r: GitReset)
        ensures
            r.git_spec() == git.path_spec(),
            r.commit_spec() == commit@,
            r.root_spec() == root_dir@,
    {
        GitReset { inner: git, commit, root_dir }
    }

    /// The command resetting the working tree to the commit.
    pub fn hard(&self) -> (r: GitCommand)
        ensures
            r.program@ == self.git_spec(),
            r.dir matches Some(d) && d@ == self.root_spec(),
            strs(r.args@) == seq!["reset"@, "--hard"@, self.commit_spec()],
    {
        let mut args: Vec<String> = Vec::new();
        args.push(text("reset"));
        args.push(text("--hard"));
        args.push(self.commit.clone());
        assert(strs(args@) =~= seq!["reset"@, "--hard"@, self.commit@]);
        GitCommand { program: self.inner.path.clone(), dir: Some(self.root_dir.clone()), args }
    }

    /// Whether the reset succeeded; a failure carries what git printed.
    pub fn parse_hard(out: &CommandOutput) -> (r: Result<(), Error>)
        ensures
            !out.success ==> (r matches Err(Error::Command(m)) && m@ == out.stderr@),
            out.success ==> r is Ok,
    {
        if !out.success {
            return Err(Error::Command(out.stderr.clone()));
        }
        Ok(())
    }
}

} // verus!
