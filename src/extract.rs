//! Extraction of the files that differ between two revisions into an output
//! directory, as a state machine: each step takes the outcome of the previous
//! action and names the next one. Whoever runs it performs the actions on the
//! working tree and the file system.
//!
//! The machine checks that the working tree is clean, computes the changed
//! paths, and then for each endpoint ("from", then "to") lists the paths of
//! that revision, mirrors each changed path's directory, materializes and
//! copies the paths that exist there, restores each one right after copying,
//! and ends every endpoint pass with a hard reset to the original revision,
//! on success and on failure alike.

use vstd::prelude::*;

use crate::git::onelinelog::{last_at, last_of, push_char, to_chars};

verus! {

// ---------------------------------------------------------------------------
// Values exchanged with the runner
// ---------------------------------------------------------------------------

/// One of the two revisions being compared.
#[derive(Clone, Copy, PartialEq, Eq, Structural)]
pub enum Endpoint {
    From,
    To,
}

/// A file copied out of the working tree.
pub struct CopyEntry {
    pub source: String,
    pub dest: String,
}

/// What an extraction copied.
pub struct Report {
    /// Number of changed paths.
    pub total: usize,
    /// Copies made for the "from" revision, in changed-path order.
    pub from_copies: Vec<CopyEntry>,
    /// Copies made for the "to" revision, in changed-path order.
    pub to_copies: Vec<CopyEntry>,
}

/// Why an extraction stopped.
pub enum ExtractError {
    /// The working tree has staged or unstaged changes.
    DirtyWorkingTree,
    /// Computing changed paths failed.
    DiffComputationFailed(String),
    /// Listing the paths of a revision failed.
    ListingFailed(String),
    /// Writing this path's content into the working tree failed.
    MaterializeFailed(String),
    /// Restoring this path after copying it failed, for the given cause.
    RestoreFailed(String, String),
    /// The final hard reset failed: the working tree is left changed.
    HardResetFailed(String),
    /// Creating a directory or copying a file failed.
    Io(String),
}

/// The next thing to do.
pub enum Action {
    /// List the paths changed between `from` and `to` (the working tree when
    /// `to` is `None`); only staged changes when `staged`.
    ChangedPaths { from: String, to: Option<String>, staged: bool },
    /// Create the output directory and its parents.
    CreateOutputDir,
    /// List every path of `revision`.
    ListPaths { revision: String },
    /// Create `dir` (relative, possibly empty) under the endpoint's output directory.
    CreateDir { endpoint: Endpoint, dir: String },
    /// Write `path` as of `revision` into the working tree; report where it is.
    Materialize { revision: String, path: String },
    /// Copy `source` to `path` under the endpoint's output directory; report
    /// the destination.
    CopyFile { endpoint: Endpoint, source: String, path: String },
    /// Write `path` as of `revision` back into the working tree.
    Restore { revision: String, path: String },
    /// Reset the working tree to `revision`, discarding every change.
    HardReset { revision: String },
    /// The extraction is over.
    Finish(Report),
    /// The extraction stopped on an error.
    Abort(ExtractError),
}

/// The outcome of the last action.
pub enum Event {
    /// A list of paths.
    Paths(Vec<String>),
    /// Success, with the path it produced (or any text when there is none).
    Done(String),
    /// Failure, with its diagnostic text.
    Failed(String),
}

// ---------------------------------------------------------------------------
// Their mathematical models
// ---------------------------------------------------------------------------

pub open spec fn strs(v: Seq<String>) -> Seq<Seq<char>> {
    v.map_values(|s: String| s@)
}

pub open spec fn entries(v: Seq<CopyEntry>) -> Seq<(Seq<char>, Seq<char>)> {
    v.map_values(|c: CopyEntry| (c.source@, c.dest@))
}

pub struct ReportView {
    pub total: nat,
    pub from_copies: Seq<(Seq<char>, Seq<char>)>,
    pub to_copies: Seq<(Seq<char>, Seq<char>)>,
}

pub enum ErrorView {
    DirtyWorkingTree,
    DiffComputationFailed(Seq<char>),
    ListingFailed(Seq<char>),
    MaterializeFailed(Seq<char>),
    RestoreFailed(Seq<char>, Seq<char>),
    HardResetFailed(Seq<char>),
    Io(Seq<char>),
}

pub enum ActionView {
    ChangedPaths { from: Seq<char>, to: Option<Seq<char>>, staged: bool },
    CreateOutputDir,
    ListPaths { revision: Seq<char> },
    CreateDir { endpoint: Endpoint, dir: Seq<char> },
    Materialize { revision: Seq<char>, path: Seq<char> },
    CopyFile { endpoint: Endpoint, source: Seq<char>, path: Seq<char> },
    Restore { revision: Seq<char>, path: Seq<char> },
    HardReset { revision: Seq<char> },
    Finish(ReportView),
    Abort(ErrorView),
}

pub enum EventView {
    Paths(Seq<Seq<char>>),
    Done(Seq<char>),
    Failed(Seq<char>),
}

impl View for Report {
    type V = ReportView;

    open spec fn view(&self) -> ReportView {
        ReportView {
            total: self.total as nat,
            from_copies: entries(self.from_copies@),
            to_copies: entries(self.to_copies@),
        }
    }
}

impl View for ExtractError {
    type V = ErrorView;

    open spec fn view(&self) -> ErrorView {
        match self {
            ExtractError::DirtyWorkingTree => ErrorView::DirtyWorkingTree,
            ExtractError::DiffComputationFailed(t) => ErrorView::DiffComputationFailed(t@),
            ExtractError::ListingFailed(t) => ErrorView::ListingFailed(t@),
            ExtractError::MaterializeFailed(p) => ErrorView::MaterializeFailed(p@),
            ExtractError::RestoreFailed(p, t) => ErrorView::RestoreFailed(p@, t@),
            ExtractError::HardResetFailed(t) => ErrorView::HardResetFailed(t@),
            ExtractError::Io(t) => ErrorView::Io(t@),
        }
    }
}

pub open spec fn opt_str(o: Option<String>) -> Option<Seq<char>> {
    match o {
        Some(s) => Some(s@),
        None => None,
    }
}

impl View for Action {
    type V = ActionView;

    open spec fn view(&self) -> ActionView {
        match self {
            Action::ChangedPaths { from, to, staged } => ActionView::ChangedPaths {
                from: from@,
                to: opt_str(*to),
                staged: *staged,
            },
            Action::CreateOutputDir => ActionView::CreateOutputDir,
            Action::ListPaths { revision } => ActionView::ListPaths { revision: revision@ },
            Action::CreateDir { endpoint, dir } => ActionView::CreateDir {
                endpoint: *endpoint,
                dir: dir@,
            },
            Action::Materialize { revision, path } => ActionView::Materialize {
                revision: revision@,
                path: path@,
            },
            Action::CopyFile { endpoint, source, path } => ActionView::CopyFile {
                endpoint: *endpoint,
                source: source@,
                path: path@,
            },
            Action::Restore { revision, path } => ActionView::Restore {
                revision: revision@,
                path: path@,
            },
            Action::HardReset { revision } => ActionView::HardReset { revision: revision@ },
            Action::Finish(r) => ActionView::Finish(r@),
            Action::Abort(e) => ActionView::Abort(e@),
        }
    }
}

impl View for Event {
    type V = EventView;

    open spec fn view(&self) -> EventView {
        match self {
            Event::Paths(v) => EventView::Paths(strs(v@)),
            Event::Done(t) => EventView::Done(t@),
            Event::Failed(t) => EventView::Failed(t@),
        }
    }
}

/// The text an outcome carries, read as a failure.
pub open spec fn failure_text(e: EventView) -> Seq<char> {
    match e {
        EventView::Paths(_) => Seq::empty(),
        EventView::Done(t) => t,
        EventView::Failed(t) => t,
    }
}

/// Where the machine stands.
#[derive(Clone, Copy, PartialEq, Eq, Structural)]
pub enum Phase {
    /// Waiting for the unstaged changes of the working tree.
    CheckUnstaged,
    /// Waiting for the staged changes of the working tree.
    CheckStaged,
    /// Waiting for the paths changed between the two revisions.
    Diff,
    /// Waiting for the output directory.
    OutputDir,
    /// Waiting for the path listing of the endpoint's revision.
    Listing(Endpoint),
    /// Waiting for the directory of the changed path at this index.
    MakingDir(Endpoint, usize),
    /// Waiting for the changed path at this index to be materialized.
    Materializing(Endpoint, usize),
    /// Waiting for the changed path at this index to be copied.
    Copying(Endpoint, usize),
    /// Waiting for the changed path at this index to be restored.
    Restoring(Endpoint, usize),
    /// Waiting for the hard reset that closes the endpoint's pass.
    Resetting(Endpoint),
    /// Finished or aborted.
    Stopped,
}

/// The state of an extraction.
pub struct StateView {
    pub from: Seq<char>,
    pub to: Seq<char>,
    pub original: Seq<char>,
    pub phase: Phase,
    pub files: Seq<Seq<char>>,
    pub listed: Seq<Seq<char>>,
    pub source: Seq<char>,
    pub from_copies: Seq<(Seq<char>, Seq<char>)>,
    pub to_copies: Seq<(Seq<char>, Seq<char>)>,
    pub pending: Option<ErrorView>,
    /// The working tree may differ from the original revision.
    pub dirty: bool,
}

/// The directory part of a slash-separated path; empty when it has none.
pub open spec fn parent_dir(p: Seq<char>) -> Seq<char> {
    match last_of(p, '/', p.len() as int) {
        Some(i) => p.subrange(0, i),
        None => Seq::empty(),
    }
}

pub open spec fn revision_of(s: StateView, ep: Endpoint) -> Seq<char> {
    match ep {
        Endpoint::From => s.from,
        Endpoint::To => s.to,
    }
}

/// Goes on with the changed path at index `i`, or closes the pass.
pub open spec fn advance(s: StateView, ep: Endpoint, i: int) -> (StateView, ActionView) {
    if i < s.files.len() {
        (
            StateView { phase: Phase::MakingDir(ep, i as usize), ..s },
            ActionView::CreateDir { endpoint: ep, dir: parent_dir(s.files[i]) },
        )
    } else {
        (
            StateView { phase: Phase::Resetting(ep), pending: None, ..s },
            ActionView::HardReset { revision: s.original },
        )
    }
}

/// Closes the pass with a hard reset, then stops on `err`.
pub open spec fn fail_reset(s: StateView, ep: Endpoint, err: ErrorView) -> (
    StateView,
    ActionView,
) {
    (
        StateView { phase: Phase::Resetting(ep), pending: Some(err), ..s },
        ActionView::HardReset { revision: s.original },
    )
}

pub open spec fn stop(s: StateView, a: ActionView) -> (StateView, ActionView) {
    (StateView { phase: Phase::Stopped, ..s }, a)
}

/// One step of the extraction.
pub open spec fn step_spec(s: StateView, e: EventView) -> (StateView, ActionView) {
    match s.phase {
        Phase::CheckUnstaged => match e {
            EventView::Paths(v) => if v.len() == 0 {
                (
                    StateView { phase: Phase::CheckStaged, ..s },
                    ActionView::ChangedPaths { from: "HEAD"@, to: None, staged: true },
                )
            } else {
                stop(s, ActionView::Abort(ErrorView::DirtyWorkingTree))
            },
            _ => stop(s, ActionView::Abort(ErrorView::DiffComputationFailed(failure_text(e)))),
        },
        Phase::CheckStaged => match e {
            EventView::Paths(v) => if v.len() == 0 {
                (
                    StateView { phase: Phase::Diff, ..s },
                    ActionView::ChangedPaths { from: s.from, to: Some(s.to), staged: false },
                )
            } else {
                stop(s, ActionView::Abort(ErrorView::DirtyWorkingTree))
            },
            _ => stop(s, ActionView::Abort(ErrorView::DiffComputationFailed(failure_text(e)))),
        },
        Phase::Diff => match e {
            EventView::Paths(v) => if v.len() == 0 {
                stop(
                    s,
                    ActionView::Finish(
                        ReportView { total: 0, from_copies: Seq::empty(), to_copies: Seq::empty() },
                    ),
                )
            } else {
                (StateView { phase: Phase::OutputDir, files: v, ..s }, ActionView::CreateOutputDir)
            },
            _ => stop(s, ActionView::Abort(ErrorView::DiffComputationFailed(failure_text(e)))),
        },
        Phase::OutputDir => match e {
            EventView::Done(_) => (
                StateView { phase: Phase::Listing(Endpoint::From), ..s },
                ActionView::ListPaths { revision: s.from },
            ),
            _ => stop(s, ActionView::Abort(ErrorView::Io(failure_text(e)))),
        },
        Phase::Listing(ep) => match e {
            EventView::Paths(v) => advance(StateView { listed: v, ..s }, ep, 0),
            _ => fail_reset(s, ep, ErrorView::ListingFailed(failure_text(e))),
        },
        Phase::MakingDir(ep, i) => match e {
            EventView::Done(_) => if s.listed.contains(s.files[i as int]) {
                (
                    StateView { phase: Phase::Materializing(ep, i), dirty: true, ..s },
                    ActionView::Materialize { revision: revision_of(s, ep), path: s.files[i as int] },
                )
            } else {
                advance(s, ep, i + 1)
            },
            _ => fail_reset(s, ep, ErrorView::Io(failure_text(e))),
        },
        Phase::Materializing(ep, i) => match e {
            EventView::Done(src) => (
                StateView { phase: Phase::Copying(ep, i), source: src, ..s },
                ActionView::CopyFile { endpoint: ep, source: src, path: s.files[i as int] },
            ),
            _ => fail_reset(s, ep, ErrorView::MaterializeFailed(s.files[i as int])),
        },
        Phase::Copying(ep, i) => match e {
            EventView::Done(dest) => {
                let s2 = match ep {
                    Endpoint::From => StateView {
                        from_copies: s.from_copies.push((s.source, dest)),
                        ..s
                    },
                    Endpoint::To => StateView { to_copies: s.to_copies.push((s.source, dest)), ..s },
                };
                (
                    StateView { phase: Phase::Restoring(ep, i), ..s2 },
                    ActionView::Restore { revision: s.original, path: s.files[i as int] },
                )
            },
            _ => fail_reset(s, ep, ErrorView::Io(failure_text(e))),
        },
        Phase::Restoring(ep, i) => match e {
            EventView::Done(_) => advance(s, ep, i + 1),
            _ => fail_reset(
                s,
                ep,
                ErrorView::RestoreFailed(s.files[i as int], failure_text(e)),
            ),
        },
        Phase::Resetting(ep) => match e {
            EventView::Done(_) => {
                let s2 = StateView { dirty: false, pending: None, ..s };
                match s.pending {
                    Some(err) => stop(s2, ActionView::Abort(err)),
                    None => match ep {
                        Endpoint::From => (
                            StateView { phase: Phase::Listing(Endpoint::To), ..s2 },
                            ActionView::ListPaths { revision: s.to },
                        ),
                        Endpoint::To => stop(
                            StateView { from_copies: Seq::empty(), to_copies: Seq::empty(), ..s2 },
                            ActionView::Finish(
                                ReportView {
                                    total: s.files.len(),
                                    from_copies: s.from_copies,
                                    to_copies: s.to_copies,
                                },
                            ),
                        ),
                    },
                }
            },
            _ => stop(s, ActionView::Abort(ErrorView::HardResetFailed(failure_text(e)))),
        },
        Phase::Stopped => (s, ActionView::Abort(ErrorView::Io(Seq::empty()))),
    }
}

/// The state right after the first action has been issued.
pub open spec fn initial_state(from: Seq<char>, to: Seq<char>, original: Seq<char>) -> StateView {
    StateView {
        from,
        to,
        original,
        phase: Phase::CheckUnstaged,
        files: Seq::empty(),
        listed: Seq::empty(),
        source: Seq::empty(),
        from_copies: Seq::empty(),
        to_copies: Seq::empty(),
        pending: None,
        dirty: false,
    }
}

/// Phase indices stay within the changed paths, and the working tree is
/// only marked changed inside an endpoint pass, or once a reset failed.
pub open spec fn state_wf(s: StateView) -> bool {
    &&& match s.phase {
        Phase::MakingDir(_, i) => i < s.files.len(),
        Phase::Materializing(_, i) => i < s.files.len(),
        Phase::Copying(_, i) => i < s.files.len(),
        Phase::Restoring(_, i) => i < s.files.len(),
        _ => true,
    }
    &&& s.dirty ==> match s.phase {
        Phase::MakingDir(_, _) | Phase::Materializing(_, _) | Phase::Copying(_, _) | Phase::Restoring(
            _,
            _,
        ) | Phase::Resetting(_) | Phase::Stopped => true,
        _ => false,
    }
}

// ---------------------------------------------------------------------------
// The machine
// ---------------------------------------------------------------------------

/// A running extraction.
pub struct Extraction {
    from: String,
    to: String,
    original: String,
    phase: Phase,
    files: Vec<String>,
    listed: Vec<String>,
    source: String,
    from_copies: Vec<CopyEntry>,
    to_copies: Vec<CopyEntry>,
    pending: Option<ExtractError>,
    dirty: Ghost<bool>,
}

pub open spec fn opt_err(o: Option<ExtractError>) -> Option<ErrorView> {
    match o {
        Some(e) => Some(e@),
        None => None,
    }
}

impl View for Extraction {
    type V = StateView;

    closed spec fn view(&self) -> StateView {
        StateView {
            from: self.from@,
            to: self.to@,
            original: self.original@,
            phase: self.phase,
            files: strs(self.files@),
            listed: strs(self.listed@),
            source: self.source@,
            from_copies: entries(self.from_copies@),
            to_copies: entries(self.to_copies@),
            pending: opt_err(self.pending),
            dirty: self.dirty@,
        }
    }
}

/// Whether `v` holds a string equal to `p`.
fn contains_str(v: &Vec<String>, p: &String) -> (r: bool)
    ensures
        r == strs(v@).contains(p@),
{
    let mut i: usize = 0;
    while i < v.len()
        invariant
            i <= v@.len(),
            forall|k: int| 0 <= k < i ==> v@[k]@ != p@,
        decreases v.len() - i,
    {
        if v[i] == *p {
            assert(strs(v@)[i as int] == p@);
            return true;
        }
        i = i + 1;
    }
    proof {
        if strs(v@).contains(p@) {
            let k = choose|k: int| 0 <= k < strs(v@).len() && strs(v@)[k] == p@;
            assert(v@[k]@ == p@);
        }
    }
    false
}

/// The directory part of a slash-separated path.
pub fn parent_dir_of(p: &String) -> (r: String)
    ensures
        r@ == parent_dir(p@),
{
    let c = to_chars(p.as_str());
    let mut i = c.len();
    while i > 0 && c[i - 1] != '/'
        invariant
            i <= c@.len(),
            c@ == p@,
            forall|k: int| i <= k < c@.len() ==> c@[k] != '/',
        decreases i,
    {
        i = i - 1;
    }
    if i == 0 {
        proof {
            if exists|j: int| last_at(p@, '/', p@.len() as int, j) {
                let j = choose|j: int| last_at(p@, '/', p@.len() as int, j);
                assert(p@[j] == '/');
            }
        }
        return String::new();
    }
    let end = i - 1;
    proof {
        assert(last_at(p@, '/', p@.len() as int, end as int));
        let j = choose|j: int| last_at(p@, '/', p@.len() as int, j);
        assert(last_at(p@, '/', p@.len() as int, j));
        if j < end {
            assert(p@[j] != '/');
        } else if end < j {
            assert(p@[end as int] != '/');
        }
    }
    let mut r = String::new();
    let mut k: usize = 0;
    while k < end
        invariant
            k <= end,
            end < c@.len(),
            c@ == p@,
            r@ == p@.subrange(0, k as int),
        decreases end - k,
    {
        push_char(&mut r, c[k]);
        assert(r@ =~= p@.subrange(0, k + 1));
        k = k + 1;
    }
    r
}

/// The text an outcome carries, read as a failure.
fn failure_text_of(e: Event) -> (r: String)
    ensures
        r@ == failure_text(e@),
{
    match e {
        Event::Paths(_) => String::new(),
        Event::Done(t) => t,
        Event::Failed(t) => t,
    }
}

impl Extraction {
    /// The state of the machine.
    pub fn phase(&self) -> (r: Phase)
        ensures
            r == self@.phase,
    {
        self.phase
    }

    fn advance(&mut self, ep: Endpoint, i: usize) -> (a: Action)
        requires
            i <= old(self)@.files.len(),
        ensures
            (final(self)@, a@) == advance(old(self)@, ep, i as int),
    {
        if i < self.files.len() {
            self.phase = Phase::MakingDir(ep, i);
            let dir = parent_dir_of(&self.files[i]);
            Action::CreateDir { endpoint: ep, dir }
        } else {
            self.phase = Phase::Resetting(ep);
            self.pending = None;
            Action::HardReset { revision: self.original.clone() }
        }
    }

    fn fail_reset(&mut self, ep: Endpoint, err: ExtractError) -> (a: Action)
        ensures
            (final(self)@, a@) == fail_reset(old(self)@, ep, err@),
    {
        self.phase = Phase::Resetting(ep);
        self.pending = Some(err);
        Action::HardReset { revision: self.original.clone() }
    }

    fn stop(&mut self, a: Action) -> (r: Action)
        ensures
            (final(self)@, r@) == stop(old(self)@, a@),
    {
        self.phase = Phase::Stopped;
        a
    }

    /// Takes the outcome of the last action and returns the next action.
    /// An outcome of the wrong kind counts as a failure of that action; a
    /// stopped extraction only answers with an empty `Io` error.
    pub fn step(&mut self, e: Event) -> (a: Action)
        requires
            state_wf(old(self)@),
        ensures
            (final(self)@, a@) == step_spec(old(self)@, e@),
            state_wf(final(self)@),
    {
        match self.phase {
            Phase::CheckUnstaged | Phase::CheckStaged | Phase::Diff => self.on_changes(e),
            Phase::OutputDir => self.on_output_dir(e),
            Phase::Listing(ep) => self.on_listing(ep, e),
            Phase::MakingDir(ep, i) => self.on_dir(ep, i, e),
            Phase::Materializing(ep, i) => self.on_materialized(ep, i, e),
            Phase::Copying(ep, i) => self.on_copied(ep, i, e),
            Phase::Restoring(ep, i) => self.on_restored(ep, i, e),
            Phase::Resetting(ep) => self.on_reset(ep, e),
            Phase::Stopped => Action::Abort(ExtractError::Io(String::new())),
        }
    }

    fn on_changes(&mut self, e: Event) -> (a: Action)
        requires
            state_wf(old(self)@),
            old(self)@.phase is CheckUnstaged || old(self)@.phase is CheckStaged
                || old(self)@.phase is Diff,
        ensures
            (final(self)@, a@) == step_spec(old(self)@, e@),
            state_wf(final(self)@),
    {
        match e {
            Event::Paths(v) => {
                if v.len() == 0 {
                    match self.phase {
                        Phase::CheckUnstaged => {
                            self.phase = Phase::CheckStaged;
                            Action::ChangedPaths {
                                from: String::from_str("HEAD"),
                                to: None,
                                staged: true,
                            }
                        },
                        Phase::CheckStaged => {
                            self.phase = Phase::Diff;
                            Action::ChangedPaths {
                                from: self.from.clone(),
                                to: Some(self.to.clone()),
                                staged: false,
                            }
                        },
                        _ => {
                            proof {
                                assert(entries(Seq::<CopyEntry>::empty()) =~= Seq::empty());
                            }
                            self.stop(
                                Action::Finish(
                                    Report {
                                        total: 0,
                                        from_copies: Vec::new(),
                                        to_copies: Vec::new(),
                                    },
                                ),
                            )
                        },
                    }
                } else {
                    match self.phase {
                        Phase::Diff => {
                            self.phase = Phase::OutputDir;
                            self.files = v;
                            Action::CreateOutputDir
                        },
                        _ => self.stop(Action::Abort(ExtractError::DirtyWorkingTree)),
                    }
                }
            },
            _ => {
                let t = failure_text_of(e);
                self.stop(Action::Abort(ExtractError::DiffComputationFailed(t)))
            },
        }
    }

    fn on_output_dir(&mut self, e: Event) -> (a: Action)
        requires
            state_wf(old(self)@),
            old(self)@.phase is OutputDir,
        ensures
            (final(self)@, a@) == step_spec(old(self)@, e@),
            state_wf(final(self)@),
    {
        match e {
            Event::Done(_) => {
                self.phase = Phase::Listing(Endpoint::From);
                Action::ListPaths { revision: self.from.clone() }
            },
            _ => {
                let t = failure_text_of(e);
                self.stop(Action::Abort(ExtractError::Io(t)))
            },
        }
    }

    fn on_listing(&mut self, ep: Endpoint, e: Event) -> (a: Action)
        requires
            state_wf(old(self)@),
            old(self)@.phase == Phase::Listing(ep),
        ensures
            (final(self)@, a@) == step_spec(old(self)@, e@),
            state_wf(final(self)@),
    {
        match e {
            Event::Paths(v) => {
                self.listed = v;
                self.advance(ep, 0)
            },
            _ => {
                let t = failure_text_of(e);
                self.fail_reset(ep, ExtractError::ListingFailed(t))
            },
        }
    }

    fn on_dir(&mut self, ep: Endpoint, i: usize, e: Event) -> (a: Action)
        requires
            state_wf(old(self)@),
            old(self)@.phase == Phase::MakingDir(ep, i),
        ensures
            (final(self)@, a@) == step_spec(old(self)@, e@),
            state_wf(final(self)@),
    {
        let n = self.files.len();
        assert(strs(self.files@).len() == n);
        match e {
            Event::Done(_) => if contains_str(&self.listed, &self.files[i]) {
                self.phase = Phase::Materializing(ep, i);
                self.dirty = Ghost(true);
                let revision = match ep {
                    Endpoint::From => self.from.clone(),
                    Endpoint::To => self.to.clone(),
                };
                Action::Materialize { revision, path: self.files[i].clone() }
            } else {
                self.advance(ep, i + 1)
            },
            _ => {
                let t = failure_text_of(e);
                self.fail_reset(ep, ExtractError::Io(t))
            },
        }
    }

    fn on_materialized(&mut self, ep: Endpoint, i: usize, e: Event) -> (a: Action)
        requires
            state_wf(old(self)@),
            old(self)@.phase == Phase::Materializing(ep, i),
        ensures
            (final(self)@, a@) == step_spec(old(self)@, e@),
            state_wf(final(self)@),
    {
        match e {
            Event::Done(src) => {
                self.phase = Phase::Copying(ep, i);
                self.source = src.clone();
                Action::CopyFile { endpoint: ep, source: src, path: self.files[i].clone() }
            },
            _ => {
                let p = self.files[i].clone();
                self.fail_reset(ep, ExtractError::MaterializeFailed(p))
            },
        }
    }

    fn on_copied(&mut self, ep: Endpoint, i: usize, e: Event) -> (a: Action)
        requires
            state_wf(old(self)@),
            old(self)@.phase == Phase::Copying(ep, i),
        ensures
            (final(self)@, a@) == step_spec(old(self)@, e@),
            state_wf(final(self)@),
    {
        let ghost s = self@;
        match e {
            Event::Done(dest) => {
                let ghost d = dest@;
                let entry = CopyEntry { source: self.source.clone(), dest };
                match ep {
                    Endpoint::From => {
                        let ghost old_copies = self.from_copies@;
                        self.from_copies.push(entry);
                        assert(entries(self.from_copies@) =~= entries(old_copies).push(
                            (s.source, d),
                        ));
                    },
                    Endpoint::To => {
                        let ghost old_copies = self.to_copies@;
                        self.to_copies.push(entry);
                        assert(entries(self.to_copies@) =~= entries(old_copies).push(
                            (s.source, d),
                        ));
                    },
                }
                self.phase = Phase::Restoring(ep, i);
                Action::Restore { revision: self.original.clone(), path: self.files[i].clone() }
            },
            _ => {
                let t = failure_text_of(e);
                self.fail_reset(ep, ExtractError::Io(t))
            },
        }
    }

    fn on_restored(&mut self, ep: Endpoint, i: usize, e: Event) -> (a: Action)
        requires
            state_wf(old(self)@),
            old(self)@.phase == Phase::Restoring(ep, i),
        ensures
            (final(self)@, a@) == step_spec(old(self)@, e@),
            state_wf(final(self)@),
    {
        let n = self.files.len();
        assert(strs(self.files@).len() == n);
        match e {
            Event::Done(_) => self.advance(ep, i + 1),
            _ => {
                let t = failure_text_of(e);
                let p = self.files[i].clone();
                self.fail_reset(ep, ExtractError::RestoreFailed(p, t))
            },
        }
    }

    fn on_reset(&mut self, ep: Endpoint, e: Event) -> (a: Action)
        requires
            state_wf(old(self)@),
            old(self)@.phase == Phase::Resetting(ep),
        ensures
            (final(self)@, a@) == step_spec(old(self)@, e@),
            state_wf(final(self)@),
    {
        match e {
            Event::Done(_) => {
                self.dirty = Ghost(false);
                match self.pending.take() {
                    Some(err) => self.stop(Action::Abort(err)),
                    None => match ep {
                        Endpoint::From => {
                            self.phase = Phase::Listing(Endpoint::To);
                            Action::ListPaths { revision: self.to.clone() }
                        },
                        Endpoint::To => {
                            let mut from_copies: Vec<CopyEntry> = Vec::new();
                            let mut to_copies: Vec<CopyEntry> = Vec::new();
                            core::mem::swap(&mut from_copies, &mut self.from_copies);
                            core::mem::swap(&mut to_copies, &mut self.to_copies);
                            proof {
                                assert(entries(self.from_copies@) =~= Seq::empty());
                                assert(entries(self.to_copies@) =~= Seq::empty());
                            }
                            let report = Report { total: self.files.len(), from_copies, to_copies };
                            self.stop(Action::Finish(report))
                        },
                    },
                }
            },
            _ => {
                let t = failure_text_of(e);
                self.stop(Action::Abort(ExtractError::HardResetFailed(t)))
            },
        }
    }
}

/// The two revisions to compare, where the repository is, where the copies
/// go, and the revision the working tree is at.
pub struct FilesCopy {
    git_path: String,
    from_commit: String,
    to_commit: String,
    target_dir: String,
    output_dir: String,
    current_commit: String,
}

impl FilesCopy {
    pub fn new(
        git_path: String,
        from_commit: String,
        to_commit: String,
        target_dir: String,
        output_dir: String,
        current_commit: String,
    ) -> (r: FilesCopy)
        ensures
            r.git_path() == git_path@,
            r.from_commit() == from_commit@,
            r.to_commit() == to_commit@,
            r.target_dir() == target_dir@,
            r.output_dir() == output_dir@,
            r.current_commit() == current_commit@,
    {
        FilesCopy { git_path, from_commit, to_commit, target_dir, output_dir, current_commit }
    }

    pub closed spec fn git_path(&self) -> Seq<char> {
        self.git_path@
    }

    pub closed spec fn from_commit(&self) -> Seq<char> {
        self.from_commit@
    }

    pub closed spec fn to_commit(&self) -> Seq<char> {
        self.to_commit@
    }

    pub closed spec fn target_dir(&self) -> Seq<char> {
        self.target_dir@
    }

    pub closed spec fn output_dir(&self) -> Seq<char> {
        self.output_dir@
    }

    pub closed spec fn current_commit(&self) -> Seq<char> {
        self.current_commit@
    }

    /// Path of the git executable.
    pub fn git(&self) -> (r: &str)
        ensures
            r@ == self.git_path(),
    {
        self.git_path.as_str()
    }

    pub fn from(&self) -> (r: &str)
        ensures
            r@ == self.from_commit(),
    {
        self.from_commit.as_str()
    }

    pub fn to(&self) -> (r: &str)
        ensures
            r@ == self.to_commit(),
    {
        self.to_commit.as_str()
    }

    /// The directory inside the repository's working tree.
    pub fn target(&self) -> (r: &str)
        ensures
            r@ == self.target_dir(),
    {
        self.target_dir.as_str()
    }

    /// The directory that receives `from/` and `to/`.
    pub fn output(&self) -> (r: &str)
        ensures
            r@ == self.output_dir(),
    {
        self.output_dir.as_str()
    }

    /// The revision the working tree is restored to.
    pub fn current(&self) -> (r: &str)
        ensures
            r@ == self.current_commit(),
    {
        self.current_commit.as_str()
    }

    /// Starts an extraction: the first action asks for the unstaged changes
    /// of the working tree.
    pub fn start(&self) -> (r: (Extraction, Action))
        ensures
            r.0@ == initial_state(self.from_commit(), self.to_commit(), self.current_commit()),
            r.1@ == (ActionView::ChangedPaths { from: "HEAD"@, to: None, staged: false }),
            state_wf(r.0@),
    {
        let x = Extraction {
            from: self.from_commit.clone(),
            to: self.to_commit.clone(),
            original: self.current_commit.clone(),
            phase: Phase::CheckUnstaged,
            files: Vec::new(),
            listed: Vec::new(),
            source: String::new(),
            from_copies: Vec::new(),
            to_copies: Vec::new(),
            pending: None,
            dirty: Ghost(false),
        };
        proof {
            assert(strs(x.files@) =~= Seq::empty());
            assert(strs(x.listed@) =~= Seq::empty());
            assert(entries(x.from_copies@) =~= Seq::empty());
            assert(entries(x.to_copies@) =~= Seq::empty());
        }
        (x, Action::ChangedPaths { from: String::from_str("HEAD"), to: None, staged: false })
    }
}

// ---------------------------------------------------------------------------
// Laws
// ---------------------------------------------------------------------------

/// A working tree with unstaged or staged changes stops the extraction with
/// `DirtyWorkingTree` before any path is listed, materialized or reset; a
/// stopped extraction issues nothing further.
pub proof fn lemma_dirty_tree_stops(
    from: Seq<char>,
    to: Seq<char>,
    original: Seq<char>,
    unstaged: Seq<Seq<char>>,
    staged: Seq<Seq<char>>,
)
    requires
        unstaged.len() > 0 || staged.len() > 0,
    ensures
        ({
            let (s1, a1) = step_spec(initial_state(from, to, original), EventView::Paths(unstaged));
            if unstaged.len() > 0 {
                &&& a1 == ActionView::Abort(ErrorView::DirtyWorkingTree)
                &&& s1.phase is Stopped
            } else {
                let (s2, a2) = step_spec(s1, EventView::Paths(staged));
                &&& a1 == (ActionView::ChangedPaths { from: "HEAD"@, to: None, staged: true })
                &&& a2 == ActionView::Abort(ErrorView::DirtyWorkingTree)
                &&& s2.phase is Stopped
            }
        }),
        forall|s: StateView, e: EventView|
            s.phase is Stopped ==> #[trigger] step_spec(s, e) == (s, ActionView::Abort(
                ErrorView::Io(Seq::empty()),
            )),
{
}

/// When the two revisions have no changed path, the extraction finishes
/// with an empty report and creates no directory.
pub proof fn lemma_empty_diff(s: StateView)
    requires
        s.phase is Diff,
    ensures
        step_spec(s, EventView::Paths(Seq::empty())) == stop(
            s,
            ActionView::Finish(
                ReportView { total: 0, from_copies: Seq::empty(), to_copies: Seq::empty() },
            ),
        ),
{
}

/// The working tree is back at the original revision whenever the
/// extraction ends, unless the hard reset itself failed: a materialize
/// marks it changed, only a successful hard reset clears the mark, and
/// every reset and restore targets the original revision.
pub proof fn lemma_restoration(s: StateView, e: EventView)
    requires
        state_wf(s),
        !(s.phase is Stopped),
    ensures
        ({
            let (s2, a) = step_spec(s, e);
            &&& state_wf(s2)
            &&& (a is Finish || (a is Abort && !(a->Abort_0 is HardResetFailed))) ==> !s2.dirty
            &&& a is Materialize ==> s2.dirty
            &&& s.dirty && !s2.dirty ==> s.phase is Resetting && e is Done
            &&& a is HardReset ==> a->HardReset_revision == s.original
            &&& a is Restore ==> a->Restore_revision == s.original
        }),
{
}

/// A changed path that the revision does not hold still gets its directory,
/// and is neither materialized nor copied.
pub proof fn lemma_deleted_path(s: StateView, ep: Endpoint, i: usize, t: Seq<char>)
    requires
        state_wf(s),
        i < s.files.len(),
        !s.listed.contains(s.files[i as int]),
    ensures
        advance(s, ep, i as int).1 == (ActionView::CreateDir {
            endpoint: ep,
            dir: parent_dir(s.files[i as int]),
        }),
        advance(s, ep, i as int).0.phase == Phase::MakingDir(ep, i),
        ({
            let (s2, a) = step_spec(advance(s, ep, i as int).0, EventView::Done(t));
            &&& !(a is Materialize)
            &&& !(a is CopyFile)
            &&& s2.from_copies == s.from_copies
            &&& s2.to_copies == s.to_copies
            &&& s2.dirty == s.dirty
        }),
{
}

} // verus!
