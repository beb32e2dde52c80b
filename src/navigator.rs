//! A cursor over parsed log lines that only ever rests on commit lines.

use vstd::prelude::*;

use crate::git::onelinelog::{render_line, OnelineLog};

verus! {

/// The `k`-th position visited when walking forward from `start`, wrapping.
pub open spec fn fwd_idx(start: int, k: int, n: int) -> int {
    if start + k < n {
        start + k
    } else {
        start + k - n
    }
}

/// The `k`-th position visited when walking backward from `start`, wrapping.
pub open spec fn bwd_idx(start: int, k: int, n: int) -> int {
    if k <= start {
        start - k
    } else {
        start - k + n
    }
}

pub open spec fn has_commit(items: Seq<OnelineLog>) -> bool {
    exists|i: int| 0 <= i < items.len() && #[trigger] items[i].is_commit()
}

/// `i` is the first commit met when walking forward from `start` (wrapping).
pub open spec fn first_commit_fwd(items: Seq<OnelineLog>, start: int, i: int) -> bool {
    exists|k: int|
        0 <= k < items.len() && i == fwd_idx(start, k, items.len() as int)
            && items[i].is_commit() && forall|j: int|
            0 <= j < k ==> !(#[trigger] items[fwd_idx(start, j, items.len() as int)]).is_commit()
}

/// `i` is the first commit met when walking backward from `start` (wrapping).
pub open spec fn first_commit_bwd(items: Seq<OnelineLog>, start: int, i: int) -> bool {
    exists|k: int|
        0 <= k < items.len() && i == bwd_idx(start, k, items.len() as int)
            && items[i].is_commit() && forall|j: int|
            0 <= j < k ==> !(#[trigger] items[bwd_idx(start, j, items.len() as int)]).is_commit()
}

/// Where a forward move starts from: after the selection, or at the top.
pub open spec fn next_start(sel: Option<usize>, n: int) -> int {
    match sel {
        Some(i) => if i + 1 < n {
            i + 1
        } else {
            0
        },
        None => 0,
    }
}

/// Where a backward move starts from: before the selection, or at the top.
pub open spec fn prev_start(sel: Option<usize>, n: int) -> int {
    match sel {
        Some(i) => if i > 0 {
            i - 1
        } else {
            n - 1
        },
        None => 0,
    }
}

/// The log lines and a selection that, when set, is on a commit line.
pub struct LogNavigator {
    items: Vec<OnelineLog>,
    selected: Option<usize>,
}

impl LogNavigator {
    pub closed spec fn items_spec(&self) -> Seq<OnelineLog> {
        self.items@
    }

    pub closed spec fn selected_spec(&self) -> Option<usize> {
        self.selected
    }

    /// The selection, when set, is a commit line.
    pub open spec fn wf(&self) -> bool {
        match self.selected_spec() {
            Some(i) => i < self.items_spec().len() && self.items_spec()[i as int].is_commit(),
            None => true,
        }
    }

    /// A navigator with nothing selected.
    pub fn new(items: Vec<OnelineLog>) -> (r: LogNavigator)
        ensures
            r.items_spec() == items@,
            r.selected_spec() is None,
            r.wf(),
    {
        LogNavigator { items, selected: None }
    }

    pub fn items(&self) -> (r: &Vec<OnelineLog>)
        ensures
            r@ == self.items_spec(),
    {
        &self.items
    }

    pub fn selected(&self) -> (r: Option<usize>)
        ensures
            r == self.selected_spec(),
    {
        self.selected
    }

    /// The first commit at or after `start`, wrapping past the end;
    /// `None` when no line is a commit.
    pub fn get_next(&self, start: usize) -> (r: Option<usize>)
        requires
            start < self.items_spec().len(),
        ensures
            match r {
                Some(i) => first_commit_fwd(self.items_spec(), start as int, i as int),
                None => !has_commit(self.items_spec()),
            },
    {
        let n = self.items.len();
        let mut k: usize = 0;
        while k < n
            invariant
                n == self.items@.len(),
                start < n,
                k <= n,
                forall|j: int|
                    0 <= j < k ==> !(#[trigger] self.items@[fwd_idx(start as int, j, n as int)]).is_commit(),
            decreases n - k,
        {
            let i = if k < n - start {
                start + k
            } else {
                k - (n - start)
            };
            assert(i == fwd_idx(start as int, k as int, n as int));
            if let OnelineLog::Commit(_) = &self.items[i] {
                assert(first_commit_fwd(self.items@, start as int, i as int));
                return Some(i);
            }
            k = k + 1;
        }
        proof {
            assert forall|i: int| 0 <= i < n implies !(#[trigger] self.items@[i]).is_commit() by {
                let j = if i >= start {
                    i - start
                } else {
                    i + n - start
                };
                assert(fwd_idx(start as int, j, n as int) == i);
                assert(!self.items@[fwd_idx(start as int, j, n as int)].is_commit());
            }
        }
        None
    }

    /// The first commit at or before `start`, wrapping past the top;
    /// `None` when no line is a commit.
    pub fn get_prev(&self, start: usize) -> (r: Option<usize>)
        requires
            start < self.items_spec().len(),
        ensures
            match r {
                Some(i) => first_commit_bwd(self.items_spec(), start as int, i as int),
                None => !has_commit(self.items_spec()),
            },
    {
        let n = self.items.len();
        let mut k: usize = 0;
        while k < n
            invariant
                n == self.items@.len(),
                start < n,
                k <= n,
                forall|j: int|
                    0 <= j < k ==> !(#[trigger] self.items@[bwd_idx(start as int, j, n as int)]).is_commit(),
            decreases n - k,
        {
            let i = if k <= start {
                start - k
            } else {
                n - (k - start)
            };
            assert(i == bwd_idx(start as int, k as int, n as int));
            if let OnelineLog::Commit(_) = &self.items[i] {
                assert(first_commit_bwd(self.items@, start as int, i as int));
                return Some(i);
            }
            k = k + 1;
        }
        proof {
            assert forall|i: int| 0 <= i < n implies !(#[trigger] self.items@[i]).is_commit() by {
                let j = if i <= start {
                    start - i
                } else {
                    start + n - i
                };
                assert(bwd_idx(start as int, j, n as int) == i);
                assert(!self.items@[bwd_idx(start as int, j, n as int)].is_commit());
            }
        }
        None
    }

    /// Selects the next commit line, wrapping past the end.
    pub fn next(&mut self)
        requires
            old(self).wf(),
        ensures
            final(self).wf(),
            final(self).items_spec() == old(self).items_spec(),
            ({
                let items = old(self).items_spec();
                let start = next_start(old(self).selected_spec(), items.len() as int);
                match final(self).selected_spec() {
                    Some(i) => first_commit_fwd(items, start, i as int),
                    None => !has_commit(items),
                }
            }),
    {
        let n = self.items.len();
        if n == 0 {
            self.selected = None;
            return;
        }
        let start = match self.selected {
            Some(i) => if i + 1 < n {
                i + 1
            } else {
                0
            },
            None => 0,
        };
        self.selected = self.get_next(start);
    }

    /// Selects the previous commit line, wrapping past the top.
    pub fn prev(&mut self)
        requires
            old(self).wf(),
        ensures
            final(self).wf(),
            final(self).items_spec() == old(self).items_spec(),
            ({
                let items = old(self).items_spec();
                let start = prev_start(old(self).selected_spec(), items.len() as int);
                match final(self).selected_spec() {
                    Some(i) => first_commit_bwd(items, start, i as int),
                    None => !has_commit(items),
                }
            }),
    {
        let n = self.items.len();
        if n == 0 {
            self.selected = None;
            return;
        }
        let start = match self.selected {
            Some(i) => if i > 0 {
                i - 1
            } else {
                n - 1
            },
            None => 0,
        };
        self.selected = self.get_prev(start);
    }

    /// The selected line, if any.
    pub fn current(&self) -> (r: Option<&OnelineLog>)
        requires
            self.wf(),
        ensures
            match self.selected_spec() {
                Some(i) => r == Some(&self.items_spec()[i as int]),
                None => r is None,
            },
    {
        match self.selected {
            Some(i) => Some(&self.items[i]),
            None => None,
        }
    }
}

/// A log line as shown in the picker: behind a one-letter mark in brackets,
/// or indented by four spaces when it carries no mark.
pub fn to_term_string(log: &OnelineLog, mark: Option<&str>) -> (r: String)
    ensures
        r@ == match mark {
            Some(m) => seq!['['] + m@ + seq![']', ' '] + render_line(log@),
            None => seq![' ', ' ', ' ', ' '] + render_line(log@),
        },
{
    let line = log.to_string();
    let mut r = String::new();
    match mark {
        Some(m) => {
            r.append("[");
            r.append(m);
            r.append("] ");
        },
        None => {
            r.append("    ");
        },
    }
    r.append(line.as_str());
    proof {
        reveal_strlit("[");
        reveal_strlit("] ");
        reveal_strlit("    ");
        match mark {
            Some(m) => {
                assert(r@ =~= seq!['['] + m@ + seq![']', ' '] + render_line(log@));
            },
            None => {
                assert(r@ =~= seq![' ', ' ', ' ', ' '] + render_line(log@));
            },
        }
    }
    r
}

} // verus!
