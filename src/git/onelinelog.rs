use vstd::prelude::*;

use super::error::Error;

verus! {

// ---------------------------------------------------------------------------
// Character classes and positional searches over a line
// ---------------------------------------------------------------------------

/// Unicode `White_Space`, the class that `str::trim` strips.
pub open spec fn is_ws(c: char) -> bool {
    let n = c as u32;
    (9 <= n && n <= 13) || n == 32 || n == 0x85 || n == 0xA0 || n == 0x1680 || (0x2000 <= n
        && n <= 0x200A) || n == 0x2028 || n == 0x2029 || n == 0x202F || n == 0x205F || n == 0x3000
}

/// `s` without its leading and trailing white space.
pub open spec fn trim_ws(s: Seq<char>) -> Seq<char>
    decreases s.len(),
{
    if s.len() == 0 {
        s
    } else if is_ws(s[0]) {
        trim_ws(s.drop_first())
    } else if is_ws(s.last()) {
        trim_ws(s.drop_last())
    } else {
        s
    }
}

/// Number of `' '` characters that `s` starts with.
pub open spec fn space_run(s: Seq<char>) -> nat
    decreases s.len(),
{
    if s.len() > 0 && s[0] == ' ' {
        1 + space_run(s.drop_first())
    } else {
        0
    }
}

/// `i` is the first position at or after `start` that holds `c`.
pub open spec fn first_at(s: Seq<char>, c: char, start: int, i: int) -> bool {
    &&& start <= i < s.len()
    &&& s[i] == c
    &&& forall|k: int| start <= k < i ==> s[k] != c
}

/// `i` is the last position before `end` that holds `c`.
pub open spec fn last_at(s: Seq<char>, c: char, end: int, i: int) -> bool {
    &&& 0 <= i < end
    &&& i < s.len()
    &&& s[i] == c
    &&& forall|k: int| i < k < end ==> s[k] != c
}

/// The first position at or after `start` holding `c`, if any.
pub open spec fn first_of(s: Seq<char>, c: char, start: int) -> Option<int> {
    if exists|i: int| first_at(s, c, start, i) {
        Some(choose|i: int| first_at(s, c, start, i))
    } else {
        None
    }
}

/// The last position before `end` holding `c`, if any.
pub open spec fn last_of(s: Seq<char>, c: char, end: int) -> Option<int> {
    if exists|i: int| last_at(s, c, end, i) {
        Some(choose|i: int| last_at(s, c, end, i))
    } else {
        None
    }
}

/// The text between the first `open` and the first `close` after it, as
/// (index after `open`, index of `close`).
pub open spec fn first_range_spec(s: Seq<char>, open: char, close: char) -> Option<(int, int)> {
    match first_of(s, open, 0) {
        Some(i) => match first_of(s, close, i + 1) {
            Some(j) => Some((i + 1, j)),
            None => None,
        },
        None => None,
    }
}

/// The text between the last `close` and the last `open` before it, as
/// (index after `open`, index of `close`).
pub open spec fn last_range_spec(s: Seq<char>, open: char, close: char) -> Option<(int, int)> {
    match last_of(s, close, s.len() as int) {
        Some(j) => match last_of(s, open, j) {
            Some(i) => Some((i + 1, j)),
            None => None,
        },
        None => None,
    }
}

/// The characters between two positions, taken in either order.
pub open spec fn range_text(s: Seq<char>, from: int, to: int) -> Seq<char> {
    if from <= to {
        s.subrange(from, to)
    } else {
        s.subrange(to, from)
    }
}

pub open spec fn opt_range(r: Option<(usize, usize)>) -> Option<(int, int)> {
    match r {
        Some(p) => Some((p.0 as int, p.1 as int)),
        None => None,
    }
}

pub open spec fn opt_text(r: Option<String>) -> Option<Seq<char>> {
    match r {
        Some(t) => Some(t@),
        None => None,
    }
}

pub open spec fn range_str_spec(s: Seq<char>, r: Option<(int, int)>) -> Option<Seq<char>> {
    match r {
        Some(p) => Some(range_text(s, p.0, p.1)),
        None => None,
    }
}

proof fn lemma_first_of(s: Seq<char>, c: char, start: int, i: int)
    requires
        first_at(s, c, start, i),
    ensures
        first_of(s, c, start) == Some(i),
{
    let j = choose|j: int| first_at(s, c, start, j);
    assert(first_at(s, c, start, j));
    if j < i {
        assert(s[j] != c);
    } else if i < j {
        assert(s[i] != c);
    }
}

proof fn lemma_last_of(s: Seq<char>, c: char, end: int, i: int)
    requires
        last_at(s, c, end, i),
    ensures
        last_of(s, c, end) == Some(i),
{
    let j = choose|j: int| last_at(s, c, end, j);
    assert(last_at(s, c, end, j));
    if j < i {
        assert(s[j] != c);
    } else if i < j {
        assert(s[i] != c);
    }
}

// ---------------------------------------------------------------------------
// The parsed shape of a commit line
// ---------------------------------------------------------------------------

/// The fields of a commit line as character sequences.
pub struct CommitView {
    pub tree_head: Seq<char>,
    pub hash_padding: Seq<char>,
    pub hash: Seq<char>,
    pub aliases: Option<Seq<char>>,
    pub message: Seq<char>,
    pub date: Seq<char>,
    pub author: Seq<char>,
}

/// A parsed log line.
pub enum LogView {
    Commit(CommitView),
    TreeBranches(Seq<char>),
}

/// `n` spaces.
pub open spec fn spaces_spec(n: nat) -> Seq<char> {
    Seq::new(n, |i: int| ' ')
}

/// Parses a log line of the form
/// `<tree>* <padding><hash> -[ (<aliases>)] <message> (<date>) <<author>>`.
pub open spec fn parse_commit(s: Seq<char>) -> Option<CommitView> {
    match (
        first_range_spec(s, '*', '-'),
        first_range_spec(s, '(', ')'),
        last_range_spec(s, '(', ')'),
        last_range_spec(s, '<', '>'),
    ) {
        (Some(h), Some(a), Some(d), Some(au)) => {
            let field = range_text(s, h.0, h.1);
            let run = space_run(field);
            let aliases = range_text(s, a.0, a.1);
            let date = range_text(s, d.0, d.1);
            let msg_start = if aliases == date {
                h.1 + 1
            } else {
                a.1 + 1
            };
            Some(
                CommitView {
                    tree_head: range_text(s, 0, h.0 - 1),
                    hash_padding: spaces_spec(
                        if run > 0 {
                            (run - 1) as nat
                        } else {
                            0
                        },
                    ),
                    hash: trim_ws(field),
                    aliases: if aliases == date {
                        None
                    } else {
                        Some(aliases)
                    },
                    message: trim_ws(range_text(s, msg_start, d.0 - 1)),
                    date,
                    author: range_text(s, au.0, au.1),
                },
            )
        },
        _ => None,
    }
}

/// A line is a commit when it has the commit shape, else it is graph decoration.
pub open spec fn parse_line(s: Seq<char>) -> LogView {
    match parse_commit(s) {
        Some(c) => LogView::Commit(c),
        None => LogView::TreeBranches(s),
    }
}

/// The text of a commit line.
pub open spec fn render(c: CommitView) -> Seq<char> {
    c.tree_head + seq!['*', ' '] + c.hash_padding + c.hash + seq![' ', '-'] + match c.aliases {
        Some(a) => seq![' ', '('] + a + seq![')'],
        None => Seq::<char>::empty(),
    } + seq![' '] + c.message + seq![' ', '('] + c.date + seq![')'] + seq![' ', '<'] + c.author
        + seq!['>']
}

pub open spec fn render_line(l: LogView) -> Seq<char> {
    match l {
        LogView::Commit(c) => render(c),
        LogView::TreeBranches(s) => s,
    }
}

// ---------------------------------------------------------------------------
// Outside calls
// ---------------------------------------------------------------------------

/// Relies on `String::push`: appends one character.
#[verifier::external_body]
pub(crate) fn push_char(s: &mut String, c: char)
    ensures
        final(s)@ == old(s)@.push(c),
{
    s.push(c)
}

/// Relies on `str::trim`: removes leading and trailing Unicode white space.
#[verifier::external_body]
fn trim_str(s: &str) -> (r: &str)
    ensures
        r@ == trim_ws(s@),
{
    s.trim()
}

/// Relies on `itertools::repeat_n`: yields its element exactly `n` times.
#[verifier::external_body]
fn spaces(n: usize) -> (r: String)
    ensures
        r@ == spaces_spec(n as nat),
{
    itertools::repeat_n(' ', n).collect::<String>()
}

/// The characters of `s`, in order.
pub(crate) fn to_chars(s: &str) -> (r: Vec<char>)
    ensures
        r@ == s@,
{
    let n = s.unicode_len();
    let mut v: Vec<char> = Vec::new();
    let mut i: usize = 0;
    while i < n
        invariant
            n == s@.len(),
            i <= n,
            v@ == s@.subrange(0, i as int),
        decreases n - i,
    {
        v.push(s.get_char(i));
        i = i + 1;
    }
    assert(v@ =~= s@);
    v
}

// ---------------------------------------------------------------------------
// Positional ranges over the characters of a line
// ---------------------------------------------------------------------------

/// The characters of one line, searched by position.
pub struct RangeStr {
    c: Vec<char>,
}

impl View for RangeStr {
    type V = Seq<char>;

    closed spec fn view(&self) -> Seq<char> {
        self.c@
    }
}

impl RangeStr {
    pub fn new(c: Vec<char>) -> (r: RangeStr)
        ensures
            r@ == c@,
    {
        RangeStr { c }
    }

    /// The first position at or after `start` holding `x`.
    fn position_from(&self, x: char, start: usize) -> (r: Option<usize>)
        ensures
            match r {
                Some(i) => first_at(self@, x, start as int, i as int),
                None => forall|k: int| start <= k < self@.len() ==> self@[k] != x,
            },
    {
        let mut i = start;
        while i < self.c.len()
            invariant
                start <= i,
                forall|k: int| start <= k < i ==> self@[k] != x,
            decreases self.c.len() - i,
        {
            if self.c[i] == x {
                return Some(i);
            }
            i = i + 1;
        }
        None
    }

    /// The last position before `end` holding `x`.
    fn position_before(&self, x: char, end: usize) -> (r: Option<usize>)
        requires
            end <= self@.len(),
        ensures
            match r {
                Some(i) => last_at(self@, x, end as int, i as int),
                None => forall|k: int| 0 <= k < end ==> self@[k] != x,
            },
    {
        let mut i = end;
        while i > 0
            invariant
                i <= end,
                end <= self@.len(),
                forall|k: int| i <= k < end ==> self@[k] != x,
            decreases i,
        {
            if self.c[i - 1] == x {
                return Some(i - 1);
            }
            i = i - 1;
        }
        None
    }

    /// The text between the first `open` and the first `close` after it.
    pub fn first_str(&self, open: char, close: char) -> (r: Option<String>)
        ensures
            opt_text(r) == range_str_spec(self@, first_range_spec(self@, open, close)),
    {
        match self.first_range(open, close) {
            Some(p) => Some(self.str_from_range(p.0, p.1)),
            None => None,
        }
    }

    /// The text between the last `close` and the last `open` before it.
    pub fn last_str(&self, open: char, close: char) -> (r: Option<String>)
        ensures
            opt_text(r) == range_str_spec(self@, last_range_spec(self@, open, close)),
    {
        match self.last_range(open, close) {
            Some(p) => Some(self.str_from_range(p.0, p.1)),
            None => None,
        }
    }

    /// The characters between two positions, taken in either order.
    pub fn str_from_range(&self, from: usize, to: usize) -> (r: String)
        requires
            from <= self@.len(),
            to <= self@.len(),
        ensures
            r@ == range_text(self@, from as int, to as int),
    {
        let (lo, hi) = if from <= to {
            (from, to)
        } else {
            (to, from)
        };
        let mut r = String::new();
        let mut i = lo;
        while i < hi
            invariant
                lo <= i <= hi,
                hi <= self@.len(),
                r@ == self@.subrange(lo as int, i as int),
            decreases hi - i,
        {
            push_char(&mut r, self.c[i]);
            assert(r@ =~= self@.subrange(lo as int, i + 1));
            i = i + 1;
        }
        r
    }

    /// (index after the first `open`, index of the first `close` after it).
    pub fn first_range(&self, open: char, close: char) -> (r: Option<(usize, usize)>)
        ensures
            opt_range(r) == first_range_spec(self@, open, close),
            r matches Some(p) ==> 0 < p.0 <= p.1 < self@.len(),
    {
        let n = self.c.len();
        match self.position_from(open, 0) {
            Some(i) => {
                assert(i < n);
                proof {
                    lemma_first_of(self@, open, 0, i as int);
                }
                match self.position_from(close, i + 1) {
                    Some(j) => {
                        proof {
                            lemma_first_of(self@, close, i + 1, j as int);
                        }
                        Some((i + 1, j))
                    },
                    None => {
                        assert(!exists|j: int| #[trigger] first_at(self@, close, i + 1, j));
                        None
                    },
                }
            },
            None => {
                assert(!exists|j: int| #[trigger] first_at(self@, open, 0, j));
                None
            },
        }
    }

    /// (index after the last `open` before the last `close`, index of that `close`).
    pub fn last_range(&self, open: char, close: char) -> (r: Option<(usize, usize)>)
        ensures
            opt_range(r) == last_range_spec(self@, open, close),
            r matches Some(p) ==> 0 < p.0 <= p.1 < self@.len(),
    {
        match self.position_before(close, self.c.len()) {
            Some(j) => {
                proof {
                    lemma_last_of(self@, close, self@.len() as int, j as int);
                }
                match self.position_before(open, j) {
                    Some(i) => {
                        proof {
                            lemma_last_of(self@, open, j as int, i as int);
                        }
                        Some((i + 1, j))
                    },
                    None => {
                        assert(!exists|i: int| #[trigger] last_at(self@, open, j as int, i));
                        None
                    },
                }
            },
            None => {
                assert(!exists|i: int| #[trigger] last_at(self@, close, self@.len() as int, i));
                None
            },
        }
    }
}

// ---------------------------------------------------------------------------
// Log lines
// ---------------------------------------------------------------------------

/// One line of the revision graph printed by `git log --graph`.
pub enum OnelineLog {
    /// A line that names a commit.
    Commit(Commit),
    /// A line that only draws graph connectors.
    TreeBranches(String),
}

impl View for OnelineLog {
    type V = LogView;

    open spec fn view(&self) -> LogView {
        match self {
            OnelineLog::Commit(c) => LogView::Commit(c@),
            OnelineLog::TreeBranches(s) => LogView::TreeBranches(s@),
        }
    }
}

impl OnelineLog {
    /// Parses one line; a line without the commit shape is kept as decoration.
    pub fn from(s: &str) -> (r: OnelineLog)
        ensures
            r@ == parse_line(s@),
    {
        match Commit::from_str(s) {
            Ok(c) => OnelineLog::Commit(c),
            Err(_) => OnelineLog::TreeBranches(String::from_str(s)),
        }
    }

    /// The line as text.
    pub fn to_string(&self) -> (r: String)
        ensures
            r@ == render_line(self@),
    {
        match self {
            OnelineLog::Commit(c) => c.to_string(),
            OnelineLog::TreeBranches(s) => s.clone(),
        }
    }

    pub open spec fn is_commit(&self) -> bool {
        self matches OnelineLog::Commit(_)
    }
}

/// One commit line of the revision graph.
pub struct Commit {
    /// Graph connectors drawn before the commit mark.
    tree_head: String,
    /// Spaces between the commit mark and the hash, less one.
    hash_padding: String,
    /// Abbreviated hash.
    hash: String,
    /// Branch and tag names, when the line carries any.
    aliases: Option<String>,
    /// Commit message.
    message: String,
    /// Commit date.
    date: String,
    /// Author name.
    author: String,
}

pub open spec fn opt_view(o: Option<String>) -> Option<Seq<char>> {
    match o {
        Some(s) => Some(s@),
        None => None,
    }
}

impl View for Commit {
    type V = CommitView;

    closed spec fn view(&self) -> CommitView {
        CommitView {
            tree_head: self.tree_head@,
            hash_padding: self.hash_padding@,
            hash: self.hash@,
            aliases: opt_view(self.aliases),
            message: self.message@,
            date: self.date@,
            author: self.author@,
        }
    }
}

impl Commit {
    pub fn new(
        tree_head: String,
        hash_padding: String,
        hash: String,
        aliases: Option<String>,
        message: String,
        date: String,
        author: String,
    ) -> (r: Commit)
        ensures
            r@ == (CommitView {
                tree_head: tree_head@,
                hash_padding: hash_padding@,
                hash: hash@,
                aliases: opt_view(aliases),
                message: message@,
                date: date@,
                author: author@,
            }),
    {
        Commit { tree_head, hash_padding, hash, aliases, message, date, author }
    }

    pub fn tree_head(&self) -> (r: &str)
        ensures
            r@ == self@.tree_head,
    {
        self.tree_head.as_str()
    }

    pub fn hash_padding(&self) -> (r: &str)
        ensures
            r@ == self@.hash_padding,
    {
        self.hash_padding.as_str()
    }

    pub fn hash(&self) -> (r: &str)
        ensures
            r@ == self@.hash,
    {
        self.hash.as_str()
    }

    pub fn aliases(&self) -> (r: Option<&str>)
        ensures
            match r {
                Some(a) => self@.aliases == Some(a@),
                None => self@.aliases is None,
            },
    {
        match &self.aliases {
            Some(a) => Some(a.as_str()),
            None => None,
        }
    }

    pub fn message(&self) -> (r: &str)
        ensures
            r@ == self@.message,
    {
        self.message.as_str()
    }

    pub fn date(&self) -> (r: &str)
        ensures
            r@ == self@.date,
    {
        self.date.as_str()
    }

    pub fn author(&self) -> (r: &str)
        ensures
            r@ == self@.author,
    {
        self.author.as_str()
    }

    /// The commit as a log line:
    /// `<tree>* <padding><hash> -[ (<aliases>)] <message> (<date>) <<author>>`.
    pub fn to_string(&self) -> (r: String)
        ensures
            r@ == render(self@),
    {
        let mut r = String::new();
        r.append(self.tree_head.as_str());
        r.append("* ");
        r.append(self.hash_padding.as_str());
        r.append(self.hash.as_str());
        r.append(" -");
        let ghost mid = r@;
        match &self.aliases {
            Some(a) => {
                r.append(" (");
                r.append(a.as_str());
                r.append(")");
            },
            None => {},
        }
        let ghost with_aliases = r@;
        r.append(" ");
        r.append(self.message.as_str());
        r.append(" (");
        r.append(self.date.as_str());
        r.append(")");
        r.append(" <");
        r.append(self.author.as_str());
        r.append(">");
        proof {
            reveal_strlit("* ");
            reveal_strlit(" -");
            reveal_strlit(" (");
            reveal_strlit(")");
            reveal_strlit(" ");
            reveal_strlit(" <");
            reveal_strlit(">");
            let al = match self@.aliases {
                Some(a) => seq![' ', '('] + a + seq![')'],
                None => Seq::<char>::empty(),
            };
            assert(with_aliases =~= mid + al);
            assert(r@ =~= render(self@));
        }
        r
    }

    /// Parses a commit line; fails with `LogParse` on a line without the
    /// commit shape.
    pub fn from_str(s: &str) -> (r: Result<Commit, Error>)
        ensures
            match parse_commit(s@) {
                Some(c) => r matches Ok(x) && x@ == c,
                None => r matches Err(Error::LogParse(t)) && t@ == s@,
            },
    {
        let chars = to_chars(s);
        let r = RangeStr::new(chars);
        let hr = r.first_range('*', '-');
        let ar = r.first_range('(', ')');
        let dr = r.last_range('(', ')');
        let aur = r.last_range('<', '>');
        let (h, a, d, au) = match (hr, ar, dr, aur) {
            (Some(h), Some(a), Some(d), Some(au)) => (h, a, d, au),
            _ => {
                return Err(Error::LogParse(String::from_str(s)));
            },
        };
        let field = r.str_from_range(h.0, h.1);
        let run = count_spaces(&field);
        let padding = spaces(
            if run > 0 {
                run - 1
            } else {
                0
            },
        );
        let hash = String::from_str(trim_str(field.as_str()));
        let aliases = r.str_from_range(a.0, a.1);
        let date = r.str_from_range(d.0, d.1);
        let author = r.str_from_range(au.0, au.1);
        let same = aliases == date;
        let msg_start = if same {
            h.1 + 1
        } else {
            a.1 + 1
        };
        let raw_message = r.str_from_range(msg_start, d.0 - 1);
        let message = String::from_str(trim_str(raw_message.as_str()));
        let tree_head = r.str_from_range(0, h.0 - 1);
        let aliases = if same {
            None
        } else {
            Some(aliases)
        };
        Ok(Commit::new(tree_head, padding, hash, aliases, message, date, author))
    }
}

/// The number of `' '` characters that `s` starts with.
fn count_spaces(s: &String) -> (r: usize)
    ensures
        r == space_run(s@),
{
    let chars = to_chars(s.as_str());
    let mut i: usize = 0;
    assert(s@.subrange(0, s@.len() as int) =~= s@);
    while i < chars.len() && chars[i] == ' '
        invariant
            i <= chars@.len(),
            chars@ == s@,
            space_run(s@) == i + space_run(s@.subrange(i as int, s@.len() as int)),
        decreases chars.len() - i,
    {
        let ghost rest = s@.subrange(i as int, s@.len() as int);
        assert(rest.drop_first() =~= s@.subrange(i + 1, s@.len() as int));
        i = i + 1;
    }
    proof {
        let rest = s@.subrange(i as int, s@.len() as int);
        assert(space_run(rest) == 0);
    }
    i
}

// ---------------------------------------------------------------------------
// Laws
// ---------------------------------------------------------------------------

/// Whether `c` is one of the characters that delimit the fields of a commit line.
pub open spec fn is_delim(c: char) -> bool {
    c == '(' || c == ')' || c == '<' || c == '>'
}

pub open spec fn no_delims(s: Seq<char>) -> bool {
    forall|i: int| 0 <= i < s.len() ==> !is_delim(#[trigger] s[i])
}

pub open spec fn lacks(s: Seq<char>, c: char) -> bool {
    forall|i: int| 0 <= i < s.len() ==> #[trigger] s[i] != c
}

/// Empty, or neither starting nor ending with white space.
pub open spec fn trimmed(s: Seq<char>) -> bool {
    s.len() > 0 ==> !is_ws(s[0]) && !is_ws(s.last())
}

/// The commits whose text parses back to themselves: the graph part holds
/// no `*` or `(`, the padding is spaces, the hash is non-empty, trimmed and
/// holds no `-` or `(`, aliases hold no `)` and differ from the date, and
/// message, date and author hold no parenthesis or angle bracket, the
/// message being trimmed.
pub open spec fn round_trips(c: CommitView) -> bool {
    &&& lacks(c.tree_head, '*')
    &&& lacks(c.tree_head, '(')
    &&& forall|i: int| 0 <= i < c.hash_padding.len() ==> #[trigger] c.hash_padding[i] == ' '
    &&& c.hash.len() > 0
    &&& trimmed(c.hash)
    &&& lacks(c.hash, '-')
    &&& lacks(c.hash, '(')
    &&& (c.aliases matches Some(a) ==> lacks(a, ')') && a != c.date)
    &&& no_delims(c.message)
    &&& trimmed(c.message)
    &&& no_delims(c.date)
    &&& no_delims(c.author)
}

proof fn lemma_trim_ws_prefix(p: Seq<char>, x: Seq<char>)
    requires
        forall|i: int| 0 <= i < p.len() ==> is_ws(#[trigger] p[i]),
    ensures
        trim_ws(p + x) == trim_ws(x),
    decreases p.len(),
{
    if p.len() == 0 {
        assert(p + x =~= x);
    } else {
        assert((p + x)[0] == p[0]);
        assert((p + x).drop_first() =~= p.drop_first() + x);
        assert(forall|i: int|
            0 <= i < p.drop_first().len() ==> #[trigger] p.drop_first()[i] == p[i + 1]);
        lemma_trim_ws_prefix(p.drop_first(), x);
    }
}

proof fn lemma_trim_ws_suffix(x: Seq<char>, q: Seq<char>)
    requires
        x.len() > 0,
        !is_ws(x[0]),
        forall|i: int| 0 <= i < q.len() ==> is_ws(#[trigger] q[i]),
    ensures
        trim_ws(x + q) == trim_ws(x),
    decreases q.len(),
{
    if q.len() == 0 {
        assert(x + q =~= x);
    } else {
        assert((x + q)[0] == x[0]);
        assert((x + q).last() == q.last());
        assert((x + q).drop_last() =~= x + q.drop_last());
        assert(forall|i: int|
            0 <= i < q.drop_last().len() ==> #[trigger] q.drop_last()[i] == q[i]);
        lemma_trim_ws_suffix(x, q.drop_last());
    }
}

/// Trimming a space-framed trimmed text gives the text back.
proof fn lemma_trim_framed(p: Seq<char>, m: Seq<char>)
    requires
        forall|i: int| 0 <= i < p.len() ==> is_ws(#[trigger] p[i]),
        trimmed(m),
    ensures
        trim_ws(p + m + seq![' ']) == m,
{
    let sp = seq![' '];
    assert(p + m + sp =~= p + (m + sp));
    lemma_trim_ws_prefix(p, m + sp);
    if m.len() == 0 {
        assert(m + sp =~= Seq::<char>::empty() + sp);
        assert(is_ws(sp[0]));
        lemma_trim_ws_prefix(sp, Seq::<char>::empty());
        assert(sp + Seq::<char>::empty() =~= sp);
        assert(m + sp =~= sp);
        assert(trim_ws(Seq::<char>::empty()) == Seq::<char>::empty());
        assert(m =~= Seq::<char>::empty());
    } else {
        assert(is_ws(sp[0]));
        lemma_trim_ws_suffix(m, sp);
        assert(trim_ws(m) == m);
    }
}

proof fn lemma_space_run_prefix(p: Seq<char>, x: Seq<char>)
    requires
        forall|i: int| 0 <= i < p.len() ==> #[trigger] p[i] == ' ',
    ensures
        space_run(p + x) == p.len() + space_run(x),
    decreases p.len(),
{
    if p.len() == 0 {
        assert(p + x =~= x);
    } else {
        assert((p + x)[0] == ' ');
        assert((p + x).drop_first() =~= p.drop_first() + x);
        assert(forall|i: int|
            0 <= i < p.drop_first().len() ==> #[trigger] p.drop_first()[i] == p[i + 1]);
        lemma_space_run_prefix(p.drop_first(), x);
    }
}

/// A line made only of graph connectors (`|`, `\`, `/`, spaces) is kept,
/// unchanged, as decoration.
pub proof fn lemma_decoration_fallback(s: Seq<char>)
    requires
        forall|i: int|
            0 <= i < s.len() ==> #[trigger] s[i] == '|' || s[i] == '\\' || s[i] == '/' || s[i]
                == ' ',
    ensures
        parse_line(s) == LogView::TreeBranches(s),
{
    assert(!exists|i: int| #[trigger] first_at(s, '*', 0, i)) by {
        assert forall|i: int| !#[trigger] first_at(s, '*', 0, i) by {
            if 0 <= i < s.len() {
                assert(s[i] != '*');
            }
        }
    }
    assert(first_range_spec(s, '*', '-') is None);
}

/// A commit line with a single `(` and a single `)` has no aliases: its
/// one parenthesized group is the date.
pub proof fn lemma_single_group_no_aliases(s: Seq<char>)
    requires
        parse_commit(s) is Some,
        forall|i: int, j: int|
            0 <= i < s.len() && 0 <= j < s.len() && #[trigger] s[i] == '(' && #[trigger] s[j]
                == '(' ==> i == j,
        forall|i: int, j: int|
            0 <= i < s.len() && 0 <= j < s.len() && #[trigger] s[i] == ')' && #[trigger] s[j]
                == ')' ==> i == j,
    ensures
        parse_commit(s)->0.aliases is None,
{
    let a = first_range_spec(s, '(', ')')->0;
    let d = last_range_spec(s, '(', ')')->0;
    let i1 = first_of(s, '(', 0)->0;
    let j1 = first_of(s, ')', i1 + 1)->0;
    let j2 = last_of(s, ')', s.len() as int)->0;
    let i2 = last_of(s, '(', j2)->0;
    assert(first_at(s, '(', 0, i1));
    assert(first_at(s, ')', i1 + 1, j1));
    assert(last_at(s, ')', s.len() as int, j2));
    assert(last_at(s, '(', j2, i2));
    assert(i1 == i2);
    assert(j1 == j2);
    assert(a == d);
}

/// A commit line whose first and last parenthesized groups differ carries
/// the first group as its aliases.
pub proof fn lemma_two_groups_aliases(s: Seq<char>)
    requires
        parse_commit(s) is Some,
        ({
            let a = first_range_spec(s, '(', ')')->0;
            let d = last_range_spec(s, '(', ')')->0;
            range_text(s, a.0, a.1) != range_text(s, d.0, d.1)
        }),
    ensures
        ({
            let a = first_range_spec(s, '(', ')')->0;
            parse_commit(s)->0.aliases == Some(range_text(s, a.0, a.1))
        }),
{
}

spec fn rt_head(v: CommitView) -> Seq<char> {
    v.tree_head + seq!['*', ' '] + v.hash_padding + v.hash + seq![' ', '-']
}

spec fn rt_groups(v: CommitView) -> Seq<char> {
    match v.aliases {
        Some(a) => seq![' ', '('] + a + seq![')'],
        None => Seq::<char>::empty(),
    }
}

spec fn rt_tail(v: CommitView) -> Seq<char> {
    seq![' '] + v.message + seq![' ', '('] + v.date + seq![')'] + seq![' ', '<'] + v.author
        + seq!['>']
}

/// Position of the `-` after the hash.
spec fn rt_dash(v: CommitView) -> int {
    (v.tree_head.len() + 2 + v.hash_padding.len() + v.hash.len() + 1) as int
}

/// Position where the message field starts.
spec fn rt_ms(v: CommitView) -> int {
    rt_dash(v) + 1 + rt_groups(v).len()
}

proof fn lemma_rt_layout(v: CommitView)
    ensures
        render(v) == rt_head(v) + rt_groups(v) + rt_tail(v),
        rt_head(v).len() == rt_dash(v) + 1,
        forall|k: int| 0 <= k < rt_head(v).len() ==> #[trigger] render(v)[k] == rt_head(v)[k],
        forall|k: int|
            0 <= k < rt_groups(v).len() ==> #[trigger] render(v)[rt_dash(v) + 1 + k]
                == rt_groups(v)[k],
        forall|k: int|
            0 <= k < rt_tail(v).len() ==> #[trigger] render(v)[rt_ms(v) + k] == rt_tail(v)[k],
        render(v).len() == rt_ms(v) + rt_tail(v).len(),
{
    let r = render(v);
    assert(r =~= rt_head(v) + rt_groups(v) + rt_tail(v));
    let hg = rt_head(v) + rt_groups(v);
    assert forall|k: int| 0 <= k < rt_head(v).len() implies #[trigger] r[k] == rt_head(v)[k] by {
        assert(r[k] == hg[k]);
    }
    assert forall|k: int| 0 <= k < rt_groups(v).len() implies #[trigger] r[rt_dash(v) + 1 + k]
        == rt_groups(v)[k] by {
        assert(r[rt_dash(v) + 1 + k] == hg[rt_dash(v) + 1 + k]);
    }
}

proof fn lemma_rt_head_chars(v: CommitView)
    ensures
        ({
            let hd = rt_head(v);
            let t0 = v.tree_head.len() as int;
            let p = v.hash_padding.len() as int;
            let hl = v.hash.len() as int;
            &&& forall|k: int| 0 <= k < t0 ==> #[trigger] hd[k] == v.tree_head[k]
            &&& hd[t0] == '*'
            &&& hd[t0 + 1] == ' '
            &&& forall|k: int| 0 <= k < p ==> #[trigger] hd[t0 + 2 + k] == v.hash_padding[k]
            &&& forall|k: int| 0 <= k < hl ==> #[trigger] hd[t0 + 2 + p + k] == v.hash[k]
            &&& hd[t0 + 2 + p + hl] == ' '
            &&& hd[t0 + 3 + p + hl] == '-'
            &&& hd.subrange(t0 + 1, t0 + 3 + p + hl) =~= seq![' '] + v.hash_padding + v.hash
                + seq![' ']
            &&& hd.subrange(0, t0) =~= v.tree_head
        }),
{
}

proof fn lemma_rt_tail_chars(v: CommitView)
    ensures
        ({
            let tl = rt_tail(v);
            let m = v.message.len() as int;
            let d = v.date.len() as int;
            let a = v.author.len() as int;
            &&& tl.len() == 7 + m + d + a
            &&& tl[0] == ' '
            &&& forall|k: int| 0 <= k < m ==> #[trigger] tl[1 + k] == v.message[k]
            &&& tl[1 + m] == ' '
            &&& tl[2 + m] == '('
            &&& forall|k: int| 0 <= k < d ==> #[trigger] tl[3 + m + k] == v.date[k]
            &&& tl[3 + m + d] == ')'
            &&& tl[4 + m + d] == ' '
            &&& tl[5 + m + d] == '<'
            &&& forall|k: int| 0 <= k < a ==> #[trigger] tl[6 + m + d + k] == v.author[k]
            &&& tl[6 + m + d + a] == '>'
            &&& tl.subrange(0, 2 + m) =~= seq![' '] + v.message + seq![' ']
            &&& tl.subrange(3 + m, 3 + m + d) =~= v.date
            &&& tl.subrange(6 + m + d, 6 + m + d + a) =~= v.author
        }),
{
}

/// The hash field of a rendered commit.
proof fn lemma_rt_hash(v: CommitView)
    requires
        round_trips(v),
    ensures
        first_range_spec(render(v), '*', '-') == Some((v.tree_head.len() + 1int, rt_dash(v))),
        trim_ws(range_text(render(v), v.tree_head.len() + 1int, rt_dash(v))) == v.hash,
        spaces_spec(
            (space_run(range_text(render(v), v.tree_head.len() + 1int, rt_dash(v))) - 1) as nat,
        ) == v.hash_padding,
        space_run(range_text(render(v), v.tree_head.len() + 1int, rt_dash(v))) > 0,
        range_text(render(v), 0, v.tree_head.len() as int) == v.tree_head,
        forall|k: int| 0 <= k <= rt_dash(v) ==> #[trigger] render(v)[k] != '(',
{
    let r = render(v);
    let hd = rt_head(v);
    lemma_rt_layout(v);
    lemma_rt_head_chars(v);
    let t0 = v.tree_head.len() as int;
    let pad = v.hash_padding;
    let h = v.hash;
    let dash = rt_dash(v);
    assert forall|k: int| 0 <= k < t0 implies #[trigger] r[k] != '*' by {
        assert(hd[k] == v.tree_head[k]);
    }
    assert(r[t0] == '*');
    assert(first_at(r, '*', 0, t0));
    lemma_first_of(r, '*', 0, t0);
    assert forall|k: int| t0 + 1 <= k < dash implies #[trigger] r[k] != '-' && r[k] != '(' by {
        if t0 + 2 <= k < t0 + 2 + pad.len() {
            assert(hd[t0 + 2 + (k - t0 - 2)] == pad[k - t0 - 2]);
        } else if t0 + 2 + pad.len() <= k < t0 + 2 + pad.len() + h.len() {
            assert(hd[t0 + 2 + pad.len() + (k - t0 - 2 - pad.len())] == h[k - t0 - 2
                - pad.len()]);
        }
    }
    assert forall|k: int| 0 <= k <= dash implies #[trigger] r[k] != '(' by {
        if k < t0 {
            assert(hd[k] == v.tree_head[k]);
        }
    }
    assert(r[dash] == '-');
    assert(first_at(r, '-', t0 + 1, dash));
    lemma_first_of(r, '-', t0 + 1, dash);
    assert(r.subrange(t0 + 1, dash) =~= hd.subrange(t0 + 1, dash));
    assert(r.subrange(0, t0) =~= hd.subrange(0, t0));
    let field = r.subrange(t0 + 1, dash);
    let lead = seq![' '] + pad;
    assert(field =~= lead + h + seq![' ']);
    assert forall|i: int| 0 <= i < lead.len() implies #[trigger] lead[i] == ' ' by {
        if i > 0 {
            assert(lead[i] == pad[i - 1]);
        }
    }
    assert forall|i: int| 0 <= i < lead.len() implies is_ws(#[trigger] lead[i]) by {
        assert(lead[i] == ' ');
    }
    lemma_trim_framed(lead, h);
    assert(field =~= lead + (h + seq![' ']));
    lemma_space_run_prefix(lead, h + seq![' ']);
    assert((h + seq![' '])[0] == h[0]);
    assert(space_run(h + seq![' ']) == 0);
    assert(spaces_spec(pad.len()) =~= pad);
}

/// The date, the author and the message of a rendered commit.
proof fn lemma_rt_back(v: CommitView)
    requires
        round_trips(v),
    ensures
        ({
            let r = render(v);
            let ms = rt_ms(v);
            let dopen = ms + 2 + v.message.len();
            let dclose = dopen + 1 + v.date.len();
            &&& last_range_spec(r, '(', ')') == Some((dopen + 1, dclose))
            &&& last_range_spec(r, '<', '>') == Some((dclose + 3, r.len() - 1))
            &&& range_text(r, dopen + 1, dclose) == v.date
            &&& range_text(r, dclose + 3, r.len() - 1) == v.author
            &&& trim_ws(range_text(r, ms, dopen)) == v.message
            &&& forall|k: int| ms <= k < dopen ==> #[trigger] r[k] != '(' && r[k] != ')'
            &&& r[dopen] == '('
            &&& r[dclose] == ')'
            &&& forall|k: int| dopen < k < dclose ==> #[trigger] r[k] != ')'
        }),
{
    let r = render(v);
    let tl = rt_tail(v);
    lemma_rt_layout(v);
    lemma_rt_tail_chars(v);
    let ms = rt_ms(v);
    let m = v.message;
    let dt = v.date;
    let au = v.author;
    let ml = m.len() as int;
    let dl = dt.len() as int;
    let aul = au.len() as int;
    let dopen = ms + 2 + ml;
    let dclose = dopen + 1 + dl;
    let aopen = dclose + 2;
    let last = r.len() - 1;
    assert(r[ms + (2 + ml)] == tl[2 + ml]);
    assert(r[ms + (3 + ml + dl)] == tl[3 + ml + dl]);
    assert(r[ms + (5 + ml + dl)] == tl[5 + ml + dl]);
    assert(r[ms + (6 + ml + dl + aul)] == tl[6 + ml + dl + aul]);
    assert(r[dopen] == '(');
    assert(r[dclose] == ')');
    assert(r[aopen] == '<');
    assert(r[last] == '>');
    assert forall|k: int| ms <= k < dopen implies #[trigger] r[k] != '(' && r[k] != ')' by {
        assert(r[ms + (k - ms)] == tl[k - ms]);
        if 1 <= k - ms < 1 + ml {
            assert(tl[1 + (k - ms - 1)] == m[k - ms - 1]);
            assert(!is_delim(m[k - ms - 1]));
        }
    }
    assert forall|k: int| dopen < k < dclose implies #[trigger] r[k] != '(' && r[k] != ')' by {
        assert(r[ms + (k - ms)] == tl[k - ms]);
        assert(tl[3 + ml + (k - dopen - 1)] == dt[k - dopen - 1]);
        assert(!is_delim(dt[k - dopen - 1]));
    }
    assert forall|k: int| dclose < k < r.len() implies #[trigger] r[k] != ')' by {
        assert(r[ms + (k - ms)] == tl[k - ms]);
        if aopen < k < last {
            assert(tl[6 + ml + dl + (k - aopen - 1)] == au[k - aopen - 1]);
            assert(!is_delim(au[k - aopen - 1]));
        }
    }
    assert forall|k: int| aopen < k < last implies #[trigger] r[k] != '<' by {
        assert(r[ms + (k - ms)] == tl[k - ms]);
        assert(tl[6 + ml + dl + (k - aopen - 1)] == au[k - aopen - 1]);
        assert(!is_delim(au[k - aopen - 1]));
    }
    assert(last_at(r, ')', r.len() as int, dclose));
    lemma_last_of(r, ')', r.len() as int, dclose);
    assert(last_at(r, '(', dclose, dopen));
    lemma_last_of(r, '(', dclose, dopen);
    assert(last_at(r, '>', r.len() as int, last));
    lemma_last_of(r, '>', r.len() as int, last);
    assert(last_at(r, '<', last, aopen));
    lemma_last_of(r, '<', last, aopen);
    assert(r.subrange(dopen + 1, dclose) =~= tl.subrange(3 + ml, 3 + ml + dl));
    assert(r.subrange(aopen + 1, last) =~= tl.subrange(
        6 + ml + dl,
        6 + ml + dl + aul,
    ));
    assert(r.subrange(ms, dopen) =~= tl.subrange(0, 2 + ml));
    lemma_trim_framed(seq![' '], m);
}

/// The first parenthesized group of a rendered commit with aliases.
proof fn lemma_rt_aliases_group(v: CommitView)
    requires
        round_trips(v),
        v.aliases is Some,
    ensures
        first_range_spec(render(v), '(', ')') == Some((rt_dash(v) + 3, rt_ms(v) - 1)),
        range_text(render(v), rt_dash(v) + 3, rt_ms(v) - 1) == v.aliases->0,
{
    let r = render(v);
    lemma_rt_layout(v);
    lemma_rt_hash(v);
    let dash = rt_dash(v);
    let ms = rt_ms(v);
    let a = v.aliases->0;
    let g = rt_groups(v);
    let alen = a.len() as int;
    let aclose = dash + 3 + alen;
    assert(ms - 1 == aclose);
    assert(r[dash + 1 + 1] == g[1]);
    assert(r[dash + 1 + (2 + alen)] == g[2 + alen]);
    assert(r[dash + 2] == '(');
    assert(r[aclose] == ')');
    assert forall|k: int| dash + 3 <= k < aclose implies #[trigger] r[k] == a[k - dash - 3] by {
        assert(r[dash + 1 + (k - dash - 1)] == g[k - dash - 1]);
    }
    assert forall|k: int| dash + 3 <= k < aclose implies #[trigger] r[k] != ')' by {
        assert(r[k] == a[k - dash - 3]);
    }
    assert(r[dash + 1] != '(');
    assert(first_at(r, '(', 0, dash + 2));
    lemma_first_of(r, '(', 0, dash + 2);
    assert(first_at(r, ')', dash + 3, aclose));
    lemma_first_of(r, ')', dash + 3, aclose);
    assert(r.subrange(dash + 3, aclose) =~= a);
}

/// The first parenthesized group of a rendered commit without aliases is
/// its date.
proof fn lemma_rt_date_group(v: CommitView)
    requires
        round_trips(v),
        v.aliases is None,
    ensures
        rt_ms(v) == rt_dash(v) + 1,
        first_range_spec(render(v), '(', ')') == Some(
            (rt_ms(v) + 3 + v.message.len(), rt_ms(v) + 3 + v.message.len() + v.date.len()),
        ),
{
    let r = render(v);
    lemma_rt_hash(v);
    lemma_rt_back(v);
    let dash = rt_dash(v);
    let ms = rt_ms(v);
    let dopen = ms + 2 + v.message.len();
    let dclose = dopen + 1 + v.date.len();
    assert(rt_groups(v).len() == 0);
    assert(first_at(r, '(', 0, dopen));
    lemma_first_of(r, '(', 0, dopen);
    assert(first_at(r, ')', dopen + 1, dclose));
    lemma_first_of(r, ')', dopen + 1, dclose);
}

/// Rendering a commit and parsing the text back gives the same commit, for
/// every commit whose fields keep clear of the delimiters the parser looks for.
pub proof fn lemma_round_trip(c: Commit)
    requires
        round_trips(c@),
    ensures
        parse_line(render(c@)) == LogView::Commit(c@),
{
    let v = c@;
    let r = render(v);
    lemma_rt_hash(v);
    lemma_rt_back(v);
    if v.aliases is Some {
        lemma_rt_aliases_group(v);
    } else {
        lemma_rt_date_group(v);
    }
    let t0 = v.tree_head.len() + 1int;
    let dash = rt_dash(v);
    let ms = rt_ms(v);
    let dopen = ms + 2 + v.message.len();
    let dclose = dopen + 1 + v.date.len();
    let h = (t0, dash);
    let d = (dopen + 1, dclose);
    let au = (dclose + 3, r.len() - 1);
    assert(first_range_spec(r, '*', '-') == Some(h));
    assert(last_range_spec(r, '(', ')') == Some(d));
    assert(last_range_spec(r, '<', '>') == Some(au));
    let a = first_range_spec(r, '(', ')')->0;
    let date = range_text(r, d.0, d.1);
    assert(date == v.date);
    let aliases = range_text(r, a.0, a.1);
    let msg_start = if aliases == date {
        h.1 + 1
    } else {
        a.1 + 1
    };
    assert(msg_start == ms);
    assert((if aliases == date {
        None
    } else {
        Some(aliases)
    }) == v.aliases);
    let run = space_run(range_text(r, h.0, h.1));
    assert(spaces_spec((run - 1) as nat) == v.hash_padding);
    assert(parse_commit(r) == Some(v));
}

} // verus!
