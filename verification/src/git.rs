//! Git state: what the porcelain outputs of `git status`, `git branch` and
//! `git blame` mean, and the status markers shown in the explorer.
use vstd::prelude::*;

use crate::paths::{join, parent, path_join, path_parent, path_starts_with, starts_with, strip_prefix, path_strip_prefix};
use crate::sort::{is_sort_order, sort_order};
use crate::text::{
    all_ascii, chars_of, compare_chars, first_index_of, has_prefix, is_hex, is_hex_digit,
    line_ranges, lines, matches_at, push_char, string_of, string_of_range, to_lowercase,
    trim, trim_bounds, trim_bounds_by, trim_quotes, trim_string, unicode_lowercase, utf8_len, utf8_width,
    lemma_first_index_of,
};
use crate::term::utf8_encode;

verus! {

// ---------------------------------------------------------------------------
// Diff kinds and entries
// ---------------------------------------------------------------------------

#[derive(Debug, Clone, Copy, PartialEq, Eq, Structural)]
pub enum DiffKind {
    /// Combined working tree vs HEAD (legacy Ctrl+D default).
    Head,
    /// Unstaged changes only (`git diff`).
    Unstaged,
    /// Staged changes only (`git diff --cached`).
    Staged,
}

impl DiffKind {
    /// The name of the kind as the status bar shows it.
    pub open spec fn label_spec(self) -> Seq<char> {
        match self {
            DiffKind::Head => "diff"@,
            DiffKind::Unstaged => "unstaged"@,
            DiffKind::Staged => "staged"@,
        }
    }

    pub fn label(self) -> (r: &'static str)
        ensures
            r@ == self.label_spec(),
    {
        match self {
            DiffKind::Head => "diff",
            DiffKind::Unstaged => "unstaged",
            DiffKind::Staged => "staged",
        }
    }

    /// The next kind in the cycle HEAD, unstaged, staged; `None` after staged.
    pub fn cycle(self) -> (r: Option<Self>)
        ensures
            r == match self {
                DiffKind::Head => Some(DiffKind::Unstaged),
                DiffKind::Unstaged => Some(DiffKind::Staged),
                DiffKind::Staged => None,
            },
    {
        match self {
            DiffKind::Head => Some(DiffKind::Unstaged),
            DiffKind::Unstaged => Some(DiffKind::Staged),
            DiffKind::Staged => None,
        }
    }

    pub fn first() -> (r: Self)
        ensures
            r == DiffKind::Head,
    {
        DiffKind::Head
    }

    /// The text shown when git reports no difference of this kind.
    pub fn empty_message(self) -> (r: &'static str)
        ensures
            r@ == match self {
                DiffKind::Head => "(no diff vs HEAD — untracked or unchanged)"@,
                DiffKind::Unstaged => "(no unstaged changes)"@,
                DiffKind::Staged => "(no staged changes)"@,
            },
    {
        match self {
            DiffKind::Head => "(no diff vs HEAD — untracked or unchanged)",
            DiffKind::Unstaged => "(no unstaged changes)",
            DiffKind::Staged => "(no staged changes)",
        }
    }

    /// What the viewer shows for the output of `git diff` of this kind: the
    /// output itself, or a note when it is empty.
    pub fn diff_text(self, stdout: String) -> (r: String)
        ensures
            stdout@.len() == 0 ==> r@ == self.empty_message_spec(),
            stdout@.len() > 0 ==> r@ == stdout@,
    {
        if stdout.as_str().unicode_len() == 0 {
            String::from_str(self.empty_message())
        } else {
            stdout
        }
    }

    pub open spec fn empty_message_spec(self) -> Seq<char> {
        match self {
            DiffKind::Head => "(no diff vs HEAD — untracked or unchanged)"@,
            DiffKind::Unstaged => "(no unstaged changes)"@,
            DiffKind::Staged => "(no staged changes)"@,
        }
    }
}

/// One changed path of `git status`.
pub struct GitEntry {
    pub path: String,
    pub rel: String,
    /// Index (staged) status char, or `' '` if clean in index.
    pub index: char,
    /// Worktree status char, or `' '` if clean in worktree.
    pub worktree: char,
}

impl View for GitEntry {
    type V = (Seq<char>, Seq<char>, char, char);

    open spec fn view(&self) -> (Seq<char>, Seq<char>, char, char) {
        (self.path@, self.rel@, self.index, self.worktree)
    }
}

impl Clone for GitEntry {
    fn clone(&self) -> (r: Self)
        ensures
            r@ == self@,
    {
        GitEntry { path: self.path.clone(), rel: self.rel.clone(), index: self.index, worktree: self.worktree }
    }
}

impl GitEntry {
    pub fn new(path: String, rel: String, index: char, worktree: char) -> (r: Self)
        ensures
            r@ == (path@, rel@, index, worktree),
    {
        GitEntry { path, rel, index, worktree }
    }

    /// Staged: the index column holds a change.
    pub open spec fn is_staged_spec(&self) -> bool {
        self.index != ' ' && self.index != '?'
    }

    /// Unstaged: the worktree column holds a change, or the file is untracked.
    pub open spec fn is_unstaged_spec(&self) -> bool {
        self.worktree != ' ' || self.index == '?'
    }

    pub fn is_staged(&self) -> (r: bool)
        ensures
            r == self.is_staged_spec(),
    {
        self.index != ' ' && self.index != '?'
    }

    pub fn is_unstaged(&self) -> (r: bool)
        ensures
            r == self.is_unstaged_spec(),
    {
        self.worktree != ' ' || self.index == '?'
    }

    /// The two status characters, index first.
    pub fn display_code(&self) -> (r: String)
        ensures
            r@ == seq![self.index, self.worktree],
    {
        let mut s = String::new();
        push_char(&mut s, self.index);
        push_char(&mut s, self.worktree);
        assert(s@ =~= seq![self.index, self.worktree]);
        s
    }
}

pub struct GitBranch {
    pub name: String,
    pub current: bool,
}

impl View for GitBranch {
    type V = (Seq<char>, bool);

    open spec fn view(&self) -> (Seq<char>, bool) {
        (self.name@, self.current)
    }
}

impl Clone for GitBranch {
    fn clone(&self) -> (r: Self)
        ensures
            r@ == self@,
    {
        GitBranch { name: self.name.clone(), current: self.current }
    }
}

pub struct BlameLine {
    pub short_sha: String,
    pub author: String,
    pub content: String,
}

impl View for BlameLine {
    type V = (Seq<char>, Seq<char>, Seq<char>);

    open spec fn view(&self) -> (Seq<char>, Seq<char>, Seq<char>) {
        (self.short_sha@, self.author@, self.content@)
    }
}

// ---------------------------------------------------------------------------
// Status markers by path
// ---------------------------------------------------------------------------

/// The map that a list of `(path, marker)` pairs stands for; a later pair for
/// the same path wins.
pub open spec fn map_of(items: Seq<(Seq<char>, char)>) -> Map<Seq<char>, char>
    decreases items.len(),
{
    if items.len() == 0 {
        Map::empty()
    } else {
        map_of(items.drop_last()).insert(items.last().0, items.last().1)
    }
}

/// Status marker of each path (`git status` code, or `•` for a directory that
/// holds changes).
pub struct StatusMap {
    pub items: Vec<(String, char)>,
}

impl StatusMap {
    pub open spec fn pairs(&self) -> Seq<(Seq<char>, char)> {
        self.items@.map_values(|p: (String, char)| (p.0@, p.1))
    }

    pub open spec fn wf(&self) -> bool {
        forall|i: int, j: int|
            0 <= i < j < self.items@.len() ==> (#[trigger] self.items@[i]).0@ != (#[trigger] self.items@[j]).0@
    }
}

impl View for StatusMap {
    type V = Map<Seq<char>, char>;

    open spec fn view(&self) -> Map<Seq<char>, char> {
        map_of(self.pairs())
    }
}

proof fn lemma_map_of_absent(items: Seq<(Seq<char>, char)>, k: Seq<char>)
    requires
        forall|i: int| 0 <= i < items.len() ==> (#[trigger] items[i]).0 != k,
    ensures
        !map_of(items).contains_key(k),
    decreases items.len(),
{
    if items.len() > 0 {
        lemma_map_of_absent(items.drop_last(), k);
        assert(items.last() == items[items.len() - 1]);
    }
}

proof fn lemma_map_of_at(items: Seq<(Seq<char>, char)>, i: int)
    requires
        0 <= i < items.len(),
        forall|a: int, b: int| 0 <= a < b < items.len() ==> (#[trigger] items[a]).0 != (#[trigger] items[b]).0,
    ensures
        map_of(items).contains_key(items[i].0),
        map_of(items)[items[i].0] == items[i].1,
    decreases items.len(),
{
    if i < items.len() - 1 {
        lemma_map_of_at(items.drop_last(), i);
        assert(items.drop_last()[i] == items[i]);
        assert(items[i].0 != items[items.len() - 1].0);
    }
}

proof fn lemma_map_of_update(items: Seq<(Seq<char>, char)>, i: int, c: char)
    requires
        0 <= i < items.len(),
    ensures
        map_of(items.update(i, (items[i].0, c))) == map_of(items).insert(items[i].0, c) || exists|j: int| i < j < items.len() && (#[trigger] items[j]).0 == items[i].0,
        (forall|j: int| i < j < items.len() ==> (#[trigger] items[j]).0 != items[i].0) ==> map_of(items.update(i, (items[i].0, c))) == map_of(items).insert(items[i].0, c),
    decreases items.len(),
{
    let u = items.update(i, (items[i].0, c));
    if i == items.len() - 1 {
        assert(u.drop_last() =~= items.drop_last());
        assert(map_of(u) =~= map_of(items).insert(items[i].0, c));
    } else {
        lemma_map_of_update(items.drop_last(), i, c);
        assert(u.drop_last() =~= items.drop_last().update(i, (items[i].0, c)));
        if forall|j: int| i < j < items.len() ==> (#[trigger] items[j]).0 != items[i].0 {
            assert forall|j: int| i < j < items.drop_last().len() implies (#[trigger] items.drop_last()[j]).0 != items.drop_last()[i].0 by {
                assert(items.drop_last()[j] == items[j]);
            }
            assert(items.last().0 != items[i].0);
            assert(map_of(u) =~= map_of(items).insert(items[i].0, c));
        }
    }
}

impl StatusMap {
    pub fn new() -> (r: Self)
        ensures
            r@ == Map::<Seq<char>, char>::empty(),
            r.wf(),
    {
        let r = StatusMap { items: Vec::new() };
        assert(r.pairs() =~= Seq::<(Seq<char>, char)>::empty());
        r
    }

    fn find(&self, key: &Vec<char>) -> (r: Option<usize>)
        ensures
            match r {
                None => forall|i: int| 0 <= i < self.items@.len() ==> (#[trigger] self.items@[i]).0@ != key@,
                Some(i) => i < self.items@.len() && self.items@[i as int].0@ == key@,
            },
    {
        let mut i: usize = 0;
        while i < self.items.len()
            invariant
                i <= self.items@.len(),
                forall|j: int| 0 <= j < i ==> (#[trigger] self.items@[j]).0@ != key@,
            decreases self.items@.len() - i,
        {
            let k = chars_of(self.items[i].0.as_str());
            if compare_chars(&k, key) == 0 {
                return Some(i);
            }
            i = i + 1;
        }
        None
    }

    /// The marker of `path`.
    pub fn get(&self, path: &str) -> (r: Option<char>)
        requires
            self.wf(),
        ensures
            match r {
                None => !self@.contains_key(path@),
                Some(c) => self@.contains_key(path@) && self@[path@] == c,
            },
    {
        let key = chars_of(path);
        match self.find(&key) {
            None => {
                proof {
                    assert forall|i: int| 0 <= i < self.pairs().len() implies (#[trigger] self.pairs()[i]).0 != path@ by {}
                    lemma_map_of_absent(self.pairs(), path@);
                }
                None
            },
            Some(i) => {
                proof {
                    assert forall|a: int, b: int| 0 <= a < b < self.pairs().len() implies (#[trigger] self.pairs()[a]).0 != (#[trigger] self.pairs()[b]).0 by {
                        assert(self.items@[a].0@ != self.items@[b].0@);
                    }
                    lemma_map_of_at(self.pairs(), i as int);
                }
                Some(self.items[i].1)
            },
        }
    }

    /// Sets the marker of `key` (`HashMap::insert`).
    pub fn insert(&mut self, key: Vec<char>, c: char)
        requires
            old(self).wf(),
        ensures
            final(self).wf(),
            final(self)@ == old(self)@.insert(key@, c),
    {
        match self.find(&key) {
            None => {
                let ghost old_pairs = self.pairs();
                self.items.push((string_of(&key), c));
                proof {
                    assert(self.pairs() =~= old_pairs.push((key@, c)));
                    assert(self.pairs().drop_last() =~= old_pairs);
                }
            },
            Some(i) => {
                let ghost old_pairs = self.pairs();
                let name = self.items[i].0.clone();
                self.items.set(i, (name, c));
                proof {
                    assert(self.pairs() =~= old_pairs.update(i as int, (old_pairs[i as int].0, c)));
                    assert forall|j: int| i < j < old_pairs.len() implies (#[trigger] old_pairs[j]).0 != old_pairs[i as int].0 by {
                        assert(old(self).items@[i as int].0@ != old(self).items@[j].0@);
                    }
                    lemma_map_of_update(old_pairs, i as int, c);
                    assert forall|a: int, b: int| 0 <= a < b < self.items@.len() implies (#[trigger] self.items@[a]).0@ != (#[trigger] self.items@[b]).0@ by {
                        assert(self.items@[a].0@ == old(self).items@[a].0@);
                        assert(self.items@[b].0@ == old(self).items@[b].0@);
                    }
                }
            },
        }
    }

    /// Gives `key` the marker `c` unless it has one (`entry(..).or_insert(..)`).
    pub fn insert_if_absent(&mut self, key: Vec<char>, c: char)
        requires
            old(self).wf(),
        ensures
            final(self).wf(),
            final(self)@ == if old(self)@.contains_key(key@) { old(self)@ } else { old(self)@.insert(key@, c) },
    {
        match self.find(&key) {
            None => {
                proof {
                    assert forall|i: int| 0 <= i < self.pairs().len() implies (#[trigger] self.pairs()[i]).0 != key@ by {}
                    lemma_map_of_absent(self.pairs(), key@);
                }
                let ghost old_pairs = self.pairs();
                self.items.push((string_of(&key), c));
                proof {
                    assert(self.pairs() =~= old_pairs.push((key@, c)));
                    assert(self.pairs().drop_last() =~= old_pairs);
                }
            },
            Some(i) => {
                proof {
                    assert forall|a: int, b: int| 0 <= a < b < self.pairs().len() implies (#[trigger] self.pairs()[a]).0 != (#[trigger] self.pairs()[b]).0 by {
                        assert(self.items@[a].0@ != self.items@[b].0@);
                    }
                    lemma_map_of_at(self.pairs(), i as int);
                }
            },
        }
    }
}

impl Clone for StatusMap {
    fn clone(&self) -> (r: Self)
        ensures
            r.pairs() == self.pairs(),
            r@ == self@,
    {
        let mut items: Vec<(String, char)> = Vec::new();
        let mut i: usize = 0;
        while i < self.items.len()
            invariant
                i <= self.items@.len(),
                items@.len() == i,
                forall|j: int| 0 <= j < i ==> (#[trigger] items@[j]).0@ == self.items@[j].0@ && items@[j].1 == self.items@[j].1,
            decreases self.items@.len() - i,
        {
            items.push((self.items[i].0.clone(), self.items[i].1));
            i = i + 1;
        }
        let r = StatusMap { items };
        assert(r.pairs() =~= self.pairs());
        r
    }
}

// ---------------------------------------------------------------------------
// `git status --porcelain -u`
// ---------------------------------------------------------------------------

/// The number of characters that make up the first three bytes of `line`,
/// when those bytes end on a character boundary.
pub open spec fn head_end(line: Seq<char>) -> Option<int> {
    if line.len() >= 1 && utf8_width(line[0]) == 3 {
        Some(1)
    } else if line.len() >= 2 && utf8_width(line[0]) + utf8_width(line[1]) == 3 {
        Some(2)
    } else if line.len() >= 3 && utf8_width(line[0]) + utf8_width(line[1]) + utf8_width(line[2]) == 3 {
        Some(3)
    } else {
        None
    }
}

/// The UTF-8 bytes of the first two characters of `line`.
pub open spec fn head_bytes(line: Seq<char>) -> Seq<u8> {
    utf8_encode(line[0]) + if line.len() > 1 { utf8_encode(line[1]) } else { Seq::empty() }
}

/// A byte read as the character of that code (`u8 as char`).
pub open spec fn byte_char(b: u8) -> char {
    (b as u32) as char
}

/// The index status of a line: its first byte.
pub open spec fn status_index(line: Seq<char>) -> char {
    byte_char(head_bytes(line)[0])
}

/// The worktree status of a line: its second byte.
pub open spec fn status_worktree(line: Seq<char>) -> char {
    byte_char(head_bytes(line)[1])
}

/// Porcelain lines of four or more bytes begin with two status bytes and a
/// space; the path is read from the fourth byte on, which must start a
/// character.
pub open spec fn status_line_ok(line: Seq<char>) -> bool {
    utf8_len(line) < 4 || head_end(line) is Some
}

pub open spec fn porcelain_ok(text: Seq<char>) -> bool {
    forall|i: int| 0 <= i < lines(text).len() ==> status_line_ok(#[trigger] lines(text)[i])
}

/// `s` holds ` -> ` at `i`.
pub open spec fn arrow_at(s: Seq<char>, i: int) -> bool {
    0 <= i && i + 4 <= s.len() && s[i] == ' ' && s[i + 1] == '-' && s[i + 2] == '>' && s[i + 3] == ' '
}

/// First ` -> ` at or after `from`.
pub open spec fn find_arrow(s: Seq<char>, from: int) -> Option<int>
    decreases s.len() - from,
{
    if from < 0 || from + 4 > s.len() {
        None
    } else if arrow_at(s, from) {
        Some(from)
    } else {
        find_arrow(s, from + 1)
    }
}

/// The last piece of `s.split(" -> ")`: the new name of a rename.
pub open spec fn rename_target(s: Seq<char>) -> Seq<char>
    decreases s.len(),
{
    match find_arrow(s, 0) {
        None => s,
        Some(k) => {
            proof {
                lemma_find_arrow(s, 0);
            }
            rename_target(s.skip(k + 4))
        },
    }
}

pub proof fn lemma_find_arrow(s: Seq<char>, from: int)
    requires
        0 <= from,
    ensures
        match find_arrow(s, from) {
            None => forall|i: int| from <= i ==> !arrow_at(s, i),
            Some(k) => from <= k && arrow_at(s, k) && forall|i: int| from <= i < k ==> !arrow_at(s, i),
        },
    decreases s.len() - from,
{
    if from + 4 <= s.len() && !arrow_at(s, from) {
        lemma_find_arrow(s, from + 1);
    }
}

/// The path that a status line names, relative to the repository.
pub open spec fn status_rel(line: Seq<char>, k: int) -> Seq<char> {
    trim_quotes(rename_target(trim(line.skip(k))))
}

/// The marker of a status line: the index letter when it is staged, else the
/// worktree letter.
pub open spec fn status_code(index: char, worktree: char) -> char {
    if index != ' ' && index != '?' {
        index
    } else {
        worktree
    }
}

/// Gives `p` and its ancestors up to `root` the directory marker where they
/// have none; the walk stops at `root` or at the first path outside it.
pub open spec fn mark_up(m: Map<Seq<char>, char>, p: Option<Seq<char>>, root: Seq<char>) -> Map<Seq<char>, char>
    decreases (match p {
        Some(q) => q.len() + 1,
        None => 0,
    }),
{
    match p {
        None => m,
        Some(q) => {
            let m2 = if m.contains_key(q) { m } else { m.insert(q, '•') };
            if q == root || !starts_with(q, root) {
                m2
            } else {
                proof {
                    lemma_parent_shorter(q);
                }
                mark_up(m2, parent(q), root)
            }
        },
    }
}

pub proof fn lemma_parent_shorter(p: Seq<char>)
    ensures
        parent(p) matches Some(q) ==> q.len() < p.len(),
{
    crate::paths::lemma_last_slash(p);
    if crate::paths::last_slash(p) == Some(0int) && p.len() == 1 {
        assert(p =~= seq!['/']);
    }
}

/// The markers and entries after reading the status lines `ls`, before the
/// entries are sorted.
pub open spec fn status_fold(root: Seq<char>, ls: Seq<Seq<char>>) -> (Map<Seq<char>, char>, Seq<(Seq<char>, Seq<char>, char, char)>)
    decreases ls.len(),
{
    if ls.len() == 0 {
        (Map::empty(), Seq::empty())
    } else {
        status_step(root, status_fold(root, ls.drop_last()), ls.last())
    }
}

/// Reading one status line: lines under four bytes are skipped; otherwise the
/// path gets its marker, its directories up to `root` the directory marker,
/// and the entry is recorded.
pub open spec fn status_step(
    root: Seq<char>,
    acc: (Map<Seq<char>, char>, Seq<(Seq<char>, Seq<char>, char, char)>),
    line: Seq<char>,
) -> (Map<Seq<char>, char>, Seq<(Seq<char>, Seq<char>, char, char)>) {
    if utf8_len(line) < 4 {
        acc
    } else {
        match head_end(line) {
            None => acc,
            Some(k) => {
                let rel = status_rel(line, k);
                let full = join(root, rel);
                let (i, w) = (status_index(line), status_worktree(line));
                let m = acc.0.insert(full, status_code(i, w));
                (mark_up(m, parent(full), root), acc.1.push((full, rel, i, w)))
            },
        }
    }
}

/// The lowercase relative paths of status entries.
pub open spec fn rel_keys(items: Seq<(Seq<char>, Seq<char>, char, char)>) -> Seq<Seq<char>> {
    items.map_values(|e: (Seq<char>, Seq<char>, char, char)| unicode_lowercase(e.1))
}

/// `out` is `items` stably sorted by the lowercase form of their relative paths.
pub open spec fn sorted_by_rel(items: Seq<(Seq<char>, Seq<char>, char, char)>, out: Seq<(Seq<char>, Seq<char>, char, char)>) -> bool {
    exists|order: Seq<usize>|
        #![trigger is_sort_order(rel_keys(items), order)]
        is_sort_order(rel_keys(items), order)
            && out.len() == order.len() && forall|k: int| 0 <= k < out.len() ==> #[trigger] out[k] == items[order[k] as int]
}

/// Branch, markers and changed entries of a repository.
pub struct GitStatus {
    pub map: StatusMap,
    pub branch: String,
    pub entries: Vec<GitEntry>,
}

impl Default for StatusMap {
    fn default() -> (r: Self)
        ensures
            r@ == Map::<Seq<char>, char>::empty(),
            r.wf(),
    {
        StatusMap::new()
    }
}

impl Default for GitStatus {
    fn default() -> (r: Self)
        ensures
            r.map@ == Map::<Seq<char>, char>::empty(),
            r.map.wf(),
            r.branch@.len() == 0,
            r.entries@.len() == 0,
    {
        GitStatus { map: StatusMap::new(), branch: String::new(), entries: Vec::new() }
    }
}

/// Characters of `v[from..to]`.
fn sub_chars(v: &Vec<char>, from: usize, to: usize) -> (r: Vec<char>)
    requires
        from <= to <= v@.len(),
    ensures
        r@ == v@.subrange(from as int, to as int),
{
    let mut r: Vec<char> = Vec::new();
    let mut i = from;
    while i < to
        invariant
            from <= i <= to <= v@.len(),
            r@ == v@.subrange(from as int, i as int),
        decreases to - i,
    {
        r.push(v[i]);
        i = i + 1;
        assert(r@ =~= v@.subrange(from as int, i as int));
    }
    r
}

fn utf8_len_at_least_4(v: &Vec<char>) -> (r: bool)
    ensures
        r == (utf8_len(v@) >= 4),
{
    let mut n: usize = 0;
    let mut i: usize = 0;
    while i < v.len() && n < 4
        invariant
            i <= v@.len(),
            n == utf8_len(v@.take(i as int)),
        decreases v@.len() - i,
    {
        proof {
            crate::text::lemma_utf8_len_take(v@, i as int);
        }
        n = n + crate::text::char_utf8_width(v[i]);
        i = i + 1;
    }
    proof {
        if n < 4 {
            assert(v@.take(i as int) =~= v@);
        } else {
            lemma_utf8_len_prefix_le(v@, i as int);
        }
    }
    n >= 4
}

proof fn lemma_utf8_len_prefix_le(s: Seq<char>, i: int)
    requires
        0 <= i <= s.len(),
    ensures
        utf8_len(s.take(i)) <= utf8_len(s),
    decreases s.len() - i,
{
    if i < s.len() {
        crate::text::lemma_utf8_len_take(s, i);
        lemma_utf8_len_prefix_le(s, i + 1);
    } else {
        assert(s.take(i) =~= s);
    }
}

/// `rename_target` on `v[from..to]`.
fn rename_target_bounds(v: &Vec<char>, from: usize, to: usize) -> (r: usize)
    requires
        from <= to <= v@.len(),
    ensures
        from <= r <= to,
        v@.subrange(r as int, to as int) == rename_target(v@.subrange(from as int, to as int)),
    decreases to - from,
{
    let ghost s = v@.subrange(from as int, to as int);
    let mut k = from;
    while to - k >= 4 && !(v[k] == ' ' && v[k + 1] == '-' && v[k + 2] == '>' && v[k + 3] == ' ')
        invariant
            from <= k <= to <= v@.len(),
            s == v@.subrange(from as int, to as int),
            forall|i: int| 0 <= i < k - from ==> !arrow_at(s, i),
        decreases to - k,
    {
        proof {
            assert(s[k - from] == v@[k as int]);
            assert(s[k - from + 1] == v@[k + 1]);
            assert(s[k - from + 2] == v@[k + 2]);
            assert(s[k - from + 3] == v@[k + 3]);
            assert(!arrow_at(s, k - from));
        }
        k = k + 1;
    }
    proof {
        lemma_find_arrow(s, 0);
    }
    if to - k >= 4 {
        proof {
            assert(s[k - from] == v@[k as int]);
            assert(s[k - from + 1] == v@[k + 1]);
            assert(s[k - from + 2] == v@[k + 2]);
            assert(s[k - from + 3] == v@[k + 3]);
            assert(arrow_at(s, k - from));
            lemma_find_arrow_is(s, k - from);
            assert(s.skip(k - from + 4) =~= v@.subrange(k + 4, to as int));
        }
        rename_target_bounds(v, k + 4, to)
    } else {
        proof {
            assert forall|i: int| 0 <= i implies !arrow_at(s, i) by {
                if i < k - from {
                } else {
                    assert(i + 4 > s.len());
                }
            }
            lemma_find_arrow_none(s);
        }
        from
    }
}

proof fn lemma_find_arrow_is(s: Seq<char>, k: int)
    requires
        0 <= k,
        arrow_at(s, k),
        forall|i: int| 0 <= i < k ==> !arrow_at(s, i),
    ensures
        find_arrow(s, 0) == Some(k),
{
    lemma_find_arrow(s, 0);
}

proof fn lemma_find_arrow_none(s: Seq<char>)
    requires
        forall|i: int| 0 <= i ==> !arrow_at(s, i),
    ensures
        find_arrow(s, 0) is None,
{
    lemma_find_arrow(s, 0);
}

fn vec_eq(a: &Vec<char>, b: &Vec<char>) -> (r: bool)
    ensures
        r == (a@ == b@),
{
    compare_chars(a, b) == 0
}

pub open spec fn opt_view(o: Option<Vec<char>>) -> Option<Seq<char>> {
    match o {
        Some(v) => Some(v@),
        None => None,
    }
}

pub open spec fn opt_len(o: Option<Vec<char>>) -> nat {
    match o {
        Some(v) => v@.len() + 1,
        None => 0,
    }
}

/// Gives `start` and its ancestors up to `root` the directory marker.
fn mark_ancestors(map: &mut StatusMap, start: Option<Vec<char>>, root: &Vec<char>)
    requires
        old(map).wf(),
    ensures
        final(map).wf(),
        final(map)@ == mark_up(old(map)@, opt_view(start), root@),
{
    let ghost target = mark_up(map@, opt_view(start), root@);
    let mut cur = start;
    loop
        invariant_except_break
            map.wf(),
            mark_up(map@, opt_view(cur), root@) == target,
        ensures
            map.wf(),
            map@ == target,
        decreases opt_len(cur),
    {
        match cur {
            None => {
                break;
            },
            Some(p) => {
                let stop = vec_eq(&p, root) || !path_starts_with(&p, root);
                let next = path_parent(&p);
                proof {
                    lemma_parent_shorter(p@);
                }
                map.insert_if_absent(p, '•');
                if stop {
                    break;
                }
                cur = next;
            },
        }
    }
}

/// The repository-relative path named by a status line.
fn status_line_rel(line: &Vec<char>, k: usize) -> (rel: Vec<char>)
    requires
        k <= line@.len(),
    ensures
        rel@ == status_rel(line@, k as int),
{
    let (ta, tb) = trim_bounds(line, k, line.len());
    let rs = rename_target_bounds(line, ta, tb);
    let (qa, qb) = trim_bounds_by(line, rs, tb, true);
    assert(line@.skip(k as int) =~= line@.subrange(k as int, line@.len() as int));
    sub_chars(line, qa, qb)
}

/// The first two bytes of a line of four or more bytes, as characters, and
/// the number of characters in its first three bytes, when those end on a
/// character boundary.
fn status_head(line: &Vec<char>) -> (r: Option<(char, char, usize)>)
    requires
        utf8_len(line@) >= 4,
    ensures
        match r {
            None => head_end(line@) is None,
            Some((i, w, k)) => head_end(line@) == Some(k as int) && i == status_index(line@) && w
                == status_worktree(line@),
        },
{
    proof {
        crate::text::lemma_utf8_len_bounds(line@);
        if line@.len() == 1 {
            assert(line@.drop_last().len() == 0);
            assert(utf8_len(line@.drop_last()) == 0);
            assert(line@.last() == line@[0]);
            assert(utf8_len(line@) == utf8_width(line@[0]));
        }
    }
    let mut bytes = crate::term::char_bytes(line[0]);
    if line.len() > 1 {
        let more = crate::term::char_bytes(line[1]);
        let ghost first = bytes@;
        let mut j: usize = 0;
        while j < more.len()
            invariant
                j <= more@.len(),
                bytes@ == first + more@.take(j as int),
            decreases more@.len() - j,
        {
            bytes.push(more[j]);
            j = j + 1;
            assert(bytes@ =~= first + more@.take(j as int));
        }
        assert(more@.take(more@.len() as int) =~= more@);
    }
    assert(bytes@ =~= head_bytes(line@));
    assert(bytes@.len() >= 2);
    let i = bytes[0] as char;
    let w = bytes[1] as char;
    let w0 = crate::text::char_utf8_width(line[0]);
    if w0 == 3 {
        return Some((i, w, 1));
    }
    if line.len() < 2 {
        return None;
    }
    let w1 = crate::text::char_utf8_width(line[1]);
    if w0 + w1 == 3 {
        return Some((i, w, 2));
    }
    if line.len() < 3 {
        return None;
    }
    let w2 = crate::text::char_utf8_width(line[2]);
    if w0 + w1 + w2 == 3 {
        Some((i, w, 3))
    } else {
        None
    }
}

/// Reads one status line into the markers and the entries.
fn apply_status_line(map: &mut StatusMap, pushed: &mut Vec<GitEntry>, root_chars: &Vec<char>, line: &Vec<char>)
    requires
        old(map).wf(),
        status_line_ok(line@),
    ensures
        final(map).wf(),
        (final(map)@, final(pushed)@.map_values(|e: GitEntry| e@)) == status_step(
            root_chars@,
            (old(map)@, old(pushed)@.map_values(|e: GitEntry| e@)),
            line@,
        ),
{
    if utf8_len_at_least_4(line) {
        let (index, worktree, k) = match status_head(line) {
            Some(h) => h,
            None => {
                return;
            },
        };
        let rel = status_line_rel(line, k);
        let full = path_join(root_chars, &rel);
        let code = if index != ' ' && index != '?' { index } else { worktree };
        let parent = path_parent(&full);
        let ghost old_pushed = pushed@.map_values(|e: GitEntry| e@);
        let entry = GitEntry::new(string_of(&full), string_of(&rel), index, worktree);
        pushed.push(entry);
        map.insert(full, code);
        mark_ancestors(map, parent, root_chars);
        proof {
            assert(pushed@.map_values(|e: GitEntry| e@) =~= old_pushed.push((join(root_chars@, rel@), rel@, index, worktree)));
        }
    } else {
    }
}

impl GitStatus {
    /// The status of the repository at `root` from the standard output of
    /// `git rev-parse --abbrev-ref HEAD` and of `git status --porcelain -u`
    /// (`None` where the command failed): the branch name trimmed, each changed
    /// path with its marker and the markers of the directories above it, and the
    /// entries sorted by the lowercase form of their relative paths.
    pub fn parse(root: &str, branch_stdout: Option<&str>, status_stdout: Option<&str>) -> (r: Self)
        requires
            status_stdout matches Some(t) ==> porcelain_ok(t@),
        ensures
            r.map.wf(),
            r.branch@ == match branch_stdout {
                Some(b) => trim(b@),
                None => Seq::empty(),
            },
            match status_stdout {
                None => r.map@ == Map::<Seq<char>, char>::empty() && r.entries@.len() == 0,
                Some(t) => r.map@ == status_fold(root@, lines(t@)).0 && sorted_by_rel(
                    status_fold(root@, lines(t@)).1,
                    r.entries@.map_values(|e: GitEntry| e@),
                ),
            },
    {
        let branch = match branch_stdout {
            Some(b) => trim_string(b),
            None => String::new(),
        };
        let mut map = StatusMap::new();
        let text = match status_stdout {
            None => {
                return GitStatus { map, branch, entries: Vec::new() };
            },
            Some(t) => t,
        };
        let root_chars = chars_of(root);
        let v = chars_of(text);
        let ranges = line_ranges(&v);
        let ghost ls = lines(text@);
        let mut pushed: Vec<GitEntry> = Vec::new();
        let mut i: usize = 0;
        while i < ranges.len()
            invariant
                v@ == text@,
                root_chars@ == root@,
                ls == lines(text@),
                porcelain_ok(text@),
                ranges@.len() == ls.len(),
                forall|j: int|
                    0 <= j < ranges@.len() ==> (#[trigger] ranges@[j]).0 <= ranges@[j].1 <= v@.len()
                        && v@.subrange(ranges@[j].0 as int, ranges@[j].1 as int) == ls[j],
                i <= ranges@.len(),
                map.wf(),
                map@ == status_fold(root@, ls.take(i as int)).0,
                pushed@.map_values(|e: GitEntry| e@) == status_fold(root@, ls.take(i as int)).1,
            decreases ranges@.len() - i,
        {
            let (a, b) = ranges[i];
            let line = sub_chars(&v, a, b);
            proof {
                assert(ls.take(i + 1).drop_last() =~= ls.take(i as int));
                assert(ls.take(i + 1).last() == ls[i as int]);
                assert(status_line_ok(ls[i as int]));
            }
            apply_status_line(&mut map, &mut pushed, &root_chars, &line);
            i = i + 1;
        }
        proof {
            assert(ls.take(i as int) =~= ls);
        }
        // sort by the lowercase relative path, keeping the order of equal keys
        let mut keys: Vec<Vec<char>> = Vec::new();
        let mut k: usize = 0;
        while k < pushed.len()
            invariant
                k <= pushed@.len(),
                keys@.len() == k,
                forall|j: int| 0 <= j < k ==> #[trigger] keys@[j]@ == unicode_lowercase(pushed@[j].rel@),
            decreases pushed@.len() - k,
        {
            let lower = to_lowercase(pushed[k].rel.as_str());
            keys.push(chars_of(lower.as_str()));
            k = k + 1;
        }
        let order = sort_order(&keys);
        let mut entries: Vec<GitEntry> = Vec::new();
        let mut j: usize = 0;
        while j < order.len()
            invariant
                j <= order@.len(),
                crate::sort::covers(order@, 0, pushed@.len() as int),
                entries@.len() == j,
                forall|x: int| 0 <= x < j ==> (#[trigger] entries@[x])@ == pushed@[order@[x] as int]@,
            decreases order@.len() - j,
        {
            entries.push(pushed[order[j]].clone());
            j = j + 1;
        }
        proof {
            let items = pushed@.map_values(|e: GitEntry| e@);
            let ks = keys@.map_values(|kk: Vec<char>| kk@);
            assert(rel_keys(items) =~= ks);
            assert(is_sort_order(ks, order@));
            let out = entries@.map_values(|e: GitEntry| e@);
            assert forall|x: int| 0 <= x < out.len() implies #[trigger] out[x] == items[order@[x] as int] by {}
        }
        GitStatus { map, branch, entries }
    }
}

/// Whether `text` meets the porcelain shape that `GitStatus::parse` reads.
pub fn porcelain_well_formed(text: &str) -> (r: bool)
    ensures
        r == porcelain_ok(text@),
{
    let v = chars_of(text);
    let ranges = line_ranges(&v);
    let mut i: usize = 0;
    while i < ranges.len()
        invariant
            v@ == text@,
            ranges@.len() == lines(text@).len(),
            forall|j: int|
                0 <= j < ranges@.len() ==> (#[trigger] ranges@[j]).0 <= ranges@[j].1 <= v@.len()
                    && v@.subrange(ranges@[j].0 as int, ranges@[j].1 as int) == lines(text@)[j],
            i <= ranges@.len(),
            forall|j: int| 0 <= j < i ==> status_line_ok(#[trigger] lines(text@)[j]),
        decreases ranges@.len() - i,
    {
        let (a, b) = ranges[i];
        let line = sub_chars(&v, a, b);
        let ok = !utf8_len_at_least_4(&line) || status_head(&line).is_some();
        if !ok {
            return false;
        }
        i = i + 1;
    }
    true
}

// ---------------------------------------------------------------------------
// `git branch --list --format=%(refname:short)%09%(HEAD)`
// ---------------------------------------------------------------------------

/// The branch that a line names: the trimmed text before the first tab (lines
/// without a name give none), current when the trimmed rest is `*`.
pub open spec fn branch_of(line: Seq<char>) -> Option<(Seq<char>, bool)> {
    let name = match first_index_of(line, '\t') {
        None => line,
        Some(k) => line.take(k),
    };
    let head = match first_index_of(line, '\t') {
        None => Seq::empty(),
        Some(k) => line.skip(k + 1),
    };
    if trim(name).len() == 0 {
        None
    } else {
        Some((trim(name), trim(head) == seq!['*']))
    }
}

pub open spec fn branches_of(ls: Seq<Seq<char>>) -> Seq<(Seq<char>, bool)>
    decreases ls.len(),
{
    if ls.len() == 0 {
        Seq::empty()
    } else {
        match branch_of(ls.last()) {
            None => branches_of(ls.drop_last()),
            Some(b) => branches_of(ls.drop_last()).push(b),
        }
    }
}

/// The branches listed in the output of `git branch --list` with the format
/// `%(refname:short)%09%(HEAD)`.
pub fn parse_branches(text: &str) -> (r: Vec<GitBranch>)
    ensures
        r@.map_values(|b: GitBranch| b@) == branches_of(lines(text@)),
{
    let v = chars_of(text);
    let ranges = line_ranges(&v);
    let ghost ls = lines(text@);
    let mut out: Vec<GitBranch> = Vec::new();
    let mut i: usize = 0;
    while i < ranges.len()
        invariant
            v@ == text@,
            ls == lines(text@),
            ranges@.len() == ls.len(),
            forall|j: int|
                0 <= j < ranges@.len() ==> (#[trigger] ranges@[j]).0 <= ranges@[j].1 <= v@.len()
                    && v@.subrange(ranges@[j].0 as int, ranges@[j].1 as int) == ls[j],
            i <= ranges@.len(),
            out@.map_values(|b: GitBranch| b@) == branches_of(ls.take(i as int)),
        decreases ranges@.len() - i,
    {
        let (a, b) = ranges[i];
        let line = sub_chars(&v, a, b);
        proof {
            assert(ls.take(i + 1).drop_last() =~= ls.take(i as int));
            assert(ls.take(i + 1).last() == ls[i as int]);
            lemma_first_index_of(line@, '\t');
        }
        let mut t: usize = 0;
        while t < line.len() && line[t] != '\t'
            invariant
                t <= line@.len(),
                forall|x: int| 0 <= x < t ==> line@[x] != '\t',
            decreases line@.len() - t,
        {
            t = t + 1;
        }
        proof {
            crate::text::lemma_first_index_of_is(line@, '\t', t as int);
        }
        let (na, nb) = trim_bounds(&line, 0, t);
        let head_from = if t < line.len() { t + 1 } else { line.len() };
        let (ha, hb) = trim_bounds(&line, head_from, line.len());
        proof {
            assert(line@.subrange(0, t as int) =~= line@.take(t as int));
            if t == line@.len() {
                assert(line@.take(t as int) =~= line@);
                assert(line@.subrange(head_from as int, line@.len() as int) =~= Seq::<char>::empty());
                assert(trim(Seq::<char>::empty()) =~= Seq::<char>::empty());
            } else {
                assert(line@.subrange(head_from as int, line@.len() as int) =~= line@.skip(t + 1));
            }
        }
        if na < nb {
            let name = string_of_range(&line, na, nb);
            let current = hb > ha && hb - ha == 1 && line[ha] == '*';
            proof {
                let h = line@.subrange(ha as int, hb as int);
                if hb == ha + 1 {
                    assert(h[0] == line@[ha as int]);
                    if line@[ha as int] == '*' {
                        assert(h =~= seq!['*']);
                    }
                }
                if h == seq!['*'] {
                    assert(h.len() == 1);
                    assert(h[0] == '*');
                }
            }
            let ghost old_out = out@.map_values(|x: GitBranch| x@);
            out.push(GitBranch { name, current });
            assert(out@.map_values(|x: GitBranch| x@) =~= old_out.push((line@.subrange(na as int, nb as int), current)));
        }
        i = i + 1;
    }
    assert(ls.take(i as int) =~= ls);
    out
}

// ---------------------------------------------------------------------------
// `git blame --line-porcelain`
// ---------------------------------------------------------------------------

pub open spec fn all_hex(s: Seq<char>) -> bool {
    forall|i: int| 0 <= i < s.len() ==> is_hex(#[trigger] s[i])
}

/// `author ` as characters.
pub open spec fn author_tag() -> Seq<char> {
    seq!['a', 'u', 't', 'h', 'o', 'r', ' ']
}

/// Reading one line of blame output: a tab-led line is a source line, shown
/// with the current commit and author; a line that starts with seven or more
/// hex digits and a space starts a new commit (its first seven digits) and
/// clears the author; `author ` gives the author.
pub open spec fn blame_step(
    st: (Seq<(Seq<char>, Seq<char>, Seq<char>)>, Seq<char>, Seq<char>),
    raw: Seq<char>,
) -> (Seq<(Seq<char>, Seq<char>, Seq<char>)>, Seq<char>, Seq<char>) {
    if raw.len() > 0 && raw[0] == '\t' {
        (st.0.push((st.1, st.2, raw.skip(1))), st.1, st.2)
    } else if first_index_of(raw, ' ') matches Some(k) && k >= 7 && all_hex(raw.take(k)) {
        (st.0, raw.take(7), Seq::empty())
    } else if has_prefix(raw, author_tag()) {
        (st.0, st.1, raw.skip(7))
    } else {
        st
    }
}

pub open spec fn blame_fold(ls: Seq<Seq<char>>) -> (Seq<(Seq<char>, Seq<char>, Seq<char>)>, Seq<char>, Seq<char>)
    decreases ls.len(),
{
    if ls.len() == 0 {
        (Seq::empty(), Seq::empty(), Seq::empty())
    } else {
        blame_step(blame_fold(ls.drop_last()), ls.last())
    }
}

/// A header line of `git blame --line-porcelain`: a commit line sets the
/// short id and clears the author, an `author ` line sets the author.
fn blame_header(raw: &Vec<char>, tag: &Vec<char>, short_sha: &mut String, author: &mut String)
    requires
        tag@ == author_tag(),
        !(raw@.len() > 0 && raw@[0] == '\t'),
    ensures
        blame_step((Seq::empty(), old(short_sha)@, old(author)@), raw@) == (
            Seq::<(Seq<char>, Seq<char>, Seq<char>)>::empty(),
            final(short_sha)@,
            final(author)@,
        ),
{
    proof {
        lemma_first_index_of(raw@, ' ');
    }
    let mut sp: usize = 0;
    while sp < raw.len() && raw[sp] != ' '
        invariant
            sp <= raw@.len(),
            forall|x: int| 0 <= x < sp ==> raw@[x] != ' ',
        decreases raw@.len() - sp,
    {
        sp = sp + 1;
    }
    proof {
        crate::text::lemma_first_index_of_is(raw@, ' ', sp as int);
    }
    let mut hex = sp < raw.len() && sp >= 7;
    let mut h: usize = 0;
    while hex && h < sp
        invariant
            h <= sp <= raw@.len(),
            hex ==> forall|x: int| 0 <= x < h ==> is_hex(#[trigger] raw@[x]),
            hex ==> sp < raw@.len() && sp >= 7,
            !hex ==> !(sp < raw@.len() && sp >= 7 && all_hex(raw@.take(sp as int))),
        decreases sp - h,
    {
        if !is_hex_digit(raw[h]) {
            hex = false;
            assert(raw@.take(sp as int)[h as int] == raw@[h as int]);
        }
        h = h + 1;
    }
    if hex {
        assert forall|x: int| 0 <= x < sp implies is_hex(#[trigger] raw@.take(sp as int)[x]) by {
            assert(raw@.take(sp as int)[x] == raw@[x]);
        }
        *short_sha = string_of_range(raw, 0, 7);
        *author = String::new();
        assert(raw@.subrange(0, 7) =~= raw@.take(7));
    } else if matches_at(raw, 0, tag) {
        assert(raw@.skip(0) =~= raw@);
        *author = string_of_range(raw, 7, raw.len());
        assert(raw@.subrange(7, raw@.len() as int) =~= raw@.skip(7));
    } else {
        assert(raw@.skip(0) =~= raw@);
    }
}

/// The source lines of `git blame --line-porcelain` output, each with the short
/// commit id and author that precede it.
pub fn parse_blame_porcelain(text: &str) -> (r: Vec<BlameLine>)
    ensures
        r@.map_values(|b: BlameLine| b@) == blame_fold(lines(text@)).0,
{
    let v = chars_of(text);
    let ranges = line_ranges(&v);
    let ghost ls = lines(text@);
    let tag: Vec<char> = vec!['a', 'u', 't', 'h', 'o', 'r', ' '];
    assert(tag@ =~= author_tag());
    let mut out: Vec<BlameLine> = Vec::new();
    let mut short_sha = String::new();
    let mut author = String::new();
    let mut i: usize = 0;
    while i < ranges.len()
        invariant
            v@ == text@,
            ls == lines(text@),
            tag@ == author_tag(),
            ranges@.len() == ls.len(),
            forall|j: int|
                0 <= j < ranges@.len() ==> (#[trigger] ranges@[j]).0 <= ranges@[j].1 <= v@.len()
                    && v@.subrange(ranges@[j].0 as int, ranges@[j].1 as int) == ls[j],
            i <= ranges@.len(),
            (out@.map_values(|b: BlameLine| b@), short_sha@, author@) == blame_fold(ls.take(i as int)),
        decreases ranges@.len() - i,
    {
        let (a, b) = ranges[i];
        let raw = sub_chars(&v, a, b);
        proof {
            assert(ls.take(i + 1).drop_last() =~= ls.take(i as int));
            assert(ls.take(i + 1).last() == ls[i as int]);
            lemma_first_index_of(raw@, ' ');
        }
        if raw.len() > 0 && raw[0] == '\t' {
            let content = string_of_range(&raw, 1, raw.len());
            assert(raw@.subrange(1, raw@.len() as int) =~= raw@.skip(1));
            let ghost old_out = out@.map_values(|x: BlameLine| x@);
            out.push(BlameLine { short_sha: short_sha.clone(), author: author.clone(), content });
            assert(out@.map_values(|x: BlameLine| x@) =~= old_out.push((short_sha@, author@, raw@.skip(1))));
        } else {
            blame_header(&raw, &tag, &mut short_sha, &mut author);
        }
        i = i + 1;
    }
    assert(ls.take(i as int) =~= ls);
    out
}

/// The message for a failed checkout: git's trimmed error output, or
/// `checkout failed` when there is none.
pub fn checkout_error(stderr: &str) -> (r: String)
    ensures
        trim(stderr@).len() > 0 ==> r@ == trim(stderr@),
        trim(stderr@).len() == 0 ==> r@ == "checkout failed"@,
{
    let t = trim_string(stderr);
    if t.as_str().unicode_len() == 0 {
        String::from_str("checkout failed")
    } else {
        t
    }
}

/// `file` relative to the repository `root`, as git commands take it; `None`
/// for a path outside the repository.
pub fn repo_relative(root: &str, file: &str) -> (r: Option<String>)
    ensures
        match r {
            None => strip_prefix(file@, root@) is None,
            Some(s) => strip_prefix(file@, root@) == Some(s@),
        },
{
    let f = chars_of(file);
    let rt = chars_of(root);
    match path_strip_prefix(&f, &rt) {
        None => None,
        Some(rel) => Some(string_of(&rel)),
    }
}


// ---------------------------------------------------------------------------
// Command lines
// ---------------------------------------------------------------------------

/// The arguments as plain values.
pub open spec fn arg_views(v: Seq<String>) -> Seq<Seq<char>> {
    v.map_values(|a: String| a@)
}

fn args_of(parts: &[&str]) -> (r: Vec<String>)
    ensures
        r@.len() == parts@.len(),
        forall|i: int| 0 <= i < parts@.len() ==> (#[trigger] r@[i])@ == parts@[i]@,
{
    let mut r: Vec<String> = Vec::new();
    let mut i: usize = 0;
    while i < parts.len()
        invariant
            i <= parts@.len(),
            r@.len() == i,
            forall|k: int| 0 <= k < i ==> (#[trigger] r@[k])@ == parts@[k]@,
        decreases parts@.len() - i,
    {
        r.push(String::from_str(parts[i]));
        i = i + 1;
    }
    r
}

/// `git -C root rev-parse --abbrev-ref HEAD`: the current branch.
pub fn branch_args(root: &str) -> (r: Vec<String>)
    ensures
        arg_views(r@) == seq!["-C"@, root@, "rev-parse"@, "--abbrev-ref"@, "HEAD"@],
{
    let r = args_of(&["-C", root, "rev-parse", "--abbrev-ref", "HEAD"]);
    assert(arg_views(r@) =~= seq!["-C"@, root@, "rev-parse"@, "--abbrev-ref"@, "HEAD"@]);
    r
}

/// `git -C root status --porcelain -u`: the changed files.
pub fn status_args(root: &str) -> (r: Vec<String>)
    ensures
        arg_views(r@) == seq!["-C"@, root@, "status"@, "--porcelain"@, "-u"@],
{
    let r = args_of(&["-C", root, "status", "--porcelain", "-u"]);
    assert(arg_views(r@) =~= seq!["-C"@, root@, "status"@, "--porcelain"@, "-u"@]);
    r
}

/// `git -C root diff [HEAD | --cached] -- rel`: the diff of `rel` of kind
/// `kind`.
pub fn diff_args(root: &str, rel: &str, kind: DiffKind) -> (r: Vec<String>)
    ensures
        arg_views(r@) == match kind {
            DiffKind::Head => seq!["-C"@, root@, "diff"@, "HEAD"@, "--"@, rel@],
            DiffKind::Unstaged => seq!["-C"@, root@, "diff"@, "--"@, rel@],
            DiffKind::Staged => seq!["-C"@, root@, "diff"@, "--cached"@, "--"@, rel@],
        },
{
    let r = match kind {
        DiffKind::Head => args_of(&["-C", root, "diff", "HEAD", "--", rel]),
        DiffKind::Unstaged => args_of(&["-C", root, "diff", "--", rel]),
        DiffKind::Staged => args_of(&["-C", root, "diff", "--cached", "--", rel]),
    };
    proof {
        match kind {
            DiffKind::Head => assert(arg_views(r@) =~= seq!["-C"@, root@, "diff"@, "HEAD"@, "--"@, rel@]),
            DiffKind::Unstaged => assert(arg_views(r@) =~= seq!["-C"@, root@, "diff"@, "--"@, rel@]),
            DiffKind::Staged => assert(arg_views(r@) =~= seq!["-C"@, root@, "diff"@, "--cached"@, "--"@, rel@]),
        }
    }
    r
}

/// `git -C root add -- rel`: stages `rel`.
pub fn stage_args(root: &str, rel: &str) -> (r: Vec<String>)
    ensures
        arg_views(r@) == seq!["-C"@, root@, "add"@, "--"@, rel@],
{
    let r = args_of(&["-C", root, "add", "--", rel]);
    assert(arg_views(r@) =~= seq!["-C"@, root@, "add"@, "--"@, rel@]);
    r
}

/// `git -C root restore --staged -- rel`: unstages `rel`.
pub fn unstage_args(root: &str, rel: &str) -> (r: Vec<String>)
    ensures
        arg_views(r@) == seq!["-C"@, root@, "restore"@, "--staged"@, "--"@, rel@],
{
    let r = args_of(&["-C", root, "restore", "--staged", "--", rel]);
    assert(arg_views(r@) =~= seq!["-C"@, root@, "restore"@, "--staged"@, "--"@, rel@]);
    r
}

/// `git -C root reset HEAD -- rel`: unstages `rel` where `restore` is
/// missing.
pub fn reset_args(root: &str, rel: &str) -> (r: Vec<String>)
    ensures
        arg_views(r@) == seq!["-C"@, root@, "reset"@, "HEAD"@, "--"@, rel@],
{
    let r = args_of(&["-C", root, "reset", "HEAD", "--", rel]);
    assert(arg_views(r@) =~= seq!["-C"@, root@, "reset"@, "HEAD"@, "--"@, rel@]);
    r
}

/// `git -C root branch --list --format=%(refname:short)%09%(HEAD)`.
pub fn branches_args(root: &str) -> (r: Vec<String>)
    ensures
        arg_views(r@) == seq!["-C"@, root@, "branch"@, "--list"@, "--format=%(refname:short)%09%(HEAD)"@],
{
    let r = args_of(&["-C", root, "branch", "--list", "--format=%(refname:short)%09%(HEAD)"]);
    assert(arg_views(r@) =~= seq!["-C"@, root@, "branch"@, "--list"@, "--format=%(refname:short)%09%(HEAD)"@]);
    r
}

/// `git -C root checkout branch`.
pub fn checkout_args(root: &str, branch: &str) -> (r: Vec<String>)
    ensures
        arg_views(r@) == seq!["-C"@, root@, "checkout"@, branch@],
{
    let r = args_of(&["-C", root, "checkout", branch]);
    assert(arg_views(r@) =~= seq!["-C"@, root@, "checkout"@, branch@]);
    r
}

/// `git -C root blame --line-porcelain -- rel`.
pub fn blame_args(root: &str, rel: &str) -> (r: Vec<String>)
    ensures
        arg_views(r@) == seq!["-C"@, root@, "blame"@, "--line-porcelain"@, "--"@, rel@],
{
    let r = args_of(&["-C", root, "blame", "--line-porcelain", "--", rel]);
    assert(arg_views(r@) =~= seq!["-C"@, root@, "blame"@, "--line-porcelain"@, "--"@, rel@]);
    r
}
} // verus!

verus! {

/// `p` after `k` steps up through `parent`, while there is a parent.
pub open spec fn parent_n(p: Seq<char>, k: nat) -> Option<Seq<char>>
    decreases k,
{
    if k == 0 {
        Some(p)
    } else {
        match parent(p) {
            None => None,
            Some(q) => parent_n(q, (k - 1) as nat),
        }
    }
}

/// `o` is a path strictly inside `root`.
pub open spec fn strictly_under(o: Option<Seq<char>>, root: Seq<char>) -> bool {
    match o {
        Some(b) => b != root && starts_with(b, root),
        None => false,
    }
}

/// Marking never changes a marker already there, and gives new keys the
/// directory marker.
proof fn lemma_mark_up_keeps(m: Map<Seq<char>, char>, p: Option<Seq<char>>, root: Seq<char>)
    ensures
        forall|a: Seq<char>| #[trigger] m.contains_key(a) ==> mark_up(m, p, root).contains_key(a),
        forall|a: Seq<char>| m.contains_key(a) ==> #[trigger] mark_up(m, p, root)[a] == m[a],
        forall|a: Seq<char>| #[trigger] mark_up(m, p, root).contains_key(a) && !m.contains_key(a) ==> mark_up(m, p, root)[a] == '•',
    decreases (match p {
        Some(q) => q.len() + 1,
        None => 0,
    }),
{
    match p {
        None => {
            assert(mark_up(m, p, root) == m);
            assert forall|a: Seq<char>| m.contains_key(a) implies mark_up(m, p, root).contains_key(a) by {}
        },
        Some(q) => {
            let m2 = if m.contains_key(q) { m } else { m.insert(q, '•') };
            if q == root || !starts_with(q, root) {
                assert(mark_up(m, p, root) == m2);
                assert forall|a: Seq<char>| m.contains_key(a) implies m2.contains_key(a) && #[trigger] m2[a] == m[a] by {}
            } else {
                lemma_parent_shorter(q);
                lemma_mark_up_keeps(m2, parent(q), root);
                let r = mark_up(m2, parent(q), root);
                assert(mark_up(m, p, root) == r);
                assert forall|a: Seq<char>| m.contains_key(a) implies #[trigger] r.contains_key(a) by {
                    assert(m2.contains_key(a));
                }
                assert forall|a: Seq<char>| m.contains_key(a) implies #[trigger] r[a] == m[a] by {
                    assert(m2.contains_key(a) && m2[a] == m[a]);
                    assert(r[a] == m2[a]);
                }
                assert forall|a: Seq<char>| r.contains_key(a) && !m.contains_key(a) implies #[trigger] r[a] == '•' by {
                    if m2.contains_key(a) {
                        assert(r[a] == m2[a]);
                    }
                }
            }
        },
    }
}

/// Every directory on the way up from `p` is marked, up to and including
/// the first that is `root` or lies outside it.
proof fn lemma_mark_up_chain(m: Map<Seq<char>, char>, p: Seq<char>, root: Seq<char>, k: nat, a: Seq<char>)
    requires
        parent_n(p, k) == Some(a),
        forall|j: nat| j < k ==> strictly_under(#[trigger] parent_n(p, j), root),
    ensures
        mark_up(m, Some(p), root).contains_key(a),
    decreases k,
{
    let m2 = if m.contains_key(p) { m } else { m.insert(p, '•') };
    assert(m2.contains_key(p));
    if k == 0 {
        assert(a == p);
        if p == root || !starts_with(p, root) {
            assert(mark_up(m, Some(p), root) == m2);
        } else {
            lemma_parent_shorter(p);
            lemma_mark_up_keeps(m2, parent(p), root);
            assert(mark_up(m, Some(p), root) == mark_up(m2, parent(p), root));
        }
    } else {
        assert(strictly_under(parent_n(p, 0), root));
        assert(parent_n(p, 0) == Some(p));
        assert(p != root && starts_with(p, root));
        assert(parent(p) is Some);
        let q = parent(p)->0;
        lemma_parent_shorter(p);
        assert(mark_up(m, Some(p), root) == mark_up(m2, Some(q), root));
        assert forall|j: nat| j < (k - 1) as nat implies strictly_under(#[trigger] parent_n(q, j), root) by {
            assert(parent_n(p, j + 1) == parent_n(q, j));
            assert(strictly_under(parent_n(p, j + 1), root));
        }
        assert(parent_n(q, (k - 1) as nat) == parent_n(p, k));
        lemma_mark_up_chain(m2, q, root, (k - 1) as nat, a);
    }
}

/// A changed path marks every directory above it: each directory reached
/// by going up from the path, up to and including `root`, is a key of the
/// markers, with the directory marker `•` unless it has a marker of its own.
pub proof fn law_status_marks_ancestors(
    root: Seq<char>,
    acc: (Map<Seq<char>, char>, Seq<(Seq<char>, Seq<char>, char, char)>),
    line: Seq<char>,
    k: nat,
    a: Seq<char>,
)
    requires
        utf8_len(line) >= 4,
        head_end(line) is Some,
        k >= 1,
        parent_n(join(root, status_rel(line, head_end(line)->0)), k) == Some(a),
        forall|j: nat|
            1 <= j < k ==> strictly_under(#[trigger] parent_n(join(root, status_rel(line, head_end(line)->0)), j), root),
    ensures
        ({
            let full = join(root, status_rel(line, head_end(line)->0));
            let own = acc.0.insert(full, status_code(status_index(line), status_worktree(line)));
            let m = status_step(root, acc, line).0;
            &&& m.contains_key(a)
            &&& m[a] == if own.contains_key(a) { own[a] } else { '•' }
        }),
{
    let full = join(root, status_rel(line, head_end(line)->0));
    let own = acc.0.insert(full, status_code(status_index(line), status_worktree(line)));
    assert(parent_n(full, 1) == parent_n(parent(full)->0, 0) || parent(full) is None);
    assert(parent(full) is Some);
    let p = parent(full)->0;
    assert forall|j: nat| j < (k - 1) as nat implies strictly_under(#[trigger] parent_n(p, j), root) by {
        assert(parent_n(full, j + 1) == parent_n(p, j));
    }
    assert(parent_n(full, k) == parent_n(p, (k - 1) as nat));
    lemma_mark_up_chain(own, p, root, (k - 1) as nat, a);
    lemma_mark_up_keeps(own, Some(p), root);
}

} // verus!

verus! {

/// An `author ` line gives the author of the source lines that follow: the
/// text after `author `; the lines read so far and the commit stay.
pub proof fn law_blame_author_line(
    st: (Seq<(Seq<char>, Seq<char>, Seq<char>)>, Seq<char>, Seq<char>),
    name: Seq<char>,
)
    ensures
        blame_step(st, "author "@ + name) == (st.0, st.1, name),
{
    reveal_strlit("author ");
    let raw = "author "@ + name;
    assert(raw[0] == 'a');
    lemma_first_index_of(raw, ' ');
    assert(!is_hex(raw[1]));
    assert(raw.take(7) =~= author_tag());
    assert(raw.skip(7) =~= name);
    match first_index_of(raw, ' ') {
        Some(k) => {
            if k >= 7 {
                assert(!is_hex(raw.take(k)[1]));
                assert(!all_hex(raw.take(k)));
            }
        },
        None => {},
    }
}

/// A header line that starts with `author` but not with `author ` (such as
/// `author-mail`, `author-time` or `author-tz`) changes neither the author,
/// nor the commit, nor the lines read so far.
pub proof fn law_blame_other_author_fields(
    st: (Seq<(Seq<char>, Seq<char>, Seq<char>)>, Seq<char>, Seq<char>),
    rest: Seq<char>,
)
    requires
        rest.len() > 0,
        rest[0] != ' ',
    ensures
        blame_step(st, "author"@ + rest) == st,
{
    reveal_strlit("author");
    let raw = "author"@ + rest;
    assert(raw[0] == 'a');
    assert(raw[6] == rest[0]);
    lemma_first_index_of(raw, ' ');
    assert(!is_hex(raw[1]));
    match first_index_of(raw, ' ') {
        Some(k) => {
            if k >= 7 {
                assert(!is_hex(raw.take(k)[1]));
                assert(!all_hex(raw.take(k)));
            }
        },
        None => {},
    }
    assert(!has_prefix(raw, author_tag())) by {
        if has_prefix(raw, author_tag()) {
            assert(raw.take(7)[6] == ' ');
        }
    }
}

} // verus!

verus! {

/// A source line (led by a tab) is recorded with the current commit and
/// author, and changes neither.
pub proof fn law_blame_source_line(
    st: (Seq<(Seq<char>, Seq<char>, Seq<char>)>, Seq<char>, Seq<char>),
    content: Seq<char>,
)
    ensures
        blame_step(st, seq!['\t'] + content) == (st.0.push((st.1, st.2, content)), st.1, st.2),
{
    assert((seq!['\t'] + content).skip(1) =~= content);
}

/// A line of seven or more hex digits and a space starts a commit: its first
/// seven digits become the commit, and the author is cleared until the
/// commit's `author ` line.
pub proof fn law_blame_commit_line(
    st: (Seq<(Seq<char>, Seq<char>, Seq<char>)>, Seq<char>, Seq<char>),
    sha: Seq<char>,
    rest: Seq<char>,
)
    requires
        sha.len() >= 7,
        forall|i: int| 0 <= i < sha.len() ==> is_hex(#[trigger] sha[i]),
    ensures
        blame_step(st, sha + seq![' '] + rest) == (st.0, sha.take(7), Seq::<char>::empty()),
{
    let raw = sha + seq![' '] + rest;
    assert(raw[0] == sha[0]);
    assert(is_hex(sha[0]));
    lemma_first_index_of(raw, ' ');
    assert forall|i: int| 0 <= i < sha.len() implies raw[i] != ' ' by {
        assert(raw[i] == sha[i]);
        assert(is_hex(sha[i]));
    }
    assert(raw[sha.len() as int] == ' ');
    assert(first_index_of(raw, ' ') == Some(sha.len() as int));
    assert(raw.take(sha.len() as int) =~= sha);
    assert(raw.take(7) =~= sha.take(7));
}

} // verus!
