//! Quick-open: a flat index of workspace files and a fuzzy ranking of it.
use vstd::prelude::*;

use crate::paths::{find_last_slash, join, join_str, last_slash, lemma_last_slash, path_strip_prefix, strip_prefix};
use crate::clock::{elapsed_secs, instant_now};
use crate::sort::{is_sort_order, permutes, sort_order};
use crate::text::{
    chars_of, compare_chars, lemma_seq_lt_total, lemma_seq_lt_trans, lemma_utf8_len_bounds,
    lemma_utf8_len_take, lower_ascii, ascii_lower, seq_lt, string_of, to_ascii_lower, to_lowercase,
    trim, trim_string, unicode_lowercase, utf8_len, utf8_width, char_utf8_width,
};

verus! {

/// Longest text, in characters, that the ranking handles; longer text cannot be
/// held in the memory of any machine this runs on.
pub open spec fn max_text_chars() -> int {
    0x0100_0000_0000_0000
}

// ---------------------------------------------------------------------------
// Fuzzy score
// ---------------------------------------------------------------------------

/// Characters after which a match counts as the start of a word.
pub open spec fn is_boundary(c: char) -> bool {
    c == '/' || c == '_' || c == '-' || c == '.'
}

/// First position at or after `from` where `c` holds `ch`.
pub open spec fn next_match(c: Seq<char>, ch: char, from: int) -> Option<int>
    decreases c.len() - from,
{
    if from < 0 || from >= c.len() {
        None
    } else if c[from] == ch {
        Some(from)
    } else {
        next_match(c, ch, from + 1)
    }
}

/// Where the greedy left-to-right scan matches `q[0..k]` in `c`, if it does.
pub open spec fn greedy(q: Seq<char>, c: Seq<char>, k: nat) -> Option<Seq<int>>
    decreases k,
{
    if k == 0 {
        Some(Seq::empty())
    } else {
        match greedy(q, c, (k - 1) as nat) {
            None => None,
            Some(ps) => {
                let from = if ps.len() == 0 { 0 } else { ps.last() + 1 };
                match next_match(c, q[k - 1], from) {
                    None => None,
                    Some(i) => Some(ps.push(i)),
                }
            },
        }
    }
}

/// Points for the `k`-th match, at position `ps[k]` of `c`: 10, plus 25 when it
/// directly follows the previous match, 20 at the start or after a boundary
/// character, 15 inside the file name and 20 more at its first character.
pub open spec fn match_bonus(c: Seq<char>, file_start: int, ps: Seq<int>, k: int) -> int {
    let i = ps[k];
    10 + (if k > 0 && ps[k - 1] + 1 == i { 25int } else { 0int }) + (if i == 0 || is_boundary(c[i - 1]) {
        20int
    } else {
        0int
    }) + (if i >= file_start {
        if i == file_start { 35int } else { 15int }
    } else {
        0int
    })
}

pub open spec fn bonus_sum(c: Seq<char>, file_start: int, ps: Seq<int>, k: nat) -> int
    decreases k,
{
    if k == 0 {
        0
    } else {
        bonus_sum(c, file_start, ps, (k - 1) as nat) + match_bonus(c, file_start, ps, k - 1)
    }
}

/// Byte offset of the file name: just after the last `/`, or 0.
pub open spec fn file_start(cand: Seq<char>) -> int {
    match last_slash(cand) {
        None => 0,
        Some(k) => utf8_len(cand.take(k)) as int + 1,
    }
}

/// The score of `cand` for `query`: `None` unless the query, ignoring ASCII case,
/// is a subsequence of the candidate; otherwise the bonuses of the greedy match,
/// less the position of the first match and a quarter of the byte length.
pub open spec fn fuzzy(query: Seq<char>, cand: Seq<char>) -> Option<int> {
    let q = lower_ascii(query);
    let c = lower_ascii(cand);
    if q.len() == 0 {
        Some(0)
    } else {
        match greedy(q, c, q.len()) {
            None => None,
            Some(ps) => Some(
                bonus_sum(c, file_start(cand), ps, q.len()) - ps[0] - (utf8_len(cand) / 4) as int,
            ),
        }
    }
}

pub proof fn lemma_next_match(c: Seq<char>, ch: char, from: int)
    requires
        0 <= from,
    ensures
        match next_match(c, ch, from) {
            None => forall|j: int| from <= j < c.len() && 0 <= j ==> c[j] != ch,
            Some(i) => 0 <= from <= i < c.len() && c[i] == ch && forall|j: int|
                from <= j < i ==> c[j] != ch,
        },
    decreases c.len() - from,
{
    if !(from < 0 || from >= c.len()) && c[from] != ch {
        lemma_next_match(c, ch, from + 1);
    }
}

/// A match found past a stretch without the character is the next match.
pub proof fn lemma_next_match_at(c: Seq<char>, ch: char, from: int, i: int)
    requires
        0 <= from <= i < c.len(),
        c[i] == ch,
        forall|j: int| from <= j < i ==> c[j] != ch,
    ensures
        next_match(c, ch, from) == Some(i),
    decreases i - from,
{
    if from < i {
        lemma_next_match_at(c, ch, from + 1, i);
    }
}

pub proof fn lemma_next_match_none(c: Seq<char>, ch: char, from: int)
    requires
        0 <= from,
        forall|j: int| from <= j < c.len() ==> c[j] != ch,
    ensures
        next_match(c, ch, from) is None,
    decreases c.len() - from,
{
    if from < c.len() {
        lemma_next_match_none(c, ch, from + 1);
    }
}

pub proof fn lemma_greedy(q: Seq<char>, c: Seq<char>, k: nat)
    requires
        k <= q.len(),
    ensures
        greedy(q, c, k) matches Some(ps) ==> {
            &&& ps.len() == k
            &&& forall|i: int| 0 <= i < k ==> i <= #[trigger] ps[i] < c.len()
            &&& forall|i: int, j: int| 0 <= i < j < k ==> ps[i] < ps[j]
        },
    decreases k,
{
    if k > 0 {
        lemma_greedy(q, c, (k - 1) as nat);
        if let Some(ps) = greedy(q, c, (k - 1) as nat) {
            let from = if ps.len() == 0 { 0 } else { ps.last() + 1 };
            if ps.len() > 0 {
                assert(ps.last() == ps[ps.len() - 1]);
            }
            lemma_next_match(c, q[k - 1], from);
        }
    }
}

pub proof fn lemma_greedy_none_stays(q: Seq<char>, c: Seq<char>, k: nat, m: nat)
    requires
        k <= m,
        greedy(q, c, k) is None,
    ensures
        greedy(q, c, m) is None,
    decreases m - k,
{
    if k < m {
        lemma_greedy_none_stays(q, c, k, (m - 1) as nat);
    }
}

pub proof fn lemma_bonus_sum_prefix(c: Seq<char>, fs: int, ps: Seq<int>, x: int, k: nat)
    requires
        k <= ps.len(),
    ensures
        bonus_sum(c, fs, ps.push(x), k) == bonus_sum(c, fs, ps, k),
    decreases k,
{
    if k > 0 {
        lemma_bonus_sum_prefix(c, fs, ps, x, (k - 1) as nat);
        assert(ps.push(x)[k - 1] == ps[k - 1]);
        if k >= 2 {
            assert(ps.push(x)[k - 2] == ps[k - 2]);
        }
    }
}

/// The characters of `s`, each lowered to ASCII lowercase.
fn lowered_chars(s: &str) -> (v: Vec<char>)
    ensures
        v@ == lower_ascii(s@),
{
    let cs = chars_of(s);
    let mut v: Vec<char> = Vec::new();
    let mut i: usize = 0;
    while i < cs.len()
        invariant
            i <= cs@.len(),
            cs@ == s@,
            v@ == lower_ascii(cs@.take(i as int)),
        decreases cs@.len() - i,
    {
        v.push(to_ascii_lower(cs[i]));
        i = i + 1;
        assert(v@ =~= lower_ascii(cs@.take(i as int)));
    }
    assert(cs@.take(i as int) =~= cs@);
    v
}

/// Byte length of `v[..n]`.
fn utf8_prefix_len(v: &Vec<char>, n: usize) -> (r: u64)
    requires
        n <= v@.len() <= max_text_chars(),
    ensures
        r == utf8_len(v@.take(n as int)),
        r <= 4 * n,
{
    let mut r: u64 = 0;
    let mut i: usize = 0;
    while i < n
        invariant
            i <= n <= v@.len() <= max_text_chars(),
            r == utf8_len(v@.take(i as int)),
            r <= 4 * i,
        decreases n - i,
    {
        proof {
            lemma_utf8_len_take(v@, i as int);
        }
        r = r + char_utf8_width(v[i]) as u64;
        i = i + 1;
    }
    r
}

/// Case-insensitive subsequence match with bonuses for consecutive runs,
/// matching at path-component boundaries, and filename-only hits.
pub fn fuzzy_score(query: &str, candidate: &str) -> (r: Option<i64>)
    requires
        candidate@.len() <= max_text_chars(),
    ensures
        match r {
            None => fuzzy(query@, candidate@) is None,
            Some(v) => fuzzy(query@, candidate@) == Some(v as int),
        },
{
    let q = lowered_chars(query);
    let c = lowered_chars(candidate);
    if q.len() == 0 {
        return Some(0);
    }
    if q.len() > c.len() {
        proof {
            lemma_greedy(q@, c@, q@.len());
        }
        return None;
    }
    let orig = chars_of(candidate);
    let found = find_last_slash(&orig);
    proof {
        lemma_last_slash(orig@);
    }
    let fs: u64 = match found {
        None => 0,
        Some(k) => utf8_prefix_len(&orig, k) + 1,
    };
    let ghost fsi = file_start(candidate@);
    assert(fs == fsi);

    let mut score: i64 = 0;
    let mut qi: usize = 0;
    let mut ci: usize = 0;
    let mut prev_match = false;
    let mut first_idx: usize = 0;
    let ghost mut ps: Seq<int> = Seq::empty();
    while ci < c.len() && qi < q.len()
        invariant
            q@ == lower_ascii(query@),
            c@ == lower_ascii(candidate@),
            c@.len() == candidate@.len() <= max_text_chars(),
            0 < q@.len() <= c@.len(),
            fs == fsi,
            fsi == file_start(candidate@),
            qi <= q@.len(),
            qi <= ci <= c@.len(),
            greedy(q@, c@, qi as nat) == Some(ps),
            ps.len() == qi,
            qi > 0 ==> ps.last() < ci,
            qi > 0 ==> first_idx == ps[0],
            qi < q@.len() ==> forall|j: int|
                (if qi == 0 { 0 } else { ps.last() + 1 }) <= j < ci ==> c@[j] != q@[qi as int],
            prev_match == (qi > 0 && ps.last() == ci - 1),
            score == bonus_sum(c@, fsi, ps, qi as nat),
            0 <= score <= 90 * qi,
        decreases c@.len() - ci,
    {
        if c[ci] != q[qi] {
            prev_match = false;
        } else {
            let mut bonus: i64 = 10;
            if prev_match {
                bonus = bonus + 25;
            }
            if ci == 0 || (c[ci - 1] == '/' || c[ci - 1] == '_' || c[ci - 1] == '-' || c[ci - 1]
                == '.') {
                bonus = bonus + 20;
            }
            if ci as u64 >= fs {
                bonus = bonus + 15;
                if ci as u64 == fs {
                    bonus = bonus + 20;
                }
            }
            proof {
                let from = if qi == 0 { 0 } else { ps.last() + 1 };
                lemma_greedy(q@, c@, qi as nat);
                if qi > 0 {
                    assert(ps.last() == ps[qi - 1]);
                }
                lemma_next_match_at(c@, q@[qi as int], from, ci as int);
                let nps = ps.push(ci as int);
                assert(greedy(q@, c@, (qi + 1) as nat) == Some(nps));
                lemma_bonus_sum_prefix(c@, fsi, ps, ci as int, qi as nat);
                assert(nps[qi as int] == ci);
                if qi > 0 {
                    assert(nps[qi - 1] == ps.last());
                }
                assert(bonus == match_bonus(c@, fsi, nps, qi as int));
            }
            score = score + bonus;
            if qi == 0 {
                first_idx = ci;
            }
            proof {
                ps = ps.push(ci as int);
            }
            qi = qi + 1;
            prev_match = true;
        }
        ci = ci + 1;
    }
    if qi != q.len() {
        proof {
            let from = if qi == 0 { 0 } else { ps.last() + 1 };
            lemma_greedy(q@, c@, qi as nat);
            if qi > 0 {
                assert(ps.last() == ps[qi - 1]);
            }
            lemma_next_match_none(c@, q@[qi as int], from);
            lemma_greedy_none_stays(q@, c@, (qi + 1) as nat, q@.len());
        }
        return None;
    }
    proof {
        lemma_utf8_len_bounds(candidate@);
        lemma_greedy(q@, c@, qi as nat);
        assert(first_idx == ps[0]);
    }
    let byte_len = utf8_prefix_len(&orig, orig.len());
    assert(orig@.take(orig@.len() as int) =~= orig@);
    score = score - first_idx as i64;
    score = score - (byte_len as i64) / 4;
    Some(score)
}

// ---------------------------------------------------------------------------
// File index
// ---------------------------------------------------------------------------

/// Flat list of workspace-relative file paths for quick-open.
pub struct FileIndex {
    /// Paths relative to the workspace root, using `/` separators.
    pub paths: Vec<String>,
    /// When the index was last built.
    pub built_at: Option<std::time::Instant>,
}

/// One ranked quick-open result.
pub struct SearchHit {
    pub rel: String,
    pub abs: String,
    pub score: i64,
}

impl Clone for SearchHit {
    fn clone(&self) -> (r: Self)
        ensures
            r@ == self@,
    {
        SearchHit { rel: self.rel.clone(), abs: self.abs.clone(), score: self.score }
    }
}

impl View for SearchHit {
    type V = (Seq<char>, Seq<char>, int);

    open spec fn view(&self) -> (Seq<char>, Seq<char>, int) {
        (self.rel@, self.abs@, self.score as int)
    }
}

/// The hit that `rel` gives for the trimmed query `q`, if it matches.
pub open spec fn hit_of(root: Seq<char>, q: Seq<char>, rel: Seq<char>) -> Option<(Seq<char>, Seq<char>, int)> {
    match fuzzy(q, rel) {
        None => None,
        Some(s) => Some((rel, join(root, rel), s)),
    }
}

/// The hits of the indexed paths, in index order.
pub open spec fn candidate_hits(root: Seq<char>, q: Seq<char>, paths: Seq<Seq<char>>) -> Seq<(Seq<char>, Seq<char>, int)>
    decreases paths.len(),
{
    if paths.len() == 0 {
        Seq::empty()
    } else {
        let h = candidate_hits(root, q, paths.drop_last());
        match hit_of(root, q, paths.last()) {
            None => h,
            Some(x) => h.push(x),
        }
    }
}

/// `a` may be listed before `b`: a higher score, then a shorter path in bytes,
/// then the smaller path.
pub open spec fn hit_before(a: (Seq<char>, Seq<char>, int), b: (Seq<char>, Seq<char>, int)) -> bool {
    ||| a.2 > b.2
    ||| (a.2 == b.2 && utf8_len(a.0) < utf8_len(b.0))
    ||| (a.2 == b.2 && utf8_len(a.0) == utf8_len(b.0) && (seq_lt(a.0, b.0) || a.0 == b.0))
}

pub open spec fn hits_sorted(s: Seq<(Seq<char>, Seq<char>, int)>) -> bool {
    forall|i: int, j: int| 0 <= i < j < s.len() ==> hit_before(#[trigger] s[i], #[trigger] s[j])
}

/// The paths of the index as text.
pub open spec fn path_views(paths: Seq<String>) -> Seq<Seq<char>> {
    paths.map_values(|p: String| p@)
}

/// What `search` returns for a non-empty trimmed query: the first `limit` hits in
/// ranking order.
pub open spec fn ranked(hits: Seq<(Seq<char>, Seq<char>, int)>, limit: int, r: Seq<(Seq<char>, Seq<char>, int)>) -> bool {
    exists|s: Seq<(Seq<char>, Seq<char>, int)>|
        #![trigger hits_sorted(s)]
        s.to_multiset() == hits.to_multiset() && hits_sorted(s) && r == s.take(
            if limit < s.len() { limit } else { s.len() as int },
        )
}

pub proof fn lemma_hit_before_total(a: (Seq<char>, Seq<char>, int), b: (Seq<char>, Seq<char>, int))
    ensures
        hit_before(a, b) || hit_before(b, a),
        (hit_before(a, b) && hit_before(b, a)) ==> a.0 == b.0 && a.2 == b.2,
{
    lemma_seq_lt_total(a.0, b.0);
}

pub proof fn lemma_hit_before_trans(
    a: (Seq<char>, Seq<char>, int),
    b: (Seq<char>, Seq<char>, int),
    c: (Seq<char>, Seq<char>, int),
)
    requires
        hit_before(a, b),
        hit_before(b, c),
    ensures
        hit_before(a, c),
{
    if a.2 == b.2 && b.2 == c.2 && utf8_len(a.0) == utf8_len(b.0) && utf8_len(b.0) == utf8_len(c.0) {
        if seq_lt(a.0, b.0) && seq_lt(b.0, c.0) {
            lemma_seq_lt_trans(a.0, b.0, c.0);
        }
    }
}

/// A candidate held while ranking, with its byte length and characters.
struct Ranked {
    hit: SearchHit,
    len: u64,
    chars: Vec<char>,
}

impl Ranked {
    spec fn wf(&self) -> bool {
        &&& self.len == utf8_len(self.hit.rel@)
        &&& self.chars@ == self.hit.rel@
    }
}

fn ranked_before(a: &Ranked, b: &Ranked) -> (r: bool)
    requires
        a.wf(),
        b.wf(),
    ensures
        r == hit_before(a.hit@, b.hit@),
{
    if a.hit.score != b.hit.score {
        return a.hit.score > b.hit.score;
    }
    if a.len != b.len {
        return a.len < b.len;
    }
    compare_chars(&a.chars, &b.chars) != 1
}

/// First position at or after `from` holding a hit that `h` must precede.
spec fn insert_pos(s: Seq<(Seq<char>, Seq<char>, int)>, h: (Seq<char>, Seq<char>, int), from: int) -> int
    decreases s.len() - from,
{
    if from >= s.len() {
        s.len() as int
    } else if !hit_before(s[from], h) {
        from
    } else {
        insert_pos(s, h, from + 1)
    }
}

proof fn lemma_insert_pos(s: Seq<(Seq<char>, Seq<char>, int)>, h: (Seq<char>, Seq<char>, int), from: int)
    requires
        0 <= from <= s.len(),
    ensures
        from <= insert_pos(s, h, from) <= s.len(),
        forall|j: int| from <= j < insert_pos(s, h, from) ==> hit_before(#[trigger] s[j], h),
        insert_pos(s, h, from) < s.len() ==> !hit_before(s[insert_pos(s, h, from)], h),
    decreases s.len() - from,
{
    if from < s.len() && hit_before(s[from], h) {
        lemma_insert_pos(s, h, from + 1);
    }
}

proof fn lemma_insert_sorted(s: Seq<(Seq<char>, Seq<char>, int)>, h: (Seq<char>, Seq<char>, int), pos: int)
    requires
        hits_sorted(s),
        0 <= pos <= s.len(),
        forall|j: int| 0 <= j < pos ==> hit_before(#[trigger] s[j], h),
        pos < s.len() ==> !hit_before(s[pos], h),
    ensures
        hits_sorted(s.insert(pos, h)),
        s.insert(pos, h).to_multiset() == s.to_multiset().insert(h),
{
    let t = s.insert(pos, h);
    s.insert_ensures(pos, h);
    if pos < s.len() {
        lemma_hit_before_total(s[pos], h);
    }
    assert forall|i: int, j: int| 0 <= i < j < t.len() implies hit_before(#[trigger] t[i], #[trigger] t[j]) by {
        if j < pos {
            assert(t[i] == s[i] && t[j] == s[j]);
        } else if j == pos {
            assert(t[i] == s[i]);
        } else if i == pos {
            assert(t[j] == s[j - 1]);
            if j - 1 > pos {
                lemma_hit_before_trans(h, s[pos], s[j - 1]);
            }
        } else if i < pos {
            assert(t[i] == s[i] && t[j] == s[j - 1]);
        } else {
            assert(t[i] == s[i - 1] && t[j] == s[j - 1]);
        }
    }
    assert(s == s.take(pos) + s.skip(pos));
    assert(t == s.take(pos).push(h) + s.skip(pos));
    vstd::seq_lib::lemma_multiset_commutative(s.take(pos).push(h), s.skip(pos));
    vstd::seq_lib::lemma_multiset_commutative(s.take(pos), s.skip(pos));
    s.take(pos).to_multiset_ensures();
}

proof fn lemma_candidate_hits_step(root: Seq<char>, q: Seq<char>, paths: Seq<Seq<char>>, i: int)
    requires
        0 <= i < paths.len(),
    ensures
        candidate_hits(root, q, paths.take(i + 1)) == match hit_of(root, q, paths[i]) {
            None => candidate_hits(root, q, paths.take(i)),
            Some(x) => candidate_hits(root, q, paths.take(i)).push(x),
        },
{
    assert(paths.take(i + 1).drop_last() =~= paths.take(i));
    assert(paths.take(i + 1).last() == paths[i]);
}

/// Every indexed path is short enough to score.
pub open spec fn paths_fit(paths: Seq<String>) -> bool {
    forall|i: int| 0 <= i < paths.len() ==> (#[trigger] paths[i])@.len() <= max_text_chars()
}

/// What a search of `paths` for `query` with at most `limit` results gives:
/// for a blank query the first `limit` paths, each joined onto `root` and
/// scored 0; else the best `limit` of the matching paths, ranked.
pub open spec fn search_result(
    paths: Seq<Seq<char>>,
    root: Seq<char>,
    query: Seq<char>,
    limit: int,
    r: Seq<(Seq<char>, Seq<char>, int)>,
) -> bool {
    &&& trim(query).len() == 0 ==> {
        &&& r.len() == if limit < paths.len() { limit } else { paths.len() as int }
        &&& forall|i: int| 0 <= i < r.len() ==> #[trigger] r[i] == (paths[i], join(root, paths[i]), 0int)
    }
    &&& trim(query).len() > 0 ==> ranked(candidate_hits(root, trim(query), paths), limit, r)
}

/// Whether every path of `paths` is short enough to score.
pub fn all_paths_fit(paths: &Vec<String>) -> (r: bool)
    ensures
        r == paths_fit(paths@),
{
    let mut i: usize = 0;
    while i < paths.len()
        invariant
            i <= paths@.len(),
            forall|k: int| 0 <= k < i ==> (#[trigger] paths@[k])@.len() <= max_text_chars(),
        decreases paths@.len() - i,
    {
        let n = paths[i].as_str().unicode_len();
        if n as u64 > 0x100_0000_0000_0000u64 {
            return false;
        }
        i = i + 1;
    }
    true
}

/// Whether an index built `elapsed_secs` whole seconds ago is older than
/// `max_age_secs`.
pub fn stale_after(elapsed_secs: u64, max_age_secs: u64) -> (r: bool)
    ensures
        r == (elapsed_secs >= max_age_secs),
{
    elapsed_secs >= max_age_secs
}

impl FileIndex {
    pub open spec fn is_built(&self) -> bool {
        self.built_at is Some
    }

    /// Whether the index is older than `max_age_secs`, or was never built.
    pub fn is_stale(&self, max_age_secs: u64) -> (r: bool)
        ensures
            !self.is_built() ==> r,
            max_age_secs == 0 ==> r,
    {
        match &self.built_at {
            None => true,
            Some(t) => stale_after(elapsed_secs(t), max_age_secs),
        }
    }

    /// Marks the index as needing a rebuild.
    pub fn built_at_invalidate(&mut self)
        ensures
            final(self).paths@ == old(self).paths@,
            !final(self).is_built(),
    {
        self.built_at = None;
    }

    /// Replaces the index with the files found under `root`: each is made relative
    /// to `root` (files outside it are skipped), `\` becomes `/`, empty results and
    /// paths through a directory that quick-open leaves out are skipped, and the
    /// list is sorted by its lowercase form.
    pub fn rebuild_from(&mut self, root: &str, files: Vec<String>)
        ensures
            final(self).is_built(),
            permutes(path_views(final(self).paths@), index_entries(root@, path_views(files@))),
            forall|i: int, j: int|
                0 <= i < j < final(self).paths@.len() ==> !seq_lt(
                    unicode_lowercase(#[trigger] final(self).paths@[j]@),
                    unicode_lowercase(#[trigger] final(self).paths@[i]@),
                ),
    {
        let root_chars = chars_of(root);
        let mut rels: Vec<String> = Vec::new();
        let mut keys: Vec<Vec<char>> = Vec::new();
        let mut i: usize = 0;
        while i < files.len()
            invariant
                i <= files@.len(),
                root_chars@ == root@,
                rels@.len() == keys@.len(),
                path_views(rels@) == index_entries(root@, path_views(files@).take(i as int)),
                forall|k: int| 0 <= k < keys@.len() ==> #[trigger] keys@[k]@ == unicode_lowercase(rels@[k]@),
            decreases files@.len() - i,
        {
            proof {
                assert(path_views(files@).take(i + 1).drop_last() =~= path_views(files@).take(i as int));
                assert(path_views(files@).take(i + 1).last() == files@[i as int]@);
            }
            let f = chars_of(&files[i]);
            if let Some(rel) = path_strip_prefix(&f, &root_chars) {
                let norm = slashes_forward(&rel);
                if norm.len() > 0 && !has_skipped_component(&norm) {
                    let s = string_of(&norm);
                    let lower = to_lowercase(&s);
                    let ghost old_rels = rels@;
                    rels.push(s);
                    keys.push(chars_of(&lower));
                    assert(path_views(rels@) =~= path_views(old_rels).push(norm@));
                }
            }
            i = i + 1;
        }
        assert(path_views(files@).take(i as int) =~= path_views(files@));
        let order = sort_order(&keys);
        let ghost ks = keys@.map_values(|k: Vec<char>| k@);
        let mut out: Vec<String> = Vec::new();
        let mut j: usize = 0;
        while j < order.len()
            invariant
                j <= order@.len(),
                is_sort_order(ks, order@),
                ks.len() == rels@.len(),
                forall|k: int| 0 <= k < ks.len() ==> #[trigger] ks[k] == unicode_lowercase(rels@[k]@),
                out@.len() == j,
                forall|k: int| 0 <= k < j ==> #[trigger] out@[k]@ == rels@[order@[k] as int]@,
            decreases order@.len() - j,
        {
            out.push(rels[order[j]].clone());
            j = j + 1;
        }
        proof {
            assert forall|a: int, b: int| 0 <= a < b < out@.len() implies !seq_lt(
                unicode_lowercase(#[trigger] out@[b]@),
                unicode_lowercase(#[trigger] out@[a]@),
            ) by {
                assert(crate::sort::pos_before(ks, order@[a] as int, order@[b] as int));
                lemma_seq_lt_total(ks[order@[a] as int], ks[order@[b] as int]);
            }
            assert forall|a: int, b: int| 0 <= a < b < order@.len() implies order@[a] != order@[b] by {
                assert(crate::sort::pos_before(ks, order@[a] as int, order@[b] as int));
                crate::text::lemma_seq_lt_irreflexive(ks[order@[a] as int]);
            }
            assert forall|k: int| 0 <= k < out@.len() implies #[trigger] path_views(out@)[k] == path_views(rels@)[order@[k] as int] by {}
            assert(permutes(path_views(out@), path_views(rels@)));
        }
        self.paths = out;
        self.built_at = Some(instant_now());
    }

    /// The files whose path matches `query` (trimmed), best first, at most
    /// `limit` of them; with an empty query, the first `limit` indexed files.
    pub fn search(&self, root: &str, query: &str, limit: usize) -> (r: Vec<SearchHit>)
        requires
            paths_fit(self.paths@),
        ensures
            search_result(path_views(self.paths@), root@, query@, limit as int, r@.map_values(|h: SearchHit| h@)),
    {
        let q = trim_string(query);
        if q.unicode_len() == 0 {
            let mut out: Vec<SearchHit> = Vec::new();
            let mut i: usize = 0;
            while i < self.paths.len() && i < limit
                invariant
                    i <= self.paths@.len(),
                    i <= limit,
                    out@.len() == i,
                    forall|k: int| 0 <= k < i ==> (#[trigger] out@[k])@ == (self.paths@[k]@, join(root@, self.paths@[k]@), 0int),
                decreases self.paths@.len() - i,
            {
                let rel = &self.paths[i];
                out.push(SearchHit { abs: join_str(root, rel.as_str()), rel: rel.clone(), score: 0 });
                i = i + 1;
            }
            return out;
        }
        let ghost qv = trim(query@);
        let ghost pv = path_views(self.paths@);
        let ghost lim = limit as int;
        let mut buf: Vec<Ranked> = Vec::new();
        let ghost mut s: Seq<(Seq<char>, Seq<char>, int)> = Seq::empty();
        let mut i: usize = 0;
        while i < self.paths.len()
            invariant
                q@ == qv,
                pv == path_views(self.paths@),
                lim == limit,
                i <= self.paths@.len(),
                forall|k: int| 0 <= k < self.paths@.len() ==> (#[trigger] self.paths@[k])@.len() <= max_text_chars(),
                hits_sorted(s),
                s.to_multiset() == candidate_hits(root@, qv, pv.take(i as int)).to_multiset(),
                forall|k: int| 0 <= k < buf@.len() ==> (#[trigger] buf@[k]).wf(),
                buf@.map_values(|x: Ranked| x.hit@) == s.take(if lim < s.len() { lim } else { s.len() as int }),
            decreases self.paths@.len() - i,
        {
            proof {
                lemma_candidate_hits_step(root@, qv, pv, i as int);
                assert(pv[i as int] == self.paths@[i as int]@);
            }
            let rel = &self.paths[i];
            match fuzzy_score(q.as_str(), rel.as_str()) {
                None => {},
                Some(score) => {
                    let chars = chars_of(rel.as_str());
                    proof {
                        lemma_utf8_len_bounds(chars@);
                    }
                    let len = utf8_prefix_len(&chars, chars.len());
                    assert(chars@.take(chars@.len() as int) =~= chars@);
                    let cand = Ranked {
                        hit: SearchHit { rel: rel.clone(), abs: join_str(root, rel.as_str()), score },
                        len,
                        chars,
                    };
                    let ghost h = cand.hit@;
                    let ghost m = if lim < s.len() { lim } else { s.len() as int };
                    let ghost bv = buf@.map_values(|x: Ranked| x.hit@);
                    // first held hit that the new one must precede
                    let mut p: usize = 0;
                    while p < buf.len() && ranked_before(&buf[p], &cand)
                        invariant
                            p <= buf@.len(),
                            cand.wf(),
                            h == cand.hit@,
                            forall|k: int| 0 <= k < buf@.len() ==> (#[trigger] buf@[k]).wf(),
                            bv == buf@.map_values(|x: Ranked| x.hit@),
                            forall|k: int| 0 <= k < p ==> hit_before(#[trigger] bv[k], h),
                        decreases buf@.len() - p,
                    {
                        p = p + 1;
                    }
                    let ghost pos = if p < buf@.len() { p as int } else { insert_pos(s, h, m) };
                    proof {
                        lemma_insert_pos(s, h, m);
                        assert(bv.len() == m);
                        assert forall|k: int| 0 <= k < pos implies hit_before(#[trigger] s[k], h) by {
                            if k < m {
                                assert(s[k] == s.take(m)[k]);
                                assert(bv[k] == s[k]);
                            }
                        }
                        if p < buf@.len() {
                            assert(bv[p as int] == s[p as int]);
                        }
                        lemma_insert_sorted(s, h, pos);
                    }
                    let ghost old_s = s;
                    let ghost old_buf = buf@;
                    proof {
                        s = s.insert(pos, h);
                        candidate_hits(root@, qv, pv.take(i as int)).to_multiset_ensures();
                    }
                    if p < limit {
                        buf.insert(p, cand);
                        if buf.len() > limit {
                            buf.pop();
                        }
                    }
                    proof {
                        old_s.insert_ensures(pos, h);
                        let nm = if lim < s.len() { lim } else { s.len() as int };
                        assert forall|k: int| 0 <= k < buf@.len() implies (#[trigger] buf@[k]).wf() by {
                            if p < limit && k != p {
                                if k < p {
                                    assert(buf@[k] == old_buf[k]);
                                } else {
                                    assert(buf@[k] == old_buf[k - 1]);
                                }
                            }
                        }
                        if p < lim {
                            assert(buf@.len() == nm);
                            assert forall|k: int| 0 <= k < nm implies buf@.map_values(|x: Ranked| x.hit@)[k] == #[trigger] s.take(nm)[k] by {
                                if k < p {
                                    assert(buf@[k] == old_buf[k]);
                                    assert(bv[k] == old_s[k]);
                                } else if k == p {
                                } else {
                                    assert(buf@[k] == old_buf[k - 1]);
                                    assert(bv[k - 1] == old_s[k - 1]);
                                }
                            }
                        } else {
                            assert(buf@ == old_buf);
                            assert forall|k: int| 0 <= k < nm implies bv[k] == #[trigger] s.take(nm)[k] by {
                                assert(bv[k] == old_s[k]);
                            }
                        }
                        assert(buf@.map_values(|x: Ranked| x.hit@) =~= s.take(nm));
                    }
                },
            }
            i = i + 1;
        }
        proof {
            assert(pv.take(i as int) =~= pv);
        }
        let mut out: Vec<SearchHit> = Vec::new();
        let mut k: usize = 0;
        while k < buf.len()
            invariant
                k <= buf@.len(),
                out@.len() == k,
                forall|j: int| 0 <= j < k ==> (#[trigger] out@[j])@ == buf@[j].hit@,
            decreases buf@.len() - k,
        {
            out.push(buf[k].hit.clone());
            k = k + 1;
        }
        proof {
            assert(out@.map_values(|h: SearchHit| h@) =~= buf@.map_values(|x: Ranked| x.hit@));
            assert(hits_sorted(s));
        }
        out
    }
}

impl Default for FileIndex {
    fn default() -> (r: Self)
        ensures
            r.paths@.len() == 0,
            !r.is_built(),
    {
        FileIndex { paths: Vec::new(), built_at: None }
    }
}

/// `s` with each `\` replaced by `/`.
pub open spec fn forward_slashes(s: Seq<char>) -> Seq<char> {
    s.map_values(|c: char| if c == '\\' { '/' } else { c })
}

fn slashes_forward(v: &Vec<char>) -> (r: Vec<char>)
    ensures
        r@ == forward_slashes(v@),
{
    let mut r: Vec<char> = Vec::new();
    let mut i: usize = 0;
    while i < v.len()
        invariant
            i <= v@.len(),
            r@ == forward_slashes(v@.take(i as int)),
        decreases v@.len() - i,
    {
        r.push(if v[i] == '\\' { '/' } else { v[i] });
        i = i + 1;
        assert(r@ =~= forward_slashes(v@.take(i as int)));
    }
    assert(v@.take(i as int) =~= v@);
    r
}

/// The directories that quick-open never indexes: those the explorer leaves
/// out, and `.venv` and `vendor`.
pub open spec fn index_skipped(name: Seq<char>) -> bool {
    ||| crate::tree::tree_skipped(name)
    ||| name == ".venv"@
    ||| name == "vendor"@
}

/// Some component of `p`, scanning from position `i` inside the component
/// that starts at `start`, is one quick-open leaves out.
pub open spec fn skipped_from(p: Seq<char>, start: int, i: int) -> bool
    decreases p.len() - i,
{
    if i >= p.len() {
        index_skipped(p.subrange(start, p.len() as int))
    } else if p[i] == '/' {
        index_skipped(p.subrange(start, i)) || skipped_from(p, i + 1, i + 1)
    } else {
        skipped_from(p, start, i + 1)
    }
}

/// Whether quick-open leaves out an entry named `name`.
pub fn index_skips(name: &str) -> (r: bool)
    ensures
        r == index_skipped(name@),
{
    let v = chars_of(name);
    crate::tree::tree_skips(name) || crate::theme::eq_lit(&v, ".venv") || crate::theme::eq_lit(&v, "vendor")
}

/// Whether a component of the relative path `p` is one quick-open leaves out.
pub fn has_skipped_component(p: &Vec<char>) -> (r: bool)
    ensures
        r == skipped_from(p@, 0, 0),
{
    let mut start: usize = 0;
    let mut i: usize = 0;
    while i < p.len()
        invariant
            start <= i <= p@.len(),
            skipped_from(p@, 0, 0) == skipped_from(p@, start as int, i as int),
        decreases p@.len() - i,
    {
        if p[i] == '/' {
            let seg = crate::text::string_of_range(p, start, i);
            if index_skips(seg.as_str()) {
                return true;
            }
            start = i + 1;
        }
        i = i + 1;
    }
    let seg = crate::text::string_of_range(p, start, p.len());
    index_skips(seg.as_str())
}

/// The index entries for `files` found under `root`, in the order found.
pub open spec fn index_entries(root: Seq<char>, files: Seq<Seq<char>>) -> Seq<Seq<char>>
    decreases files.len(),
{
    if files.len() == 0 {
        Seq::empty()
    } else {
        let e = index_entries(root, files.drop_last());
        match strip_prefix(files.last(), root) {
            Some(rel) if forward_slashes(rel).len() > 0 && !skipped_from(forward_slashes(rel), 0, 0) => e.push(
                forward_slashes(rel),
            ),
            _ => e,
        }
    }
}

} // verus!

verus! {

// ---------------------------------------------------------------------------
// The match is exactly case-insensitive subsequence matching
// ---------------------------------------------------------------------------

/// `emb` places each character of `q` at increasing positions of `c`.
pub open spec fn embeds(q: Seq<char>, c: Seq<char>, emb: Seq<int>) -> bool {
    &&& emb.len() == q.len()
    &&& forall|i: int| 0 <= i < emb.len() ==> 0 <= #[trigger] emb[i] < c.len() && c[emb[i]] == q[i]
    &&& forall|i: int, j: int| 0 <= i < j < emb.len() ==> #[trigger] emb[i] < #[trigger] emb[j]
}

pub open spec fn is_subsequence(q: Seq<char>, c: Seq<char>) -> bool {
    exists|emb: Seq<int>| embeds(q, c, emb)
}

proof fn lemma_next_match_le(c: Seq<char>, ch: char, from: int, e: int)
    requires
        0 <= from <= e < c.len(),
        c[e] == ch,
    ensures
        next_match(c, ch, from) matches Some(j) && j <= e,
    decreases e - from,
{
    if c[from] != ch {
        lemma_next_match_le(c, ch, from + 1, e);
    }
}

/// The greedy scan succeeds whenever any placement exists, and places each
/// character no later than that placement.
proof fn lemma_greedy_complete(q: Seq<char>, c: Seq<char>, emb: Seq<int>, k: nat)
    requires
        embeds(q, c, emb),
        k <= q.len(),
    ensures
        greedy(q, c, k) matches Some(ps) && forall|i: int| 0 <= i < k ==> ps[i] <= #[trigger] emb[i],
    decreases k,
{
    if k > 0 {
        lemma_greedy_complete(q, c, emb, (k - 1) as nat);
        lemma_greedy(q, c, (k - 1) as nat);
        let ps = greedy(q, c, (k - 1) as nat)->0;
        let from = if ps.len() == 0 { 0 } else { ps.last() + 1 };
        if k >= 2 {
            assert(ps.last() == ps[k - 2]);
            assert(emb[k - 2] < emb[k - 1]);
        }
        lemma_next_match_le(c, q[k - 1], from, emb[k - 1]);
        let j = next_match(c, q[k - 1], from)->0;
        assert forall|i: int| 0 <= i < k implies ps.push(j)[i] <= #[trigger] emb[i] by {
            if i < k - 1 {
                assert(ps.push(j)[i] == ps[i]);
            }
        }
    }
}

/// The documented matching rule: a candidate matches a query exactly when the
/// query, ignoring ASCII case, is a subsequence of the candidate.
pub proof fn law_fuzzy_matches_subsequences(query: Seq<char>, cand: Seq<char>)
    ensures
        fuzzy(query, cand) is Some <==> is_subsequence(lower_ascii(query), lower_ascii(cand)),
{
    let q = lower_ascii(query);
    let c = lower_ascii(cand);
    if q.len() == 0 {
        assert(embeds(q, c, Seq::empty()));
    } else {
        lemma_greedy(q, c, q.len());
        if let Some(ps) = greedy(q, c, q.len()) {
            assert forall|i: int| 0 <= i < ps.len() implies 0 <= #[trigger] ps[i] < c.len() && c[ps[i]] == q[i] by {
                lemma_greedy_hits(q, c, q.len(), i);
            }
            assert(embeds(q, c, ps));
        }
        if is_subsequence(q, c) {
            let emb = choose|emb: Seq<int>| embeds(q, c, emb);
            lemma_greedy_complete(q, c, emb, q.len());
        }
    }
}

/// Each greedy position holds the query character it matches.
proof fn lemma_greedy_hits(q: Seq<char>, c: Seq<char>, k: nat, i: int)
    requires
        k <= q.len(),
        greedy(q, c, k) is Some,
        0 <= i < k,
    ensures
        c[greedy(q, c, k)->0[i]] == q[i],
    decreases k,
{
    lemma_greedy(q, c, (k - 1) as nat);
    let ps = greedy(q, c, (k - 1) as nat)->0;
    let from = if ps.len() == 0 { 0 } else { ps.last() + 1 };
    if ps.len() > 0 {
        lemma_greedy(q, c, (k - 1) as nat);
        assert(ps.last() == ps[ps.len() - 1]);
    }
    lemma_next_match(c, q[k - 1], from);
    if i < k - 1 {
        lemma_greedy_hits(q, c, (k - 1) as nat, i);
    }
}

} // verus!

verus! {

// ---------------------------------------------------------------------------
// ASCII case does not change a score
// ---------------------------------------------------------------------------

/// `char::to_ascii_uppercase`.
pub open spec fn ascii_upper(c: char) -> char {
    if 'a' <= c && c <= 'z' {
        ((c as u32) - 32) as char
    } else {
        c
    }
}

/// `str::to_ascii_uppercase`.
pub open spec fn upper_ascii(s: Seq<char>) -> Seq<char> {
    s.map_values(|c: char| ascii_upper(c))
}

/// `a` and `b` differ at most in the ASCII case of their letters.
pub open spec fn same_but_ascii_case(a: Seq<char>, b: Seq<char>) -> bool {
    &&& a.len() == b.len()
    &&& forall|i: int| 0 <= i < a.len() ==> ascii_lower(#[trigger] a[i]) == ascii_lower(b[i])
}

proof fn lemma_case_fold_chars(x: char, y: char)
    requires
        ascii_lower(x) == ascii_lower(y),
    ensures
        utf8_width(x) == utf8_width(y),
        (x == '/') == (y == '/'),
{
}

proof fn lemma_case_fold_utf8_len(a: Seq<char>, b: Seq<char>)
    requires
        same_but_ascii_case(a, b),
    ensures
        utf8_len(a) == utf8_len(b),
    decreases a.len(),
{
    if a.len() > 0 {
        assert(same_but_ascii_case(a.drop_last(), b.drop_last())) by {
            assert forall|i: int| 0 <= i < a.drop_last().len() implies ascii_lower(#[trigger] a.drop_last()[i])
                == ascii_lower(b.drop_last()[i]) by {
                assert(ascii_lower(a[i]) == ascii_lower(b[i]));
            }
        }
        lemma_case_fold_utf8_len(a.drop_last(), b.drop_last());
        assert(ascii_lower(a[a.len() - 1]) == ascii_lower(b[a.len() - 1]));
        lemma_case_fold_chars(a.last(), b.last());
    }
}

proof fn lemma_case_fold_last_slash(a: Seq<char>, b: Seq<char>)
    requires
        same_but_ascii_case(a, b),
    ensures
        last_slash(a) == last_slash(b),
    decreases a.len(),
{
    if a.len() > 0 {
        assert(ascii_lower(a[a.len() - 1]) == ascii_lower(b[a.len() - 1]));
        lemma_case_fold_chars(a.last(), b.last());
        assert(same_but_ascii_case(a.drop_last(), b.drop_last())) by {
            assert forall|i: int| 0 <= i < a.drop_last().len() implies ascii_lower(#[trigger] a.drop_last()[i])
                == ascii_lower(b.drop_last()[i]) by {
                assert(ascii_lower(a[i]) == ascii_lower(b[i]));
            }
        }
        lemma_case_fold_last_slash(a.drop_last(), b.drop_last());
    }
}

/// Texts that differ only in ASCII case score alike against queries that
/// differ only in ASCII case.
pub proof fn law_fuzzy_ignores_ascii_case(q1: Seq<char>, c1: Seq<char>, q2: Seq<char>, c2: Seq<char>)
    requires
        same_but_ascii_case(q1, q2),
        same_but_ascii_case(c1, c2),
    ensures
        fuzzy(q1, c1) == fuzzy(q2, c2),
{
    assert(lower_ascii(q1) =~= lower_ascii(q2)) by {
        assert forall|i: int| 0 <= i < q1.len() implies lower_ascii(q1)[i] == lower_ascii(q2)[i] by {
            assert(ascii_lower(q1[i]) == ascii_lower(q2[i]));
        }
    }
    assert(lower_ascii(c1) =~= lower_ascii(c2)) by {
        assert forall|i: int| 0 <= i < c1.len() implies lower_ascii(c1)[i] == lower_ascii(c2)[i] by {
            assert(ascii_lower(c1[i]) == ascii_lower(c2[i]));
        }
    }
    lemma_case_fold_utf8_len(c1, c2);
    lemma_case_fold_last_slash(c1, c2);
    match last_slash(c1) {
        None => {},
        Some(k) => {
            lemma_last_slash(c1);
            assert(same_but_ascii_case(c1.take(k), c2.take(k))) by {
                assert forall|i: int| 0 <= i < c1.take(k).len() implies ascii_lower(#[trigger] c1.take(k)[i])
                    == ascii_lower(c2.take(k)[i]) by {
                    assert(ascii_lower(c1[i]) == ascii_lower(c2[i]));
                }
            }
            lemma_case_fold_utf8_len(c1.take(k), c2.take(k));
        },
    }
}

/// ASCII upper- or lowercasing the query and the candidate changes neither
/// the match nor the score.
pub proof fn law_fuzzy_case_round(query: Seq<char>, cand: Seq<char>)
    ensures
        fuzzy(upper_ascii(query), upper_ascii(cand)) == fuzzy(query, cand),
        fuzzy(lower_ascii(query), lower_ascii(cand)) == fuzzy(query, cand),
{
    assert(same_but_ascii_case(upper_ascii(query), query));
    assert(same_but_ascii_case(upper_ascii(cand), cand));
    assert(same_but_ascii_case(lower_ascii(query), query));
    assert(same_but_ascii_case(lower_ascii(cand), cand));
    law_fuzzy_ignores_ascii_case(upper_ascii(query), upper_ascii(cand), query, cand);
    law_fuzzy_ignores_ascii_case(lower_ascii(query), lower_ascii(cand), query, cand);
}

} // verus!

verus! {

// ---------------------------------------------------------------------------
// The consecutive bonus
// ---------------------------------------------------------------------------

proof fn lemma_no_slash_file_start(c: Seq<char>)
    requires
        forall|i: int| 0 <= i < c.len() ==> c[i] != '/',
    ensures
        file_start(c) == 0,
{
    lemma_last_slash(c);
}

proof fn lemma_utf8_len_push3(s: Seq<char>, a: char, b: char, d: char)
    ensures
        utf8_len(s + seq![a, b, d]) == utf8_len(s) + utf8_width(a) + utf8_width(b) + utf8_width(d),
{
    let c = s + seq![a, b, d];
    let c2 = s + seq![a, b];
    let c1 = s + seq![a];
    assert(c.drop_last() =~= c2);
    assert(c.last() == d);
    assert(c2.drop_last() =~= c1);
    assert(c2.last() == b);
    assert(c1.drop_last() =~= s);
    assert(c1.last() == a);
    assert(utf8_len(c1) == utf8_len(s) + utf8_width(a));
    assert(utf8_len(c2) == utf8_len(c1) + utf8_width(b));
    assert(utf8_len(c) == utf8_len(c2) + utf8_width(d));
}

/// Two query characters matched side by side earn 25 more than the same two
/// with one other character between them: a query `xy` scores exactly 25
/// more against `s + "xyz"` than against `s + "xzy"`, where nothing else
/// differs (no `/`, no upper-case letter, no `x` before, and neither `x` nor
/// `z` a word boundary).
pub proof fn law_fuzzy_consecutive_bonus(s: Seq<char>, x: char, y: char, z: char)
    requires
        ascii_lower(x) == x,
        ascii_lower(y) == y,
        ascii_lower(z) == z,
        y != z,
        y != '/',
        !is_boundary(x),
        !is_boundary(z),
        forall|i: int| 0 <= i < s.len() ==> s[i] != x && s[i] != '/' && ascii_lower(#[trigger] s[i]) == s[i],
    ensures
        fuzzy(seq![x, y], s + seq![x, y, z]) is Some,
        fuzzy(seq![x, y], s + seq![x, z, y]) is Some,
        fuzzy(seq![x, y], s + seq![x, y, z])->0 == fuzzy(seq![x, y], s + seq![x, z, y])->0 + 25,
{
    let q = seq![x, y];
    let c1 = s + seq![x, y, z];
    let c2 = s + seq![x, z, y];
    let n = s.len() as int;
    assert(lower_ascii(q) =~= q);
    assert(lower_ascii(c1) =~= c1) by {
        assert forall|i: int| 0 <= i < c1.len() implies lower_ascii(c1)[i] == c1[i] by {
            if i < n {
                assert(c1[i] == s[i]);
            }
        }
    }
    assert(lower_ascii(c2) =~= c2) by {
        assert forall|i: int| 0 <= i < c2.len() implies lower_ascii(c2)[i] == c2[i] by {
            if i < n {
                assert(c2[i] == s[i]);
            }
        }
    }
    assert forall|i: int| 0 <= i < c1.len() implies c1[i] != '/' by {
        if i < n {
            assert(c1[i] == s[i]);
        }
    }
    assert forall|i: int| 0 <= i < c2.len() implies c2[i] != '/' by {
        if i < n {
            assert(c2[i] == s[i]);
        }
    }
    lemma_no_slash_file_start(c1);
    lemma_no_slash_file_start(c2);
    // the first match is the x after s, in both
    assert forall|j: int| 0 <= j < n implies c1[j] != x by {
        assert(c1[j] == s[j]);
    }
    assert forall|j: int| 0 <= j < n implies c2[j] != x by {
        assert(c2[j] == s[j]);
    }
    lemma_next_match_at(c1, x, 0, n);
    lemma_next_match_at(c2, x, 0, n);
    lemma_next_match_at(c1, y, n + 1, n + 1);
    lemma_next_match_at(c2, y, n + 1, n + 2);
    assert(greedy(q, c1, 0) == Some(Seq::<int>::empty()));
    assert(greedy(q, c2, 0) == Some(Seq::<int>::empty()));
    assert(q[0] == x && q[1] == y);
    assert(Seq::<int>::empty().push(n) =~= seq![n]);
    assert(greedy(q, c1, 1) == Some(seq![n]));
    assert(greedy(q, c2, 1) == Some(seq![n]));
    assert(seq![n].push(n + 1) =~= seq![n, n + 1]);
    assert(seq![n].push(n + 2) =~= seq![n, n + 2]);
    assert(greedy(q, c1, 2) == Some(seq![n, n + 1]));
    assert(greedy(q, c2, 2) == Some(seq![n, n + 2]));
    let p1 = seq![n, n + 1];
    let p2 = seq![n, n + 2];
    assert(bonus_sum(c1, 0, p1, 0) == 0);
    assert(bonus_sum(c1, 0, p1, 1) == match_bonus(c1, 0, p1, 0));
    assert(bonus_sum(c1, 0, p1, 2) == match_bonus(c1, 0, p1, 0) + match_bonus(c1, 0, p1, 1));
    assert(bonus_sum(c2, 0, p2, 0) == 0);
    assert(bonus_sum(c2, 0, p2, 1) == match_bonus(c2, 0, p2, 0));
    assert(bonus_sum(c2, 0, p2, 2) == match_bonus(c2, 0, p2, 0) + match_bonus(c2, 0, p2, 1));
    if n > 0 {
        assert(c1[n - 1] == s[n - 1]);
        assert(c2[n - 1] == s[n - 1]);
    }
    assert(match_bonus(c1, 0, p1, 0) == match_bonus(c2, 0, p2, 0));
    assert(match_bonus(c1, 0, p1, 1) == match_bonus(c2, 0, p2, 1) + 25);
    lemma_utf8_len_push3(s, x, y, z);
    lemma_utf8_len_push3(s, x, z, y);
}

} // verus!
