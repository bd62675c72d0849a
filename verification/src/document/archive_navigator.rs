//! Moving from an archive or folder to its neighbour in the parent directory.
//!
//! The navigator keeps the sorted listing of one directory. A search steps through it
//! from the current entry, wrapping around, and asks for each candidate whether it can
//! be opened; the caller answers, since that takes a look at the disk.
use crate::paths::{file_name_of, path_file_name};
use crate::text::str_equals;
use vstd::arithmetic::div_mod::{
    lemma_add_mod_noop_right, lemma_mod_add_multiples_vanish, lemma_small_mod,
};
use vstd::prelude::*;

verus! {

/// How the entries of a directory are ordered.
#[derive(Debug, Clone, Copy, PartialEq, Eq, Structural)]
pub enum ArchiveSortingMode {
    /// Folders and archives mixed, by natural name order.
    Mixed,
    /// Folders first, then archives, each by natural name order.
    FoldersFirst,
}

/// The neighbour found: its path, whether the search wrapped around the listing, and the
/// names of the entries passed over because they could not be opened.
#[derive(Debug)]
pub struct NavigationResult {
    pub path: String,
    pub looped: bool,
    pub skipped_folders: Vec<String>,
}

/// A listed entry: its normalized path, used to find it, and its path as listed.
pub type ListedEntry = (String, String);

/// Keeps the listing of the directory last navigated in.
pub struct ArchiveNavigator {
    cached_entries: Option<(String, Vec<ListedEntry>, ArchiveSortingMode)>,
}

/// The entry visited at step `k` of a search that starts at `cur` and moves by `step`
/// through `len` entries, wrapping around.
pub open spec fn visit_index(cur: int, step: int, len: int, k: int) -> int {
    (cur + k * step) % len
}

/// Whether visiting entry `i` means the search went past an end of the listing.
pub open spec fn wraps(cur: int, step: int, i: int) -> bool {
    (step > 0 && i < cur) || (step < 0 && i > cur)
}

/// Whether a search had wrapped around by its step `k`.
pub open spec fn looped_by(cur: int, step: int, len: int, k: nat) -> bool
    decreases k,
{
    if k == 0 {
        false
    } else {
        looped_by(cur, step, len, (k - 1) as nat) || wraps(cur, step, visit_index(cur, step, len, k as int))
    }
}

/// Whether a search moving by `step` through `len` entries stays in the range of `i32`,
/// as the index arithmetic requires.
pub open spec fn step_fits(step: int, len: int) -> bool {
    0 < len <= i32::MAX && -len <= step && step + 2 * len <= i32::MAX
}

/// The texts of a sequence of strings.
pub open spec fn names_view(s: Seq<String>) -> Seq<Seq<char>> {
    s.map_values(|x: String| x@)
}

/// The listed paths of a listing.
pub open spec fn listed_paths(entries: Seq<ListedEntry>) -> Seq<Seq<char>> {
    entries.map_values(|e: ListedEntry| e.1@)
}

/// The position of the first entry whose normalized path is `norm`.
pub open spec fn is_first_position(entries: Seq<ListedEntry>, norm: Seq<char>, i: int) -> bool {
    &&& 0 <= i < entries.len()
    &&& entries[i].0@ == norm
    &&& forall|k: int| 0 <= k < i ==> entries[k].0@ != norm
}

/// The file names of the candidates of steps 1 to `n`, those that have one.
pub open spec fn skipped_names(paths: Seq<Seq<char>>, cur: int, step: int, n: nat) -> Seq<Seq<char>>
    decreases n,
{
    if n == 0 {
        Seq::empty()
    } else {
        let before = skipped_names(paths, cur, step, (n - 1) as nat);
        match path_file_name(paths[visit_index(cur, step, paths.len() as int, n as int)]) {
            Some(name) => before.push(name),
            None => before,
        }
    }
}

/// Position of the first `true` among the answers.
pub open spec fn first_true(answers: Seq<bool>) -> Option<int>
    decreases answers.len(),
{
    if answers.len() == 0 {
        None
    } else {
        match first_true(answers.drop_last()) {
            Some(t) => Some(t),
            None => if answers.last() {
                Some(answers.len() - 1)
            } else {
                None
            },
        }
    }
}

/// The outcome of a search through `paths` from position `cur` moving by `step`, where
/// `answers[t]` tells whether the candidate of step `t + 1` can be opened: the first
/// candidate that can, whether the search had wrapped around by then, and the file names
/// of the candidates passed over before it; None where no answer is yes.
pub open spec fn search_outcome(paths: Seq<Seq<char>>, cur: int, step: int, answers: Seq<bool>) -> Option<
    (Seq<char>, bool, Seq<Seq<char>>),
> {
    match first_true(answers) {
        Some(t) => Some(
            (
                paths[visit_index(cur, step, paths.len() as int, t + 1)],
                looped_by(cur, step, paths.len() as int, (t + 1) as nat),
                skipped_names(paths, cur, step, t as nat),
            ),
        ),
        None => None,
    }
}

proof fn lemma_first_true_push(answers: Seq<bool>, b: bool)
    requires
        first_true(answers) is None,
    ensures
        first_true(answers.push(b)) == (if b {
            Some(answers.len() as int)
        } else {
            None::<int>
        }),
{
    assert(answers.push(b).drop_last() =~= answers);
}

proof fn lemma_first_true(answers: Seq<bool>)
    ensures
        match first_true(answers) {
            Some(t) => 0 <= t < answers.len() && answers[t] && forall|i: int| 0 <= i < t ==> !answers[i],
            None => forall|i: int| 0 <= i < answers.len() ==> !answers[i],
        },
    decreases answers.len(),
{
    if answers.len() > 0 {
        let d = answers.drop_last();
        lemma_first_true(d);
        assert forall|i: int| 0 <= i < d.len() implies d[i] == answers[i] by {}
    }
}

/// The search ends with the first candidate answered yes: its outcome is there exactly
/// when some answer is yes; then, with `t + 1` the step of the first yes, every earlier
/// answer is no, the path found is the candidate of that step, the wrap-around is judged
/// up to that step, and the names passed over are those of the steps before it.
pub proof fn law_search_outcome(paths: Seq<Seq<char>>, cur: int, step: int, answers: Seq<bool>)
    ensures
        search_outcome(paths, cur, step, answers) is None <==> forall|i: int|
            0 <= i < answers.len() ==> !answers[i],
        forall|t: int|
            0 <= t < answers.len() && answers[t] && (forall|i: int| 0 <= i < t ==> !answers[i])
                ==> search_outcome(paths, cur, step, answers) == Some(
                (
                    paths[visit_index(cur, step, paths.len() as int, t + 1)],
                    looped_by(cur, step, paths.len() as int, (t + 1) as nat),
                    skipped_names(paths, cur, step, t as nat),
                ),
            ),
{
    lemma_first_true(answers);
    assert forall|t: int|
        0 <= t < answers.len() && answers[t] && (forall|i: int| 0 <= i < t ==> !answers[i])
            implies first_true(answers) == Some(t) by {
        match first_true(answers) {
            Some(u) => {
                if u < t {
                    assert(!answers[u]);
                }
                if t < u {
                    assert(!answers[t]);
                }
            },
            None => {
                assert(!answers[t]);
            },
        }
    }
    if search_outcome(paths, cur, step, answers) is None {
        assert(first_true(answers) is None);
    } else {
        let t = first_true(answers)->0;
        assert(answers[t]);
    }
}

proof fn lemma_looped_forward(cur: int, len: int, t: nat)
    requires
        0 <= cur < len,
        t <= len,
    ensures
        looped_by(cur, 1, len, t) <==> (cur > 0 && cur + t >= len),
    decreases t,
{
    if t > 0 {
        lemma_looped_forward(cur, len, (t - 1) as nat);
        let k = t as int;
        assert(k * 1 == k);
        if cur + k < len {
            lemma_small_mod((cur + k) as nat, len as nat);
        } else {
            let b = cur + k - len;
            lemma_mod_add_multiples_vanish(b, len);
            assert(len + b == cur + k);
            lemma_small_mod(b as nat, len as nat);
        }
    }
}

proof fn lemma_looped_backward(cur: int, len: int, t: nat)
    requires
        0 <= cur < len,
        t <= len,
    ensures
        looped_by(cur, -1, len, t) <==> (cur + 1 < len && t > cur),
    decreases t,
{
    if t > 0 {
        lemma_looped_backward(cur, len, (t - 1) as nat);
        let k = t as int;
        assert(k * -1 == -k);
        if k <= cur {
            lemma_small_mod((cur - k) as nat, len as nat);
        } else {
            let b = cur - k;
            lemma_mod_add_multiples_vanish(b, len);
            lemma_small_mod((len + b) as nat, len as nat);
        }
    }
}

/// When a one-step search has wrapped around: moving forward from entry `cur` of `len`,
/// once the steps taken pass the last entry (and the start was not the first entry);
/// moving backward, once they pass the first entry (and the start was not the last entry).
pub proof fn law_wrap_around(cur: int, len: int, t: nat)
    requires
        0 <= cur < len,
        t <= len,
    ensures
        looped_by(cur, 1, len, t) <==> (cur > 0 && cur + t >= len),
        looped_by(cur, -1, len, t) <==> (cur + 1 < len && t > cur),
{
    lemma_looped_forward(cur, len, t);
    lemma_looped_backward(cur, len, t);
}

proof fn lemma_visit_next(cur: int, step: int, len: int, k: int)
    requires
        len > 0,
    ensures
        (visit_index(cur, step, len, k) + step + len) % len == visit_index(cur, step, len, k + 1),
{
    let a = cur + k * step;
    assert((k + 1) * step == k * step + step) by (nonlinear_arith);
    lemma_mod_add_multiples_vanish(a % len + step, len);
    assert(len + (a % len + step) == a % len + step + len);
    lemma_add_mod_noop_right(step, a, len);
    assert(step + a % len == a % len + step);
    assert(step + a == cur + (k + 1) * step);
}

/// A search for the neighbour of one entry. It hands out candidates one at a time;
/// each is answered by `resolve`.
pub struct NeighborSearch {
    paths: Vec<String>,
    current_idx: usize,
    step: i32,
    check_idx: usize,
    visited: usize,
    looped: bool,
    skipped_folders: Vec<String>,
    answers: Ghost<Seq<bool>>,
}

impl NeighborSearch {
    /// The listed paths.
    pub closed spec fn paths(&self) -> Seq<String> {
        self.paths@
    }

    /// Position of the entry the search started from.
    pub closed spec fn current(&self) -> int {
        self.current_idx as int
    }

    /// How far each step moves.
    pub closed spec fn step(&self) -> int {
        self.step as int
    }

    /// Position of the last candidate handed out (the start before any).
    pub closed spec fn checking(&self) -> int {
        self.check_idx as int
    }

    /// How many candidates were handed out.
    pub closed spec fn visited(&self) -> nat {
        self.visited as nat
    }

    /// Whether the search has wrapped around.
    pub closed spec fn looped(&self) -> bool {
        self.looped
    }

    /// The answers given so far, one per candidate in the order handed out.
    pub closed spec fn answers(&self) -> Seq<bool> {
        self.answers@
    }

    /// Names of the candidates passed over so far.
    pub closed spec fn skipped(&self) -> Seq<Seq<char>> {
        names_view(self.skipped_folders@)
    }

    /// The search's counters agree with the listing and with each other.
    pub closed spec fn wf(&self) -> bool {
        let len = self.paths@.len() as int;
        &&& step_fits(self.step as int, len)
        &&& self.current_idx < len
        &&& self.visited <= len
        &&& self.check_idx == visit_index(
            self.current_idx as int,
            self.step as int,
            len,
            self.visited as int,
        )
        &&& self.looped == looped_by(self.current_idx as int, self.step as int, len, self.visited as nat)
        &&& self.answers@.len() <= self.visited <= self.answers@.len() + 1
        &&& first_true(self.answers@) is None ==> names_view(self.skipped_folders@) == skipped_names(
            names_view(self.paths@),
            self.current_idx as int,
            self.step as int,
            self.answers@.len() as nat,
        )
    }

    /// The next candidate's path: the entry `step` places after the last one, wrapping
    /// around. None once as many candidates as entries were handed out.
    pub fn next_candidate(&mut self) -> (r: Option<String>)
        requires
            old(self).wf(),
            old(self).answers().len() == old(self).visited(),
        ensures
            final(self).wf(),
            final(self).answers() == old(self).answers(),
            final(self).paths() == old(self).paths(),
            final(self).current() == old(self).current(),
            final(self).step() == old(self).step(),
            final(self).skipped() == old(self).skipped(),
            old(self).visited() >= old(self).paths().len() ==> r is None && final(self).visited()
                == old(self).visited(),
            old(self).visited() < old(self).paths().len() ==> {
                &&& final(self).visited() == old(self).visited() + 1
                &&& final(self).checking() == visit_index(
                    old(self).current(),
                    old(self).step(),
                    old(self).paths().len() as int,
                    final(self).visited() as int,
                )
                &&& r is Some && r.unwrap()@ == old(self).paths()[final(self).checking()]@
            },
    {
        let len = self.paths.len();
        if self.visited >= len {
            return None;
        }
        proof {
            lemma_visit_next(
                self.current_idx as int,
                self.step as int,
                len as int,
                self.visited as int,
            );
        }
        let len_i: i32 = len as i32;
        let next: i32 = (self.check_idx as i32 + self.step + len_i) % len_i;
        self.check_idx = next as usize;
        self.visited = self.visited + 1;
        let cur: i32 = self.current_idx as i32;
        if self.step > 0 && next < cur {
            self.looped = true;
        } else if self.step < 0 && next > cur {
            self.looped = true;
        }
        Some(self.paths[self.check_idx].clone())
    }

    /// Answers the last candidate: one that can be opened ends the search with it; one
    /// that cannot is passed over, its file name noted.
    pub fn resolve(&mut self, valid: bool) -> (r: Option<NavigationResult>)
        requires
            old(self).wf(),
            old(self).visited() == old(self).answers().len() + 1,
            first_true(old(self).answers()) is None,
        ensures
            final(self).wf(),
            final(self).answers() == old(self).answers().push(valid),
            match search_outcome(
                names_view(old(self).paths()),
                old(self).current(),
                old(self).step(),
                final(self).answers(),
            ) {
                Some((path, looped, skipped)) => r is Some && r.unwrap().path@ == path
                    && r.unwrap().looped == looped && names_view(r.unwrap().skipped_folders@)
                    == skipped,
                None => r is None,
            },
            final(self).paths() == old(self).paths(),
            final(self).current() == old(self).current(),
            final(self).step() == old(self).step(),
            final(self).visited() == old(self).visited(),
            final(self).checking() == old(self).checking(),
            valid ==> r is Some && r.unwrap().path@ == old(self).paths()[old(self).checking()]@
                && r.unwrap().looped == old(self).looped() && names_view(r.unwrap().skipped_folders@)
                == old(self).skipped(),
            !valid ==> r is None && final(self).skipped() == match path_file_name(
                old(self).paths()[old(self).checking()]@,
            ) {
                Some(n) => old(self).skipped().push(n),
                None => old(self).skipped(),
            },
    {
        let ghost old_answers = self.answers@;
        proof {
            lemma_first_true_push(old_answers, valid);
            self.answers = Ghost(old_answers.push(valid));
        }
        if valid {
            let mut skipped: Vec<String> = Vec::new();
            std::mem::swap(&mut skipped, &mut self.skipped_folders);
            let r = NavigationResult {
                path: self.paths[self.check_idx].clone(),
                looped: self.looped,
                skipped_folders: skipped,
            };
            return Some(r);
        }
        match file_name_of(self.paths[self.check_idx].as_str()) {
            Some(name) => {
                self.skipped_folders.push(name);
                assert(names_view(self.skipped_folders@) =~= names_view(
                    old(self).skipped_folders@,
                ).push(name@));
            },
            None => {},
        }
        None
    }
}

/// Position of the first entry whose normalized path is `norm`.
fn first_position(entries: &Vec<ListedEntry>, norm: &str) -> (r: Option<usize>)
    ensures
        match r {
            Some(i) => is_first_position(entries@, norm@, i as int),
            None => forall|i: int| !is_first_position(entries@, norm@, i),
        },
{
    let mut idx: usize = 0;
    while idx < entries.len()
        invariant
            idx <= entries@.len(),
            forall|k: int| 0 <= k < idx ==> entries@[k].0@ != norm@,
        decreases entries@.len() - idx,
    {
        if str_equals(entries[idx].0.as_str(), norm) {
            return Some(idx);
        }
        idx = idx + 1;
    }
    proof {
        assert forall|i: int| !is_first_position(entries@, norm@, i) by {
            if 0 <= i < entries@.len() {
                assert(entries@[i].0@ != norm@);
            }
        }
    }
    None
}

impl ArchiveNavigator {
    /// The cached listing: the normalized directory, its entries in order, and the order used.
    pub closed spec fn listing(&self) -> Option<(Seq<char>, Seq<ListedEntry>, ArchiveSortingMode)> {
        match self.cached_entries {
            Some((d, es, m)) => Some((d@, es@, m)),
            None => None,
        }
    }

    /// The number of entries in the listing kept, if any.
    pub fn listing_len(&self) -> (r: Option<usize>)
        ensures
            match self.listing() {
                Some((_, es, _)) => r == Some(es.len() as usize),
                None => r is None,
            },
    {
        match &self.cached_entries {
            Some((_, entries, _)) => Some(entries.len()),
            None => None,
        }
    }

    /// A navigator with no listing.
    pub fn new() -> (r: Self)
        ensures
            r.listing() is None,
    {
        ArchiveNavigator { cached_entries: None }
    }

    /// Forgets the listing, so that the next navigation reads the directory again.
    pub fn invalidate_cache(&mut self)
        ensures
            final(self).listing() is None,
    {
        self.cached_entries = None;
    }

    /// Whether the directory `dir_norm` must be listed (again) for `sort_mode`: unless the
    /// listing kept is of that directory in that order.
    pub fn needs_listing(&self, dir_norm: &str, sort_mode: ArchiveSortingMode) -> (r: bool)
        ensures
            r == !(self.listing() matches Some((d, _, m)) && d == dir_norm@ && m == sort_mode),
    {
        match &self.cached_entries {
            Some((cached_dir, _, cached_mode)) => !(str_equals(cached_dir.as_str(), dir_norm)
                && *cached_mode == sort_mode),
            None => true,
        }
    }

    /// Keeps the listing of directory `dir_norm`, sorted by `sort_mode`.
    pub fn store_listing(
        &mut self,
        dir_norm: String,
        entries: Vec<ListedEntry>,
        sort_mode: ArchiveSortingMode,
    )
        ensures
            final(self).listing() == Some((dir_norm@, entries@, sort_mode)),
    {
        self.cached_entries = Some((dir_norm, entries, sort_mode));
    }

    /// Starts the search for the neighbour of the entry whose normalized path is
    /// `current_norm`, moving by `step`. None where there is no listing, the listing is
    /// empty, or the entry is not in it.
    pub fn find_neighbor(&self, current_norm: &str, step: i32) -> (r: Option<NeighborSearch>)
        requires
            match self.listing() {
                Some((_, es, _)) => es.len() > 0 ==> step_fits(step as int, es.len() as int),
                None => true,
            },
        ensures
            r is Some <==> (self.listing() matches Some((_, es, _)) && exists|i: int|
                is_first_position(es, current_norm@, i)),
            r matches Some(s) ==> {
                &&& s.wf()
                &&& self.listing() matches Some((_, es, _)) && is_first_position(
                    es,
                    current_norm@,
                    s.current(),
                ) && names_view(s.paths()) == listed_paths(es)
                &&& s.step() == step
                &&& s.visited() == 0
                &&& !s.looped()
                &&& s.skipped().len() == 0
                &&& s.answers().len() == 0
            },
    {
        match &self.cached_entries {
            None => None,
            Some((_, entries, _)) => {
                let n = entries.len();
                if n == 0 {
                    return None;
                }
                let idx = match first_position(entries, current_norm) {
                    Some(i) => i,
                    None => {
                        return None;
                    },
                };
                let mut paths: Vec<String> = Vec::new();
                let mut j: usize = 0;
                while j < n
                    invariant
                        n == entries@.len(),
                        j <= n,
                        paths@.len() == j,
                        forall|k: int| 0 <= k < j ==> (#[trigger] paths@[k])@ == entries@[k].1@,
                    decreases n - j,
                {
                    paths.push(entries[j].1.clone());
                    j = j + 1;
                }
                proof {
                    assert(names_view(paths@) =~= listed_paths(entries@));
                }
                let s = NeighborSearch {
                    paths,
                    current_idx: idx,
                    step,
                    check_idx: idx,
                    visited: 0,
                    looped: false,
                    skipped_folders: Vec::new(),
                    answers: Ghost(Seq::empty()),
                };
                proof {
                    assert(visit_index(idx as int, step as int, n as int, 0) == idx) by {
                        assert(0 * step == 0);
                        lemma_small_mod(idx as nat, n as nat);
                    }
                    assert(s.skipped() =~= Seq::<Seq<char>>::empty());
                }
                Some(s)
            },
        }
    }
}

} // verus!
