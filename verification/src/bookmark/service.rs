//! The list of bookmarks: newest first, with limits per kind.
use super::model::{BookmarkEntry, BookmarkSource};
use crate::paths::{path_equal, paths_equal};
use vstd::prelude::*;

verus! {

pub const MAX_TOTAL: usize = 20;

pub const MAX_AUTO_RECENT: usize = 5;

pub const MAX_MANUAL: usize = 15;

/// Why a bookmark was not added.
#[derive(Debug, Clone, Copy, PartialEq, Eq, Structural)]
pub enum BookmarkError {
    /// There are already `MAX_MANUAL` manual bookmarks.
    ManualLimitExceeded,
}

/// `e` goes before every entry of `r` that is older, after the others.
pub open spec fn insert_desc(r: Seq<BookmarkEntry>, e: BookmarkEntry) -> Seq<BookmarkEntry>
    decreases r.len(),
{
    if r.len() == 0 {
        seq![e]
    } else if r[0].saved_at_ms < e.saved_at_ms {
        seq![e] + r
    } else {
        seq![r[0]] + insert_desc(r.drop_first(), e)
    }
}

/// The entries ordered newest first; entries saved at the same time keep their order.
pub open spec fn sort_desc(s: Seq<BookmarkEntry>) -> Seq<BookmarkEntry>
    decreases s.len(),
{
    if s.len() == 0 {
        Seq::empty()
    } else {
        insert_desc(sort_desc(s.drop_last()), s.last())
    }
}

/// Whether the entries are ordered newest first.
pub open spec fn sorted_desc(s: Seq<BookmarkEntry>) -> bool {
    forall|i: int, j: int| 0 <= i < j < s.len() ==> s[i].saved_at_ms >= s[j].saved_at_ms
}

/// The entries made in the given way, in order.
pub open spec fn of_source(s: Seq<BookmarkEntry>, src: BookmarkSource) -> Seq<BookmarkEntry>
    decreases s.len(),
{
    if s.len() == 0 {
        Seq::empty()
    } else {
        (if s[0].source == src {
            seq![s[0]]
        } else {
            Seq::empty()
        }) + of_source(s.drop_first(), src)
    }
}

/// How many entries were made in the given way.
pub open spec fn count_source(s: Seq<BookmarkEntry>, src: BookmarkSource) -> nat {
    of_source(s, src).len()
}

/// Whether `x` marks the same place as `e`: same kind, same path, same page.
pub open spec fn same_slot(x: BookmarkEntry, e: BookmarkEntry) -> bool {
    x.source == e.source && path_equal(x.path@, e.path@) && x.page_index == e.page_index
}

/// The entries that do not mark the same place as `e`, in order.
pub open spec fn without_slot(s: Seq<BookmarkEntry>, e: BookmarkEntry) -> Seq<BookmarkEntry>
    decreases s.len(),
{
    if s.len() == 0 {
        Seq::empty()
    } else {
        (if same_slot(s[0], e) {
            Seq::empty()
        } else {
            seq![s[0]]
        }) + without_slot(s.drop_first(), e)
    }
}

/// The entries whose id is not `id`, in order.
pub open spec fn without_id(s: Seq<BookmarkEntry>, id: u64) -> Seq<BookmarkEntry>
    decreases s.len(),
{
    if s.len() == 0 {
        Seq::empty()
    } else {
        (if s[0].id == id {
            Seq::empty()
        } else {
            seq![s[0]]
        }) + without_id(s.drop_first(), id)
    }
}

/// The list after `e` replaces the entry of the same place, newest first.
pub open spec fn upserted(s: Seq<BookmarkEntry>, e: BookmarkEntry) -> Seq<BookmarkEntry> {
    sort_desc(without_slot(s, e).push(e))
}

/// The list cut to the newest `MAX_AUTO_RECENT` automatic and `MAX_MANUAL` manual
/// entries, and to `MAX_TOTAL` entries in all, newest first.
pub open spec fn limited(s: Seq<BookmarkEntry>) -> Seq<BookmarkEntry> {
    let sorted = sort_desc(s);
    let auto = of_source(sorted, BookmarkSource::AutoRecent).take(
        min_len(of_source(sorted, BookmarkSource::AutoRecent), MAX_AUTO_RECENT as int),
    );
    let manual = of_source(sorted, BookmarkSource::Manual).take(
        min_len(of_source(sorted, BookmarkSource::Manual), MAX_MANUAL as int),
    );
    let merged = sort_desc(auto + manual);
    merged.take(min_len(merged, MAX_TOTAL as int))
}

/// The smaller of `n` and the length of `s`.
pub open spec fn min_len(s: Seq<BookmarkEntry>, n: int) -> int {
    if s.len() < n {
        s.len() as int
    } else {
        n
    }
}

/// The entry as stored after it is added in the given way with the given id.
pub open spec fn issued(e: BookmarkEntry, id: u64, src: BookmarkSource) -> BookmarkEntry {
    BookmarkEntry { id, source: src, ..e }
}

// ---------------------------------------------------------------------------
// Lemmas on the order and the counts
proof fn lemma_insert_desc_count(r: Seq<BookmarkEntry>, e: BookmarkEntry, src: BookmarkSource)
    ensures
        insert_desc(r, e).len() == r.len() + 1,
        count_source(insert_desc(r, e), src) == count_source(r, src) + (if e.source == src {
            1nat
        } else {
            0nat
        }),
    decreases r.len(),
{
    let out = insert_desc(r, e);
    lemma_of_source_single(e, src);
    if r.len() == 0 {
        assert(out =~= seq![e]);
        assert(of_source(r, src) == Seq::<BookmarkEntry>::empty());
    } else if r[0].saved_at_ms < e.saved_at_ms {
        lemma_of_source_append(seq![e], r, src);
    } else {
        let rest = insert_desc(r.drop_first(), e);
        lemma_insert_desc_count(r.drop_first(), e, src);
        lemma_of_source_single(r[0], src);
        lemma_of_source_append(seq![r[0]], rest, src);
        lemma_of_source_append(seq![r[0]], r.drop_first(), src);
        assert(seq![r[0]] + r.drop_first() =~= r);
    }
}

proof fn lemma_insert_desc_members(r: Seq<BookmarkEntry>, e: BookmarkEntry)
    ensures
        forall|k: int| #![auto] 0 <= k < insert_desc(r, e).len() ==> insert_desc(r, e)[k] == e
            || r.contains(insert_desc(r, e)[k]),
        insert_desc(r, e).contains(e),
    decreases r.len(),
{
    let out = insert_desc(r, e);
    if r.len() == 0 {
        assert(out[0] == e);
    } else if r[0].saved_at_ms < e.saved_at_ms {
        assert(out[0] == e);
        assert forall|k: int| #![auto] 0 <= k < out.len() implies out[k] == e || r.contains(
            out[k],
        ) by {
            if k > 0 {
                assert(out[k] == r[k - 1]);
            }
        }
    } else {
        let rest = insert_desc(r.drop_first(), e);
        lemma_insert_desc_members(r.drop_first(), e);
        assert(out == seq![r[0]] + rest);
        assert forall|k: int| #![auto] 0 <= k < out.len() implies out[k] == e || r.contains(
            out[k],
        ) by {
            if k == 0 {
                assert(r[0] == out[0]);
            } else {
                assert(out[k] == rest[k - 1]);
                if rest[k - 1] != e {
                    let m = choose|m: int|
                        0 <= m < r.drop_first().len() && r.drop_first()[m] == rest[k - 1];
                    assert(r[m + 1] == out[k]);
                }
            }
        }
        let m = choose|m: int| 0 <= m < rest.len() && rest[m] == e;
        assert(out[m + 1] == e);
    }
}

proof fn lemma_insert_desc_sorted(r: Seq<BookmarkEntry>, e: BookmarkEntry)
    requires
        sorted_desc(r),
    ensures
        sorted_desc(insert_desc(r, e)),
    decreases r.len(),
{
    let out = insert_desc(r, e);
    if r.len() == 0 {
    } else if r[0].saved_at_ms < e.saved_at_ms {
        assert forall|i: int, j: int| 0 <= i < j < out.len() implies out[i].saved_at_ms
            >= out[j].saved_at_ms by {
            assert(out[j] == r[j - 1]);
            if i > 0 {
                assert(out[i] == r[i - 1]);
            }
        }
    } else {
        let rest = insert_desc(r.drop_first(), e);
        assert(sorted_desc(r.drop_first()));
        lemma_insert_desc_sorted(r.drop_first(), e);
        lemma_insert_desc_members(r.drop_first(), e);
        assert(out == seq![r[0]] + rest);
        assert forall|i: int, j: int| 0 <= i < j < out.len() implies out[i].saved_at_ms
            >= out[j].saved_at_ms by {
            assert(out[j] == rest[j - 1]);
            if i == 0 {
                if rest[j - 1] != e {
                    let m = choose|m: int|
                        0 <= m < r.drop_first().len() && r.drop_first()[m] == rest[j - 1];
                    assert(r[m + 1] == rest[j - 1]);
                }
            } else {
                assert(out[i] == rest[i - 1]);
            }
        }
    }
}

proof fn lemma_insert_desc_facts(r: Seq<BookmarkEntry>, e: BookmarkEntry, src: BookmarkSource)
    ensures
        insert_desc(r, e).len() == r.len() + 1,
        count_source(insert_desc(r, e), src) == count_source(r, src) + (if e.source == src {
            1nat
        } else {
            0nat
        }),
        sorted_desc(r) ==> sorted_desc(insert_desc(r, e)),
        forall|k: int| #![auto] 0 <= k < insert_desc(r, e).len() ==> insert_desc(r, e)[k] == e
            || r.contains(insert_desc(r, e)[k]),
        insert_desc(r, e).contains(e),
{
    lemma_insert_desc_count(r, e, src);
    lemma_insert_desc_members(r, e);
    if sorted_desc(r) {
        lemma_insert_desc_sorted(r, e);
    }
}

proof fn lemma_sort_desc_facts(s: Seq<BookmarkEntry>, src: BookmarkSource)
    ensures
        sort_desc(s).len() == s.len(),
        count_source(sort_desc(s), src) == count_source(s, src),
        sorted_desc(sort_desc(s)),
    decreases s.len(),
{
    if s.len() > 0 {
        lemma_sort_desc_facts(s.drop_last(), src);
        lemma_insert_desc_facts(sort_desc(s.drop_last()), s.last(), src);
        lemma_of_source_push(s.drop_last(), s.last(), src);
        assert(s.drop_last().push(s.last()) =~= s);
    }
}

proof fn lemma_of_source_append(a: Seq<BookmarkEntry>, b: Seq<BookmarkEntry>, src: BookmarkSource)
    ensures
        of_source(a + b, src) == of_source(a, src) + of_source(b, src),
    decreases a.len(),
{
    if a.len() == 0 {
        assert(a + b =~= b);
        assert(of_source(a, src) + of_source(b, src) =~= of_source(b, src));
    } else {
        lemma_of_source_append(a.drop_first(), b, src);
        assert((a + b).drop_first() =~= a.drop_first() + b);
        assert((a + b)[0] == a[0]);
        let h = if a[0].source == src {
            seq![a[0]]
        } else {
            Seq::<BookmarkEntry>::empty()
        };
        assert(of_source(a + b, src) == h + of_source(a.drop_first() + b, src));
        assert(of_source(a + b, src) =~= h + of_source(a.drop_first(), src) + of_source(b, src));
    }
}

proof fn lemma_of_source_single(e: BookmarkEntry, src: BookmarkSource)
    ensures
        count_source(seq![e], src) == (if e.source == src {
            1nat
        } else {
            0nat
        }),
{
    let t = seq![e].drop_first();
    assert(t =~= Seq::<BookmarkEntry>::empty());
    assert(of_source(t, src) == Seq::<BookmarkEntry>::empty());
    assert(seq![e][0] == e);
}

proof fn lemma_of_source_push(a: Seq<BookmarkEntry>, e: BookmarkEntry, src: BookmarkSource)
    ensures
        count_source(a.push(e), src) == count_source(a, src) + (if e.source == src {
            1nat
        } else {
            0nat
        }),
{
    lemma_of_source_append(a, seq![e], src);
    assert(a.push(e) =~= a + seq![e]);
    lemma_of_source_single(e, src);
}

proof fn lemma_of_source_facts(s: Seq<BookmarkEntry>, src: BookmarkSource, other: BookmarkSource)
    ensures
        of_source(s, src).len() <= s.len(),
        other != src ==> count_source(of_source(s, src), other) == 0,
        sorted_desc(s) ==> sorted_desc(of_source(s, src)),
        forall|k: int| #![auto] 0 <= k < of_source(s, src).len() ==> s.contains(of_source(s, src)[k])
            && of_source(s, src)[k].source == src,
    decreases s.len(),
{
    if s.len() > 0 {
        let rest = s.drop_first();
        lemma_of_source_facts(rest, src, other);
        let h = if s[0].source == src {
            seq![s[0]]
        } else {
            Seq::<BookmarkEntry>::empty()
        };
        let out = of_source(s, src);
        assert(out == h + of_source(rest, src));
        assert forall|k: int| #![auto] 0 <= k < out.len() implies s.contains(out[k]) && out[k].source
            == src by {
            if k < h.len() {
                assert(out[k] == s[0]);
            } else {
                assert(out[k] == of_source(rest, src)[k - h.len()]);
                let m = choose|m: int| 0 <= m < rest.len() && rest[m] == out[k];
                assert(s[m + 1] == out[k]);
            }
        }
        if other != src {
            lemma_of_source_append(h, of_source(rest, src), other);
            if h.len() == 1 {
                lemma_of_source_single(s[0], other);
            } else {
                assert(h =~= Seq::<BookmarkEntry>::empty());
            }
        }
        if sorted_desc(s) {
            assert(sorted_desc(rest));
            assert forall|i: int, j: int| 0 <= i < j < out.len() implies out[i].saved_at_ms
                >= out[j].saved_at_ms by {
                let b = of_source(rest, src);
                if i < h.len() {
                    assert(out[j] == b[j - 1]);
                    let m = choose|m: int| 0 <= m < rest.len() && rest[m] == b[j - 1];
                    assert(s[m + 1] == b[j - 1]);
                } else {
                    assert(out[i] == b[i - h.len()]);
                    assert(out[j] == b[j - h.len()]);
                }
            }
        }
    }
}

proof fn lemma_count_take(s: Seq<BookmarkEntry>, n: int, src: BookmarkSource)
    requires
        0 <= n <= s.len(),
    ensures
        count_source(s.take(n), src) <= count_source(s, src),
        count_source(s, src) <= s.len(),
{
    lemma_of_source_append(s.take(n), s.skip(n), src);
    assert(s.take(n) + s.skip(n) =~= s);
    lemma_of_source_facts(s, src, src);
}

/// Counts, order and size of a limited list.
proof fn lemma_limited_facts(s: Seq<BookmarkEntry>)
    ensures
        sorted_desc(limited(s)),
        count_source(limited(s), BookmarkSource::AutoRecent) <= MAX_AUTO_RECENT,
        count_source(limited(s), BookmarkSource::Manual) <= MAX_MANUAL,
        limited(s).len() <= MAX_TOTAL,
{
    let a_src = BookmarkSource::AutoRecent;
    let m_src = BookmarkSource::Manual;
    let sorted = sort_desc(s);
    let all_auto = of_source(sorted, a_src);
    let all_manual = of_source(sorted, m_src);
    let auto = all_auto.take(min_len(all_auto, MAX_AUTO_RECENT as int));
    let manual = all_manual.take(min_len(all_manual, MAX_MANUAL as int));
    let merged = sort_desc(auto + manual);
    let out = merged.take(min_len(merged, MAX_TOTAL as int));
    lemma_of_source_facts(sorted, a_src, m_src);
    lemma_of_source_facts(sorted, m_src, a_src);
    lemma_count_take(all_auto, min_len(all_auto, MAX_AUTO_RECENT as int), m_src);
    lemma_count_take(all_auto, min_len(all_auto, MAX_AUTO_RECENT as int), a_src);
    lemma_count_take(all_manual, min_len(all_manual, MAX_MANUAL as int), a_src);
    lemma_count_take(all_manual, min_len(all_manual, MAX_MANUAL as int), m_src);
    lemma_of_source_append(auto, manual, a_src);
    lemma_of_source_append(auto, manual, m_src);
    lemma_of_source_facts(auto, a_src, a_src);
    lemma_of_source_facts(manual, m_src, m_src);
    lemma_sort_desc_facts(auto + manual, a_src);
    lemma_sort_desc_facts(auto + manual, m_src);
    lemma_count_take(merged, min_len(merged, MAX_TOTAL as int), a_src);
    lemma_count_take(merged, min_len(merged, MAX_TOTAL as int), m_src);
}

/// Sorting, stored state and ids of the bookmark list.
pub struct BookmarkService {
    entries: Vec<BookmarkEntry>,
    next_id: u64,
}

impl Default for BookmarkService {
    /// An empty list whose next id is 0.
    fn default() -> (service: Self)
        ensures
            service.wf(),
            service@ == Seq::<BookmarkEntry>::empty(),
            service.next_issue() == 0,
    {
        BookmarkService { entries: Vec::new(), next_id: 0 }
    }
}

impl View for BookmarkService {
    type V = Seq<BookmarkEntry>;

    closed spec fn view(&self) -> Seq<BookmarkEntry> {
        self.entries@
    }
}

impl BookmarkService {
    /// The id the next added bookmark gets.
    pub closed spec fn next_issue(&self) -> u64 {
        self.next_id
    }

    /// The list is newest first and every id in it was issued before `next_issue`.
    pub open spec fn wf(&self) -> bool {
        &&& sorted_desc(self@)
        &&& forall|i: int| 0 <= i < self@.len() ==> (#[trigger] self@[i]).id < self.next_issue()
    }

    /// A list holding `entries` newest first; the next id is one more than the largest id.
    pub fn from_entries(entries: Vec<BookmarkEntry>) -> (service: Self)
        requires
            forall|i: int| 0 <= i < entries@.len() ==> (#[trigger] entries@[i]).id < u64::MAX,
        ensures
            service.wf(),
            service@ == sort_desc(entries@),
            forall|i: int| 0 <= i < entries@.len() ==> (#[trigger] entries@[i]).id
                < service.next_issue(),
            entries@.len() == 0 ==> service.next_issue() == 1,
            exists|i: int| 0 <= i < entries@.len() && service.next_issue() == entries@[i].id + 1
                || (entries@.len() == 0 && service.next_issue() == 1),
    {
        let mut max_id: u64 = 0;
        let mut i: usize = 0;
        while i < entries.len()
            invariant
                i <= entries@.len(),
                forall|k: int| 0 <= k < i ==> (#[trigger] entries@[k]).id <= max_id,
                i == 0 ==> max_id == 0,
                i > 0 ==> exists|k: int| 0 <= k < i && entries@[k].id == max_id,
                forall|k: int| 0 <= k < entries@.len() ==> (#[trigger] entries@[k]).id < u64::MAX,
            decreases entries@.len() - i,
        {
            if i == 0 || entries[i].id > max_id {
                max_id = entries[i].id;
            }
            i = i + 1;
        }
        let next_id = max_id + 1;
        let ghost input = entries@;
        let sorted = sort_recent_first(entries);
        proof {
            lemma_sort_desc_facts(input, BookmarkSource::Manual);
            lemma_sort_keeps_entries(input);
        }
        BookmarkService { entries: sorted, next_id }
    }

    /// The id the next added bookmark gets.
    pub fn next_id(&self) -> (r: u64)
        ensures
            r == self.next_issue(),
    {
        self.next_id
    }

    /// The bookmarks, newest first.
    pub fn entries(&self) -> (r: &[BookmarkEntry])
        ensures
            r@ == self@,
    {
        self.entries.as_slice()
    }

    /// Adds a manual bookmark, unless there are already `MAX_MANUAL` of them.
    ///
    /// The entry gets the next id and replaces a manual bookmark of the same path and
    /// page; the list is then cut to its limits, newest first.
    pub fn add_manual(&mut self, entry: BookmarkEntry) -> (r: Result<(), BookmarkError>)
        requires
            old(self).wf(),
            old(self).next_issue() < u64::MAX,
        ensures
            final(self).wf(),
            r is Err <==> count_source(old(self)@, BookmarkSource::Manual) >= MAX_MANUAL,
            r is Err ==> final(self)@ == old(self)@ && final(self).next_issue()
                == old(self).next_issue(),
            r is Ok ==> final(self)@ == limited(
                upserted(old(self)@, issued(entry, old(self).next_issue(), BookmarkSource::Manual)),
            ) && final(self).next_issue() == old(self).next_issue() + 1,
    {
        let mut manual_count: usize = 0;
        let mut i: usize = 0;
        while i < self.entries.len()
            invariant
                i <= self.entries@.len(),
                manual_count == count_source(self.entries@.take(i as int), BookmarkSource::Manual),
            decreases self.entries@.len() - i,
        {
            proof {
                lemma_of_source_push(
                    self.entries@.take(i as int),
                    self.entries@[i as int],
                    BookmarkSource::Manual,
                );
                assert(self.entries@.take(i + 1) =~= self.entries@.take(i as int).push(
                    self.entries@[i as int],
                ));
                lemma_count_take(self.entries@, i as int, BookmarkSource::Manual);
                lemma_count_take(self.entries@.take(i as int), i as int, BookmarkSource::Manual);
            }
            if self.entries[i].source == BookmarkSource::Manual {
                manual_count = manual_count + 1;
            }
            i = i + 1;
        }
        assert(self.entries@.take(i as int) =~= self.entries@);
        if manual_count >= MAX_MANUAL {
            return Err(BookmarkError::ManualLimitExceeded);
        }
        let mut entry = entry;
        entry.id = self.issue_id();
        entry.source = BookmarkSource::Manual;
        self.upsert_recent(entry);
        self.enforce_limits();
        Ok(())
    }

    /// Adds an automatic bookmark with the next id, replacing the automatic bookmark of
    /// the same path and page, and cuts the list to its limits, newest first.
    pub fn add_auto_recent(&mut self, entry: BookmarkEntry)
        requires
            old(self).wf(),
            old(self).next_issue() < u64::MAX,
        ensures
            final(self).wf(),
            final(self)@ == limited(
                upserted(
                    old(self)@,
                    issued(entry, old(self).next_issue(), BookmarkSource::AutoRecent),
                ),
            ),
            final(self).next_issue() == old(self).next_issue() + 1,
    {
        let mut entry = entry;
        entry.id = self.issue_id();
        entry.source = BookmarkSource::AutoRecent;
        self.upsert_recent(entry);
        self.enforce_limits();
    }

    /// Removes the bookmarks with the given id.
    pub fn remove(&mut self, id: u64)
        requires
            old(self).wf(),
        ensures
            final(self).wf(),
            final(self)@ == without_id(old(self)@, id),
            final(self).next_issue() == old(self).next_issue(),
    {
        let ghost before = self.entries@;
        let mut rest: Vec<BookmarkEntry> = Vec::new();
        std::mem::swap(&mut rest, &mut self.entries);
        let mut kept: Vec<BookmarkEntry> = Vec::new();
        assert(before.skip(0) =~= before);
        while rest.len() > 0
            invariant
                kept@ + without_id(rest@, id) == without_id(before, id),
                forall|k: int| 0 <= k < rest@.len() ==> #[trigger] rest@[k] == before[before.len()
                    - rest@.len() + k],
                rest@.len() <= before.len(),
            decreases rest@.len(),
        {
            let ghost r = rest@;
            let e = rest.remove(0);
            assert(r.drop_first() =~= rest@);
            if e.id != id {
                kept.push(e);
            }
            assert(kept@ + without_id(rest@, id) =~= without_id(before, id));
        }
        proof {
            lemma_without_id_facts(before, id);
        }
        self.entries = kept;
    }

    /// The first bookmark with the given id.
    pub fn find(&self, id: u64) -> (r: Option<&BookmarkEntry>)
        ensures
            match r {
                Some(e) => exists|i: int|
                    0 <= i < self@.len() && self@[i] == *e && e.id == id && forall|j: int|
                        0 <= j < i ==> (#[trigger] self@[j]).id != id,
                None => forall|i: int| 0 <= i < self@.len() ==> (#[trigger] self@[i]).id != id,
            },
    {
        let mut i: usize = 0;
        while i < self.entries.len()
            invariant
                i <= self.entries@.len(),
                forall|j: int| 0 <= j < i ==> (#[trigger] self.entries@[j]).id != id,
            decreases self.entries@.len() - i,
        {
            if self.entries[i].id == id {
                return Some(&self.entries[i]);
            }
            i = i + 1;
        }
        None
    }

    fn upsert_recent(&mut self, entry: BookmarkEntry)
        requires
            old(self).wf(),
            entry.id == old(self).next_issue() - 1,
            old(self).next_issue() > 0,
        ensures
            final(self)@ == upserted(old(self)@, entry),
            final(self).next_issue() == old(self).next_issue(),
            final(self).wf(),
    {
        let ghost before = self.entries@;
        let mut rest: Vec<BookmarkEntry> = Vec::new();
        std::mem::swap(&mut rest, &mut self.entries);
        let mut kept: Vec<BookmarkEntry> = Vec::new();
        assert(before.skip(0) =~= before);
        while rest.len() > 0
            invariant
                kept@ + without_slot(rest@, entry) == without_slot(before, entry),
                rest@.len() <= before.len(),
            decreases rest@.len(),
        {
            let ghost r = rest@;
            let e = rest.remove(0);
            assert(r.drop_first() =~= rest@);
            let same = e.source == entry.source && paths_equal(e.path.as_str(), entry.path.as_str())
                && e.page_index == entry.page_index;
            if !same {
                kept.push(e);
            }
            assert(kept@ + without_slot(rest@, entry) =~= without_slot(before, entry));
        }
        assert(kept@ =~= without_slot(before, entry));
        let ghost next = self.next_id;
        kept.push(entry);
        let ghost unsorted = kept@;
        self.entries = sort_recent_first(kept);
        proof {
            lemma_sort_desc_facts(unsorted, BookmarkSource::Manual);
            lemma_without_slot_subset(before, entry);
            lemma_sort_keeps_entries(unsorted);
            assert forall|i: int| 0 <= i < self@.len() implies (#[trigger] self@[i]).id
                < self.next_issue() by {
                assert(unsorted.contains(self@[i]));
                let m = choose|m: int| 0 <= m < unsorted.len() && unsorted[m] == self@[i];
                if m < unsorted.len() - 1 {
                    assert(without_slot(before, entry).contains(unsorted[m]));
                }
            }
        }
    }

    fn enforce_limits(&mut self)
        requires
            old(self).wf(),
        ensures
            final(self)@ == limited(old(self)@),
            final(self).next_issue() == old(self).next_issue(),
            final(self).wf(),
    {
        let ghost before = self.entries@;
        let mut all: Vec<BookmarkEntry> = Vec::new();
        std::mem::swap(&mut all, &mut self.entries);
        let mut rest = sort_recent_first(all);
        let ghost sorted = rest@;
        let mut auto: Vec<BookmarkEntry> = Vec::new();
        let mut manual: Vec<BookmarkEntry> = Vec::new();
        assert(sorted.skip(0) =~= sorted);
        while rest.len() > 0
            invariant
                auto@ + of_source(rest@, BookmarkSource::AutoRecent) == of_source(
                    sorted,
                    BookmarkSource::AutoRecent,
                ),
                manual@ + of_source(rest@, BookmarkSource::Manual) == of_source(
                    sorted,
                    BookmarkSource::Manual,
                ),
            decreases rest@.len(),
        {
            let ghost r = rest@;
            let e = rest.remove(0);
            assert(r.drop_first() =~= rest@);
            match e.source {
                BookmarkSource::AutoRecent => auto.push(e),
                BookmarkSource::Manual => manual.push(e),
            }
            assert(auto@ + of_source(rest@, BookmarkSource::AutoRecent) =~= of_source(
                sorted,
                BookmarkSource::AutoRecent,
            ));
            assert(manual@ + of_source(rest@, BookmarkSource::Manual) =~= of_source(
                sorted,
                BookmarkSource::Manual,
            ));
        }
        assert(auto@ =~= of_source(sorted, BookmarkSource::AutoRecent));
        assert(manual@ =~= of_source(sorted, BookmarkSource::Manual));
        let ghost all_auto = auto@;
        let ghost all_manual = manual@;
        auto.truncate(MAX_AUTO_RECENT);
        manual.truncate(MAX_MANUAL);
        assert(auto@ =~= all_auto.take(min_len(all_auto, MAX_AUTO_RECENT as int)));
        assert(manual@ =~= all_manual.take(min_len(all_manual, MAX_MANUAL as int)));
        let mut merged = auto;
        let mut m = manual;
        merged.append(&mut m);
        let mut merged = sort_recent_first(merged);
        let ghost full = merged@;
        merged.truncate(MAX_TOTAL);
        assert(merged@ =~= full.take(min_len(full, MAX_TOTAL as int)));
        self.entries = merged;
        proof {
            lemma_limited_facts(before);
            lemma_limited_keeps_ids(before);
            assert forall|i: int| 0 <= i < self@.len() implies (#[trigger] self@[i]).id
                < self.next_issue() by {
                assert(before.contains(self@[i]));
                let k = choose|k: int| 0 <= k < before.len() && before[k] == self@[i];
            }
        }
    }

    fn issue_id(&mut self) -> (id: u64)
        requires
            old(self).next_id < u64::MAX,
        ensures
            id == old(self).next_id,
            final(self).next_id == old(self).next_id + 1,
            final(self).entries == old(self).entries,
    {
        let id = self.next_id;
        self.next_id = self.next_id + 1;
        id
    }
}

/// Orders the entries newest first, keeping the order of entries saved at the same time.
fn sort_recent_first(entries: Vec<BookmarkEntry>) -> (sorted: Vec<BookmarkEntry>)
    ensures
        sorted@ == sort_desc(entries@),
{
    let ghost input = entries@;
    let n = entries.len();
    let mut rest = entries;
    let mut sorted: Vec<BookmarkEntry> = Vec::new();
    let mut done: usize = 0;
    assert(input.skip(0) =~= input);
    while rest.len() > 0
        invariant
            input.len() == n,
            done + rest@.len() == input.len(),
            rest@ == input.skip(done as int),
            sorted@ == sort_desc(input.take(done as int)),
        decreases rest@.len(),
    {
        let ghost r = rest@;
        let e = rest.remove(0);
        assert(r.drop_first() =~= input.skip(done + 1));
        assert(e == input[done as int]);
        let mut p: usize = 0;
        assert(sorted@.skip(0) =~= sorted@);
        assert(sorted@.take(0) =~= Seq::<BookmarkEntry>::empty());
        while p < sorted.len() && sorted[p].saved_at_ms >= e.saved_at_ms
            invariant
                p <= sorted@.len(),
                insert_desc(sorted@, e) == sorted@.take(p as int) + insert_desc(
                    sorted@.skip(p as int),
                    e,
                ),
            decreases sorted@.len() - p,
        {
            proof {
                let t = sorted@.skip(p as int);
                assert(t.drop_first() =~= sorted@.skip(p + 1));
                assert(sorted@.take(p + 1) =~= sorted@.take(p as int) + seq![t[0]]);
            }
            p = p + 1;
        }
        proof {
            let t = sorted@.skip(p as int);
            if p < sorted@.len() {
                assert(insert_desc(t, e) == seq![e] + t);
            } else {
                assert(t =~= Seq::<BookmarkEntry>::empty());
            }
            assert(sorted@.insert(p as int, e) =~= sorted@.take(p as int) + insert_desc(t, e));
            assert(input.take(done + 1).drop_last() =~= input.take(done as int));
            assert(input.take(done + 1).last() == e);
        }
        sorted.insert(p, e);
        done = done + 1;
    }
    assert(input.take(done as int) =~= input);
    sorted
}

proof fn lemma_sort_keeps_entries(s: Seq<BookmarkEntry>)
    ensures
        forall|k: int| #![auto] 0 <= k < sort_desc(s).len() ==> s.contains(sort_desc(s)[k]),
    decreases s.len(),
{
    if s.len() > 0 {
        lemma_sort_keeps_entries(s.drop_last());
        lemma_insert_desc_facts(sort_desc(s.drop_last()), s.last(), BookmarkSource::Manual);
        lemma_sort_desc_facts(s.drop_last(), BookmarkSource::Manual);
        let out = sort_desc(s);
        assert forall|k: int| #![auto] 0 <= k < out.len() implies s.contains(out[k]) by {
            if out[k] != s.last() {
                let r = sort_desc(s.drop_last());
                assert(r.contains(out[k]));
                let m = choose|m: int| 0 <= m < r.len() && r[m] == out[k];
                assert(s.drop_last().contains(r[m]));
                let q = choose|q: int| 0 <= q < s.drop_last().len() && s.drop_last()[q] == r[m];
                assert(s[q] == out[k]);
            } else {
                assert(s[s.len() - 1] == out[k]);
            }
        }
    }
}

proof fn lemma_without_slot_subset(s: Seq<BookmarkEntry>, e: BookmarkEntry)
    ensures
        forall|k: int| #![auto] 0 <= k < without_slot(s, e).len() ==> s.contains(without_slot(s, e)[k]),
    decreases s.len(),
{
    if s.len() > 0 {
        lemma_without_slot_subset(s.drop_first(), e);
        let out = without_slot(s, e);
        let rest = without_slot(s.drop_first(), e);
        let h = if same_slot(s[0], e) {
            Seq::<BookmarkEntry>::empty()
        } else {
            seq![s[0]]
        };
        assert(out == h + rest);
        assert forall|k: int| #![auto] 0 <= k < out.len() implies s.contains(out[k]) by {
            if k < h.len() {
                assert(out[k] == s[0]);
            } else {
                assert(out[k] == rest[k - h.len()]);
                let m = choose|m: int| 0 <= m < s.drop_first().len() && s.drop_first()[m] == out[k];
                assert(s[m + 1] == out[k]);
            }
        }
    }
}

proof fn lemma_without_id_facts(s: Seq<BookmarkEntry>, id: u64)
    ensures
        forall|k: int| #![auto] 0 <= k < without_id(s, id).len() ==> without_id(s, id)[k].id != id,
        sorted_desc(s) ==> sorted_desc(without_id(s, id)),
        forall|k: int| #![auto] 0 <= k < without_id(s, id).len() ==> s.contains(without_id(s, id)[k]),
    decreases s.len(),
{
    if s.len() > 0 {
        let rest = s.drop_first();
        lemma_without_id_facts(rest, id);
        let out = without_id(s, id);
        let tail = without_id(rest, id);
        let h = if s[0].id == id {
            Seq::<BookmarkEntry>::empty()
        } else {
            seq![s[0]]
        };
        assert(out == h + tail);
        assert forall|k: int| #![auto] 0 <= k < out.len() implies out[k].id != id && s.contains(
            out[k],
        ) by {
            if k < h.len() {
                assert(out[k] == s[0]);
            } else {
                assert(out[k] == tail[k - h.len()]);
                let m = choose|m: int| 0 <= m < rest.len() && rest[m] == out[k];
                assert(s[m + 1] == out[k]);
            }
        }
        if sorted_desc(s) {
            assert(sorted_desc(rest));
            assert forall|i: int, j: int| 0 <= i < j < out.len() implies out[i].saved_at_ms
                >= out[j].saved_at_ms by {
                if i < h.len() {
                    assert(out[j] == tail[j - 1]);
                    let m = choose|m: int| 0 <= m < rest.len() && rest[m] == tail[j - 1];
                    assert(s[m + 1] == out[j]);
                } else {
                    assert(out[i] == tail[i - h.len()]);
                    assert(out[j] == tail[j - h.len()]);
                }
            }
        }
    }
}

proof fn lemma_limited_keeps_ids(s: Seq<BookmarkEntry>)
    ensures
        forall|k: int| #![auto] 0 <= k < limited(s).len() ==> s.contains(limited(s)[k]),
{
    let a_src = BookmarkSource::AutoRecent;
    let m_src = BookmarkSource::Manual;
    let sorted = sort_desc(s);
    let all_auto = of_source(sorted, a_src);
    let all_manual = of_source(sorted, m_src);
    let auto = all_auto.take(min_len(all_auto, MAX_AUTO_RECENT as int));
    let manual = all_manual.take(min_len(all_manual, MAX_MANUAL as int));
    let merged = sort_desc(auto + manual);
    lemma_sort_keeps_entries(s);
    lemma_of_source_facts(sorted, a_src, a_src);
    lemma_of_source_facts(sorted, m_src, m_src);
    lemma_sort_keeps_entries(auto + manual);
    let out = limited(s);
    assert forall|k: int| #![auto] 0 <= k < out.len() implies s.contains(out[k]) by {
        assert(out[k] == merged[k]);
        let m = choose|m: int| 0 <= m < (auto + manual).len() && (auto + manual)[m] == merged[k];
        let x = (auto + manual)[m];
        if m < auto.len() {
            assert(x == all_auto[m]);
        } else {
            assert(x == all_manual[m - auto.len()]);
        }
        assert(sorted.contains(x));
    }
}


proof fn lemma_sort_contains(s: Seq<BookmarkEntry>)
    ensures
        forall|k: int| #![auto] 0 <= k < s.len() ==> sort_desc(s).contains(s[k]),
    decreases s.len(),
{
    if s.len() > 0 {
        let init = s.drop_last();
        lemma_sort_contains(init);
        lemma_insert_desc_facts(sort_desc(init), s.last(), BookmarkSource::Manual);
        let r = sort_desc(init);
        let out = sort_desc(s);
        assert forall|k: int| #![auto] 0 <= k < s.len() implies out.contains(s[k]) by {
            if k < s.len() - 1 {
                assert(init[k] == s[k]);
                assert(r.contains(s[k]));
                let m = choose|m: int| 0 <= m < r.len() && r[m] == s[k];
                lemma_insert_desc_keeps(r, s.last(), m);
            }
        }
    }
}

proof fn lemma_insert_desc_keeps(r: Seq<BookmarkEntry>, e: BookmarkEntry, m: int)
    requires
        0 <= m < r.len(),
    ensures
        insert_desc(r, e).contains(r[m]),
    decreases r.len(),
{
    let out = insert_desc(r, e);
    if r[0].saved_at_ms < e.saved_at_ms {
        assert(out[m + 1] == r[m]);
    } else if m == 0 {
        assert(out[0] == r[0]);
    } else {
        lemma_insert_desc_keeps(r.drop_first(), e, m - 1);
        let rest = insert_desc(r.drop_first(), e);
        let q = choose|q: int| 0 <= q < rest.len() && rest[q] == r.drop_first()[m - 1];
        assert(out[q + 1] == r[m]);
    }
}

/// If `e` is in `s` and every other entry of `s` is older, sorting puts `e` first.
proof fn lemma_newest_sorts_first(s: Seq<BookmarkEntry>, e: BookmarkEntry)
    requires
        s.contains(e),
        forall|k: int| 0 <= k < s.len() ==> #[trigger] s[k] == e || s[k].saved_at_ms < e.saved_at_ms,
    ensures
        sort_desc(s).len() > 0,
        sort_desc(s)[0] == e,
{
    lemma_sort_desc_facts(s, BookmarkSource::Manual);
    lemma_sort_keeps_entries(s);
    lemma_sort_contains(s);
    let out = sort_desc(s);
    let i = choose|i: int| 0 <= i < s.len() && s[i] == e;
    assert(out.contains(s[i]));
    let m = choose|m: int| 0 <= m < out.len() && out[m] == e;
    assert(s.contains(out[0]));
    let q = choose|q: int| 0 <= q < s.len() && s[q] == out[0];
    if out[0] != e {
        assert(s[q].saved_at_ms < e.saved_at_ms);
        assert(out[0].saved_at_ms >= out[m].saved_at_ms);
    }
}

/// The list after an add never holds more than `MAX_AUTO_RECENT` automatic,
/// `MAX_MANUAL` manual and `MAX_TOTAL` bookmarks in all, and stays newest first.
pub proof fn law_limits_hold(s: Seq<BookmarkEntry>)
    ensures
        sorted_desc(limited(s)),
        count_source(limited(s), BookmarkSource::AutoRecent) <= MAX_AUTO_RECENT,
        count_source(limited(s), BookmarkSource::Manual) <= MAX_MANUAL,
        limited(s).len() <= MAX_TOTAL,
{
    lemma_limited_facts(s);
}

/// After a bookmark is removed, no bookmark with its id is left.
pub proof fn law_removed_is_gone(s: Seq<BookmarkEntry>, id: u64)
    ensures
        forall|i: int| 0 <= i < without_id(s, id).len() ==> (#[trigger] without_id(s, id)[i]).id != id,
{
    lemma_without_id_facts(s, id);
}

/// A bookmark newer than every bookmark in the list is listed first after it is added.
pub proof fn law_newest_listed_first(s: Seq<BookmarkEntry>, e: BookmarkEntry)
    requires
        forall|i: int| 0 <= i < s.len() ==> (#[trigger] s[i]).saved_at_ms < e.saved_at_ms,
    ensures
        limited(upserted(s, e)).len() > 0,
        limited(upserted(s, e))[0] == e,
{
    let w = without_slot(s, e);
    lemma_without_slot_subset(s, e);
    let u0 = w.push(e);
    assert(u0.contains(e)) by {
        assert(u0[w.len() as int] == e);
    }
    assert forall|k: int| 0 <= k < u0.len() implies #[trigger] u0[k] == e || u0[k].saved_at_ms
        < e.saved_at_ms by {
        if k < w.len() {
            assert(u0[k] == w[k]);
            let m = choose|m: int| 0 <= m < s.len() && s[m] == w[k];
        }
    }
    lemma_newest_sorts_first(u0, e);
    let u = upserted(s, e);
    lemma_sort_keeps_entries(u0);
    assert(u.contains(e)) by {
        assert(u[0] == e);
    }
    assert forall|k: int| 0 <= k < u.len() implies #[trigger] u[k] == e || u[k].saved_at_ms
        < e.saved_at_ms by {
        assert(u0.contains(u[k]));
        let m = choose|m: int| 0 <= m < u0.len() && u0[m] == u[k];
    }
    lemma_newest_sorts_first(u, e);
    let sorted = sort_desc(u);
    lemma_sort_keeps_entries(u);
    let src = e.source;
    let other = if src == BookmarkSource::Manual {
        BookmarkSource::AutoRecent
    } else {
        BookmarkSource::Manual
    };
    let same = of_source(sorted, src);
    assert(sorted == seq![e] + sorted.drop_first());
    assert(same == seq![e] + of_source(sorted.drop_first(), src));
    assert(same[0] == e);
    lemma_of_source_facts(sorted, BookmarkSource::AutoRecent, BookmarkSource::Manual);
    lemma_of_source_facts(sorted, BookmarkSource::Manual, BookmarkSource::AutoRecent);
    let all_auto = of_source(sorted, BookmarkSource::AutoRecent);
    let all_manual = of_source(sorted, BookmarkSource::Manual);
    let auto = all_auto.take(min_len(all_auto, MAX_AUTO_RECENT as int));
    let manual = all_manual.take(min_len(all_manual, MAX_MANUAL as int));
    let both = auto + manual;
    assert(both.contains(e)) by {
        if src == BookmarkSource::AutoRecent {
            assert(both[0] == e);
        } else {
            assert(both[auto.len() as int] == e);
        }
    }
    assert forall|k: int| 0 <= k < both.len() implies #[trigger] both[k] == e || both[k].saved_at_ms
        < e.saved_at_ms by {
        let x = both[k];
        if k < auto.len() {
            assert(x == all_auto[k]);
        } else {
            assert(x == all_manual[k - auto.len()]);
        }
        assert(sorted.contains(x));
        let m = choose|m: int| 0 <= m < sorted.len() && sorted[m] == x;
        assert(u.contains(sorted[m]));
        let q = choose|q: int| 0 <= q < u.len() && u[q] == x;
    }
    lemma_newest_sorts_first(both, e);
}

proof fn lemma_of_source_cons(x: BookmarkEntry, r: Seq<BookmarkEntry>, k: BookmarkSource)
    ensures
        of_source(seq![x] + r, k) == (if x.source == k {
            seq![x] + of_source(r, k)
        } else {
            of_source(r, k)
        }),
{
    assert((seq![x] + r).drop_first() =~= r);
    assert((seq![x] + r)[0] == x);
    if x.source != k {
        assert(Seq::<BookmarkEntry>::empty() + of_source(r, k) =~= of_source(r, k));
    }
}

proof fn lemma_of_source_insert_desc(r: Seq<BookmarkEntry>, e: BookmarkEntry, k: BookmarkSource)
    requires
        sorted_desc(r),
    ensures
        of_source(insert_desc(r, e), k) == (if e.source == k {
            insert_desc(of_source(r, k), e)
        } else {
            of_source(r, k)
        }),
    decreases r.len(),
{
    if r.len() == 0 {
        lemma_of_source_cons(e, r, k);
        assert(seq![e] + r =~= seq![e]);
        assert(of_source(r, k) == Seq::<BookmarkEntry>::empty());
        assert(seq![e] + Seq::<BookmarkEntry>::empty() =~= seq![e]);
    } else if r[0].saved_at_ms < e.saved_at_ms {
        lemma_of_source_cons(e, r, k);
        if e.source == k {
            let f = of_source(r, k);
            lemma_of_source_facts(r, k, k);
            if f.len() > 0 {
                assert(r.contains(f[0]));
                let m = choose|m: int| 0 <= m < r.len() && r[m] == f[0];
                assert(r[0].saved_at_ms >= r[m].saved_at_ms);
            }
        }
    } else {
        let rest = r.drop_first();
        assert(sorted_desc(rest));
        lemma_of_source_insert_desc(rest, e, k);
        assert(r == seq![r[0]] + rest);
        lemma_of_source_cons(r[0], rest, k);
        lemma_of_source_cons(r[0], insert_desc(rest, e), k);
        if e.source == k && r[0].source == k {
            let f = seq![r[0]] + of_source(rest, k);
            assert(f.drop_first() =~= of_source(rest, k));
            assert(f[0] == r[0]);
        }
    }
}

proof fn lemma_of_source_sort(s: Seq<BookmarkEntry>, k: BookmarkSource)
    ensures
        of_source(sort_desc(s), k) == sort_desc(of_source(s, k)),
    decreases s.len(),
{
    if s.len() == 0 {
        assert(of_source(s, k) == Seq::<BookmarkEntry>::empty());
    } else {
        let p = s.drop_last();
        let x = s.last();
        lemma_of_source_sort(p, k);
        lemma_sort_desc_facts(p, k);
        lemma_of_source_insert_desc(sort_desc(p), x, k);
        assert(s =~= p + seq![x]);
        lemma_of_source_append(p, seq![x], k);
        lemma_of_source_cons(x, Seq::<BookmarkEntry>::empty(), k);
        assert(seq![x] + Seq::<BookmarkEntry>::empty() =~= seq![x]);
        assert(of_source(Seq::<BookmarkEntry>::empty(), k) == Seq::<BookmarkEntry>::empty());
        if x.source == k {
            let f = of_source(p, k) + seq![x];
            assert(f.drop_last() =~= of_source(p, k));
            assert(f.last() == x);
        } else {
            assert(of_source(p, k) + Seq::<BookmarkEntry>::empty() =~= of_source(p, k));
        }
    }
}

proof fn lemma_of_source_without_slot(s: Seq<BookmarkEntry>, e: BookmarkEntry, k: BookmarkSource)
    requires
        k != e.source,
    ensures
        of_source(without_slot(s, e), k) == of_source(s, k),
    decreases s.len(),
{
    if s.len() > 0 {
        let rest = s.drop_first();
        lemma_of_source_without_slot(rest, e, k);
        assert(s == seq![s[0]] + rest);
        lemma_of_source_cons(s[0], rest, k);
        if same_slot(s[0], e) {
            assert(without_slot(s, e) =~= without_slot(rest, e));
        } else {
            assert(without_slot(s, e) =~= seq![s[0]] + without_slot(rest, e));
            lemma_of_source_cons(s[0], without_slot(rest, e), k);
        }
    }
}

/// Adding a bookmark of one kind leaves the bookmarks of the other kind as they were:
/// before the limits are applied, the list after the add holds, of every other kind, the
/// same bookmarks in the same (newest first) order as the list before.
pub proof fn law_add_keeps_other_kind(s: Seq<BookmarkEntry>, e: BookmarkEntry, k: BookmarkSource)
    requires
        k != e.source,
    ensures
        of_source(upserted(s, e), k) == of_source(sort_desc(s), k),
{
    let w = without_slot(s, e);
    lemma_of_source_sort(w.push(e), k);
    assert(w.push(e) =~= w + seq![e]);
    lemma_of_source_append(w, seq![e], k);
    lemma_of_source_cons(e, Seq::<BookmarkEntry>::empty(), k);
    assert(seq![e] + Seq::<BookmarkEntry>::empty() =~= seq![e]);
    assert(of_source(Seq::<BookmarkEntry>::empty(), k) == Seq::<BookmarkEntry>::empty());
    assert(of_source(w, k) + Seq::<BookmarkEntry>::empty() =~= of_source(w, k));
    lemma_of_source_without_slot(s, e, k);
    lemma_of_source_sort(s, k);
}

proof fn lemma_without_slot_members(s: Seq<BookmarkEntry>, e: BookmarkEntry)
    ensures
        forall|k: int| #![auto] 0 <= k < without_slot(s, e).len() ==> !same_slot(without_slot(s, e)[k], e),
        forall|k: int| #![auto] 0 <= k < s.len() && !same_slot(s[k], e) ==> without_slot(s, e).contains(s[k]),
    decreases s.len(),
{
    if s.len() > 0 {
        let rest = s.drop_first();
        lemma_without_slot_members(rest, e);
        let out = without_slot(s, e);
        let w = without_slot(rest, e);
        let h = if same_slot(s[0], e) {
            Seq::<BookmarkEntry>::empty()
        } else {
            seq![s[0]]
        };
        assert(out == h + w);
        assert forall|k: int| #![auto] 0 <= k < out.len() implies !same_slot(out[k], e) by {
            if k >= h.len() {
                assert(out[k] == w[k - h.len()]);
            }
        }
        assert forall|k: int| #![auto] 0 <= k < s.len() && !same_slot(s[k], e) implies out.contains(s[k]) by {
            if k == 0 {
                assert(out[0] == s[0]);
            } else {
                assert(rest[k - 1] == s[k]);
                let m = choose|m: int| 0 <= m < w.len() && w[m] == s[k];
                assert(out[m + h.len()] == s[k]);
            }
        }
    }
}

/// Adding a bookmark replaces the bookmark of the same place and kind, and only that one:
/// before the limits are applied, the list after the add holds the new bookmark, every
/// other entry of it was in the list and is not of the same kind, path and page, and every
/// entry of the list that is not of the same kind, path and page is kept; the list stays
/// newest first.
pub proof fn law_add_replaces_same_place(s: Seq<BookmarkEntry>, e: BookmarkEntry)
    ensures
        upserted(s, e).contains(e),
        forall|k: int|
            0 <= k < upserted(s, e).len() ==> #[trigger] upserted(s, e)[k] == e || (s.contains(
                upserted(s, e)[k],
            ) && !(upserted(s, e)[k].source == e.source && path_equal(
                upserted(s, e)[k].path@,
                e.path@,
            ) && upserted(s, e)[k].page_index == e.page_index)),
        forall|k: int|
            0 <= k < s.len() && !((#[trigger] s[k]).source == e.source && path_equal(s[k].path@, e.path@)
                && s[k].page_index == e.page_index) ==> upserted(s, e).contains(s[k]),
        sorted_desc(upserted(s, e)),
{
    let w = without_slot(s, e);
    let u0 = w.push(e);
    let u = upserted(s, e);
    lemma_without_slot_members(s, e);
    lemma_without_slot_subset(s, e);
    lemma_sort_keeps_entries(u0);
    lemma_sort_contains(u0);
    lemma_sort_desc_facts(u0, BookmarkSource::Manual);
    assert(u0[w.len() as int] == e);
    assert forall|k: int| 0 <= k < u.len() implies #[trigger] u[k] == e || (s.contains(u[k])
        && !(u[k].source == e.source && path_equal(u[k].path@, e.path@) && u[k].page_index
        == e.page_index)) by {
        assert(u0.contains(u[k]));
        let m = choose|m: int| 0 <= m < u0.len() && u0[m] == u[k];
        if m < w.len() {
            assert(u0[m] == w[m]);
            assert(!same_slot(w[m], e));
        }
    }
    assert forall|k: int|
        0 <= k < s.len() && !((#[trigger] s[k]).source == e.source && path_equal(s[k].path@, e.path@)
            && s[k].page_index == e.page_index) implies u.contains(s[k]) by {
        assert(!same_slot(s[k], e));
        assert(w.contains(s[k]));
        let m = choose|m: int| 0 <= m < w.len() && w[m] == s[k];
        assert(u0[m] == s[k]);
    }
}

} // verus!
