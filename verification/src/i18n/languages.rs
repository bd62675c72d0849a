//! The list of languages offered for selection: the ones found, ordered by name.
use crate::i18n::localizer::{LangMeta, Localizer};
use crate::text::chars_of;
use vstd::prelude::*;

verus! {

broadcast use vstd::string::group_string_axioms;

/// Whether text `a` comes before text `b`: character by character, by scalar value, a
/// proper prefix first. (This is the order of `str`, whose UTF-8 bytes keep code
/// point order.)
pub open spec fn text_lt(a: Seq<char>, b: Seq<char>) -> bool
    decreases a.len(),
{
    if a.len() == 0 {
        b.len() > 0
    } else if b.len() == 0 {
        false
    } else if a[0] != b[0] {
        (a[0] as int) < (b[0] as int)
    } else {
        text_lt(a.drop_first(), b.drop_first())
    }
}

/// `e` put into `r` after every language whose name does not come after its own.
pub open spec fn insert_by_name(r: Seq<LangMeta>, e: LangMeta) -> Seq<LangMeta>
    decreases r.len(),
{
    if r.len() == 0 {
        seq![e]
    } else if text_lt(e.name@, r[0].name@) {
        seq![e] + r
    } else {
        seq![r[0]] + insert_by_name(r.drop_first(), e)
    }
}

/// The languages ordered by name; languages of the same name keep their order.
pub open spec fn sort_by_name(s: Seq<LangMeta>) -> Seq<LangMeta>
    decreases s.len(),
{
    if s.len() == 0 {
        Seq::empty()
    } else {
        insert_by_name(sort_by_name(s.drop_last()), s.last())
    }
}

/// Whether no language's name comes before the name of a language listed earlier.
pub open spec fn sorted_by_name(s: Seq<LangMeta>) -> bool {
    forall|i: int, j: int| 0 <= i < j < s.len() ==> !text_lt(s[j].name@, s[i].name@)
}

proof fn lemma_text_lt_irreflexive(a: Seq<char>)
    ensures
        !text_lt(a, a),
    decreases a.len(),
{
    if a.len() > 0 {
        lemma_text_lt_irreflexive(a.drop_first());
    }
}

proof fn lemma_text_lt_transitive(a: Seq<char>, b: Seq<char>, c: Seq<char>)
    requires
        text_lt(a, b),
        text_lt(b, c),
    ensures
        text_lt(a, c),
    decreases a.len(),
{
    if a.len() > 0 && b.len() > 0 && c.len() > 0 && a[0] == b[0] && b[0] == c[0] {
        lemma_text_lt_transitive(a.drop_first(), b.drop_first(), c.drop_first());
    }
}

proof fn lemma_text_lt_total(a: Seq<char>, b: Seq<char>)
    ensures
        a == b || text_lt(a, b) || text_lt(b, a),
    decreases a.len(),
{
    if a.len() > 0 && b.len() > 0 && a[0] == b[0] {
        lemma_text_lt_total(a.drop_first(), b.drop_first());
        if a.drop_first() == b.drop_first() {
            assert(a =~= seq![a[0]] + a.drop_first());
            assert(b =~= seq![b[0]] + b.drop_first());
        }
    } else if a.len() > 0 && b.len() > 0 {
        assert((a[0] as int) != (b[0] as int));
    } else if a.len() == 0 && b.len() == 0 {
        assert(a =~= b);
    }
}

proof fn lemma_insert_members(r: Seq<LangMeta>, e: LangMeta)
    ensures
        insert_by_name(r, e).len() == r.len() + 1,
        forall|k: int|
            0 <= k < insert_by_name(r, e).len() ==> #[trigger] insert_by_name(r, e)[k] == e
                || r.contains(insert_by_name(r, e)[k]),
    decreases r.len(),
{
    if r.len() > 0 && !text_lt(e.name@, r[0].name@) {
        lemma_insert_members(r.drop_first(), e);
        let out = insert_by_name(r, e);
        let rest = insert_by_name(r.drop_first(), e);
        assert forall|k: int| 0 <= k < out.len() implies #[trigger] out[k] == e || r.contains(
            out[k],
        ) by {
            if k == 0 {
                assert(r[0] == out[0]);
            } else {
                assert(out[k] == rest[k - 1]);
                if rest[k - 1] != e {
                    let m = choose|m: int|
                        0 <= m < r.drop_first().len() && r.drop_first()[m] == rest[k - 1];
                    assert(r[m + 1] == rest[k - 1]);
                }
            }
        }
    } else if r.len() > 0 {
        let out = insert_by_name(r, e);
        assert forall|k: int| 0 <= k < out.len() implies #[trigger] out[k] == e || r.contains(
            out[k],
        ) by {
            if k > 0 {
                assert(out[k] == r[k - 1]);
            }
        }
    }
}

proof fn lemma_insert_sorted(r: Seq<LangMeta>, e: LangMeta)
    requires
        sorted_by_name(r),
    ensures
        sorted_by_name(insert_by_name(r, e)),
    decreases r.len(),
{
    let out = insert_by_name(r, e);
    if r.len() == 0 {
    } else if text_lt(e.name@, r[0].name@) {
        assert forall|i: int, j: int| 0 <= i < j < out.len() implies !text_lt(
            out[j].name@,
            out[i].name@,
        ) by {
            if i == 0 {
                assert(out[j] == r[j - 1]);
                if text_lt(r[j - 1].name@, e.name@) {
                    lemma_text_lt_transitive(r[j - 1].name@, e.name@, r[0].name@);
                    if j - 1 == 0 {
                        lemma_text_lt_irreflexive(r[0].name@);
                    }
                }
            } else {
                assert(out[i] == r[i - 1]);
                assert(out[j] == r[j - 1]);
            }
        }
    } else {
        let rest = r.drop_first();
        assert(sorted_by_name(rest)) by {
            assert forall|i: int, j: int| 0 <= i < j < rest.len() implies !text_lt(
                rest[j].name@,
                rest[i].name@,
            ) by {
                assert(rest[i] == r[i + 1]);
                assert(rest[j] == r[j + 1]);
            }
        }
        lemma_insert_sorted(rest, e);
        lemma_insert_members(rest, e);
        let ins = insert_by_name(rest, e);
        assert forall|i: int, j: int| 0 <= i < j < out.len() implies !text_lt(
            out[j].name@,
            out[i].name@,
        ) by {
            if i == 0 {
                assert(out[0] == r[0]);
                assert(out[j] == ins[j - 1]);
                if ins[j - 1] != e {
                    let m = choose|m: int| 0 <= m < rest.len() && rest[m] == ins[j - 1];
                    assert(r[m + 1] == rest[m]);
                }
            } else {
                assert(out[i] == ins[i - 1]);
                assert(out[j] == ins[j - 1]);
            }
        }
    }
}

proof fn lemma_sort_sorted(s: Seq<LangMeta>)
    ensures
        sorted_by_name(sort_by_name(s)),
        sort_by_name(s).len() == s.len(),
    decreases s.len(),
{
    if s.len() > 0 {
        lemma_sort_sorted(s.drop_last());
        lemma_insert_sorted(sort_by_name(s.drop_last()), s.last());
        lemma_insert_members(sort_by_name(s.drop_last()), s.last());
    }
}

/// Languages come out ordered by name: for any list found, the list offered has no
/// language whose name comes before that of a language offered earlier.
pub proof fn law_languages_ordered_by_name(found: Seq<LangMeta>)
    ensures
        sorted_by_name(sort_by_name(found)),
        sort_by_name(found).len() == found.len(),
{
    lemma_sort_sorted(found);
}

/// Whether text `a` comes before text `b`.
fn text_less(a: &str, b: &str) -> (r: bool)
    ensures
        r == text_lt(a@, b@),
{
    let x = chars_of(a);
    let y = chars_of(b);
    let mut i: usize = 0;
    assert(x@.skip(0) =~= x@);
    assert(y@.skip(0) =~= y@);
    while i < x.len() && i < y.len()
        invariant
            x@ == a@,
            y@ == b@,
            i <= x@.len(),
            i <= y@.len(),
            text_lt(a@, b@) == text_lt(x@.skip(i as int), y@.skip(i as int)),
        decreases x@.len() - i,
    {
        let c = x[i];
        let d = y[i];
        proof {
            assert(x@.skip(i as int)[0] == c);
            assert(y@.skip(i as int)[0] == d);
            assert(x@.skip(i as int).drop_first() =~= x@.skip(i + 1));
            assert(y@.skip(i as int).drop_first() =~= y@.skip(i + 1));
        }
        if c != d {
            return c < d;
        }
        i = i + 1;
    }
    proof {
        if i == x@.len() {
            assert(x@.skip(i as int).len() == 0);
        } else {
            assert(y@.skip(i as int).len() == 0);
        }
    }
    i == x.len() && i < y.len()
}

impl Localizer {
    /// The languages to offer, from those found on disk: English alone where none was
    /// found; ordered by name, languages of the same name in the order found.
    pub fn load_available_languages(found: Vec<LangMeta>) -> (r: Vec<LangMeta>)
        ensures
            found@.len() == 0 ==> r@.len() == 1 && r@[0].name@ == "English"@ && r@[0].code@
                == "en"@,
            found@.len() > 0 ==> r@ == sort_by_name(found@),
            sorted_by_name(r@),
    {
        if found.len() == 0 {
            let mut r: Vec<LangMeta> = Vec::new();
            r.push(LangMeta { name: "English".to_string(), code: "en".to_string() });
            return r;
        }
        let ghost input = found@;
        let n = found.len();
        let mut rest = found;
        let mut sorted: Vec<LangMeta> = Vec::new();
        let mut done: usize = 0;
        assert(input.skip(0) =~= input);
        while rest.len() > 0
            invariant
                input.len() == n,
                done + rest@.len() == input.len(),
                rest@ == input.skip(done as int),
                sorted@ == sort_by_name(input.take(done as int)),
            decreases rest@.len(),
        {
            let ghost r = rest@;
            let e = rest.remove(0);
            assert(r.drop_first() =~= input.skip(done + 1));
            assert(e == input[done as int]);
            let mut p: usize = 0;
            assert(sorted@.skip(0) =~= sorted@);
            assert(sorted@.take(0) =~= Seq::<LangMeta>::empty());
            while p < sorted.len() && !text_less(e.name.as_str(), sorted[p].name.as_str())
                invariant
                    p <= sorted@.len(),
                    insert_by_name(sorted@, e) == sorted@.take(p as int) + insert_by_name(
                        sorted@.skip(p as int),
                        e,
                    ),
                decreases sorted@.len() - p,
            {
                proof {
                    let t = sorted@.skip(p as int);
                    assert(t.drop_first() =~= sorted@.skip(p + 1));
                    assert(sorted@.take(p + 1) =~= sorted@.take(p as int) + seq![t[0]]);
                }
                p = p + 1;
            }
            proof {
                let t = sorted@.skip(p as int);
                if p < sorted@.len() {
                    assert(insert_by_name(t, e) == seq![e] + t);
                } else {
                    assert(t =~= Seq::<LangMeta>::empty());
                }
                assert(sorted@.insert(p as int, e) =~= sorted@.take(p as int) + insert_by_name(
                    t,
                    e,
                ));
                assert(input.take(done + 1).drop_last() =~= input.take(done as int));
                assert(input.take(done + 1).last() == e);
            }
            sorted.insert(p, e);
            done = done + 1;
        }
        assert(input.take(done as int) =~= input);
        proof {
            lemma_sort_sorted(input);
        }
        sorted
    }
}

} // verus!
