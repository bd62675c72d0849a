//! Which interface language to use for a locale code, given the languages shipped.
use crate::text::{chars_of, push_char, replace_all, replace_placeholder, str_equals};
use vstd::prelude::*;

verus! {

/// The texts of a sequence of strings.
pub open spec fn texts(s: Seq<String>) -> Seq<Seq<char>> {
    s.map_values(|x: String| x@)
}

/// The part of `s` before the first `c`, if `c` occurs.
pub open spec fn before_first(s: Seq<char>, c: char) -> Option<Seq<char>>
    decreases s.len(),
{
    if s.len() == 0 {
        None
    } else if s[0] == c {
        Some(Seq::empty())
    } else {
        match before_first(s.drop_first(), c) {
            Some(t) => Some(seq![s[0]] + t),
            None => None,
        }
    }
}

/// The language for locale `code`: the code with `_` written as `-` where that language
/// is shipped, else its base language (the part before the first `-`) where that is
/// shipped, else English.
pub open spec fn supported_locale(code: Seq<char>, shipped: Seq<Seq<char>>) -> Seq<char> {
    let normalized = replace_all(code, "_"@, "-"@);
    if shipped.contains(normalized) {
        normalized
    } else {
        match before_first(normalized, '-') {
            Some(base) => if shipped.contains(base) {
                base
            } else {
                "en"@
            },
            None => "en"@,
        }
    }
}

/// The language for the value of the `LANG` variable: the part before the first `.`,
/// resolved as a locale code; English where the variable is unset.
pub open spec fn env_locale(lang: Option<Seq<char>>, shipped: Seq<Seq<char>>) -> Seq<char> {
    match lang {
        Some(l) => supported_locale(
            match before_first(l, '.') {
                Some(p) => p,
                None => l,
            },
            shipped,
        ),
        None => "en"@,
    }
}

proof fn lemma_before_first(s: Seq<char>, c: char)
    ensures
        match before_first(s, c) {
            Some(t) => exists|i: int|
                0 <= i < s.len() && s[i] == c && t == s.take(i) && forall|k: int|
                    0 <= k < i ==> s[k] != c,
            None => forall|k: int| 0 <= k < s.len() ==> s[k] != c,
        },
    decreases s.len(),
{
    if s.len() > 0 && s[0] != c {
        lemma_before_first(s.drop_first(), c);
        match before_first(s.drop_first(), c) {
            Some(t) => {
                let i = choose|i: int|
                    0 <= i < s.drop_first().len() && s.drop_first()[i] == c && t
                        == s.drop_first().take(i) && forall|k: int|
                        0 <= k < i ==> s.drop_first()[k] != c;
                assert(seq![s[0]] + t =~= s.take(i + 1));
                assert forall|k: int| 0 <= k < i + 1 implies s[k] != c by {
                    if k > 0 {
                        assert(s[k] == s.drop_first()[k - 1]);
                    }
                }
            },
            None => {
                assert forall|k: int| 0 <= k < s.len() implies s[k] != c by {
                    if k > 0 {
                        assert(s[k] == s.drop_first()[k - 1]);
                    }
                }
            },
        }
    } else if s.len() > 0 {
        assert(s.take(0) =~= Seq::<char>::empty());
    }
}

/// The part of `s` before the first `c`, if `c` occurs.
fn prefix_before(s: &str, c: char) -> (r: Option<String>)
    ensures
        match r {
            Some(t) => before_first(s@, c) == Some(t@),
            None => before_first(s@, c) is None,
        },
{
    let v = chars_of(s);
    let mut i: usize = 0;
    while i < v.len()
        invariant
            v@ == s@,
            i <= v@.len(),
            forall|k: int| 0 <= k < i ==> v@[k] != c,
        decreases v@.len() - i,
    {
        if v[i] == c {
            let mut out = String::new();
            let mut j: usize = 0;
            while j < i
                invariant
                    v@ == s@,
                    j <= i < v@.len(),
                    out@ == v@.take(j as int),
                    v@[i as int] == c,
                    forall|k: int| 0 <= k < i ==> v@[k] != c,
                decreases i - j,
            {
                push_char(&mut out, v[j]);
                assert(out@ =~= v@.take(j + 1));
                j = j + 1;
            }
            proof {
                lemma_before_first(s@, c);
                match before_first(s@, c) {
                    Some(t) => {
                        let w = choose|w: int|
                            0 <= w < s@.len() && s@[w] == c && t == s@.take(w) && forall|k: int|
                                0 <= k < w ==> s@[k] != c;
                        if w < i {
                            assert(v@[w] != c);
                        }
                        if w > i {
                            assert(s@[i as int] != c);
                        }
                    },
                    None => {
                        assert(s@[i as int] != c);
                    },
                }
            }
            return Some(out);
        }
        i = i + 1;
    }
    proof {
        lemma_before_first(s@, c);
        match before_first(s@, c) {
            Some(t) => {
                let w = choose|w: int|
                    0 <= w < s@.len() && s@[w] == c && t == s@.take(w) && forall|k: int|
                        0 <= k < w ==> s@[k] != c;
                assert(v@[w] != c);
            },
            None => {},
        }
    }
    None
}

/// Whether the language `code` is among those shipped.
pub fn locale_exists(code: &str, shipped: &Vec<String>) -> (r: bool)
    ensures
        r == texts(shipped@).contains(code@),
{
    let mut i: usize = 0;
    while i < shipped.len()
        invariant
            i <= shipped@.len(),
            forall|k: int| 0 <= k < i ==> shipped@[k]@ != code@,
        decreases shipped@.len() - i,
    {
        if str_equals(shipped[i].as_str(), code) {
            assert(texts(shipped@)[i as int] == code@);
            return true;
        }
        i = i + 1;
    }
    proof {
        if texts(shipped@).contains(code@) {
            let k = choose|k: int| 0 <= k < texts(shipped@).len() && texts(shipped@)[k] == code@;
            assert(shipped@[k]@ == code@);
        }
    }
    false
}

/// The shipped language to use for locale `code`.
pub fn resolve_supported_locale(code: &str, shipped: &Vec<String>) -> (r: String)
    ensures
        r@ == supported_locale(code@, texts(shipped@)),
{
    proof {
        broadcast use vstd::string::group_string_axioms;

        reveal_strlit("_");
    }
    let normalized = replace_placeholder(code, "_", "-");
    if locale_exists(normalized.as_str(), shipped) {
        return normalized;
    }
    match prefix_before(normalized.as_str(), '-') {
        Some(base) => {
            if locale_exists(base.as_str(), shipped) {
                return base;
            }
        },
        None => {},
    }
    "en".to_string()
}

/// The shipped language to use for the value of the `LANG` variable, if it is set.
pub fn locale_from_env(lang: Option<&str>, shipped: &Vec<String>) -> (r: String)
    ensures
        r@ == env_locale(
            match lang {
                Some(l) => Some(l@),
                None => None,
            },
            texts(shipped@),
        ),
{
    proof {
        broadcast use vstd::string::group_string_axioms;

    }
    match lang {
        Some(l) => {
            match prefix_before(l, '.') {
                Some(p) => resolve_supported_locale(p.as_str(), shipped),
                None => resolve_supported_locale(l, shipped),
            }
        },
        None => "en".to_string(),
    }
}

proof fn lemma_replace_absent(s: Seq<char>)
    requires
        forall|i: int| 0 <= i < s.len() ==> s[i] != '_',
    ensures
        replace_all(s, "_"@, "-"@) == s,
    decreases s.len(),
{
    reveal_strlit("_");
    if s.len() > 0 {
        assert(s.take(1)[0] == s[0]);
        assert(s.take(1) != "_"@);
        lemma_replace_absent(s.skip(1));
        assert(seq![s[0]] + s.skip(1) =~= s);
    }
}

/// The language chosen for a locale code is always one that is shipped, or English; a
/// shipped code written without `_` is chosen as it is; with no `LANG` value it is English.
pub proof fn law_locale_is_shipped_or_english(code: Seq<char>, shipped: Seq<Seq<char>>)
    ensures
        supported_locale(code, shipped) == "en"@ || shipped.contains(supported_locale(code, shipped)),
        shipped.contains(code) && (forall|i: int| 0 <= i < code.len() ==> code[i] != '_')
            ==> supported_locale(code, shipped) == code,
        env_locale(None, shipped) == "en"@,
{
    if forall|i: int| 0 <= i < code.len() ==> code[i] != '_' {
        lemma_replace_absent(code);
    }
}

} // verus!
