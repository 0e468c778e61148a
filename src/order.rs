//! Lexicographic order on strings, and sorting without duplicates.

use vstd::prelude::*;
use crate::text::{chars_of, views};

verus! {

/// `a` comes strictly before `b`, comparing character by character; a proper
/// prefix comes first. This is the order of `String`'s `<`.
pub open spec fn lex_lt(a: Seq<char>, b: Seq<char>) -> bool
    decreases a.len(),
{
    if a.len() == 0 {
        b.len() > 0
    } else if b.len() == 0 {
        false
    } else if a[0] != b[0] {
        (a[0] as int) < (b[0] as int)
    } else {
        lex_lt(a.drop_first(), b.drop_first())
    }
}

/// Every string of `s` comes strictly before those after it: sorted, no duplicates.
pub open spec fn strictly_sorted(s: Seq<Seq<char>>) -> bool {
    forall|i: int, j: int| 0 <= i < j < s.len() ==> lex_lt(#[trigger] s[i], #[trigger] s[j])
}

/// `a` and `b` hold the same strings, whatever their order and repetitions.
pub open spec fn same_strings(a: Seq<Seq<char>>, b: Seq<Seq<char>>) -> bool {
    &&& forall|i: int| 0 <= i < a.len() ==> b.contains(#[trigger] a[i])
    &&& forall|j: int| 0 <= j < b.len() ==> a.contains(#[trigger] b[j])
}

pub proof fn lemma_lex_irreflexive(a: Seq<char>)
    ensures
        !lex_lt(a, a),
    decreases a.len(),
{
    if a.len() > 0 {
        lemma_lex_irreflexive(a.drop_first());
    }
}

pub proof fn lemma_lex_transitive(a: Seq<char>, b: Seq<char>, c: Seq<char>)
    requires
        lex_lt(a, b),
        lex_lt(b, c),
    ensures
        lex_lt(a, c),
    decreases a.len(),
{
    if a.len() > 0 && b.len() > 0 && c.len() > 0 && a[0] == b[0] && b[0] == c[0] {
        lemma_lex_transitive(a.drop_first(), b.drop_first(), c.drop_first());
    }
}

pub proof fn lemma_lex_total(a: Seq<char>, b: Seq<char>)
    requires
        a != b,
    ensures
        lex_lt(a, b) || lex_lt(b, a),
    decreases a.len(),
{
    if a.len() == 0 {
        if b.len() == 0 {
            assert(a =~= b);
        }
    } else if b.len() == 0 {
    } else if a[0] != b[0] {
        assert((a[0] as int) != (b[0] as int));
    } else {
        if a.drop_first() == b.drop_first() {
            assert(a =~= seq![a[0]] + a.drop_first());
            assert(b =~= seq![b[0]] + b.drop_first());
        }
        lemma_lex_total(a.drop_first(), b.drop_first());
    }
}

/// Whether `a` comes strictly before `b`.
pub fn lex_less(a: &Vec<char>, b: &Vec<char>) -> (r: bool)
    ensures
        r == lex_lt(a@, b@),
{
    let mut i: usize = 0;
    assert(a@.skip(0) =~= a@);
    assert(b@.skip(0) =~= b@);
    while i < a.len() && i < b.len()
        invariant
            i <= a.len(),
            i <= b.len(),
            lex_lt(a@, b@) == lex_lt(a@.skip(i as int), b@.skip(i as int)),
        decreases a.len() - i,
    {
        if a[i] != b[i] {
            return a[i] < b[i];
        }
        assert(a@.skip(i as int).drop_first() =~= a@.skip(i + 1));
        assert(b@.skip(i as int).drop_first() =~= b@.skip(i + 1));
        i = i + 1;
    }
    i < b.len()
}

/// The strings of `items` in ascending order, each once.
pub fn sort_unique(items: Vec<String>) -> (r: Vec<String>)
    ensures
        strictly_sorted(views(r@)),
        same_strings(views(r@), views(items@)),
{
    let mut out: Vec<String> = Vec::new();
    let mut keys: Vec<Vec<char>> = Vec::new();
    let mut n: usize = 0;
    while n < items.len()
        invariant
            n <= items.len(),
            keys.len() == out.len(),
            forall|k: int| 0 <= k < keys.len() ==> #[trigger] keys@[k]@ == out@[k]@,
            strictly_sorted(views(out@)),
            forall|k: int| 0 <= k < out.len() ==> views(items@).subrange(0, n as int).contains(#[trigger] views(out@)[k]),
            forall|j: int| 0 <= j < n ==> views(out@).contains(#[trigger] views(items@)[j]),
        decreases items.len() - n,
    {
        let key = chars_of(items[n].as_str());
        let mut pos: usize = 0;
        while pos < keys.len() && lex_less(&keys[pos], &key)
            invariant
                pos <= keys.len(),
                keys.len() == out.len(),
                forall|k: int| 0 <= k < keys.len() ==> #[trigger] keys@[k]@ == out@[k]@,
                forall|k: int| 0 <= k < pos ==> lex_lt(#[trigger] views(out@)[k], key@),
            decreases keys.len() - pos,
        {
            pos = pos + 1;
        }
        let old_out = Ghost(views(out@));
        if pos < keys.len() && !lex_less(&key, &keys[pos]) {
            proof {
                if key@ != keys@[pos as int]@ {
                    lemma_lex_total(key@, keys@[pos as int]@);
                }
                assert(views(out@)[pos as int] == views(items@)[n as int]);
                assert forall|k: int| 0 <= k < out.len() implies views(items@).subrange(0, n + 1).contains(#[trigger] views(out@)[k]) by {
                    let j = choose|j: int| 0 <= j < n && views(items@).subrange(0, n as int)[j] == views(out@)[k];
                    assert(views(items@).subrange(0, n + 1)[j] == views(out@)[k]);
                }
            }
        } else {
            proof {
                assert forall|k: int| pos <= k < out.len() implies lex_lt(key@, #[trigger] views(out@)[k]) by {
                    if key@ == keys@[pos as int]@ {
                        lemma_lex_irreflexive(key@);
                    }
                    lemma_lex_total(key@, keys@[pos as int]@);
                    if k > pos {
                        lemma_lex_transitive(key@, views(out@)[pos as int], views(out@)[k]);
                    }
                }
            }
            let s = items[n].clone();
            proof { assert(s@ == items@[n as int]@); }
            out.insert(pos, s);
            keys.insert(pos, key);
            proof {
                let v = views(out@);
                assert(v =~= old_out@.subrange(0, pos as int).push(items@[n as int]@) + old_out@.subrange(pos as int, old_out@.len() as int));
                assert forall|i: int, j: int| 0 <= i < j < v.len() implies lex_lt(#[trigger] v[i], #[trigger] v[j]) by {
                    if j == pos {
                    } else if i == pos {
                        assert(v[j] == old_out@[j - 1]);
                    } else {
                        let oi = if i < pos { i } else { i - 1 };
                        let oj = if j < pos { j } else { j - 1 };
                        assert(v[i] == old_out@[oi]);
                        assert(v[j] == old_out@[oj]);
                    }
                }
                assert forall|k: int| 0 <= k < out.len() implies views(items@).subrange(0, n + 1).contains(#[trigger] views(out@)[k]) by {
                    if k == pos {
                        assert(views(items@).subrange(0, n + 1)[n as int] == v[k]);
                    } else {
                        let ok = if k < pos { k } else { k - 1 };
                        assert(v[k] == old_out@[ok]);
                        let j = choose|j: int| 0 <= j < n && views(items@).subrange(0, n as int)[j] == old_out@[ok];
                        assert(views(items@).subrange(0, n + 1)[j] == v[k]);
                    }
                }
                assert forall|j: int| 0 <= j < n + 1 implies views(out@).contains(#[trigger] views(items@)[j]) by {
                    if j == n {
                        assert(v[pos as int] == views(items@)[j]);
                    } else {
                        let k = choose|k: int| 0 <= k < old_out@.len() && old_out@[k] == views(items@)[j];
                        if k < pos {
                            assert(v[k] == old_out@[k]);
                        } else {
                            assert(v[k + 1] == old_out@[k]);
                        }
                    }
                }
            }
        }
        n = n + 1;
    }
    proof {
        assert(views(items@).subrange(0, n as int) =~= views(items@));
    }
    out
}

} // verus!
