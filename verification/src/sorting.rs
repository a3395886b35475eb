//! Sorting texts.
use crate::text::{chars_of, views};
use vstd::prelude::*;
use vstd::seq_lib::*;

verus! {

/// `a` stands before `b`, or is `b`, in the order of their characters.
pub open spec fn text_le(a: Seq<char>, b: Seq<char>) -> bool
    decreases a.len(),
{
    if a.len() == 0 {
        true
    } else if b.len() == 0 {
        false
    } else if a[0] != b[0] {
        a[0] < b[0]
    } else {
        text_le(a.skip(1), b.skip(1))
    }
}

/// Each text stands before the next ones.
pub open spec fn is_sorted(s: Seq<Seq<char>>) -> bool {
    forall|i: int, j: int|
        0 <= i < j < s.len() ==> #[trigger] text_le(s[i], s[j])
}

/// Of two texts one stands before the other.
pub proof fn lemma_text_le_total(a: Seq<char>, b: Seq<char>)
    ensures
        text_le(a, b) || text_le(b, a),
    decreases a.len(),
{
    if a.len() > 0 && b.len() > 0 && a[0] == b[0] {
        lemma_text_le_total(a.skip(1), b.skip(1));
    }
}

/// What stands before a text stands before all that this one stands before.
pub proof fn lemma_text_le_transitive(a: Seq<char>, b: Seq<char>, c: Seq<char>)
    requires
        text_le(a, b),
        text_le(b, c),
    ensures
        text_le(a, c),
    decreases a.len(),
{
    if a.len() > 0 && b.len() > 0 && c.len() > 0 && a[0] == b[0] && b[0] == c[0] {
        lemma_text_le_transitive(a.skip(1), b.skip(1), c.skip(1));
    }
}

/// Two texts that stand before each other are the same.
pub proof fn lemma_text_le_antisymmetric(a: Seq<char>, b: Seq<char>)
    requires
        text_le(a, b),
        text_le(b, a),
    ensures
        a == b,
    decreases a.len(),
{
    if a.len() > 0 && b.len() > 0 && a[0] == b[0] {
        lemma_text_le_antisymmetric(a.skip(1), b.skip(1));
        assert(a =~= seq![a[0]] + a.skip(1));
        assert(b =~= seq![b[0]] + b.skip(1));
    } else {
        assert(a =~= b);
    }
}

/// Whether `a` stands before `b`, or is `b`.
pub fn stands_before(a: &str, b: &str) -> (res: bool)
    ensures
        res == text_le(a@, b@),
{
    let v = chars_of(a);
    let w = chars_of(b);
    let mut i: usize = 0;
    assert(v@.skip(0) =~= v@ && w@.skip(0) =~= w@);
    while i < v.len() && i < w.len() && v[i] == w[i]
        invariant
            i <= v@.len(),
            i <= w@.len(),
            text_le(v@, w@) == text_le(v@.skip(i as int), w@.skip(i as int)),
        decreases v@.len() - i,
    {
        assert(v@.skip(i as int).skip(1) =~= v@.skip(i + 1));
        assert(w@.skip(i as int).skip(1) =~= w@.skip(i + 1));
        i += 1;
    }
    if i == v.len() {
        true
    } else if i == w.len() {
        false
    } else {
        v[i] < w[i]
    }
}

/// Sorts texts.
pub fn sort_texts(texts: Vec<String>) -> (res: Vec<String>)
    ensures
        is_sorted(views(res@)),
        views(res@).to_multiset() == views(texts@).to_multiset(),
{
    let ghost all = views(texts@);
    let mut sorted: Vec<String> = Vec::new();
    assert(all.take(0) =~= views(sorted@));
    for text in it: texts
        invariant
            it.seq() == texts@,
            all == views(texts@),
            is_sorted(views(sorted@)),
            views(sorted@).to_multiset() == all.take(it.index() as int).to_multiset(),
            sorted@.len() == it.index(),
    {
        let ghost k = it.index() as int;
        let ghost t = text@;
        let ghost before = views(sorted@);
        let mut at: usize = sorted.len();
        while at > 0 && !stands_before(sorted[at - 1].as_str(), text.as_str())
            invariant
                at <= sorted@.len(),
                t == text@,
                views(sorted@) == before,
                is_sorted(before),
                forall|j: int| at <= j < sorted@.len() ==> text_le(t, #[trigger] before[j]),
            decreases at,
        {
            proof {
                lemma_text_le_total(t, before[at - 1]);
            }
            at -= 1;
        }
        let ghost pos = at as int;
        proof {
            assert forall|j: int| 0 <= j < pos implies text_le(#[trigger] before[j], t) by {
                if j < pos - 1 {
                    assert(text_le(before[j], before[pos - 1]));
                    lemma_text_le_transitive(before[j], before[pos - 1], t);
                }
            }
        }
        sorted.insert(at, text);
        proof {
            assert(views(sorted@) =~= before.insert(pos, t));
            before.insert_ensures(pos, t);
            before.to_multiset_ensures();
            assert(all.take(k + 1) =~= all.take(k).push(t));
            all.take(k).to_multiset_ensures();
            to_multiset_insert(before, pos, t);
            let after = views(sorted@);
            assert forall|i: int, j: int| 0 <= i < j < after.len() implies #[trigger] text_le(
                after[i],
                after[j],
            ) by {
                let a = if i < pos {
                    i
                } else {
                    i - 1
                };
                let b = if j < pos {
                    j
                } else {
                    j - 1
                };
                if i != pos && j != pos {
                    assert(text_le(before[a], before[b]));
                } else if i == pos {
                    assert(text_le(t, before[b]));
                } else {
                    assert(text_le(before[a], t));
                }
            }
        }
    }
    assert(all.take(all.len() as int) =~= all);
    sorted
}

} // verus!
