//! The order of texts: character by character, by code point, a text
//! before every longer text that starts with it. This is the order in which
//! `str` and `String` compare.

use crate::text::{chars_of, lemma_views_push, views};
use vstd::prelude::*;

verus! {

/// `a` comes before `b`, or is `b`.
pub open spec fn lex_le(a: Seq<char>, b: Seq<char>) -> bool
    decreases a.len(),
{
    if a.len() == 0 {
        true
    } else if b.len() == 0 {
        false
    } else if a[0] == b[0] {
        lex_le(a.drop_first(), b.drop_first())
    } else {
        a[0] < b[0]
    }
}

/// Every text is at or before itself.
pub proof fn lemma_lex_reflexive(a: Seq<char>)
    ensures
        lex_le(a, a),
    decreases a.len(),
{
    if a.len() > 0 {
        lemma_lex_reflexive(a.drop_first());
    }
}

/// Of two texts one is at or before the other.
pub proof fn lemma_lex_total(a: Seq<char>, b: Seq<char>)
    ensures
        lex_le(a, b) || lex_le(b, a),
    decreases a.len(),
{
    if a.len() > 0 && b.len() > 0 && a[0] == b[0] {
        lemma_lex_total(a.drop_first(), b.drop_first());
    }
}

/// Two texts that are each at or before the other are the same.
pub proof fn lemma_lex_antisymmetric(a: Seq<char>, b: Seq<char>)
    requires
        lex_le(a, b),
        lex_le(b, a),
    ensures
        a == b,
    decreases a.len(),
{
    if a.len() == 0 || b.len() == 0 {
        assert(a =~= b);
    } else {
        lemma_lex_antisymmetric(a.drop_first(), b.drop_first());
        assert(a =~= seq![a[0]] + a.drop_first());
        assert(b =~= seq![b[0]] + b.drop_first());
    }
}

/// What is at or before a text is at or before everything after it.
pub proof fn lemma_lex_transitive(a: Seq<char>, b: Seq<char>, c: Seq<char>)
    requires
        lex_le(a, b),
        lex_le(b, c),
    ensures
        lex_le(a, c),
    decreases a.len(),
{
    if a.len() > 0 && b.len() > 0 && c.len() > 0 && a[0] == b[0] && b[0] == c[0] {
        lemma_lex_transitive(a.drop_first(), b.drop_first(), c.drop_first());
    }
}

/// Whether `a` comes before `b` or is `b`.
pub fn chars_le(a: &Vec<char>, b: &Vec<char>) -> (r: bool)
    ensures
        r == lex_le(a@, b@),
{
    let mut i: usize = 0;
    assert(a@.skip(0) =~= a@);
    assert(b@.skip(0) =~= b@);
    while i < a.len() && i < b.len()
        invariant
            i <= a.len(),
            i <= b.len(),
            lex_le(a@, b@) == lex_le(a@.skip(i as int), b@.skip(i as int)),
        decreases a.len() - i,
    {
        let ghost x = a@.skip(i as int);
        let ghost y = b@.skip(i as int);
        assert(x[0] == a@[i as int]);
        assert(y[0] == b@[i as int]);
        if a[i] != b[i] {
            return a[i] < b[i];
        }
        assert(x.drop_first() =~= a@.skip(i + 1));
        assert(y.drop_first() =~= b@.skip(i + 1));
        i += 1;
    }
    i == a.len()
}

/// Whether the text `a` comes before the text `b` or is `b`.
pub fn text_le(a: &str, b: &str) -> (r: bool)
    ensures
        r == lex_le(a@, b@),
{
    let x = chars_of(a);
    let y = chars_of(b);
    chars_le(&x, &y)
}

/// Every text comes before the ones after it, or is the same.
pub open spec fn ascending(texts: Seq<Seq<char>>) -> bool {
    forall|i: int, j: int| 0 <= i < j < texts.len() ==> lex_le(#[trigger] texts[i], #[trigger] texts[j])
}

/// The index of a text of `texts` that no other comes after; `None` for an
/// empty list.
pub fn last_in_order(texts: &Vec<String>) -> (r: Option<usize>)
    ensures
        match r {
            Some(at) => at < texts.len() && forall|k: int|
                0 <= k < texts.len() ==> lex_le((#[trigger] texts@[k])@, texts@[at as int]@),
            None => texts.len() == 0,
        },
{
    if texts.len() == 0 {
        return None;
    }
    let mut best: usize = 0;
    let mut i: usize = 1;
    proof {
        lemma_lex_reflexive(texts@[0]@);
    }
    while i < texts.len()
        invariant
            best < i <= texts.len(),
            forall|k: int| 0 <= k < i ==> lex_le((#[trigger] texts@[k])@, texts@[best as int]@),
        decreases texts.len() - i,
    {
        if !text_le(texts[i].as_str(), texts[best].as_str()) {
            proof {
                lemma_lex_total(texts@[i as int]@, texts@[best as int]@);
                lemma_lex_reflexive(texts@[i as int]@);
                assert forall|k: int| 0 <= k < i + 1 implies lex_le(
                    (#[trigger] texts@[k])@,
                    texts@[i as int]@,
                ) by {
                    if k < i {
                        lemma_lex_transitive(texts@[k]@, texts@[best as int]@, texts@[i as int]@);
                    }
                }
            }
            best = i;
        }
        i += 1;
    }
    Some(best)
}

/// Moving the text at `i` up to `p` in a list that is ascending before `i`
/// keeps the texts and extends the ascending front by one.
proof fn lemma_move_up(v: Seq<Seq<char>>, i: int, p: int)
    requires
        0 <= p <= i < v.len(),
        ascending(v.take(i)),
        forall|k: int| p <= k < i ==> lex_le(v[i], #[trigger] v[k]),
        p > 0 ==> lex_le(v[p - 1], v[i]),
    ensures
        ({
            let w = v.remove(i).insert(p, v[i]);
            &&& w.len() == v.len()
            &&& ascending(w.take(i + 1))
            &&& w.to_multiset() == v.to_multiset()
        }),
{
    broadcast use vstd::seq_lib::group_to_multiset_ensures;

    let x = v[i];
    let w = v.remove(i).insert(p, x);
    let front = v.take(i);
    assert forall|a: int, b: int| 0 <= a < b < i + 1 implies lex_le(
        #[trigger] w.take(i + 1)[a],
        #[trigger] w.take(i + 1)[b],
    ) by {
        assert(w.take(i + 1)[a] == w[a]);
        assert(w.take(i + 1)[b] == w[b]);
        if b < p {
            assert(front[a] == v[a] && front[b] == v[b]);
        } else if b == p {
            assert(front[a] == v[a] && front[p - 1] == v[p - 1]);
            if a < p - 1 {
                lemma_lex_transitive(v[a], v[p - 1], x);
            }
        } else if a < p {
            assert(front[a] == v[a] && front[b - 1] == v[b - 1]);
        } else if a == p {
            assert(w[b] == v[b - 1]);
        } else {
            assert(front[a - 1] == v[a - 1] && front[b - 1] == v[b - 1]);
        }
    }
    assert(w.to_multiset() == v.to_multiset()) by {
        vstd::seq_lib::to_multiset_remove(v, i);
        vstd::seq_lib::to_multiset_insert(v.remove(i), p, x);
        assert(v.to_multiset().count(x) > 0);
        assert(v.to_multiset().remove(x).insert(x) =~= v.to_multiset());
    }
}

/// Puts `texts` in ascending order.
pub fn sort_texts(texts: &mut Vec<String>)
    ensures
        ascending(views(final(texts)@)),
        views(final(texts)@).to_multiset() == views(old(texts)@).to_multiset(),
{
    let ghost given = views(texts@);
    let n = texts.len();
    if n == 0 {
        return;
    }
    let mut i: usize = 1;
    while i < n
        invariant
            1 <= i <= n == texts.len(),
            ascending(views(texts@).take(i as int)),
            views(texts@).to_multiset() == given.to_multiset(),
        decreases n - i,
    {
        let ghost v = views(texts@);
        let mut p: usize = i;
        while p > 0 && !text_le(texts[p - 1].as_str(), texts[i].as_str())
            invariant
                p <= i < n == texts.len(),
                forall|k: int| p <= k < i ==> lex_le(v[i as int], #[trigger] v[k]),
                v == views(texts@),
            decreases p,
        {
            proof {
                lemma_lex_total(v[p - 1], v[i as int]);
            }
            p -= 1;
        }
        proof {
            lemma_move_up(v, i as int, p as int);
        }
        let x = texts.remove(i);
        texts.insert(p, x);
        assert(views(texts@) =~= v.remove(i as int).insert(p as int, v[i as int]));
        i += 1;
    }
    assert(views(texts@).take(n as int) =~= views(texts@));
}

/// Whether one of `texts` is `wanted`.
pub fn holds_text(texts: &Vec<String>, wanted: &String) -> (b: bool)
    ensures
        b == views(texts@).contains(wanted@),
{
    let mut i: usize = 0;
    while i < texts.len()
        invariant
            i <= texts.len(),
            forall|k: int| 0 <= k < i ==> views(texts@)[k] != wanted@,
        decreases texts.len() - i,
    {
        if texts[i] == *wanted {
            assert(views(texts@)[i as int] == wanted@);
            return true;
        }
        i += 1;
    }
    false
}

/// The texts of `names` in ascending order, each once.
pub fn sorted_distinct(names: &Vec<String>) -> (out: Vec<String>)
    ensures
        ascending(views(out@)),
        views(out@).no_duplicates(),
        forall|x: Seq<char>| views(out@).contains(x) == views(names@).contains(x),
{
    broadcast use vstd::seq_lib::group_to_multiset_ensures;

    let mut out: Vec<String> = Vec::new();
    let mut i: usize = 0;
    while i < names.len()
        invariant
            i <= names.len(),
            views(out@).no_duplicates(),
            forall|x: Seq<char>|
                views(out@).contains(x) == views(names@).take(i as int).contains(x),
        decreases names.len() - i,
    {
        let ghost seen = views(out@);
        let ghost upto = views(names@).take(i as int);
        let ghost next = views(names@).take(i + 1);
        let ghost name = names@[i as int]@;
        proof {
            assert(next =~= upto.push(name));
            assert forall|x: Seq<char>| next.contains(x) == (upto.contains(x) || x == name) by {
                if upto.contains(x) {
                    let k = choose|k: int| 0 <= k < upto.len() && upto[k] == x;
                    assert(next[k] == x);
                }
                if x == name {
                    assert(next[i as int] == x);
                }
            }
        }
        if !holds_text(&out, &names[i]) {
            proof {
                lemma_views_push(out@, names@[i as int]);
            }
            out.push(names[i].clone());
            proof {
                let now = views(out@);
                assert(now =~= seen.push(name));
                assert forall|x: Seq<char>| now.contains(x) == (seen.contains(x) || x == name) by {
                    if seen.contains(x) {
                        let k = choose|k: int| 0 <= k < seen.len() && seen[k] == x;
                        assert(now[k] == x);
                    }
                    if x == name {
                        assert(now[now.len() - 1] == x);
                    }
                }
            }
        }
        i += 1;
    }
    assert(views(names@).take(names@.len() as int) =~= views(names@));
    let ghost distinct = views(out@);
    sort_texts(&mut out);
    proof {
        let sorted = views(out@);
        distinct.lemma_multiset_has_no_duplicates();
        sorted.lemma_multiset_has_no_duplicates_conv();
        assert forall|x: Seq<char>| sorted.contains(x) == distinct.contains(x) by {
            assert(sorted.contains(x) == (sorted.to_multiset().count(x) > 0));
            assert(distinct.contains(x) == (distinct.to_multiset().count(x) > 0));
        }
    }
    out
}

} // verus!
