use vstd::prelude::*;
use crate::meme::{Meme, MemeView, views};

verus! {

/// The popularity of a record: likes plus comments.
pub open spec fn score(m: MemeView) -> int {
    (m.likes + m.comment_count) as int
}

/// No record of `s` is more popular than one before it.
pub open spec fn descending(s: Seq<MemeView>) -> bool {
    forall|i: int, j: int| 0 <= i < j < s.len() ==> score(#[trigger] s[i]) >= score(#[trigger] s[j])
}

/// The records of `s` whose popularity is `v`, in the order of `s`.
pub open spec fn with_score(s: Seq<MemeView>, v: int) -> Seq<MemeView> {
    s.filter(|m: MemeView| score(m) == v)
}

fn popularity(m: &Meme) -> (r: u128)
    ensures
        r == score(m@),
{
    m.likes as u128 + m.comment_count as u128
}

proof fn lemma_insert_at_rank(a: Seq<MemeView>, k: int, x: MemeView)
    requires
        descending(a),
        0 <= k <= a.len(),
        forall|j: int| 0 <= j < k ==> score(#[trigger] a[j]) >= score(x),
        forall|j: int| k <= j < a.len() ==> score(#[trigger] a[j]) < score(x),
    ensures
        descending(a.insert(k, x)),
        forall|v: int| #[trigger] with_score(a.insert(k, x), v) == if score(x) == v {
            with_score(a, v).push(x)
        } else {
            with_score(a, v)
        },
{
    let b = a.insert(k, x);
    assert(descending(b)) by {
        assert forall|i: int, j: int| 0 <= i < j < b.len() implies score(#[trigger] b[i]) >= score(#[trigger] b[j]) by {
            if j < k {
                assert(b[i] == a[i] && b[j] == a[j]);
            } else if j == k {
                assert(b[i] == a[i]);
            } else if i < k {
                assert(b[i] == a[i] && b[j] == a[j - 1]);
            } else if i == k {
                assert(b[j] == a[j - 1]);
            } else {
                assert(b[i] == a[i - 1] && b[j] == a[j - 1]);
            }
        }
    }
    assert forall|v: int| #[trigger] with_score(b, v) == if score(x) == v {
        with_score(a, v).push(x)
    } else {
        with_score(a, v)
    } by {
        let pred = |m: MemeView| score(m) == v;
        let front = a.take(k);
        let back = a.skip(k);
        assert(a =~= front + back);
        assert(b =~= front.push(x) + back);
        Seq::filter_distributes_over_add(front.push(x), back, pred);
        Seq::filter_distributes_over_add(front, back, pred);
        front.lemma_filter_push(x, pred);
        if score(x) == v {
            assert(back.all(|m: MemeView| !pred(m))) by {
                assert forall|j: int| 0 <= j < back.len() implies !pred(#[trigger] back[j]) by {
                    assert(back[j] == a[k + j]);
                }
            }
            back.lemma_all_neg_filter_empty(pred);
            assert(back.filter(pred) =~= Seq::<MemeView>::empty());
            assert(with_score(b, v) =~= front.filter(pred).push(x));
            assert(with_score(a, v) =~= front.filter(pred));
        }
    }
}

/// The records ordered by descending popularity; records of equal popularity
/// keep the order they have in `records`. The input is left as it is.
pub fn rank(records: &Vec<Meme>) -> (r: Vec<Meme>)
    ensures
        descending(views(r@)),
        forall|v: int| #[trigger] with_score(views(r@), v) == with_score(views(records@), v),
{
    let ghost input = views(records@);
    let mut r: Vec<Meme> = Vec::new();
    let mut i: usize = 0;
    while i < records.len()
        invariant
            0 <= i <= records@.len(),
            input == views(records@),
            descending(views(r@)),
            forall|v: int| #[trigger] with_score(views(r@), v) == with_score(input.take(i as int), v),
        decreases records@.len() - i,
    {
        let x = records[i].duplicate();
        let sx = popularity(&x);
        let mut k: usize = 0;
        while k < r.len() && popularity(&r[k]) >= sx
            invariant
                0 <= k <= r@.len(),
                sx == score(x@),
                forall|j: int| 0 <= j < k ==> score(#[trigger] views(r@)[j]) >= score(x@),
            decreases r@.len() - k,
        {
            k = k + 1;
        }
        let ghost a = views(r@);
        proof {
            assert forall|j: int| k <= j < a.len() implies score(#[trigger] a[j]) < score(x@) by {
                assert(score(a[k as int]) < score(x@));
            }
            lemma_insert_at_rank(a, k as int, x@);
            assert(input.take(i as int + 1) =~= input.take(i as int).push(x@));
            assert forall|v: int| #[trigger] with_score(input.take(i as int + 1), v) == if score(x@) == v {
                with_score(input.take(i as int), v).push(x@)
            } else {
                with_score(input.take(i as int), v)
            } by {
                input.take(i as int).lemma_filter_push(x@, |m: MemeView| score(m) == v);
            }
        }
        r.insert(k, x);
        assert(views(r@) =~= a.insert(k as int, x@));
        i = i + 1;
    }
    assert(input.take(i as int) =~= input);
    r
}

proof fn lemma_filter_keeps_order(s: Seq<MemeView>, pred: spec_fn(MemeView) -> bool, i: int, j: int)
    requires
        0 <= i < j < s.len(),
        pred(s[i]),
        pred(s[j]),
    ensures
        exists|p: int, q: int|
            0 <= p < q < s.filter(pred).len() && s.filter(pred)[p] == s[i] && s.filter(pred)[q] == s[j],
    decreases s.len(),
{
    let d = s.drop_last();
    assert(s =~= d.push(s.last()));
    d.lemma_filter_push(s.last(), pred);
    if j < s.len() - 1 {
        lemma_filter_keeps_order(d, pred, i, j);
        let (p, q) = choose|p: int, q: int|
            0 <= p < q < d.filter(pred).len() && d.filter(pred)[p] == d[i] && d.filter(pred)[q] == d[j];
        assert(s.filter(pred)[p] == s[i] && s.filter(pred)[q] == s[j]);
    } else {
        d.lemma_filter_contains(pred, i);
        let p = choose|p: int| 0 <= p < d.filter(pred).len() && d.filter(pred)[p] == d[i];
        let q = d.filter(pred).len() as int;
        assert(s.filter(pred)[p] == s[i] && s.filter(pred)[q] == s[j]);
    }
}

proof fn lemma_filter_from_order(s: Seq<MemeView>, pred: spec_fn(MemeView) -> bool, p: int, q: int)
    requires
        0 <= p < q < s.filter(pred).len(),
    ensures
        exists|i: int, j: int|
            0 <= i < j < s.len() && s[i] == s.filter(pred)[p] && s[j] == s.filter(pred)[q],
    decreases s.len(),
{
    let d = s.drop_last();
    assert(s =~= d.push(s.last()));
    d.lemma_filter_push(s.last(), pred);
    if q < d.filter(pred).len() {
        lemma_filter_from_order(d, pred, p, q);
        let (i, j) = choose|i: int, j: int|
            0 <= i < j < d.len() && d[i] == d.filter(pred)[p] && d[j] == d.filter(pred)[q];
        assert(s[i] == s.filter(pred)[p] && s[j] == s.filter(pred)[q]);
    } else {
        assert(d.filter(pred).contains(d.filter(pred)[p]));
        d.lemma_filter_contains_rev(pred, d.filter(pred)[p]);
        let i = choose|i: int| 0 <= i < d.len() && d[i] == d.filter(pred)[p];
        assert(s[i] == s.filter(pred)[p]);
        assert(s[s.len() - 1] == s.filter(pred)[q]);
    }
}

/// Stability of `rank` position by position: when two records of the ranked
/// sequence `out` have the same popularity, the first of them comes before
/// the second in the input as well.
pub proof fn lemma_rank_stable(input: Seq<MemeView>, out: Seq<MemeView>, i: int, j: int)
    requires
        forall|v: int| #[trigger] with_score(out, v) == with_score(input, v),
        0 <= i < j < out.len(),
        score(out[i]) == score(out[j]),
    ensures
        exists|a: int, b: int| 0 <= a < b < input.len() && input[a] == out[i] && input[b] == out[j],
{
    let v = score(out[i]);
    let pred = |m: MemeView| score(m) == v;
    assert(with_score(out, v) == out.filter(pred));
    lemma_filter_keeps_order(out, pred, i, j);
    let (p, q) = choose|p: int, q: int|
        0 <= p < q < out.filter(pred).len() && out.filter(pred)[p] == out[i] && out.filter(pred)[q] == out[j];
    assert(with_score(input, v) == input.filter(pred));
    lemma_filter_from_order(input, pred, p, q);
}

} // verus!
