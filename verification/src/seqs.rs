//! Facts about concatenating and filtering sequences that the board's laws
//! rest on.

use vstd::prelude::*;

verus! {

/// A value occurs in the concatenation of a sequence of sequences exactly if
/// it occurs in one of them.
pub proof fn lemma_flatten_contains<A>(ss: Seq<Seq<A>>, x: A)
    ensures
        ss.flatten().contains(x) <==> exists|i: int|
            0 <= i < ss.len() && (#[trigger] ss[i]).contains(x),
    decreases ss.len(),
{
    if ss.len() > 0 {
        let first = ss.first();
        let rest = ss.drop_first();
        let flat = ss.flatten();
        lemma_flatten_contains(rest, x);
        assert(flat == first + rest.flatten());
        if flat.contains(x) {
            let k = choose|k: int| 0 <= k < flat.len() && flat[k] == x;
            if k < first.len() {
                assert(first[k] == x);
                assert(ss[0].contains(x));
            } else {
                assert(rest.flatten()[k - first.len()] == x);
                assert(rest.flatten().contains(x));
                let i = choose|i: int| 0 <= i < rest.len() && (#[trigger] rest[i]).contains(x);
                assert(ss[i + 1].contains(x));
            }
        }
        if exists|i: int| 0 <= i < ss.len() && (#[trigger] ss[i]).contains(x) {
            let i = choose|i: int| 0 <= i < ss.len() && (#[trigger] ss[i]).contains(x);
            if i == 0 {
                let k = choose|k: int| 0 <= k < first.len() && first[k] == x;
                assert(flat[k] == x);
            } else {
                assert(rest[i - 1].contains(x));
                let k = choose|k: int| 0 <= k < rest.flatten().len() && rest.flatten()[k] == x;
                assert(flat[first.len() + k] == x);
            }
        }
    }
}

/// Where each sequence of `b` is no longer than its counterpart in `a`, the
/// concatenation of `b` is no longer than that of `a`, and they are equally
/// long exactly if all counterparts are.
pub proof fn lemma_flatten_len_compare<A>(a: Seq<Seq<A>>, b: Seq<Seq<A>>)
    requires
        a.len() == b.len(),
        forall|i: int| 0 <= i < a.len() ==> (#[trigger] b[i]).len() <= a[i].len(),
    ensures
        b.flatten().len() <= a.flatten().len(),
        b.flatten().len() == a.flatten().len() <==> forall|i: int|
            0 <= i < a.len() ==> (#[trigger] b[i]).len() == a[i].len(),
    decreases a.len(),
{
    if a.len() > 0 {
        let ra = a.drop_first();
        let rb = b.drop_first();
        assert forall|i: int| 0 <= i < ra.len() implies (#[trigger] rb[i]).len() <= ra[i].len() by {
            assert(b[i + 1].len() <= a[i + 1].len());
        }
        lemma_flatten_len_compare(ra, rb);
        assert(a.flatten() == a.first() + ra.flatten());
        assert(b.flatten() == b.first() + rb.flatten());
        assert(b[0].len() <= a[0].len());
        if b.flatten().len() == a.flatten().len() {
            assert forall|i: int| 0 <= i < a.len() implies (#[trigger] b[i]).len() == a[i].len() by {
                if i > 0 {
                    assert(rb[i - 1].len() == ra[i - 1].len());
                }
            }
        }
        if forall|i: int| 0 <= i < a.len() ==> (#[trigger] b[i]).len() == a[i].len() {
            assert forall|i: int| 0 <= i < ra.len() implies (#[trigger] rb[i]).len()
                == ra[i].len() by {
                assert(b[i + 1].len() == a[i + 1].len());
            }
        }
    }
}

/// The concatenation of sequences that hold no value twice, and no value in
/// common, holds no value twice.
pub proof fn lemma_flatten_no_duplicates<A>(ss: Seq<Seq<A>>)
    requires
        forall|i: int| 0 <= i < ss.len() ==> (#[trigger] ss[i]).no_duplicates(),
        forall|i: int, j: int, x: A|
            #![trigger ss[i].contains(x), ss[j].contains(x)]
            0 <= i < j < ss.len() && ss[i].contains(x) ==> !ss[j].contains(x),
    ensures
        ss.flatten().no_duplicates(),
    decreases ss.len(),
{
    if ss.len() > 0 {
        let first = ss.first();
        let rest = ss.drop_first();
        assert forall|i: int| 0 <= i < rest.len() implies (#[trigger] rest[i]).no_duplicates() by {
            assert(ss[i + 1].no_duplicates());
        }
        assert forall|i: int, j: int, x: A|
            #![trigger rest[i].contains(x), rest[j].contains(x)]
            0 <= i < j < rest.len() && rest[i].contains(x) implies !rest[j].contains(x) by {
            assert(ss[i + 1].contains(x));
            assert(!ss[j + 1].contains(x));
        }
        lemma_flatten_no_duplicates(rest);
        assert(ss.flatten() == first + rest.flatten());
        assert forall|i: int, j: int|
            0 <= i < first.len() && 0 <= j < rest.flatten().len() implies first[i]
            != rest.flatten()[j] by {
            let x = first[i];
            if rest.flatten()[j] == x {
                assert(rest.flatten().contains(x));
                lemma_flatten_contains(rest, x);
                let k = choose|k: int| 0 <= k < rest.len() && (#[trigger] rest[k]).contains(x);
                assert(ss[0].contains(x));
                assert(ss[k + 1].contains(x));
            }
        }
        assert(ss[0].no_duplicates());
        vstd::seq_lib::lemma_no_dup_in_concat(first, rest.flatten());
    }
}

/// A filter keeps the whole sequence exactly if every element passes.
pub proof fn lemma_filter_keeps_all<A>(s: Seq<A>, pred: spec_fn(A) -> bool)
    ensures
        s.filter(pred).len() <= s.len(),
        s.filter(pred).len() == s.len() <==> forall|i: int| 0 <= i < s.len() ==> pred(#[trigger] s[i]),
    decreases s.len(),
{
    reveal(Seq::filter);
    if s.len() > 0 {
        let front = s.drop_last();
        lemma_filter_keeps_all(front, pred);
        if s.filter(pred).len() == s.len() {
            assert forall|i: int| 0 <= i < s.len() implies pred(#[trigger] s[i]) by {
                if i < s.len() - 1 {
                    assert(pred(front[i]));
                }
            }
        }
        if forall|i: int| 0 <= i < s.len() ==> pred(#[trigger] s[i]) {
            assert forall|i: int| 0 <= i < front.len() implies pred(#[trigger] front[i]) by {
                assert(pred(s[i]));
            }
            assert(pred(s.last()));
        }
    }
}

/// A value is among the elements that pass a filter exactly if it is an
/// element of the sequence that passes.
pub proof fn lemma_filter_contains<A>(s: Seq<A>, pred: spec_fn(A) -> bool, x: A)
    ensures
        s.filter(pred).contains(x) <==> s.contains(x) && pred(x),
    decreases s.len(),
{
    reveal(Seq::filter);
    if s.len() > 0 {
        let front = s.drop_last();
        let kept = s.filter(pred);
        lemma_filter_contains(front, pred, x);
        if kept.contains(x) {
            let k = choose|k: int| 0 <= k < kept.len() && kept[k] == x;
            if pred(s.last()) && k == kept.len() - 1 {
                assert(s[s.len() - 1] == x);
            } else {
                assert(front.filter(pred)[k] == x);
                assert(front.filter(pred).contains(x));
                let j = choose|j: int| 0 <= j < front.len() && front[j] == x;
                assert(s[j] == x);
            }
        }
        if s.contains(x) && pred(x) {
            let j = choose|j: int| 0 <= j < s.len() && s[j] == x;
            if j == s.len() - 1 {
                assert(kept[kept.len() - 1] == x);
            } else {
                assert(front[j] == x);
                assert(front.contains(x));
                let k = choose|k: int|
                    0 <= k < front.filter(pred).len() && front.filter(pred)[k] == x;
                assert(kept[k] == x);
            }
        }
    }
}

} // verus!
