//! Reversing text, four ways.

use vstd::prelude::*;

verus! {

/// The characters of `text`, in order.
fn characters(text: &str) -> (list: Vec<char>)
    ensures
        list@ == text@,
{
    let mut list: Vec<char> = Vec::new();
    for c in it: text.chars()
        invariant
            it.seq() == text@,
            list@ == text@.take(it.index() as int),
    {
        list.push(c);
        assert(list@ =~= text@.take(it.index() + 1));
    }
    assert(text@.take(text@.len() as int) =~= text@);
    list
}

/// Reverses `forwards` by reading its characters from the last index down.
pub fn backwards1(forwards: &str) -> (backwards: String)
    ensures
        backwards@ == forwards@.reverse(),
{
    let mut backwards = String::new();
    let n = forwards.unicode_len();
    let mut i: usize = n;
    while i > 0
        invariant
            i <= n,
            n == forwards@.len(),
            backwards@ == forwards@.subrange(i as int, n as int).reverse(),
        decreases i,
    {
        i -= 1;
        backwards.push(forwards.get_char(i));
        assert(backwards@ =~= forwards@.subrange(i as int, n as int).reverse());
    }
    assert(forwards@.subrange(0, n as int) =~= forwards@);
    backwards
}

/// Reverses `forwards` by walking its characters from the back.
pub fn backwards2(forwards: &str) -> (backwards: String)
    ensures
        backwards@ == forwards@.reverse(),
{
    let list = characters(forwards);
    let mut backwards = String::new();
    for c in it: list.iter().rev()
        invariant
            list@ == forwards@,
            backwards@.len() == it.index(),
            forall|i: int| 0 <= i < backwards@.len() ==> backwards@[i] == *it.seq()[i],
    {
        backwards.push(*c);
    }
    assert(backwards@ =~= forwards@.reverse());
    backwards
}

/// Reverses `forwards` by swapping its characters in place, the first with
/// the last and so on to the middle.
pub fn backwards3(forwards: &str) -> (backwards: String)
    ensures
        backwards@ == forwards@.reverse(),
{
    let mut list = characters(forwards);
    let n = list.len();
    let half_len = n / 2;
    let mut i0: usize = 0;
    while i0 < half_len
        invariant
            i0 <= half_len,
            half_len == n / 2,
            n == forwards@.len(),
            list@.len() == n,
            forall|j: int| 0 <= j < i0 ==> list@[j] == forwards@[n - 1 - j],
            forall|j: int| n - i0 <= j < n ==> list@[j] == forwards@[n - 1 - j],
            forall|j: int| i0 <= j < n - i0 ==> list@[j] == forwards@[j],
        decreases half_len - i0,
    {
        let i1 = n - 1 - i0;
        let a = list[i0];
        let b = list[i1];
        list.set(i0, b);
        list.set(i1, a);
        i0 += 1;
    }
    assert(list@ =~= forwards@.reverse());
    let mut backwards = String::new();
    let mut i: usize = 0;
    while i < n
        invariant
            i <= n,
            n == list@.len(),
            backwards@ == list@.take(i as int),
        decreases n - i,
    {
        backwards.push(list[i]);
        i += 1;
        assert(backwards@ =~= list@.take(i as int));
    }
    assert(list@.take(n as int) =~= list@);
    backwards
}

/// Reverses `forwards` by collecting its characters and taking them off the
/// end one by one.
pub fn backwards4(forwards: &str) -> (backwards: String)
    ensures
        backwards@ == forwards@.reverse(),
{
    let mut list = characters(forwards);
    let mut backwards = String::new();
    while list.len() > 0
        invariant
            list@.len() <= forwards@.len(),
            list@ == forwards@.take(list@.len() as int),
            backwards@ == forwards@.skip(list@.len() as int).reverse(),
        decreases list.len(),
    {
        let c = list.pop().unwrap();
        backwards.push(c);
        assert(list@ =~= forwards@.take(list@.len() as int));
        assert(backwards@ =~= forwards@.skip(list@.len() as int).reverse());
    }
    assert(forwards@.skip(0) =~= forwards@);
    backwards
}

} // verus!
