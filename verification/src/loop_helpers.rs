//! Helpers that flag the first and last items of a sequence.
use vstd::prelude::*;

verus! {

/// Items flagged with whether each is the first.
pub struct LoopFirst<T> {
    items: Vec<(bool, T)>,
}

/// Items flagged with whether each is the last.
pub struct LoopLast<T> {
    items: Vec<(bool, T)>,
}

/// Items flagged with whether each is the first and whether it is the last.
pub struct LoopFirstLast<T> {
    items: Vec<(bool, bool, T)>,
}

impl<T> View for LoopFirst<T> {
    type V = Seq<(bool, T)>;

    closed spec fn view(&self) -> Seq<(bool, T)> {
        self.items@
    }
}

impl<T> View for LoopLast<T> {
    type V = Seq<(bool, T)>;

    closed spec fn view(&self) -> Seq<(bool, T)> {
        self.items@
    }
}

impl<T> View for LoopFirstLast<T> {
    type V = Seq<(bool, bool, T)>;

    closed spec fn view(&self) -> Seq<(bool, bool, T)> {
        self.items@
    }
}

impl<T> LoopFirst<T> {
    /// The flagged items.
    pub fn collect(self) -> (r: Vec<(bool, T)>)
        ensures
            r@ == self@,
    {
        self.items
    }
}

impl<T> LoopLast<T> {
    /// The flagged items.
    pub fn collect(self) -> (r: Vec<(bool, T)>)
        ensures
            r@ == self@,
    {
        self.items
    }
}

impl<T> LoopFirstLast<T> {
    /// The flagged items.
    pub fn collect(self) -> (r: Vec<(bool, bool, T)>)
        ensures
            r@ == self@,
    {
        self.items
    }
}

fn reversed<T>(values: Vec<T>) -> (r: Vec<T>)
    ensures
        r@ == values@.reverse(),
{
    let mut values = values;
    let ghost orig = values@;
    let mut rev: Vec<T> = Vec::new();
    while values.len() > 0
        invariant
            orig == values@ + rev@.reverse(),
        decreases values.len(),
    {
        let ghost vb = values@;
        let v = values.pop().unwrap();
        let ghost rb = rev@;
        rev.push(v);
        proof {
            assert(rev@.reverse() =~= seq![v] + rb.reverse());
            assert(vb =~= values@.push(v));
            assert(orig =~= values@ + rev@.reverse());
        }
    }
    assert(values@ + rev@.reverse() =~= rev@.reverse());
    assert(rev@ =~= orig.reverse());
    rev
}

/// Each item with a flag that is set for the first one.
pub fn loop_first<T>(values: Vec<T>) -> (r: LoopFirst<T>)
    ensures
        r@ == values@.map(|i: int, v: T| (i == 0, v)),
{
    let ghost orig = values@;
    let n = values.len();
    let mut rev = reversed(values);
    let mut items: Vec<(bool, T)> = Vec::new();
    while rev.len() > 0
        invariant
            n == orig.len(),
            rev@.len() + items@.len() == n,
            rev@.reverse() =~= orig.skip(items@.len() as int),
            items@ =~= orig.take(items@.len() as int).map(|i: int, v: T| (i == 0, v)),
        decreases rev.len(),
    {
        let ghost rb = rev@;
        let v = rev.pop().unwrap();
        let first = items.len() == 0;
        proof {
            let k = items@.len() as int;
            assert(rb =~= rev@.push(v));
            assert(rb.reverse()[0] == v);
            assert(orig.skip(k)[0] == v);
            assert(rev@.reverse() =~= rb.reverse().drop_first());
            assert(orig.skip(k + 1) =~= orig.skip(k).drop_first());
            assert(orig.take(k + 1) =~= orig.take(k).push(v));
        }
        items.push((first, v));
    }
    assert(orig.take(orig.len() as int) =~= orig);
    LoopFirst { items }
}

/// Each item with a flag that is set for the last one.
pub fn loop_last<T>(values: Vec<T>) -> (r: LoopLast<T>)
    ensures
        r@ == values@.map(|i: int, v: T| (i == values@.len() - 1, v)),
{
    let ghost orig = values@;
    let n = values.len();
    let mut rev = reversed(values);
    let mut items: Vec<(bool, T)> = Vec::new();
    while rev.len() > 0
        invariant
            n == orig.len(),
            rev@.len() + items@.len() == n,
            rev@.reverse() =~= orig.skip(items@.len() as int),
            items@ =~= orig.take(items@.len() as int).map(|i: int, v: T| (i == n - 1, v)),
        decreases rev.len(),
    {
        let ghost rb = rev@;
        let v = rev.pop().unwrap();
        let last = rev.len() == 0;
        proof {
            let k = items@.len() as int;
            assert(rb =~= rev@.push(v));
            assert(rb.reverse()[0] == v);
            assert(orig.skip(k)[0] == v);
            assert(rev@.reverse() =~= rb.reverse().drop_first());
            assert(orig.skip(k + 1) =~= orig.skip(k).drop_first());
            assert(orig.take(k + 1) =~= orig.take(k).push(v));
        }
        items.push((last, v));
    }
    assert(orig.take(orig.len() as int) =~= orig);
    LoopLast { items }
}

/// Each item with flags set for the first one and for the last one.
pub fn loop_first_last<T>(values: Vec<T>) -> (r: LoopFirstLast<T>)
    ensures
        r@ == values@.map(|i: int, v: T| (i == 0, i == values@.len() - 1, v)),
{
    let ghost orig = values@;
    let n = values.len();
    let mut rev = reversed(values);
    let mut items: Vec<(bool, bool, T)> = Vec::new();
    while rev.len() > 0
        invariant
            n == orig.len(),
            rev@.len() + items@.len() == n,
            rev@.reverse() =~= orig.skip(items@.len() as int),
            items@ =~= orig.take(items@.len() as int).map(|i: int, v: T| (i == 0, i == n - 1, v)),
        decreases rev.len(),
    {
        let ghost rb = rev@;
        let v = rev.pop().unwrap();
        let first = items.len() == 0;
        let last = rev.len() == 0;
        proof {
            let k = items@.len() as int;
            assert(rb =~= rev@.push(v));
            assert(rb.reverse()[0] == v);
            assert(orig.skip(k)[0] == v);
            assert(rev@.reverse() =~= rb.reverse().drop_first());
            assert(orig.skip(k + 1) =~= orig.skip(k).drop_first());
            assert(orig.take(k + 1) =~= orig.take(k).push(v));
        }
        items.push((first, last, v));
    }
    assert(orig.take(orig.len() as int) =~= orig);
    LoopFirstLast { items }
}

} // verus!
