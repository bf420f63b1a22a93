use vstd::prelude::*;

use crate::error::Error;

verus! {

/// The record as laid out in memory: its payload followed by the forward link.
struct Record<T> {
    value: T,
    next: Option<MbedtlsBox<T>>,
}

/// Sole owner of one record, and through its forward link of every record
/// chained after it.
pub struct MbedtlsBox<T> {
    inner: Box<Record<T>>,
}

/// The payloads of the chain that starts at `link`, front to back.
pub open spec fn link_chain<T>(link: Option<MbedtlsBox<T>>) -> Seq<T> {
    match link {
        None => Seq::empty(),
        Some(node) => node@,
    }
}

impl<T> MbedtlsBox<T> {
    /// The payloads of this record and of those chained after it.
    pub closed spec fn chain(self) -> Seq<T>
        decreases self,
    {
        seq![self.inner.value] + match self.inner.next {
            None => Seq::<T>::empty(),
            Some(n) => n.chain(),
        }
    }

    /// Whether this record links to no other.
    pub closed spec fn is_last(self) -> bool {
        self.inner.next is None
    }

    proof fn lemma_chain(self)
        ensures
            self@.len() >= 1,
            self@[0] == self.inner.value,
            self@.drop_first() == link_chain(self.inner.next),
            self.is_last() <==> self@.len() == 1,
        decreases self,
    {
        let tail = link_chain(self.inner.next);
        assert(self@ == seq![self.inner.value] + tail);
        assert(self@.drop_first() =~= tail);
        if let Some(n) = self.inner.next {
            n.lemma_chain();
        }
    }

    /// Wraps a freshly allocated record, which links to no other.
    pub fn new(value: T) -> (r: Self)
        ensures
            r@ == seq![value],
            r.is_last(),
    {
        let r = MbedtlsBox { inner: Box::new(Record { value, next: None }) };
        assert(r@ =~= seq![value]);
        r
    }

    /// Turns what the foreign allocator handed back into an owned record:
    /// nothing at all means that it had no memory left.
    pub fn init(allocated: Option<T>) -> (r: Result<Self, Error>)
        ensures
            allocated is None <==> r == Err::<Self, Error>(Error::AllocationFailed),
            allocated is Some ==> r is Ok && r->Ok_0@ == seq![allocated->Some_0],
    {
        match allocated {
            None => Err(Error::AllocationFailed),
            Some(value) => Ok(MbedtlsBox::new(value)),
        }
    }

    /// The payload of this record.
    pub fn get(&self) -> (r: &T)
        ensures
            *r == self@[0],
    {
        proof {
            self.lemma_chain();
        }
        &self.inner.value
    }

    /// The payload of this record, to change in place; the records chained
    /// after it stay as they were.
    pub fn get_mut(&mut self) -> (r: &mut T)
        ensures
            *r == old(self)@[0],
            final(self)@ == old(self)@.update(0, *final(r)),
    {
        proof {
            old(self).lemma_chain();
        }
        &mut self.inner.value
    }

    /// The record chained after this one, if any.
    pub fn list_next(&self) -> (r: Option<&MbedtlsBox<T>>)
        ensures
            r is None <==> self.is_last(),
            r is Some ==> r->Some_0@ == self@.drop_first(),
            self.is_last() <==> self@.len() == 1,
    {
        proof {
            self.lemma_chain();
        }
        self.inner.next.as_ref()
    }

    /// Detaches what follows this record and hands it back; the record then
    /// links to no other.
    pub fn take_next(&mut self) -> (r: Option<MbedtlsBox<T>>)
        ensures
            final(self)@ == seq![old(self)@[0]],
            final(self).is_last(),
            link_chain(r) == old(self)@.drop_first(),
    {
        proof {
            old(self).lemma_chain();
        }
        let r = self.inner.next.take();
        assert(self@ =~= seq![old(self)@[0]]);
        r
    }
}

impl<T> View for MbedtlsBox<T> {
    type V = Seq<T>;

    closed spec fn view(&self) -> Seq<T> {
        self.chain()
    }
}

/// Moves the records of `src`, front first, onto the front of `acc`, so that
/// they end up there in reverse order. No record is allocated or released.
fn splice_reversed<T>(src: Option<MbedtlsBox<T>>, acc: Option<MbedtlsBox<T>>) -> (r: Option<
    MbedtlsBox<T>,
>)
    ensures
        link_chain(r) == link_chain(src).reverse() + link_chain(acc),
{
    let ghost whole = link_chain(src).reverse() + link_chain(acc);
    let mut cur = src;
    let mut acc = acc;
    while cur.is_some()
        invariant
            link_chain(cur).reverse() + link_chain(acc) == whole,
        decreases link_chain(cur).len(),
    {
        let mut node = cur.unwrap();
        let ghost c = node@;
        let ghost a = link_chain(acc);
        proof {
            node.lemma_chain();
        }
        let next = node.take_next();
        node.inner.next = acc;
        proof {
            node.lemma_chain();
            assert(node@ =~= seq![c[0]] + a);
            assert(c.reverse() =~= link_chain(next).reverse() + seq![c[0]]);
            assert(c.reverse() + a =~= link_chain(next).reverse() + node@);
        }
        acc = Some(node);
        cur = next;
    }
    assert(link_chain(cur).reverse() =~= Seq::<T>::empty());
    assert(link_chain(cur).reverse() + link_chain(acc) =~= link_chain(acc));
    acc
}

/// A sequence of records chained through their forward links, held by its
/// first record; an empty list holds none.
pub struct MbedtlsList<T> {
    inner: Option<MbedtlsBox<T>>,
}

impl<T> View for MbedtlsList<T> {
    type V = Seq<T>;

    closed spec fn view(&self) -> Seq<T> {
        link_chain(self.inner)
    }
}

impl<T> MbedtlsList<T> {
    /// A list with no record.
    pub fn new() -> (r: Self)
        ensures
            r@ == Seq::<T>::empty(),
    {
        MbedtlsList { inner: None }
    }

    /// Whether the list holds no record.
    pub fn is_empty(&self) -> (r: bool)
        ensures
            r <==> self@.len() == 0,
    {
        proof {
            if self.inner is Some {
                self.inner->Some_0.lemma_chain();
            }
        }
        self.inner.is_none()
    }

    /// Chains `crl`, with whatever it links to, after the last record.
    pub fn push(&mut self, crl: MbedtlsBox<T>)
        ensures
            final(self)@ == old(self)@ + crl@,
    {
        self.append(MbedtlsList { inner: Some(crl) });
    }

    /// Detaches the last record and hands it back alone.
    pub fn pop_back(&mut self) -> (r: Option<MbedtlsBox<T>>)
        ensures
            old(self)@.len() == 0 ==> r is None && final(self)@ == old(self)@,
            old(self)@.len() > 0 ==> r is Some && r->Some_0@ == seq![old(self)@.last()]
                && final(self)@ == old(self)@.drop_last(),
    {
        let ghost s = self@;
        let reversed = splice_reversed(self.inner.take(), None);
        assert(link_chain(reversed) =~= s.reverse());
        match reversed {
            None => {
                assert(s.len() == 0) by {
                    if s.len() > 0 {
                        assert(s.reverse()[0] == s[s.len() - 1]);
                    }
                }
                None
            },
            Some(mut last) => {
                let rest = last.take_next();
                self.inner = splice_reversed(rest, None);
                proof {
                    assert(s.len() > 0) by {
                        if s.len() == 0 {
                            assert(s.reverse() =~= Seq::<T>::empty());
                        }
                    }
                    assert(s.reverse()[0] == s.last());
                    assert(s.reverse().drop_first().reverse() =~= s.drop_last());
                    assert(self@ =~= s.drop_last());
                }
                Some(last)
            },
        }
    }

    /// Detaches the first record and hands it back alone; the record after it
    /// becomes the first.
    pub fn pop_front(&mut self) -> (r: Option<MbedtlsBox<T>>)
        ensures
            old(self)@.len() == 0 ==> r is None && final(self)@ == old(self)@,
            old(self)@.len() > 0 ==> r is Some && r->Some_0@ == seq![old(self)@[0]]
                && final(self)@ == old(self)@.drop_first(),
    {
        match self.inner.take() {
            None => None,
            Some(mut ret) => {
                self.inner = ret.take_next();
                Some(ret)
            },
        }
    }

    /// Chains all of `list` after the last record of this one.
    pub fn append(&mut self, list: MbedtlsList<T>)
        ensures
            final(self)@ == old(self)@ + list@,
    {
        let ghost s = self@;
        let reversed = splice_reversed(self.inner.take(), None);
        self.inner = splice_reversed(reversed, list.inner);
        assert(s.reverse().reverse() =~= s);
    }

    /// Walks the payloads front to back, allowing each to be changed in place.
    pub fn iter_mut(&mut self) -> (r: IterMut<'_, T>)
        ensures
            r@ == old(self)@,
    {
        IterMut { next: self.inner.as_mut() }
    }

    /// Walks the records front to back.
    pub fn iter(&self) -> (r: Iter<'_, T>)
        ensures
            r@ == self@,
    {
        Iter { next: self.inner.as_ref() }
    }
}

/// A cursor over the payloads of a list, front to back, that may change
/// them but not the links between records. It owns nothing.
pub struct IterMut<'a, T> {
    next: Option<&'a mut MbedtlsBox<T>>,
}

impl<'a, T> View for IterMut<'a, T> {
    type V = Seq<T>;

    /// The payloads that are still to be visited.
    closed spec fn view(&self) -> Seq<T> {
        match self.next {
            None => Seq::empty(),
            Some(node) => node@,
        }
    }
}

impl<'a, T> IterMut<'a, T> {
    /// The next payload, to read or change in place.
    pub fn next(&mut self) -> (r: Option<&'a mut T>)
        ensures
            old(self)@.len() == 0 <==> r is None,
            old(self)@.len() == 0 ==> final(self)@ == old(self)@,
            old(self)@.len() > 0 ==> *r->Some_0 == old(self)@[0] && final(self)@ == old(
                self,
            )@.drop_first(),
    {
        match self.next.take() {
            None => None,
            Some(node) => {
                proof {
                    node.lemma_chain();
                }
                let rec = &mut *node.inner;
                self.next = rec.next.as_mut();
                Some(&mut rec.value)
            },
        }
    }
}

/// A cursor over the records of a list, front to back. It owns nothing.
pub struct Iter<'a, T> {
    next: Option<&'a MbedtlsBox<T>>,
}

impl<'a, T> View for Iter<'a, T> {
    type V = Seq<T>;

    /// The payloads that are still to be visited.
    closed spec fn view(&self) -> Seq<T> {
        match self.next {
            None => Seq::empty(),
            Some(node) => node@,
        }
    }
}

impl<'a, T> Iter<'a, T> {
    /// The next record; the record handed back still leads the rest of its chain.
    pub fn next(&mut self) -> (r: Option<&'a MbedtlsBox<T>>)
        ensures
            old(self)@.len() == 0 ==> r is None && final(self)@ == old(self)@,
            old(self)@.len() > 0 ==> r is Some && r->Some_0@ == old(self)@
                && final(self)@ == old(self)@.drop_first(),
    {
        match self.next.take() {
            None => None,
            Some(ret) => {
                self.next = ret.list_next();
                Some(ret)
            },
        }
    }

    /// How many records are still to be visited.
    pub fn count(self) -> (r: usize)
        requires
            self@.len() <= usize::MAX,
        ensures
            r == self@.len(),
    {
        let mut it = self;
        let mut n: usize = 0;
        while n < usize::MAX && it.next.is_some()
            invariant
                n + it@.len() == self@.len(),
            decreases it@.len(),
        {
            let _ = it.next();
            n = n + 1;
        }
        n
    }
}

/// What a list holding `s` holds after lone records carrying `vals` are
/// pushed onto it one by one.
pub open spec fn pushed_all<T>(s: Seq<T>, vals: Seq<T>) -> Seq<T>
    decreases vals.len(),
{
    if vals.len() == 0 {
        s
    } else {
        pushed_all(s + seq![vals[0]], vals.drop_first())
    }
}

/// The payloads that repeated `pop_front` hands back from a list holding `s`,
/// in the order they come, until the list is empty.
pub open spec fn drained<T>(s: Seq<T>) -> Seq<T>
    decreases s.len(),
{
    if s.len() == 0 {
        Seq::empty()
    } else {
        seq![s[0]] + drained(s.drop_first())
    }
}

/// Pushing lone records appends their payloads in the order pushed.
pub proof fn lemma_pushed_all<T>(s: Seq<T>, vals: Seq<T>)
    ensures
        pushed_all(s, vals) == s + vals,
    decreases vals.len(),
{
    if vals.len() > 0 {
        lemma_pushed_all(s + seq![vals[0]], vals.drop_first());
        assert(s + seq![vals[0]] + vals.drop_first() =~= s + vals);
    } else {
        assert(s + vals =~= s);
    }
}

/// Draining a list with `pop_front` hands its payloads back front to back.
pub proof fn lemma_drained<T>(s: Seq<T>)
    ensures
        drained(s) == s,
    decreases s.len(),
{
    if s.len() > 0 {
        lemma_drained(s.drop_first());
        assert(seq![s[0]] + s.drop_first() =~= s);
    } else {
        assert(s =~= Seq::<T>::empty());
    }
}

/// A list built from empty by pushing lone records carrying `vals` holds
/// exactly `vals.len()` records, and draining it with `pop_front` hands them
/// back in the order they were pushed, leaving it empty.
pub proof fn law_push_then_drain_is_fifo<T>(vals: Seq<T>)
    ensures
        pushed_all(Seq::empty(), vals).len() == vals.len(),
        drained(pushed_all(Seq::empty(), vals)) == vals,
        forall|i: int|
            0 <= i < vals.len() ==> #[trigger] pushed_all(Seq::empty(), vals).skip(i)[0] == vals[i],
        pushed_all(Seq::empty(), vals).skip(vals.len() as int).len() == 0,
{
    lemma_pushed_all(Seq::empty(), vals);
    assert(Seq::<T>::empty() + vals =~= vals);
    lemma_drained(vals);
}

/// Taking the last record off a non-empty list with `pop_back` and pushing
/// it straight back leaves the list as it was.
pub proof fn law_pop_back_then_push_restores<T>(s: Seq<T>)
    requires
        s.len() > 0,
    ensures
        s.drop_last() + seq![s.last()] == s,
{
    assert(s.drop_last() + seq![s.last()] =~= s);
}

/// After `append`, the list holds the records of the first list in order,
/// then those of the second in order, and as many as both held together.
pub proof fn law_append_concatenates<T>(l1: Seq<T>, l2: Seq<T>)
    ensures
        (l1 + l2).len() == l1.len() + l2.len(),
        (l1 + l2).subrange(0, l1.len() as int) == l1,
        (l1 + l2).subrange(l1.len() as int, (l1 + l2).len() as int) == l2,
{
    assert((l1 + l2).subrange(0, l1.len() as int) =~= l1);
    assert((l1 + l2).subrange(l1.len() as int, (l1 + l2).len() as int) =~= l2);
}

/// Draining a list with `pop_front` and pushing each record back in the
/// order it came rebuilds the list as it was: nothing is reversed.
pub proof fn law_drain_then_push_round_trips<T>(s: Seq<T>)
    ensures
        pushed_all(Seq::empty(), drained(s)) == s,
{
    lemma_drained(s);
    lemma_pushed_all(Seq::empty(), s);
    assert(Seq::<T>::empty() + s =~= s);
}

} // verus!
