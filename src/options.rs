//! Iterator adapters that skip or take by an optional count.
use vstd::prelude::*;
use vstd::std_specs::iter::IteratorSpec;

verus! {

/// What remains of a sequence after skipping `n` items, or all of it for `None`.
pub open spec fn skipped<A>(items: Seq<A>, n: Option<usize>) -> Seq<A> {
    match n {
        Some(k) => if k <= items.len() {
            items.skip(k as int)
        } else {
            Seq::empty()
        },
        None => items,
    }
}

/// Skipping by an optional count, on any iterator.
pub trait OptionalSkip<I> {
    fn skip_by_option(self, n: Option<usize>) -> SkipByOption<I>;
}

impl<I: Iterator> OptionalSkip<I> for I {
    fn skip_by_option(self, n: Option<usize>) -> SkipByOption<I> {
        SkipByOption::new(self, n)
    }
}

/// An iterator adapter that skips its first `n` items, or none for `None`.
pub struct SkipByOption<I> {
    iter: I,
    n: Option<usize>,
}

impl<I: Iterator> SkipByOption<I> {
    pub closed spec fn inner(&self) -> I {
        self.iter
    }

    pub closed spec fn pending(&self) -> Option<usize> {
        self.n
    }

    pub fn new(iter: I, n: Option<usize>) -> (r: SkipByOption<I>)
        ensures
            r.inner() == iter,
            r.pending() == n,
    {
        SkipByOption { iter, n }
    }

    /// The next item after the skipped ones; the skip happens on the first call.
    pub fn next(&mut self) -> (r: Option<I::Item>)
        requires
            old(self).inner().obeys_prophetic_iter_laws(),
        ensures
            final(self).inner().obeys_prophetic_iter_laws(),
            final(self).pending() is None || final(self).pending() == Some(0usize),
            ({
                let rest = skipped(old(self).inner().remaining(), old(self).pending());
                if rest.len() > 0 {
                    &&& r == Some(rest[0])
                    &&& final(self).inner().remaining() == rest.drop_first()
                } else {
                    &&& r is None
                    &&& final(self).inner().remaining().len() == 0
                }
            }),
    {
        match self.n {
            Some(n) => {
                self.n = None;
                let ghost rem = self.iter.remaining();
                let mut j: usize = 0;
                while j < n
                    invariant
                        self.n is None,
                        self.iter.obeys_prophetic_iter_laws(),
                        j <= n,
                        j <= rem.len() ==> self.iter.remaining() == rem.skip(j as int),
                        j > rem.len() ==> self.iter.remaining().len() == 0,
                    decreases n - j,
                {
                    let _ = self.iter.next();
                    j = j + 1;
                }
                self.iter.next()
            },
            None => self.iter.next(),
        }
    }
}

/// What an iterator yields when limited to `n` items, or unlimited for `None`.
pub open spec fn taken<A>(items: Seq<A>, n: Option<usize>) -> Seq<A> {
    match n {
        Some(k) => if k <= items.len() {
            items.take(k as int)
        } else {
            items
        },
        None => items,
    }
}

/// Taking by an optional count, on any iterator.
pub trait OptionalTake<I> {
    fn take_by_option(self, n: Option<usize>) -> TakeByOption<I>;
}

impl<I: Iterator> OptionalTake<I> for I {
    fn take_by_option(self, n: Option<usize>) -> TakeByOption<I> {
        TakeByOption::new(self, n)
    }
}

/// An iterator adapter that yields at most `n` items, or all for `None`.
pub struct TakeByOption<I> {
    iter: I,
    n: Option<usize>,
}

impl<I: Iterator> TakeByOption<I> {
    pub closed spec fn inner(&self) -> I {
        self.iter
    }

    pub closed spec fn limit(&self) -> Option<usize> {
        self.n
    }

    pub fn new(iter: I, n: Option<usize>) -> (r: TakeByOption<I>)
        ensures
            r.inner() == iter,
            r.limit() == n,
    {
        TakeByOption { iter, n }
    }

    /// The next item, while the limit allows one.
    pub fn next(&mut self) -> (r: Option<I::Item>)
        requires
            old(self).inner().obeys_prophetic_iter_laws(),
        ensures
            final(self).inner().obeys_prophetic_iter_laws(),
            old(self).limit() == Some(0usize) ==> r is None && *final(self) == *old(self),
            ({
                let rest = taken(old(self).inner().remaining(), old(self).limit());
                if rest.len() > 0 {
                    &&& r == Some(rest[0])
                    &&& taken(final(self).inner().remaining(), final(self).limit())
                        == rest.drop_first()
                } else {
                    &&& r is None
                    &&& taken(final(self).inner().remaining(), final(self).limit()).len() == 0
                }
            }),
    {
        match self.n {
            None => self.iter.next(),
            Some(0) => None,
            Some(n) => {
                self.n = Some(n - 1);
                self.iter.next()
            },
        }
    }
}

} // verus!
