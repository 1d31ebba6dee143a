//! The incremental collector: a buffer of records that grows one fetched page at a
//! time, and cursors that read it forward and backward.
use vstd::prelude::*;

verus! {

/// A failed fetch: the backend could not be reached, or its answer was unusable.
#[derive(Debug, PartialEq, Eq)]
pub enum FetcherError {
    RequestError { inner: String },
}

/// The capability that reads one page of records at a zero-based offset.
///
/// It answers with the backend's current estimate of the total record count and
/// the records of the page. An empty page means that no records follow.
pub trait Fetcher<T> {
    fn fetch_next(&self, from: usize) -> Result<(usize, Vec<T>), FetcherError>;
}

/// What one call of `fetch_next` answered: the total and a page, or an error.
pub type Answer<T> = Result<(usize, Vec<T>), FetcherError>;

/// `a` is what a call of `f.fetch_next(from)` answered.
pub open spec fn answered<T, F: Fetcher<T>>(f: F, from: usize, a: Answer<T>) -> bool {
    call_ensures(F::fetch_next, (&f, from), a)
}

/// The records that an answer contributes to the buffer.
pub open spec fn reply_records<T>(r: Answer<T>) -> Seq<T> {
    match r {
        Ok((_, page)) => page@,
        Err(_) => Seq::empty(),
    }
}

/// An answer that ends the stream: a failure or an empty page.
pub open spec fn ends_stream<T>(r: Answer<T>) -> bool {
    reply_records(r).len() == 0
}

/// The records of all replies of a fetch log, in the order of the calls.
pub open spec fn concat_pages<T>(log: Seq<(usize, Answer<T>)>) -> Seq<T>
    decreases log.len(),
{
    if log.len() == 0 {
        Seq::empty()
    } else {
        concat_pages(log.drop_last()) + reply_records(log.last().1)
    }
}

/// A well-formed fetch log: the first call asked for offset 0, every later call asked
/// for the first record not yet held, and only the last reply may end the stream.
pub open spec fn log_wf<T>(log: Seq<(usize, Answer<T>)>) -> bool {
    &&& log.len() > 0
    &&& log[0].0 == 0
    &&& forall|i: int|
        0 <= i < log.len() - 1 ==> #[trigger] log[i + 1].0 == log[i].0 + reply_records(log[i].1).len()
    &&& forall|i: int| 0 <= i < log.len() - 1 ==> !ends_stream(#[trigger] log[i].1)
}

/// Offsets only grow along a well-formed log: a later call asks for an offset at
/// or past the end of the records of every earlier reply.
proof fn lemma_offsets_increase<T>(log: Seq<(usize, Answer<T>)>, j: int, i: int)
    requires
        log_wf(log),
        0 <= j < i < log.len(),
    ensures
        log[i].0 >= log[j].0 + reply_records(log[j].1).len(),
    decreases i - j,
{
    assert(log[j + 1].0 == log[j].0 + reply_records(log[j].1).len());
    if j + 1 < i {
        lemma_offsets_increase(log, j + 1, i);
    }
}

proof fn lemma_concat_push<T>(log: Seq<(usize, Answer<T>)>, e: (usize, Answer<T>))
    ensures
        concat_pages(log.push(e)) == concat_pages(log) + reply_records(e.1),
{
    assert(log.push(e).drop_last() =~= log);
}

/// In a well-formed log, each call asked for the offset just past the records of
/// the replies before it.
proof fn lemma_offsets_follow_records<T>(log: Seq<(usize, Answer<T>)>, i: int)
    requires
        log_wf(log),
        0 <= i < log.len(),
    ensures
        log[i].0 == concat_pages(log.take(i)).len(),
    decreases i,
{
    if i == 0 {
        assert(log.take(0) =~= Seq::<(usize, Answer<T>)>::empty());
    } else {
        lemma_offsets_follow_records(log, i - 1);
        assert(log.take(i) =~= log.take(i - 1).push(log[i - 1]));
        lemma_concat_push(log.take(i - 1), log[i - 1]);
    }
}

/// Owns the growing buffer of records and calls the fetcher when a read reaches
/// past it.
pub struct Collector<T, F> {
    fetcher: F,
    buffer: Vec<T>,
    from: usize,
    total: usize,
    exhausted: bool,
    log: Ghost<Seq<(usize, Answer<T>)>>,
}

impl<T, F: Fetcher<T>> Collector<T, F> {
    /// The records fetched so far, in fetch order.
    pub closed spec fn records(&self) -> Seq<T> {
        self.buffer@
    }

    /// Every call made to the fetcher, with its offset and its reply, in order.
    pub closed spec fn fetches(&self) -> Seq<(usize, Answer<T>)> {
        self.log@
    }

    /// No more fetches will happen: an empty page or a failure has been seen.
    pub closed spec fn terminal(&self) -> bool {
        self.exhausted
    }

    /// The total count that the latest page reported.
    pub closed spec fn reported_total(&self) -> usize {
        self.total
    }

    /// The fetcher that the collector calls.
    pub closed spec fn fetcher_spec(&self) -> F {
        self.fetcher
    }

    /// The collector's invariant: `from` counts the buffer, the buffer is the records
    /// of the replies in the fetch log, the log is well formed and its last call asked
    /// for the offset where its records begin, and the collector is terminal exactly
    /// when the last reply ended the stream.
    pub closed spec fn wf(&self) -> bool {
        &&& self.from == self.buffer@.len()
        &&& log_wf(self.log@)
        &&& self.buffer@ == concat_pages(self.log@)
        &&& self.from == self.log@.last().0 + reply_records(self.log@.last().1).len()
        &&& self.exhausted == ends_stream(self.log@.last().1)
    }

    /// One read at `index` took the collector from `self` to `next`: nothing changes
    /// unless `index` is exactly the count held and the collector is not terminal, and
    /// then exactly one fetch, at that offset, is recorded and its records appended.
    pub open spec fn read_step(self, next: Self, index: usize) -> bool {
        &&& next.wf()
        &&& next.fetcher_spec() == self.fetcher_spec()
        &&& (index != self.records().len() || self.terminal()) ==> next == self
        &&& (index == self.records().len() && !self.terminal()) ==> {
            let reply = next.fetches().last().1;
            &&& next.fetches() == self.fetches().push((index, reply))
            &&& next.records() == self.records() + reply_records(reply)
            &&& next.terminal() == ends_stream(reply)
            &&& answered(self.fetcher_spec(), index, reply)
            &&& (reply matches Ok((t, _)) ==> next.reported_total() == t)
            &&& (reply is Err ==> next.reported_total() == self.reported_total())
        }
    }

    /// Every answer in the fetch log is what the fetcher answered at its offset.
    pub open spec fn genuine(&self) -> bool {
        forall|i: int|
            0 <= i < self.fetches().len() ==> answered(
                self.fetcher_spec(),
                (#[trigger] self.fetches()[i]).0,
                self.fetches()[i].1,
            )
    }

    /// `next` was reached from `self` by reads: the same fetcher, and both the fetch
    /// log and the records only grew.
    pub open spec fn grows_to(self, next: Self) -> bool {
        &&& self.wf()
        &&& next.wf()
        &&& next.fetcher_spec() == self.fetcher_spec()
        &&& self.fetches().is_prefix_of(next.fetches())
        &&& self.records().is_prefix_of(next.records())
        &&& self.genuine() ==> next.genuine()
    }

    /// Every fetch made on the way from `self` to `next` asked for an offset below `bound`.
    pub open spec fn fetches_below(self, next: Self, bound: int) -> bool {
        forall|k: int|
            self.fetches().len() <= k < next.fetches().len() ==> #[trigger] next.fetches()[k].0
                < bound
    }

    /// A collector whose first fetch, at offset 0, answered `answer`: an error is
    /// returned as it is; a page becomes the buffer, and its total the reported total.
    pub fn from_first_page(fetcher: F, answer: Answer<T>) -> (r: Result<Self, FetcherError>)
        ensures
            answer matches Err(e) ==> r == Err::<Self, FetcherError>(e),
            answer matches Ok((t, page)) ==> (r matches Ok(c) && {
                &&& c.wf()
                &&& c.fetcher_spec() == fetcher
                &&& c.fetches() == seq![(0usize, answer)]
                &&& c.records() == page@
                &&& c.reported_total() == t
                &&& c.terminal() == (page@.len() == 0)
            }),
    {
        let ghost a = answer;
        match answer {
            Err(e) => Err(e),
            Ok((total, records)) => {
                let exhausted = records.len() == 0;
                let from = records.len();
                let ghost log = seq![(0usize, a)];
                let c = Collector { fetcher, buffer: records, from, total, exhausted, log: Ghost(log) };
                proof {
                    lemma_concat_push(Seq::<(usize, Answer<T>)>::empty(), c.log@[0]);
                    assert(c.log@ =~= Seq::<(usize, Answer<T>)>::empty().push(c.log@[0]));
                }
                Ok(c)
            },
        }
    }

    /// Makes the first fetch, at offset 0, and builds the collector from its answer;
    /// fails exactly when that answer is an error.
    pub fn create(fetcher: F) -> (r: Result<Self, FetcherError>)
        ensures
            r matches Err(e) ==> answered(fetcher, 0, Err(e)),
            r matches Ok(c) ==> {
                &&& c.wf()
                &&& c.genuine()
                &&& c.fetcher_spec() == fetcher
                &&& c.fetches().len() == 1
                &&& c.fetches()[0].0 == 0
                &&& answered(fetcher, 0, c.fetches()[0].1)
                &&& c.fetches()[0].1 matches Ok((t, page)) && c.records() == page@
                    && c.reported_total() == t
                &&& c.terminal() == (c.records().len() == 0)
            },
    {
        let answer = fetcher.fetch_next(0);
        Collector::from_first_page(fetcher, answer)
    }

    /// A cursor at the first record.
    pub fn iter(&self) -> (r: CollectorIterator)
        ensures
            r.position() == 0,
    {
        CollectorIterator { position: 0 }
    }

    /// How many records have been fetched so far.
    pub fn from(&self) -> (r: usize)
        requires
            self.wf(),
        ensures
            r == self.records().len(),
    {
        self.from
    }

    /// The total count that the latest page reported: a hint, not a bound.
    pub fn total(&self) -> (r: usize)
        ensures
            r == self.reported_total(),
    {
        self.total
    }

    /// Whether the collector has stopped fetching.
    pub fn is_terminal(&self) -> (r: bool)
        ensures
            r == self.terminal(),
    {
        self.exhausted
    }

    /// The record at `index`, which must already be held.
    pub fn record(&self, index: usize) -> (r: &T)
        requires
            self.wf(),
            index < self.records().len(),
        ensures
            *r == self.records()[index as int],
    {
        &self.buffer[index]
    }

    /// Takes in what the fetcher answered for the next record, at offset
    /// `records().len()`: a page's records are appended and its total kept (even when
    /// the page is empty); an empty page or an error ends the stream. Says whether a
    /// record was added, or returns the error.
    pub fn absorb(&mut self, answer: Answer<T>) -> (r: Result<bool, FetcherError>)
        requires
            old(self).wf(),
            !old(self).terminal(),
        ensures
            final(self).wf(),
            final(self).fetcher_spec() == old(self).fetcher_spec(),
            final(self).fetches() == old(self).fetches().push(
                (old(self).records().len() as usize, answer),
            ),
            final(self).records() == old(self).records() + reply_records(answer),
            final(self).terminal() == ends_stream(answer),
            answer matches Ok((t, page)) ==> final(self).reported_total() == t && r == Ok::<
                bool,
                FetcherError,
            >(page@.len() > 0),
            answer matches Err(e) ==> r == Err::<bool, FetcherError>(e)
                && final(self).reported_total() == old(self).reported_total(),
    {
        let ghost old_log = self.log@;
        let ghost entry = (self.from, answer);
        proof {
            self.log@ = old_log.push(entry);
            lemma_concat_push(old_log, entry);
        }
        match answer {
            Err(e) => {
                self.exhausted = true;
                Err(e)
            },
            Ok((total, records)) => {
                let mut records = records;
                self.total = total;
                if records.len() == 0 {
                    self.exhausted = true;
                    assert(self.buffer@ =~= self.buffer@ + records@);
                    Ok(false)
                } else {
                    self.buffer.append(&mut records);
                    self.from = self.buffer.len();
                    Ok(true)
                }
            },
        }
    }

    /// Makes the record at `index` available if the rules allow it, and says whether
    /// it now is. A record already held needs no fetch. Exactly the next record
    /// (`index` equal to the count held) triggers one fetch, at that offset, unless
    /// the collector is terminal; its answer goes through `absorb`. A later index is
    /// never fetched for.
    pub fn load(&mut self, index: usize) -> (r: Result<bool, FetcherError>)
        requires
            old(self).wf(),
        ensures
            old(self).read_step(*final(self), index),
            old(self).grows_to(*final(self)),
            final(self).records().len() <= usize::MAX,
            r == Ok::<bool, FetcherError>(true) <==> index < final(self).records().len(),
            r is Err <==> (index == old(self).records().len() && !old(self).terminal()
                && final(self).fetches().last().1 is Err),
            r matches Err(e) ==> final(self).fetches().last().1 == Err::<(usize, Vec<T>), _>(e),
    {
        if index < self.from {
            return Ok(true);
        }
        if index > self.from || self.exhausted {
            return Ok(false);
        }
        let answer = self.fetcher.fetch_next(self.from);
        let ghost before = *self;
        let r = self.absorb(answer);
        proof {
            assert forall|i: int| 0 <= i < self.fetches().len() implies answered(
                self.fetcher_spec(),
                (#[trigger] self.fetches()[i]).0,
                self.fetches()[i].1,
            ) || !before.genuine() by {
                if i < before.fetches().len() {
                    assert(self.fetches()[i] == before.fetches()[i]);
                }
            }
        }
        r
    }
}

impl<T: Clone, F: Fetcher<T>> Collector<T, F> {
    /// The record at `index`, fetching it when it is exactly the next one; `None`
    /// when there is no such record, an error when the fetch for it failed.
    pub fn get(&mut self, index: usize) -> (r: Result<Option<T>, FetcherError>)
        requires
            old(self).wf(),
        ensures
            old(self).read_step(*final(self), index),
            old(self).grows_to(*final(self)),
            r matches Ok(Some(v)) ==> cloned(final(self).records()[index as int], v),
            r is Ok && r->Ok_0 is Some <==> index < final(self).records().len(),
            r is Err <==> (index == old(self).records().len() && !old(self).terminal()
                && final(self).fetches().last().1 is Err),
    {
        match self.load(index) {
            Err(e) => Err(e),
            Ok(false) => Ok(None),
            Ok(true) => Ok(Some(self.record(index).clone())),
        }
    }

}

/// A collector holds no more records than a `usize` counts.
pub proof fn lemma_len_fits<T, F: Fetcher<T>>(c: Collector<T, F>)
    requires
        c.wf(),
    ensures
        c.records().len() <= usize::MAX,
{
    reveal(Collector::wf);
}

/// Reads compose: growth is transitive.
pub proof fn lemma_grows_to_trans<T, F: Fetcher<T>>(
    a: Collector<T, F>,
    b: Collector<T, F>,
    c: Collector<T, F>,
)
    requires
        a.grows_to(b),
        b.grows_to(c),
    ensures
        a.grows_to(c),
{
    assert(a.fetches().is_prefix_of(c.fetches()));
    assert(a.records().is_prefix_of(c.records()));
}

/// Draining a collector yields the records of every page that the fetcher answered,
/// in the order of the calls, and stops at the first page that is empty (or at a
/// failed fetch): each call asked for the offset just past the records before it,
/// no earlier answer ends the stream, and the totals that the pages reported play
/// no part.
pub proof fn lemma_drain_yields_pages<T, F: Fetcher<T>>(c: Collector<T, F>)
    requires
        c.wf(),
        c.genuine(),
        c.terminal(),
    ensures
        forall|i: int|
            0 <= i < c.fetches().len() ==> answered(
                c.fetcher_spec(),
                (#[trigger] c.fetches()[i]).0,
                c.fetches()[i].1,
            ),
        c.fetches()[0].0 == 0,
        c.records() == concat_pages(c.fetches()),
        ends_stream(c.fetches().last().1),
        forall|i: int| 0 <= i < c.fetches().len() - 1 ==> !ends_stream(#[trigger] c.fetches()[i].1),
        forall|i: int|
            0 <= i < c.fetches().len() ==> #[trigger] c.fetches()[i].0 == concat_pages(
                c.fetches().take(i),
            ).len(),
{
    reveal(Collector::wf);
    assert forall|i: int| 0 <= i < c.fetches().len() implies #[trigger] c.fetches()[i].0
        == concat_pages(c.fetches().take(i)).len() by {
        lemma_offsets_follow_records(c.fetches(), i);
    }
}

/// Once `k` records are buffered, no later read fetches at an offset below `k`.
pub proof fn lemma_no_refetch<T, F: Fetcher<T>>(c0: Collector<T, F>, c1: Collector<T, F>)
    requires
        c0.grows_to(c1),
    ensures
        forall|k: int|
            c0.fetches().len() <= k < c1.fetches().len() ==> #[trigger] c1.fetches()[k].0
                >= c0.records().len(),
{
    reveal(Collector::wf);
    let n = c0.fetches().len() as int;
    assert(c1.fetches()[n - 1] == c0.fetches()[n - 1]);
    assert forall|k: int| n <= k < c1.fetches().len() implies #[trigger] c1.fetches()[k].0
        >= c0.records().len() by {
        lemma_offsets_increase(c1.fetches(), n - 1, k);
    }
}

/// Reads bounded by `bound` fetch only what they need: every new fetch asked for
/// the first record not yet held (no record already buffered is fetched again, and
/// none is skipped over), and that record lies below `bound`.
pub proof fn lemma_fetches_only_needed<T, F: Fetcher<T>>(
    c0: Collector<T, F>,
    c1: Collector<T, F>,
    bound: int,
)
    requires
        c0.grows_to(c1),
        c0.fetches_below(c1, bound),
    ensures
        forall|k: int|
            c0.fetches().len() <= k < c1.fetches().len() ==> {
                &&& (#[trigger] c1.fetches()[k]).0 == concat_pages(c1.fetches().take(k)).len()
                &&& c0.records().len() <= c1.fetches()[k].0 < bound
            },
{
    lemma_no_refetch(c0, c1);
    reveal(Collector::wf);
    assert forall|k: int| c0.fetches().len() <= k < c1.fetches().len() implies (#[trigger] c1.fetches()[k]).0
        == concat_pages(c1.fetches().take(k)).len() by {
        lemma_offsets_follow_records(c1.fetches(), k);
    }
}

/// Skipping `s` records and then taking `t` fetches below the same offset as taking
/// `s + t` would: nothing is fetched for records past the window.
pub proof fn lemma_skip_then_take<T, F: Fetcher<T>>(
    c0: Collector<T, F>,
    c1: Collector<T, F>,
    c2: Collector<T, F>,
    start: int,
    skipped_to: int,
    s: int,
    t: int,
)
    requires
        c0.grows_to(c1),
        c0.fetches_below(c1, start + s),
        skipped_to <= start + s,
        0 <= t,
        c1.grows_to(c2),
        c1.fetches_below(c2, skipped_to + t),
    ensures
        c0.grows_to(c2),
        c0.fetches_below(c2, start + s + t),
{
    assert(c0.fetches().is_prefix_of(c2.fetches()));
    assert(c0.records().is_prefix_of(c2.records()));
    assert forall|k: int| c0.fetches().len() <= k < c2.fetches().len() implies #[trigger] c2.fetches()[k].0
        < start + s + t by {
        if k < c1.fetches().len() {
            assert(c2.fetches()[k] == c1.fetches()[k]);
        }
    }
}

/// A position in a collector's sequence of records. It holds no records: reads go
/// through the collector, so cursors share its buffer and its fetches.
pub struct CollectorIterator {
    position: usize,
}

impl CollectorIterator {
    pub closed spec fn position(&self) -> usize {
        self.position
    }

    /// A cursor at `position`.
    pub fn at(position: usize) -> (r: CollectorIterator)
        ensures
            r.position() == position,
    {
        CollectorIterator { position }
    }

    /// The index of the record that `next` reads.
    pub fn index(&self) -> (r: usize)
        ensures
            r == self.position(),
    {
        self.position
    }

    /// Reads the record at the cursor and moves past it: `None` at the end of the
    /// stream, the fetcher's error when the fetch for it failed.
    pub fn try_next<T: Clone, F: Fetcher<T>>(&mut self, c: &mut Collector<T, F>) -> (r: Result<
        Option<T>,
        FetcherError,
    >)
        requires
            old(c).wf(),
        ensures
            old(c).read_step(*final(c), old(self).position()),
            old(c).grows_to(*final(c)),
            r matches Ok(Some(v)) ==> cloned(final(c).records()[old(self).position() as int], v),
            (r matches Ok(Some(_))) <==> old(self).position() < final(c).records().len(),
            r is Err <==> (old(self).position() == old(c).records().len() && !old(c).terminal()
                && final(c).fetches().last().1 is Err),
            r matches Err(e) ==> final(c).fetches().last().1 == Err::<(usize, Vec<T>), _>(e),
            final(self).position() == if r matches Ok(Some(_)) {
                old(self).position() + 1
            } else {
                old(self).position() as int
            },
    {
        match c.load(self.position) {
            Ok(true) => {
                let v = c.record(self.position).clone();
                self.position = self.position + 1;
                Ok(Some(v))
            },
            Ok(false) => Ok(None),
            Err(e) => Err(e),
        }
    }

    /// Reads the record at the cursor and moves past it. `None` at the end of the
    /// stream, and also when the fetch for it failed (the collector is then terminal;
    /// `try_next` tells the two apart).
    pub fn next<T: Clone, F: Fetcher<T>>(&mut self, c: &mut Collector<T, F>) -> (r: Option<T>)
        requires
            old(c).wf(),
        ensures
            old(c).read_step(*final(c), old(self).position()),
            old(c).grows_to(*final(c)),
            r is Some <==> old(self).position() < final(c).records().len(),
            r matches Some(v) ==> cloned(final(c).records()[old(self).position() as int], v),
            final(self).position() == if r is Some {
                old(self).position() + 1
            } else {
                old(self).position() as int
            },
    {
        match c.load(self.position) {
            Ok(true) => {
                let v = c.record(self.position).clone();
                self.position = self.position + 1;
                Some(v)
            },
            _ => None,
        }
    }

    /// Moves the cursor up to `n` records forward, loading them into the collector's
    /// buffer but copying none; returns how many it passed.
    pub fn skip<T, F: Fetcher<T>>(&mut self, c: &mut Collector<T, F>, n: usize) -> (r: usize)
        requires
            old(c).wf(),
        ensures
            old(c).grows_to(*final(c)),
            old(c).fetches_below(*final(c), old(self).position() + n),
            r <= n,
            final(self).position() == old(self).position() + r,
            final(self).position() <= final(c).records().len() || r == 0,
            r < n ==> final(self).position() >= final(c).records().len(),
            r < n && old(self).position() <= old(c).records().len() ==> final(c).terminal(),
    {
        let ghost c0 = *c;
        let ghost start = self.position;
        let mut count: usize = 0;
        let mut done = false;
        while count < n && !done
            invariant
                c0.wf(),
                c0.grows_to(*c),
                c0.fetches_below(*c, if done { start + count + 1 } else { start + count }),
                count <= n,
                done ==> count < n,
                self.position == start + count,
                count > 0 ==> self.position <= c.records().len(),
                done ==> self.position >= c.records().len(),
                done && start <= c0.records().len() ==> c.terminal(),
            decreases n - count + if done { 0int } else { 1int },
        {
            match c.load(self.position) {
                Ok(true) => {
                    self.position = self.position + 1;
                    count = count + 1;
                },
                _ => {
                    done = true;
                },
            }
        }
        count
    }

    /// Reads up to `n` records forward; fewer only where the stream ended.
    pub fn take<T: Clone, F: Fetcher<T>>(&mut self, c: &mut Collector<T, F>, n: usize) -> (r: Vec<T>)
        requires
            old(c).wf(),
        ensures
            old(c).grows_to(*final(c)),
            old(c).fetches_below(*final(c), old(self).position() + n),
            old(self).position() + n <= old(c).records().len() ==> final(c).fetches() == old(c).fetches(),
            r.len() <= n,
            final(self).position() == old(self).position() + r.len(),
            forall|i: int|
                0 <= i < r.len() ==> cloned(
                    final(c).records()[old(self).position() + i],
                    #[trigger] r[i],
                ),
            r.len() < n ==> final(self).position() >= final(c).records().len(),
            r.len() < n && old(self).position() <= old(c).records().len() ==> final(c).terminal(),
    {
        let ghost c0 = *c;
        let ghost start = self.position;
        let mut out: Vec<T> = Vec::new();
        let mut done = false;
        while out.len() < n && !done
            invariant
                c0.wf(),
                c0.grows_to(*c),
                c0.fetches_below(*c, if done { start + out.len() + 1 } else { start + out.len() }),
                out.len() <= n,
                done ==> out.len() < n,
                self.position == start + out.len(),
                out.len() > 0 ==> self.position <= c.records().len(),
                done ==> self.position >= c.records().len(),
                done && start <= c0.records().len() ==> c.terminal(),
                forall|i: int|
                    0 <= i < out.len() ==> cloned(c.records()[start + i], #[trigger] out[i]),
            decreases n - out.len() + if done { 0int } else { 1int },
        {
            let ghost before = *c;
            match self.next(c) {
                Some(v) => {
                    out.push(v);
                    assert forall|i: int| 0 <= i < out.len() implies cloned(
                        c.records()[start + i],
                        #[trigger] out[i],
                    ) by {
                        if i < out.len() - 1 {
                            assert(before.records().is_prefix_of(c.records()));
                            assert(c.records()[start + i] == before.records()[start + i]);
                        }
                    }
                },
                None => {
                    done = true;
                },
            }
        }
        proof {
            lemma_no_refetch(c0, *c);
            if start + n <= c0.records().len() {
                assert(c.fetches().len() == c0.fetches().len());
                assert(c.fetches() =~= c0.fetches());
            }
        }
        out
    }

    /// Reads every record from the cursor on, until the stream ends or a fetch fails.
    pub fn collect<T: Clone, F: Fetcher<T>>(&mut self, c: &mut Collector<T, F>) -> (r: Vec<T>)
        requires
            old(c).wf(),
        ensures
            old(c).grows_to(*final(c)),
            final(self).position() == old(self).position() + r.len(),
            final(self).position() >= final(c).records().len(),
            forall|i: int|
                0 <= i < r.len() ==> cloned(
                    final(c).records()[old(self).position() + i],
                    #[trigger] r[i],
                ),
            old(self).position() <= old(c).records().len() ==> final(c).terminal(),
            old(self).position() <= old(c).records().len() ==> final(self).position()
                == final(c).records().len(),
    {
        let ghost c0 = *c;
        let ghost start = self.position;
        let mut out: Vec<T> = Vec::new();
        let mut done = false;
        while !done
            invariant
                c0.wf(),
                c0.grows_to(*c),
                self.position == start + out.len(),
                out.len() > 0 ==> self.position <= c.records().len(),
                done ==> self.position >= c.records().len(),
                done && start <= c0.records().len() ==> c.terminal(),
                forall|i: int|
                    0 <= i < out.len() ==> cloned(c.records()[start + i], #[trigger] out[i]),
            decreases 2 * (usize::MAX - self.position) + if done { 0int } else { 1int },
        {
            let ghost before = *c;
            match self.next(c) {
                Some(v) => {
                    out.push(v);
                    assert forall|i: int| 0 <= i < out.len() implies cloned(
                        c.records()[start + i],
                        #[trigger] out[i],
                    ) by {
                        if i < out.len() - 1 {
                            assert(before.records().is_prefix_of(c.records()));
                            assert(c.records()[start + i] == before.records()[start + i]);
                        }
                    }
                },
                None => {
                    done = true;
                },
            }
        }
        out
    }

    /// Steps back one record and reads it.
    pub fn next_back<T: Clone, F: Fetcher<T>>(&mut self, c: &mut Collector<T, F>) -> (r: Option<T>)
        requires
            old(c).wf(),
            old(self).position() > 0,
        ensures
            final(self).position() == old(self).position() - 1,
            old(c).read_step(*final(c), final(self).position()),
            old(c).grows_to(*final(c)),
            r is Some <==> final(self).position() < final(c).records().len(),
            r matches Some(v) ==> cloned(final(c).records()[final(self).position() as int], v),
    {
        self.position = self.position - 1;
        match c.load(self.position) {
            Ok(true) => Some(c.record(self.position).clone()),
            _ => None,
        }
    }
}

} // verus!
