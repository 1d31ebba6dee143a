//! The line windower: renders a run of records, splits the text into lines, and
//! fits them into a window of a given height from the front or from the back.
use vstd::prelude::*;

use crate::fetcher::{lemma_grows_to_trans, Collector, CollectorIterator, Fetcher, FetcherError};

verus! {

/// Renders one record as display text; `index` is its position in the rendered
/// batch, so the first record of a batch can be drawn differently.
pub trait RecordFormatter<T> {
    fn format(&self, item: &T, index: usize) -> String;
}

/// The index of the first `\n` at or after `i`, or the length of `s` when none.
pub open spec fn line_end(s: Seq<char>, i: int) -> int
    decreases s.len() - i,
{
    if i < 0 || i >= s.len() {
        s.len() as int
    } else if s[i] == '\n' {
        i
    } else {
        line_end(s, i + 1)
    }
}

/// A line without the `\r` that stood right before the `\n` ending it.
pub open spec fn trim_cr(line: Seq<char>) -> Seq<char> {
    if line.len() > 0 && line.last() == '\r' {
        line.drop_last()
    } else {
        line
    }
}

/// The lines of a text: split at each `\n`, with a `\r` right before it dropped; a
/// final line ending adds no empty line, and an empty text has no lines.
pub open spec fn text_lines(s: Seq<char>) -> Seq<Seq<char>>
    decreases s.len(),
{
    if s.len() == 0 {
        Seq::empty()
    } else {
        let e = line_end(s, 0);
        if e < 0 || e >= s.len() {
            seq![s]
        } else {
            seq![trim_cr(s.take(e))] + text_lines(s.skip(e + 1))
        }
    }
}

pub open spec fn string_views(v: Seq<String>) -> Seq<Seq<char>> {
    v.map_values(|l: String| l@)
}

/// Relies on `str::lines`: it splits at `\n` and at `\r\n`, keeps no line ending,
/// and treats a final line ending as optional.
#[verifier::external_body]
fn split_lines(text: &str) -> (r: Vec<String>)
    ensures
        string_views(r@) == text_lines(text@),
{
    let mut lines: Vec<String> = vec![];
    for line in text.lines() {
        lines.push(line.to_string());
    }
    lines
}

/// The number of lines of records whose line counts are `sizes`.
pub open spec fn sum_sizes(sizes: Seq<usize>) -> int
    decreases sizes.len(),
{
    if sizes.len() == 0 {
        0
    } else {
        sum_sizes(sizes.drop_last()) + sizes.last()
    }
}

/// How many of `total` lines remain under a cap taken from the front.
pub open spec fn front_len(total: int, take_lines: Option<usize>) -> int {
    match take_lines {
        Some(h) => if total > h {
            h as int
        } else {
            total
        },
        None => total,
    }
}

/// How many of `n` lines a cap taken from the back drops from their front.
pub open spec fn back_cut(n: int, take_last_lines: Option<usize>) -> int {
    match take_last_lines {
        Some(h) => if n > h {
            n - h
        } else {
            0
        },
        None => 0,
    }
}

/// Counting from record `j`, which starts at line `start`: how many consecutive
/// records lie wholly inside the first `cut` lines (each with a line before `cut`
/// and none after it).
pub open spec fn dropped_from(sizes: Seq<usize>, cut: int, j: int, start: int) -> int
    decreases sizes.len() - j,
{
    if j < 0 || j >= sizes.len() {
        0
    } else if start < cut && start + sizes[j] <= cut {
        1 + dropped_from(sizes, cut, j + 1, start + sizes[j])
    } else {
        0
    }
}

/// The line range `[cut, front)` that a window of `total` lines keeps.
pub open spec fn window_front(total: int, take_lines: Option<usize>) -> int {
    front_len(total, take_lines)
}

pub open spec fn window_cut(total: int, take_lines: Option<usize>, take_last_lines: Option<usize>) -> int {
    back_cut(front_len(total, take_lines), take_last_lines)
}

/// The lines that a window keeps: the front cap first, then the back cap.
pub open spec fn window_lines<L>(
    lines: Seq<L>,
    take_lines: Option<usize>,
    take_last_lines: Option<usize>,
) -> Seq<L> {
    lines.subrange(
        window_cut(lines.len() as int, take_lines, take_last_lines),
        window_front(lines.len() as int, take_lines),
    )
}

/// The records that lie wholly in the lines that the back cap dropped.
pub open spec fn window_dropped(
    sizes: Seq<usize>,
    take_lines: Option<usize>,
    take_last_lines: Option<usize>,
) -> int {
    dropped_from(sizes, window_cut(sum_sizes(sizes), take_lines, take_last_lines), 0, 0)
}

/// The records that contributed to a window: all rendered ones but those that the
/// back cap dropped whole.
pub open spec fn window_items(
    sizes: Seq<usize>,
    take_lines: Option<usize>,
    take_last_lines: Option<usize>,
) -> int {
    sizes.len() - window_dropped(sizes, take_lines, take_last_lines)
}

/// Whether the window shows fewer lines than its records have: a record was cut.
pub open spec fn window_cropped(
    sizes: Seq<usize>,
    take_lines: Option<usize>,
    take_last_lines: Option<usize>,
) -> bool {
    let total = sum_sizes(sizes);
    let shown = window_front(total, take_lines) - window_cut(total, take_lines, take_last_lines);
    let d = window_dropped(sizes, take_lines, take_last_lines);
    shown < total - sum_sizes(sizes.take(d))
}

/// The output of the windower: the lines to show, how many records they come from,
/// and whether a record's rendering was cut at a line boundary.
pub struct CollectedLines {
    pub lines: Vec<String>,
    pub items_count: usize,
    pub has_cropped_items: bool,
}

/// `out` is the window of `lines`, rendered from records with the line counts `sizes`.
pub open spec fn window_of(
    out: CollectedLines,
    lines: Seq<String>,
    sizes: Seq<usize>,
    take_lines: Option<usize>,
    take_last_lines: Option<usize>,
) -> bool {
    &&& sum_sizes(sizes) == lines.len()
    &&& out.lines@ == window_lines(lines, take_lines, take_last_lines)
    &&& out.items_count == window_items(sizes, take_lines, take_last_lines)
    &&& out.has_cropped_items == window_cropped(sizes, take_lines, take_last_lines)
}

proof fn lemma_sum_sizes_step(sizes: Seq<usize>, j: int)
    requires
        0 <= j < sizes.len(),
    ensures
        sum_sizes(sizes.take(j + 1)) == sum_sizes(sizes.take(j)) + sizes[j],
{
    assert(sizes.take(j + 1).drop_last() =~= sizes.take(j));
}

proof fn lemma_sum_sizes_push(sizes: Seq<usize>, n: usize)
    ensures
        sum_sizes(sizes.push(n)) == sum_sizes(sizes) + n,
{
    assert(sizes.push(n).drop_last() =~= sizes);
}

proof fn lemma_dropped_bounded(sizes: Seq<usize>, cut: int, j: int, start: int)
    requires
        0 <= j <= sizes.len(),
    ensures
        0 <= dropped_from(sizes, cut, j, start) <= sizes.len() - j,
    decreases sizes.len() - j,
{
    if j < sizes.len() && start < cut && start + sizes[j] <= cut {
        lemma_dropped_bounded(sizes, cut, j + 1, start + sizes[j]);
    }
}

/// Fits rendered lines into a window: `lines` are the lines of consecutive records,
/// `sizes` how many lines each record has. The front cap keeps the first
/// `take_lines` lines, then the back cap keeps the last `take_last_lines` of those.
pub fn fit_lines(
    lines: Vec<String>,
    sizes: &Vec<usize>,
    take_lines: Option<usize>,
    take_last_lines: Option<usize>,
) -> (r: CollectedLines)
    requires
        sum_sizes(sizes@) == lines@.len(),
    ensures
        window_of(r, lines@, sizes@, take_lines, take_last_lines),
        r.items_count <= sizes@.len(),
{
    let mut lines = lines;
    let ghost all = lines@;
    let total = lines.len();
    let front = match take_lines {
        Some(h) => if total > h {
            h
        } else {
            total
        },
        None => total,
    };
    let cut = match take_last_lines {
        Some(h) => if front > h {
            front - h
        } else {
            0
        },
        None => 0,
    };
    let mut j: usize = 0;
    let mut start: usize = 0;
    while j < sizes.len() && start < cut && sizes[j] <= cut - start
        invariant
            j <= sizes@.len(),
            start == sum_sizes(sizes@.take(j as int)),
            start <= cut,
            dropped_from(sizes@, cut as int, 0, 0) == j + dropped_from(
                sizes@,
                cut as int,
                j as int,
                start as int,
            ),
        decreases sizes@.len() - j,
    {
        proof {
            lemma_sum_sizes_step(sizes@, j as int);
        }
        start = start + sizes[j];
        j = j + 1;
    }
    proof {
        lemma_dropped_bounded(sizes@, cut as int, 0, 0);
    }
    lines.truncate(front);
    let shown = lines.split_off(cut);
    assert(shown@ =~= window_lines(all, take_lines, take_last_lines));
    CollectedLines {
        lines: shown,
        items_count: sizes.len() - j,
        has_cropped_items: front - cut < total - start,
    }
}

/// A window exactly as tall as its records' lines shows them all, uncropped. One
/// line shorter, it is cropped and still counts every record it touched: from the
/// front always, from the back when the first record has more than one line (a
/// one-line first record would be dropped whole, and nothing cut).
pub proof fn lemma_exact_fit(sizes: Seq<usize>, h: usize)
    requires
        sum_sizes(sizes) == h,
    ensures
        !window_cropped(sizes, Some(h), None),
        window_items(sizes, Some(h), None) == sizes.len(),
        !window_cropped(sizes, None, Some(h)),
        window_items(sizes, None, Some(h)) == sizes.len(),
        h > 0 ==> window_cropped(sizes, Some((h - 1) as usize), None),
        h > 0 ==> window_items(sizes, Some((h - 1) as usize), None) == sizes.len(),
        h > 0 && sizes.len() > 0 && sizes[0] > 1 ==> window_cropped(
            sizes,
            None,
            Some((h - 1) as usize),
        ),
        h > 0 && sizes.len() > 0 && sizes[0] > 1 ==> window_items(
            sizes,
            None,
            Some((h - 1) as usize),
        ) == sizes.len(),
{
    assert(sizes.take(0) =~= Seq::<usize>::empty());
}

/// `text` is what `f.format(item, index)` returned.
pub open spec fn formatted<T, R: RecordFormatter<T>>(f: R, item: T, index: usize, text: String) -> bool {
    call_ensures(R::format, (&f, &item, index), text)
}

/// The lines of a run of rendered texts, one text after another.
pub open spec fn rendered_lines(texts: Seq<String>) -> Seq<Seq<char>>
    decreases texts.len(),
{
    if texts.len() == 0 {
        Seq::empty()
    } else {
        rendered_lines(texts.drop_last()) + text_lines(texts.last()@)
    }
}

/// `texts` are what the formatter made of the records from `first` on, each with its
/// position in the run; `lines` are their lines and `sizes` their line counts.
pub open spec fn renders<T, R: RecordFormatter<T>>(
    f: R,
    records: Seq<T>,
    first: int,
    texts: Seq<String>,
    lines: Seq<String>,
    sizes: Seq<usize>,
) -> bool {
    &&& texts.len() == sizes.len()
    &&& texts.len() > 0 ==> first + texts.len() <= records.len()
    &&& forall|k: int|
        0 <= k < texts.len() ==> formatted(f, records[first + k], k as usize, #[trigger] texts[k])
    &&& forall|k: int| 0 <= k < sizes.len() ==> #[trigger] sizes[k] == text_lines(texts[k]@).len()
    &&& string_views(lines) == rendered_lines(texts)
}

/// A window of lines over a run of records: how many records to skip and to take,
/// and how many lines to keep from the front or from the back.
pub struct LinesCollector<'a, R> {
    formatter: &'a R,
    skip_items: Option<usize>,
    take_items: Option<usize>,
    take_lines: Option<usize>,
    take_last_lines: Option<usize>,
}

/// The records that a window reads, from `first` on: `sizes` are the line counts of
/// those it rendered. It never reads past `take_items` records, and stops reading as
/// soon as the front cap is filled.
pub open spec fn window_reads(
    first: int,
    sizes: Seq<usize>,
    take_items: Option<usize>,
    take_lines: Option<usize>,
    records: int,
) -> bool {
    &&& sizes.len() > 0 ==> first + sizes.len() <= records
    &&& take_items matches Some(n) ==> sizes.len() <= n
    &&& take_lines matches Some(h) ==> (sizes.len() > 0 ==> sum_sizes(sizes.drop_last()) < h)
}

/// The window still wants records after those with line counts `sizes`: neither the
/// record limit nor the front cap is reached.
pub open spec fn window_open(sizes: Seq<usize>, take_items: Option<usize>, take_lines: Option<usize>) -> bool {
    &&& !(take_items matches Some(n) && sizes.len() >= n)
    &&& !(take_lines matches Some(h) && sum_sizes(sizes) >= h)
}

impl<'a, R> LinesCollector<'a, R> {
    pub closed spec fn skip_spec(&self) -> Option<usize> {
        self.skip_items
    }

    pub closed spec fn take_items_spec(&self) -> Option<usize> {
        self.take_items
    }

    pub closed spec fn take_lines_spec(&self) -> Option<usize> {
        self.take_lines
    }

    pub closed spec fn take_last_lines_spec(&self) -> Option<usize> {
        self.take_last_lines
    }

    pub closed spec fn formatter_spec(&self) -> &'a R {
        self.formatter
    }

    /// A window with no limits, rendering with `formatter`.
    pub fn new(formatter: &'a R) -> (r: Self)
        ensures
            r.formatter_spec() == formatter,
            r.skip_spec() is None,
            r.take_items_spec() is None,
            r.take_lines_spec() is None,
            r.take_last_lines_spec() is None,
    {
        LinesCollector {
            formatter,
            skip_items: None,
            take_items: None,
            take_lines: None,
            take_last_lines: None,
        }
    }

    /// Skips the first `n` records.
    pub fn skip_items(self, n: usize) -> (r: Self)
        ensures
            r.skip_spec() == Some(n),
            r.take_items_spec() == self.take_items_spec(),
            r.take_lines_spec() == self.take_lines_spec(),
            r.take_last_lines_spec() == self.take_last_lines_spec(),
            r.formatter_spec() == self.formatter_spec(),
    {
        LinesCollector { skip_items: Some(n), ..self }
    }

    /// Reads at most `n` records.
    pub fn take_items(self, n: usize) -> (r: Self)
        ensures
            r.take_items_spec() == Some(n),
            r.skip_spec() == self.skip_spec(),
            r.take_lines_spec() == self.take_lines_spec(),
            r.take_last_lines_spec() == self.take_last_lines_spec(),
            r.formatter_spec() == self.formatter_spec(),
    {
        LinesCollector { take_items: Some(n), ..self }
    }

    /// Keeps the first `n` lines.
    pub fn take_lines(self, n: usize) -> (r: Self)
        ensures
            r.take_lines_spec() == Some(n),
            r.skip_spec() == self.skip_spec(),
            r.take_items_spec() == self.take_items_spec(),
            r.take_last_lines_spec() == self.take_last_lines_spec(),
            r.formatter_spec() == self.formatter_spec(),
    {
        LinesCollector { take_lines: Some(n), ..self }
    }

    /// Keeps the last `n` lines.
    pub fn take_last_lines(self, n: usize) -> (r: Self)
        ensures
            r.take_last_lines_spec() == Some(n),
            r.skip_spec() == self.skip_spec(),
            r.take_items_spec() == self.take_items_spec(),
            r.take_lines_spec() == self.take_lines_spec(),
            r.formatter_spec() == self.formatter_spec(),
    {
        LinesCollector { take_last_lines: Some(n), ..self }
    }

    /// The number of records skipped before the window.
    pub open spec fn skip_count(&self) -> int {
        match self.skip_spec() {
            Some(n) => n as int,
            None => 0,
        }
    }

    /// Reads the window's records from the cursor `from` on, renders each, splits the
    /// text into lines and fits them into the window. Records are read one by one,
    /// so fetches happen only for records that the window needs; a failed fetch ends
    /// the collection with that error.
    pub fn collect<T, F: Fetcher<T>>(self, c: &mut Collector<T, F>, from: CollectorIterator) -> (r:
        Result<CollectedLines, FetcherError>)
        where R: RecordFormatter<T>,
        requires
            old(c).wf(),
        ensures
            old(c).grows_to(*final(c)),
            r matches Err(e) ==> {
                &&& final(c).fetches().len() > old(c).fetches().len()
                &&& final(c).fetches().last().1 == Err::<(usize, Vec<T>), _>(e)
            },
            r matches Ok(out) ==> {
                &&& exists|lines: Seq<String>, sizes: Seq<usize>, texts: Seq<String>|
                    #![trigger window_of(out, lines, sizes, self.take_lines_spec(), self.take_last_lines_spec()), renders(*self.formatter_spec(), final(c).records(), from.position() + self.skip_count(), texts, lines, sizes)]
                    {
                        &&& window_of(
                            out,
                            lines,
                            sizes,
                            self.take_lines_spec(),
                            self.take_last_lines_spec(),
                        )
                        &&& renders(
                            *self.formatter_spec(),
                            final(c).records(),
                            from.position() + self.skip_count(),
                            texts,
                            lines,
                            sizes,
                        )
                        &&& window_reads(
                            from.position() + self.skip_count(),
                            sizes,
                            self.take_items_spec(),
                            self.take_lines_spec(),
                            final(c).records().len() as int,
                        )
                        &&& old(c).fetches_below(
                            *final(c),
                            from.position() + self.skip_count() + sizes.len() + if window_open(
                                sizes,
                                self.take_items_spec(),
                                self.take_lines_spec(),
                            ) {
                                1int
                            } else {
                                0int
                            },
                        )
                        &&& (from.position() <= old(c).records().len() && window_open(
                            sizes,
                            self.take_items_spec(),
                            self.take_lines_spec(),
                        )) ==> {
                            &&& final(c).terminal()
                            &&& from.position() + self.skip_count() + sizes.len()
                                >= final(c).records().len()
                        }
                    }
                &&& out.items_count == 0 || from.position() + self.skip_count() + out.items_count
                    <= final(c).records().len()
                &&& self.take_items_spec() matches Some(n) ==> out.items_count <= n
            },
    {
        let ghost c0 = *c;
        let ghost first = from.position() + self.skip_count();
        let mut lines: Vec<String> = Vec::new();
        let mut sizes: Vec<usize> = Vec::new();
        let ghost mut texts: Seq<String> = Seq::empty();
        let nothing_wanted = match (self.take_items, self.take_lines) {
            (Some(0), _) => true,
            (_, Some(0)) => true,
            _ => false,
        };
        if nothing_wanted {
            let ghost all = lines@;
            let out = fit_lines(lines, &sizes, self.take_lines, self.take_last_lines);
            assert(sizes@ =~= Seq::<usize>::empty());
            assert(string_views(all) =~= rendered_lines(texts));
            assert(renders(*self.formatter_spec(), c.records(), first, texts, all, sizes@));
            assert(window_of(out, all, sizes@, self.take_lines_spec(), self.take_last_lines_spec()));
            assert(c0.fetches_below(*c, first + 0));
            return Ok(out);
        }
        let skip = match self.skip_items {
            Some(n) => n,
            None => 0,
        };
        let mut i = from.index();
        let mut k: usize = 0;
        let mut ended = false;
        while k < skip && !ended
            invariant
                c0 == *old(c),
                c0.wf(),
                c0.grows_to(*c),
                c0.fetches_below(*c, from.position() + k + 1),
                !ended ==> c0.fetches_below(*c, from.position() + k),
                k <= skip,
                i == from.position() + k,
                k > 0 ==> i <= c.records().len(),
                from.position() <= c0.records().len() ==> i <= c.records().len(),
                ended ==> (from.position() <= c0.records().len() ==> c.terminal() && i
                    >= c.records().len()),
                skip == self.skip_count(),
            decreases skip - k + if ended { 0int } else { 1int },
        {
            let ghost before = *c;
            match c.load(i) {
                Err(e) => {
                    proof {
                        lemma_grows_to_trans(c0, before, *c);
                    }
                    return Err(e);
                },
                Ok(true) => {
                    i = i + 1;
                    k = k + 1;
                },
                Ok(false) => {
                    ended = true;
                },
            }
        }
        let mut done = ended;
        assert(string_views(lines@) =~= rendered_lines(texts));
        while !done
            invariant
                c0 == *old(c),
                c0.wf(),
                c0.grows_to(*c),
                first == from.position() + self.skip_count(),
                !done ==> i == first + sizes@.len(),
                !done && from.position() <= c0.records().len() ==> i <= c.records().len(),
                c0.fetches_below(*c, first + sizes@.len() + 1),
                !done || !window_open(sizes@, self.take_items, self.take_lines) ==> c0.fetches_below(
                    *c,
                    first + sizes@.len(),
                ),
                sizes@.len() > 0 ==> first + sizes@.len() <= c.records().len(),
                renders(*self.formatter, c.records(), first, texts, lines@, sizes@),
                sum_sizes(sizes@) == lines@.len(),
                self.take_items matches Some(n) ==> sizes@.len() <= n,
                self.take_lines matches Some(h) ==> (sizes@.len() > 0 ==> sum_sizes(
                    sizes@.drop_last(),
                ) < h),
                self.take_items != Some(0usize),
                self.take_lines != Some(0usize),
                done && window_open(sizes@, self.take_items, self.take_lines) ==> (
                from.position() <= c0.records().len() ==> c.terminal() && first + sizes@.len()
                    >= c.records().len()),
            decreases usize::MAX - i, if done { 0int } else { 1int },
        {
            let full = match (self.take_items, self.take_lines) {
                (Some(n), _) if sizes.len() >= n => true,
                (_, Some(h)) if lines.len() >= h => true,
                _ => false,
            };
            if full {
                done = true;
            } else {
                let ghost before = *c;
                match c.load(i) {
                    Err(e) => {
                        proof {
                            lemma_grows_to_trans(c0, before, *c);
                        }
                        return Err(e);
                    },
                    Ok(false) => {
                        done = true;
                    },
                    Ok(true) => {
                        let ghost lines0 = lines@;
                        let ghost sizes0 = sizes@;
                        let ghost texts0 = texts;
                        let text = self.formatter.format(c.record(i), sizes.len());
                        let mut piece = split_lines(text.as_str());
                        proof {
                            lemma_sum_sizes_push(sizes@, piece.len());
                            assert(sizes@.push(piece.len()).drop_last() =~= sizes@);
                            texts = texts.push(text);
                            assert(texts.drop_last() =~= texts0);
                        }
                        sizes.push(piece.len());
                        lines.append(&mut piece);
                        proof {
                            assert(string_views(lines@) =~= string_views(lines0) + text_lines(text@));
                            assert forall|j: int| 0 <= j < texts.len() implies formatted(
                                *self.formatter,
                                c.records()[first + j],
                                j as usize,
                                #[trigger] texts[j],
                            ) by {
                                if j < texts0.len() {
                                    assert(first + texts0.len() <= before.records().len());
                                    assert(before.records().is_prefix_of(c.records()));
                                    assert(c.records()[first + j] == before.records()[first + j]);
                                }
                            }
                            assert forall|j: int| 0 <= j < sizes@.len() implies #[trigger] sizes@[j]
                                == text_lines(texts[j]@).len() by {
                                if j < sizes0.len() {
                                    assert(sizes@[j] == sizes0[j]);
                                }
                            }
                        }
                        i = i + 1;
                    },
                }
            }
        }
        let ghost all = lines@;
        let out = fit_lines(lines, &sizes, self.take_lines, self.take_last_lines);
        assert(window_of(out, all, sizes@, self.take_lines_spec(), self.take_last_lines_spec()));
        assert(renders(*self.formatter_spec(), c.records(), first, texts, all, sizes@));
        assert(window_reads(
            first,
            sizes@,
            self.take_items_spec(),
            self.take_lines_spec(),
            c.records().len() as int,
        ));
        assert(from.position() <= c0.records().len() && window_open(
            sizes@,
            self.take_items_spec(),
            self.take_lines_spec(),
        ) ==> c.terminal() && first + sizes@.len() >= c.records().len());
        assert(c0.fetches_below(
            *c,
            from.position() + self.skip_count() + sizes@.len() + if window_open(
                sizes@,
                self.take_items_spec(),
                self.take_lines_spec(),
            ) {
                1int
            } else {
                0int
            },
        ));
        assert(out.items_count == 0 || from.position() + self.skip_count() + out.items_count
            <= c.records().len());
        assert(self.take_items_spec() matches Some(n) ==> out.items_count <= n);
        Ok(out)
    }
}

} // verus!
