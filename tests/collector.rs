use elastic_cli::fetcher::{Collector, CollectorIterator, Fetcher, FetcherError};

use std::cell::RefCell;
use std::rc::Rc;

type Answer = Result<(usize, Vec<i32>), FetcherError>;

struct FnFetcher(Box<dyn Fn(usize) -> Answer>);

impl Fetcher<i32> for FnFetcher {
    fn fetch_next(&self, from: usize) -> Answer {
        (self.0)(from)
    }
}

/// A fetcher that serves fixed pages and logs the offset of every call.
struct LoggingFetcher {
    pages: Vec<(usize, Vec<i32>)>,
    total: usize,
    calls: Rc<RefCell<Vec<usize>>>,
}

impl Fetcher<i32> for LoggingFetcher {
    fn fetch_next(&self, from: usize) -> Answer {
        self.calls.borrow_mut().push(from);
        let page = self
            .pages
            .iter()
            .find(|(offset, _)| *offset == from)
            .map(|(_, records)| records.clone())
            .unwrap_or_default();
        Ok((self.total, page))
    }
}

fn logging(pages: Vec<(usize, Vec<i32>)>, total: usize) -> (LoggingFetcher, Rc<RefCell<Vec<usize>>>) {
    let calls = Rc::new(RefCell::new(Vec::new()));
    (LoggingFetcher { pages, total, calls: calls.clone() }, calls)
}

fn fail() -> Answer {
    Err(FetcherError::RequestError { inner: "fail".to_string() })
}

fn drain<F: Fetcher<i32>>(c: &mut Collector<i32, F>) -> Vec<i32> {
    let mut it = c.iter();
    it.collect(c)
}

#[test]
fn it_should_return_error_from_fetcher_on_creation() {
    let fetcher = FnFetcher(Box::new(|_from| fail()));
    match Collector::create(fetcher) {
        Ok(_) => assert!(false, "creation should be failed"),
        Err(_) => assert!(true),
    }
}

#[test]
fn it_should_stop_fetching_when_collector_returned_error() {
    let fetcher = FnFetcher(Box::new(|from| match from {
        0 => Ok((5, vec![99, 98])),
        2 => fail(),
        _ => Ok((5, vec![])),
    }));
    let mut collector = Collector::create(fetcher).unwrap();
    let result: Vec<i32> = drain(&mut collector);
    assert_eq!(vec![99, 98], result);
    assert!(collector.is_terminal());
}

// Reading stops at the first empty page, here the one at offset 5, not at the total.
#[test]
fn it_should_not_fetch_more_items_than_returned_in_total_count() {
    let fetcher = FnFetcher(Box::new(|from| match from {
        0 => Ok((5, vec![99])),
        1 => Ok((5, vec![98, 97])),
        2 => Ok((5, vec![1, 2])),
        3 => Ok((5, vec![96, 95])),
        5 => Ok((5, vec![])),
        _ => Ok((5, vec![])),
    }));
    let result: Vec<i32> = drain(&mut Collector::create(fetcher).unwrap());
    assert_eq!(vec![99, 98, 97, 96, 95], result);
}

// The total is only a hint: pages past it are read until the first empty one.
#[test]
fn it_may_contain_more_items_than_total_count_if_fetcher_returns() {
    let fetcher = FnFetcher(Box::new(|from| match from {
        0 => Ok((5, vec![99])),
        1 => Ok((5, vec![98, 97])),
        2 => Ok((5, vec![1, 2])),
        3 => Ok((5, vec![96, 95, 94])),
        5 => Ok((5, vec![1, 2])),
        6..=20 => Ok((5, vec![1, 2])),
        _ => Ok((5, vec![])),
    }));
    let result: Vec<i32> = drain(&mut Collector::create(fetcher).unwrap());
    let mut expected = vec![99, 98, 97, 96, 95, 94];
    for _ in 0..8 {
        expected.extend(vec![1, 2]);
    }
    assert_eq!(expected, result);
}

#[test]
fn it_should_not_fetch_more_items_than_requested() {
    let fetcher = FnFetcher(Box::new(|from| match from {
        0 => Ok((5, vec![99])),
        1 => Ok((5, vec![98, 97])),
        _ => panic!("should not happen"),
    }));
    let mut collector = Collector::create(fetcher).unwrap();
    let mut it = collector.iter();
    let result: Vec<i32> = it.take(&mut collector, 3);
    assert_eq!(vec![99, 98, 97], result);
}

#[test]
fn it_should_fetch_no_more_than_necessary() {
    let fetcher = FnFetcher(Box::new(|from| match from {
        0 => Ok((5, vec![99])),
        1 => Ok((5, vec![98, 97])),
        _ => panic!("should not happen"),
    }));
    let mut collector = Collector::create(fetcher).unwrap();
    let mut it = collector.iter();
    it.skip(&mut collector, 1);
    let result: Vec<i32> = it.take(&mut collector, 2);
    assert_eq!(vec![98, 97], result);
}

#[test]
fn it_should_fetch_no_less_than_necessary() {
    let fetcher = FnFetcher(Box::new(|from| match from {
        0 => Ok((5, vec![99])),
        1 => Ok((5, vec![98, 97])),
        _ => panic!("should not happen"),
    }));

    let mut collector = Collector::create(fetcher).unwrap();

    let mut it = collector.iter();
    let result: Vec<i32> = it.take(&mut collector, 2);
    assert_eq!(vec![99, 98], result);

    let mut it = collector.iter();
    it.skip(&mut collector, 1);
    let result: Vec<i32> = it.take(&mut collector, 2);
    assert_eq!(vec![98, 97], result);
}

#[test]
fn drain_yields_pages_in_order_and_stops_at_first_empty_page() {
    let (fetcher, calls) = logging(
        vec![(0, vec![1]), (1, vec![2, 3]), (3, vec![4, 5]), (5, vec![]), (6, vec![9])],
        2,
    );
    let mut collector = Collector::create(fetcher).unwrap();
    assert_eq!(vec![1, 2, 3, 4, 5], drain(&mut collector));
    assert_eq!(vec![0, 1, 3, 5], *calls.borrow());
    assert_eq!(5, collector.from());
    assert!(collector.is_terminal());
}

#[test]
fn pages_of_one_two_two_two_with_total_five_drain_to_five_records() {
    let (fetcher, calls) = logging(
        vec![(0, vec![10]), (1, vec![11, 12]), (3, vec![13, 14]), (5, vec![])],
        5,
    );
    let mut collector = Collector::create(fetcher).unwrap();
    assert_eq!(vec![10, 11, 12, 13, 14], drain(&mut collector));
    assert_eq!(vec![0, 1, 3, 5], *calls.borrow());
    assert_eq!(5, collector.total());
}

#[test]
fn pages_of_one_two_two_three_with_total_five_drain_to_eight_records() {
    let (fetcher, calls) = logging(
        vec![(0, vec![1]), (1, vec![2, 3]), (3, vec![4, 5]), (5, vec![6, 7, 8])],
        5,
    );
    let mut collector = Collector::create(fetcher).unwrap();
    let result = drain(&mut collector);
    assert_eq!(vec![1, 2, 3, 4, 5, 6, 7, 8], result);
    assert_eq!(vec![0, 1, 3, 5, 8], *calls.borrow());
    assert_eq!(8, collector.from());
    assert_eq!(5, collector.total());
}

#[test]
fn take_three_fetches_only_at_offsets_zero_and_one() {
    let (fetcher, calls) = logging(vec![(0, vec![1]), (1, vec![2, 3]), (3, vec![4, 5])], 5);
    let mut collector = Collector::create(fetcher).unwrap();
    let mut it = collector.iter();
    assert_eq!(vec![1, 2, 3], it.take(&mut collector, 3));
    assert_eq!(vec![0, 1], *calls.borrow());
}

#[test]
fn taking_exactly_the_buffered_records_fetches_nothing() {
    let (fetcher, calls) = logging(vec![(0, vec![1, 2, 3]), (3, vec![4])], 4);
    let mut collector = Collector::create(fetcher).unwrap();
    let mut it = collector.iter();
    assert_eq!(vec![1, 2, 3], it.take(&mut collector, 3));
    assert_eq!(vec![0], *calls.borrow());
    let mut it = collector.iter();
    assert_eq!(vec![1, 2, 3, 4], it.take(&mut collector, 4));
    assert_eq!(vec![0, 3], *calls.borrow());
}

#[test]
fn skip_then_take_fetches_no_more_than_take_of_the_sum() {
    let (fetcher, calls) = logging(
        vec![(0, vec![1]), (1, vec![2, 3]), (3, vec![4, 5]), (5, vec![6])],
        6,
    );
    let mut collector = Collector::create(fetcher).unwrap();
    let mut it = collector.iter();
    assert_eq!(2, it.skip(&mut collector, 2));
    assert_eq!(vec![3, 4], it.take(&mut collector, 2));
    assert_eq!(vec![0, 1, 3], *calls.borrow());
}

#[test]
fn reiterating_does_not_fetch_buffered_offsets_again() {
    let (fetcher, calls) = logging(vec![(0, vec![1, 2]), (2, vec![3]), (3, vec![])], 3);
    let mut collector = Collector::create(fetcher).unwrap();
    assert_eq!(vec![1, 2, 3], drain(&mut collector));
    assert_eq!(vec![0, 2, 3], *calls.borrow());
    assert_eq!(vec![1, 2, 3], drain(&mut collector));
    assert_eq!(vec![0, 2, 3], *calls.borrow());
}

#[test]
fn empty_backend_has_no_first_record() {
    let (fetcher, calls) = logging(vec![], 10);
    let mut collector = Collector::create(fetcher).unwrap();
    assert_eq!(Ok(None), collector.get(0));
    assert!(collector.is_terminal());
    assert_eq!(vec![0], *calls.borrow());
}

#[test]
fn get_fetches_only_the_next_record() {
    let (fetcher, calls) = logging(vec![(0, vec![1]), (1, vec![2])], 2);
    let mut collector = Collector::create(fetcher).unwrap();
    assert_eq!(Ok(None), collector.get(2));
    assert_eq!(vec![0], *calls.borrow());
    assert_eq!(Ok(Some(2)), collector.get(1));
    assert_eq!(vec![0, 1], *calls.borrow());
    assert_eq!(Ok(Some(1)), collector.get(0));
    assert_eq!(vec![0, 1], *calls.borrow());
}

#[test]
fn get_surfaces_a_failed_fetch_once() {
    let fetcher = FnFetcher(Box::new(|from| match from {
        0 => Ok((5, vec![7])),
        _ => fail(),
    }));
    let mut collector = Collector::create(fetcher).unwrap();
    assert_eq!(Err(FetcherError::RequestError { inner: "fail".to_string() }), collector.get(1));
    assert!(collector.is_terminal());
    assert_eq!(Ok(None), collector.get(1));
    assert_eq!(Ok(Some(7)), collector.get(0));
}

#[test]
fn next_back_steps_back_over_read_records() {
    let (fetcher, _calls) = logging(vec![(0, vec![1, 2, 3])], 3);
    let mut collector = Collector::create(fetcher).unwrap();
    let mut it = collector.iter();
    assert_eq!(Some(1), it.next(&mut collector));
    assert_eq!(Some(2), it.next(&mut collector));
    assert_eq!(Some(2), it.next_back(&mut collector));
    assert_eq!(Some(1), it.next_back(&mut collector));
    assert_eq!(0, it.index());
}

#[test]
fn cursors_over_one_collector_keep_their_own_positions() {
    let (fetcher, calls) = logging(vec![(0, vec![1]), (1, vec![2])], 2);
    let mut collector = Collector::create(fetcher).unwrap();
    let mut a = collector.iter();
    let mut b = CollectorIterator::at(1);
    assert_eq!(Some(1), a.next(&mut collector));
    assert_eq!(Some(2), b.next(&mut collector));
    assert_eq!(Some(2), a.next(&mut collector));
    assert_eq!(None, b.next(&mut collector));
    assert_eq!(vec![0, 1, 2], *calls.borrow());
}

#[test]
fn try_next_reports_a_failed_fetch_apart_from_the_end() {
    let fetcher = FnFetcher(Box::new(|from| match from {
        0 => Ok((5, vec![99, 98])),
        2 => fail(),
        _ => Ok((5, vec![])),
    }));
    let mut collector = Collector::create(fetcher).unwrap();
    let mut it = collector.iter();
    assert_eq!(Ok(Some(99)), it.try_next(&mut collector));
    assert_eq!(Ok(Some(98)), it.try_next(&mut collector));
    assert_eq!(Err(FetcherError::RequestError { inner: "fail".to_string() }), it.try_next(&mut collector));
    assert_eq!(Ok(None), it.try_next(&mut collector));
}

#[test]
fn first_page_decides_the_new_collector() {
    let (fetcher, _) = logging(vec![], 0);
    let c = Collector::from_first_page(fetcher, Ok((7, vec![4, 5]))).ok().unwrap();
    assert_eq!(2, c.from());
    assert_eq!(7, c.total());
    assert!(!c.is_terminal());

    let (fetcher, _) = logging(vec![], 0);
    let c = Collector::from_first_page(fetcher, Ok((7, vec![]))).ok().unwrap();
    assert_eq!(0, c.from());
    assert_eq!(7, c.total());
    assert!(c.is_terminal());

    let (fetcher, _) = logging(vec![], 0);
    assert_eq!(
        Some(FetcherError::RequestError { inner: "fail".to_string() }),
        Collector::from_first_page(fetcher, fail()).err()
    );
}

#[test]
fn absorb_appends_pages_and_ends_on_empty_page_or_error() {
    let (fetcher, _) = logging(vec![(0, vec![1])], 3);
    let mut c = Collector::create(fetcher).unwrap();
    assert_eq!(Ok(true), c.absorb(Ok((9, vec![2, 3]))));
    assert_eq!(3, c.from());
    assert_eq!(9, c.total());
    assert_eq!(Ok(Some(3)), c.get(2));
    assert_eq!(Ok(false), c.absorb(Ok((4, vec![]))));
    assert_eq!(4, c.total());
    assert!(c.is_terminal());

    let (fetcher, _) = logging(vec![(0, vec![1])], 3);
    let mut c = Collector::create(fetcher).unwrap();
    assert_eq!(Err(FetcherError::RequestError { inner: "fail".to_string() }), c.absorb(fail()));
    assert_eq!(1, c.from());
    assert_eq!(3, c.total());
    assert!(c.is_terminal());
}
