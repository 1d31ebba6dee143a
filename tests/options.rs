use elastic_cli::options::{OptionalSkip, OptionalTake, SkipByOption, TakeByOption};

fn drain_skip<I: Iterator>(mut it: SkipByOption<I>) -> Vec<I::Item> {
    let mut out = Vec::new();
    while let Some(x) = it.next() {
        out.push(x);
    }
    out
}

fn drain_take<I: Iterator>(mut it: TakeByOption<I>) -> Vec<I::Item> {
    let mut out = Vec::new();
    while let Some(x) = it.next() {
        out.push(x);
    }
    out
}

#[test]
fn should_not_skips_elements_for_none() {
    assert_eq!(vec![1, 2, 3], drain_skip(vec![1, 2, 3].into_iter().skip_by_option(None)))
}

#[test]
fn should_skips_elements_for_some() {
    assert_eq!(vec![3], drain_skip(vec![1, 2, 3].into_iter().skip_by_option(Some(2))))
}

#[test]
fn should_not_affect_for_none() {
    assert_eq!(vec![1, 2, 3], drain_take(vec![1, 2, 3].into_iter().take_by_option(None)))
}

#[test]
fn should_takes_some_elements_for_some() {
    assert_eq!(vec![1, 2], drain_take(vec![1, 2, 3].into_iter().take_by_option(Some(2))))
}

#[test]
fn skipping_past_the_end_yields_nothing() {
    assert_eq!(Vec::<i32>::new(), drain_skip(SkipByOption::new(vec![1, 2].into_iter(), Some(5))));
    assert_eq!(Vec::<i32>::new(), drain_take(TakeByOption::new(vec![1, 2].into_iter(), Some(0))));
}
