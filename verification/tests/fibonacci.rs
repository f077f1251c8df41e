use coroutine_scheduler::fibonacci::nth;
use coroutine_scheduler::fibonacci::serie;

#[test]
fn serie_starts_with_the_known_prefix() {
    let mut fib = serie();
    assert_eq!(fib.next(), Some(0));
    assert_eq!(fib.next(), Some(1));
    assert_eq!(fib.next(), Some(1));
    assert_eq!(fib.next(), Some(2));
    assert_eq!(fib.next(), Some(3));
    assert_eq!(fib.next(), Some(5));
    assert_eq!(fib.next(), Some(8));
}

#[test]
fn nth_returns_exact_values() {
    assert_eq!(nth(0), Some(0));
    assert_eq!(nth(1), Some(1));
    assert_eq!(nth(2), Some(1));
    assert_eq!(nth(5), Some(5));
    assert_eq!(nth(10), Some(55));
    assert_eq!(nth(20), Some(6765));
}

#[test]
fn the_sequence_ends_where_the_machine_integer_does() {
    assert_eq!(nth(92), Some(7_540_113_804_746_346_429));
    assert_eq!(nth(93), None);
    assert_eq!(nth(100), None);
}

#[test]
fn an_exhausted_serie_stays_exhausted() {
    let mut fib = serie();
    let mut last = None;
    for _ in 0..=92 {
        last = fib.next();
    }
    assert_eq!(last, Some(7_540_113_804_746_346_429));
    assert_eq!(fib.next(), None);
    assert_eq!(fib.next(), None);
    assert_eq!(fib.next(), None);
}
