use result_iter::{MultiError, ResultIterExt, ResultSource};

use std::collections::VecDeque;
use std::io;

fn drain<T, E, S: ResultSource<T, E>>(mut s: S) -> Vec<Result<T, E>> {
    let mut out = Vec::new();
    while let Some(x) = s.next_result() {
        out.push(x);
    }
    out
}

#[test]
fn smoke() {
    let err = || Err(io::Error::from(io::ErrorKind::Other));
    let errs = || vec![Ok(()), err(), err(), Ok(())];
    let nerrs = || vec![Ok(()), Ok(()), Ok(()), Ok(())];

    let r: Vec<Result<(), io::Error>> = drain(errs().end_if_err());

    assert!(r.len() == 2);

    let r: Vec<Result<(), io::Error>> = drain(nerrs().end_if_err());

    assert!(r.len() == 4);

    let r = || -> Result<(), MultiError<io::Error>> {
        let r: Vec<()> = nerrs().fail_slow_if_err()?;
        assert!(r.len() == 4);

        let _ = errs().fail_slow_if_err()?;
        unreachable!();
    }();

    let e = r.unwrap_err();
    assert!(e.len() == 2);
    let mut e = e.into_iter();
    assert!(e.next().is_some());

    let r = || -> Result<(), io::Error> {
        let r: Vec<()> = nerrs().fail_fast_if_err()?;
        assert!(r.len() == 4);

        let _ = errs().fail_fast_if_err()?;
        unreachable!();
    }();

    assert!(r.is_err());
}

fn mixed() -> Vec<Result<i32, &'static str>> {
    vec![Ok(1), Err("x"), Err("y"), Ok(2)]
}

#[test]
fn all_successes_pass_both_policies() {
    let v: Vec<Result<i32, &str>> = vec![Ok(1), Ok(2), Ok(3)];
    assert_eq!(v.clone().fail_fast_if_err().unwrap(), vec![1, 2, 3]);
    assert_eq!(v.clone().fail_slow_if_err().unwrap(), vec![1, 2, 3]);
    assert_eq!(drain(v.end_if_err()), vec![Ok(1), Ok(2), Ok(3)]);
}

#[test]
fn mixed_sequence_truncates_after_first_failure() {
    assert_eq!(drain(mixed().end_if_err()), vec![Ok(1), Err("x")]);
}

#[test]
fn mixed_sequence_fail_fast_gives_first_error() {
    assert_eq!(mixed().fail_fast_if_err(), Err("x"));
}

#[test]
fn mixed_sequence_fail_slow_gives_all_errors() {
    let e = mixed().fail_slow_if_err().unwrap_err();
    assert_eq!(e.len(), 2);
    assert_eq!(*e.first(), "x");
    assert_eq!(e.into_vec(), vec!["x", "y"]);
}

#[test]
fn empty_sequence_succeeds_with_nothing() {
    let v: Vec<Result<i32, &str>> = Vec::new();
    assert_eq!(v.clone().fail_fast_if_err(), Ok(Vec::new()));
    assert_eq!(v.clone().fail_slow_if_err().unwrap(), Vec::<i32>::new());
    assert!(drain(v.end_if_err()).is_empty());
}

#[test]
fn single_failure_under_both_policies() {
    let v: Vec<Result<i32, &str>> = vec![Err("only")];
    assert_eq!(v.clone().fail_fast_if_err(), Err("only"));
    let e = v.fail_slow_if_err().unwrap_err();
    assert_eq!(e.len(), 1);
    assert_eq!(e.into_iter().collect::<Vec<_>>(), vec!["only"]);
}

#[test]
fn truncation_keeps_prefix_through_first_failure() {
    let v: Vec<Result<u8, u8>> = vec![Ok(1), Ok(2), Err(3), Ok(4), Err(5)];
    assert_eq!(drain(v.end_if_err()), vec![Ok(1), Ok(2), Err(3)]);
    let v: Vec<Result<u8, u8>> = vec![Err(9), Ok(1)];
    assert_eq!(drain(v.end_if_err()), vec![Err(9)]);
}

#[test]
fn truncated_sequence_stays_ended() {
    let v: Vec<Result<u8, u8>> = vec![Err(1), Ok(2), Ok(3)];
    let mut it = v.end_if_err();
    assert_eq!(it.next_result(), Some(Err(1)));
    assert_eq!(it.next_result(), None);
    assert_eq!(it.next_result(), None);
}

#[test]
fn truncating_twice_changes_nothing() {
    let it = mixed().end_if_err().end_if_err();
    assert_eq!(drain(it), vec![Ok(1), Err("x")]);
}

#[test]
fn fail_slow_keeps_error_order_and_count() {
    let v: Vec<Result<u8, u8>> = vec![Err(4), Ok(1), Err(2), Ok(3), Err(0)];
    let e = v.fail_slow_if_err().unwrap_err();
    assert_eq!(e.len(), 3);
    assert_eq!(e.into_iter().collect::<Vec<_>>(), vec![4, 2, 0]);
}

#[test]
fn fail_fast_agrees_with_fail_slow() {
    let cases: Vec<Vec<Result<u8, u8>>> = vec![
        vec![],
        vec![Ok(5), Ok(6)],
        vec![Ok(1), Err(2), Err(3)],
        vec![Err(7)],
        vec![Ok(1), Ok(2), Err(3), Ok(4), Err(5)],
    ];
    for c in cases {
        match (c.clone().fail_fast_if_err(), c.fail_slow_if_err()) {
            (Ok(a), Ok(b)) => assert_eq!(a, b),
            (Err(a), Err(b)) => assert_eq!(a, *b.first()),
            _ => panic!("policies disagree"),
        }
    }
}

#[test]
fn deque_source_behaves_like_vec() {
    let d: VecDeque<Result<u8, u8>> = VecDeque::from(vec![Ok(1), Err(2), Ok(3), Err(4)]);
    assert_eq!(drain(d.clone().end_if_err()), vec![Ok(1), Err(2)]);
    assert_eq!(d.clone().fail_fast_if_err(), Err(2));
    assert_eq!(d.fail_slow_if_err().unwrap_err().into_vec(), vec![2, 4]);
    let d: VecDeque<Result<u8, u8>> = VecDeque::from(vec![Ok(1), Ok(3)]);
    assert_eq!(d.fail_slow_if_err().unwrap(), vec![1, 3]);
}

#[test]
fn fail_slow_over_truncated_sequence() {
    let e = mixed().end_if_err().fail_slow_if_err().unwrap_err();
    assert_eq!(e.into_vec(), vec!["x"]);
}

#[test]
fn multi_error_new_keeps_errors() {
    let m = MultiError::new(vec!["a", "b", "c"]);
    assert_eq!(m.len(), 3);
    assert_eq!(*m.first(), "a");
    let mut it = m.into_iter();
    assert_eq!(it.next(), Some("a"));
    assert_eq!(it.next(), Some("b"));
    assert_eq!(it.next(), Some("c"));
    assert_eq!(it.next(), None);
}
