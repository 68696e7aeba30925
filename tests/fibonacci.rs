use rust_lib::{compute, fibonacci, OverflowError};

const F186: u128 = 332825110087067562321196029789634457848;

#[test]
fn small_indices() {
    assert_eq!(compute(0), Ok(0));
    assert_eq!(compute(1), Ok(1));
    assert_eq!(compute(2), Ok(1));
    assert_eq!(compute(10), Ok(55));
}

#[test]
fn largest_that_fits() {
    assert_eq!(compute(186), Ok(F186));
    assert_eq!(fibonacci(186), Some(F186));
}

#[test]
fn first_that_overflows() {
    assert_eq!(compute(187), Err(OverflowError { n: 187 }));
    assert_eq!(fibonacci(187), None);
    // fib(185) + fib(186) is the first sum past u128::MAX.
    let f185 = compute(185).unwrap();
    assert_eq!(f185.checked_add(F186), None);
}

#[test]
fn largest_index() {
    assert_eq!(compute(u32::MAX), Err(OverflowError { n: u32::MAX }));
    assert_eq!(fibonacci(u32::MAX), None);
}

#[test]
fn every_index_up_to_186_is_exact() {
    let mut a: u128 = 0;
    let mut b: u128 = 1;
    for n in 0..=186u32 {
        assert_eq!(compute(n), Ok(a));
        assert_eq!(fibonacci(n), Some(a));
        let next = a.checked_add(b);
        a = b;
        b = next.unwrap_or(0);
    }
}

#[test]
fn repeated_calls_agree() {
    for n in [0u32, 1, 50, 186, 187, 1000] {
        let first = compute(n);
        let _ = compute(n + 1);
        assert_eq!(compute(n), first);
        assert_eq!(fibonacci(n), fibonacci(n));
    }
}

#[test]
fn overflow_persists() {
    for k in 187u32..400 {
        assert_eq!(compute(k), Err(OverflowError { n: k }));
        assert_eq!(compute(k + 1), Err(OverflowError { n: k + 1 }));
    }
}

#[test]
fn error_names_the_index() {
    match compute(200) {
        Err(e) => assert_eq!(e.n, 200),
        Ok(v) => panic!("unexpected value {}", v),
    }
}

#[test]
fn results_are_non_decreasing_and_bounded() {
    let mut last: u128 = 0;
    for n in 0..=186u32 {
        let v = compute(n).unwrap();
        assert!(v >= last);
        assert!(v <= u128::MAX);
        last = v;
    }
}
