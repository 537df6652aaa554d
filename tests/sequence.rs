use fibonacci::sequence::{fibonacci, try_fibonacci, GenerateError, MAX_TERMS};

#[test]
fn zero_terms_is_empty() {
    assert_eq!(fibonacci(0), Vec::<u64>::new());
}

#[test]
fn one_term() {
    assert_eq!(fibonacci(1), vec![0]);
}

#[test]
fn two_terms() {
    assert_eq!(fibonacci(2), vec![0, 1]);
}

#[test]
fn ten_terms() {
    assert_eq!(fibonacci(10), vec![0, 1, 1, 2, 3, 5, 8, 13, 21, 34]);
}

#[test]
fn each_term_is_sum_of_previous_two() {
    let s = fibonacci(MAX_TERMS);
    for i in 2..s.len() {
        assert_eq!(s[i], s[i - 1] + s[i - 2]);
    }
}

#[test]
fn length_matches_count() {
    for n in 0..=MAX_TERMS {
        assert_eq!(fibonacci(n).len(), n as usize);
    }
}

#[test]
fn generating_twice_gives_same_sequence() {
    assert_eq!(fibonacci(30), fibonacci(30));
    assert_eq!(try_fibonacci(94), try_fibonacci(94));
}

#[test]
fn largest_count_fits() {
    assert_eq!(MAX_TERMS, 94);
    let s = try_fibonacci(94).unwrap();
    assert_eq!(s.len(), 94);
    assert_eq!(s[93], 12200160415121876738);
    assert_eq!(s[92], 7540113804746346429);
}

#[test]
fn one_past_largest_count_overflows() {
    assert_eq!(try_fibonacci(95), Err(GenerateError::ArithmeticOverflow));
}

#[test]
fn huge_count_overflows() {
    assert_eq!(try_fibonacci(u32::MAX), Err(GenerateError::ArithmeticOverflow));
}

#[test]
fn checked_matches_unchecked_within_bound() {
    assert_eq!(try_fibonacci(0), Ok(Vec::new()));
    assert_eq!(try_fibonacci(10), Ok(fibonacci(10)));
}
