use temperature_converter::fib::{
    fibonacci_iterator_fold, fibonacci_iterator_zip_recursion, fibonacci_recursion_naive,
};

#[test]
fn small_values_naive() {
    let expected: [u128; 11] = [0, 1, 1, 2, 3, 5, 8, 13, 21, 34, 55];
    for (n, want) in expected.iter().enumerate() {
        assert_eq!(fibonacci_recursion_naive(n as u8), *want);
    }
}

#[test]
fn small_values_fold() {
    let expected: [u128; 11] = [0, 1, 1, 2, 3, 5, 8, 13, 21, 34, 55];
    for (n, want) in expected.iter().enumerate() {
        assert_eq!(fibonacci_iterator_fold(n as u8), *want);
    }
}

#[test]
fn small_values_zip() {
    let expected: [u128; 11] = [0, 1, 1, 2, 3, 5, 8, 13, 21, 34, 55];
    for (n, want) in expected.iter().enumerate() {
        assert_eq!(fibonacci_iterator_zip_recursion(n as u8), *want);
    }
}

#[test]
fn implementations_agree() {
    for n in 0..=25u8 {
        let a = fibonacci_recursion_naive(n);
        let b = fibonacci_iterator_fold(n);
        let c = fibonacci_iterator_zip_recursion(n);
        assert_eq!(a, b);
        assert_eq!(b, c);
    }
}

#[test]
fn large_index_exact_values() {
    assert_eq!(fibonacci_iterator_fold(50), 12586269025);
    assert_eq!(fibonacci_iterator_zip_recursion(90), 2880067194370816120);
    assert_eq!(fibonacci_iterator_fold(186), 332825110087067562321196029789634457848);
}
