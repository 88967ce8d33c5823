use rcore_kernel::matrix::{work, MATRIX_N, MATRIX_P};

fn all(m: &[Vec<i32>], v: i32) -> bool {
    m.len() == MATRIX_N && m.iter().all(|row| row.len() == MATRIX_N && row.iter().all(|x| *x == v))
}

#[test]
fn work_without_rounds_gives_ones() {
    assert!(all(&work(0), 1));
    assert!(all(&work(-5), 1));
}

#[test]
fn work_squares_modulo_prime() {
    assert!(all(&work(1), 10));
    assert!(all(&work(2), 1000));
    // 10^7 modulo 10007.
    assert!(all(&work(3), 3007));
    assert_eq!(MATRIX_P, 10007);
}

#[test]
fn work_matches_plain_computation() {
    let mut v: i64 = 1;
    for _ in 0..40 {
        v = (v * v * 10) % 10007;
    }
    assert!(all(&work(40), v as i32));
}
