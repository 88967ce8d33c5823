//! The matrix workload that the user test program forks: square matrices
//! of ones, multiplied by themselves round after round, modulo a prime.

use vstd::prelude::*;

verus! {

/// The matrices are `MATRIX_N` by `MATRIX_N`.
pub const MATRIX_N: usize = 10;

/// Entries are kept modulo this prime.
pub const MATRIX_P: i32 = 10007;

/// Entry `(i, j)` of `a * b` after the first `k` terms, reduced modulo
/// `MATRIX_P` after each term, as the workload adds them up.
pub open spec fn partial_entry(a: Seq<Seq<int>>, b: Seq<Seq<int>>, i: int, j: int, k: nat) -> int
    decreases k,
{
    if k == 0 {
        0
    } else {
        (partial_entry(a, b, i, j, (k - 1) as nat) + a[i][k - 1] * b[k - 1][j]) % (MATRIX_P as int)
    }
}

/// The product of `a` and `b` modulo `MATRIX_P`.
pub open spec fn product(a: Seq<Seq<int>>, b: Seq<Seq<int>>) -> Seq<Seq<int>> {
    Seq::new(MATRIX_N as nat, |i: int| Seq::new(MATRIX_N as nat, |j: int| partial_entry(a, b, i, j, MATRIX_N as nat)))
}

/// The matrix of ones.
pub open spec fn ones() -> Seq<Seq<int>> {
    Seq::new(MATRIX_N as nat, |i: int| Seq::new(MATRIX_N as nat, |j: int| 1int))
}

/// The matrix after `t` rounds, each of which squares it.
pub open spec fn rounds(t: nat) -> Seq<Seq<int>>
    decreases t,
{
    if t == 0 {
        ones()
    } else {
        product(rounds((t - 1) as nat), rounds((t - 1) as nat))
    }
}

/// A matrix held as rows, by its entries.
pub open spec fn matrix_view(m: Seq<Vec<i32>>) -> Seq<Seq<int>> {
    Seq::new(m.len(), |i: int| Seq::new(m[i]@.len(), |j: int| m[i]@[j] as int))
}

/// `m` is `MATRIX_N` by `MATRIX_N` with entries in `0..MATRIX_P`.
pub open spec fn reduced(m: Seq<Vec<i32>>) -> bool {
    &&& m.len() == MATRIX_N
    &&& forall|i: int| 0 <= i < MATRIX_N ==> (#[trigger] m[i])@.len() == MATRIX_N
    &&& forall|i: int, j: int| 0 <= i < MATRIX_N && 0 <= j < MATRIX_N ==> 0 <= #[trigger] m[i]@[j] < MATRIX_P
}

/// The square of `a` modulo `MATRIX_P`.
fn square(a: &Vec<Vec<i32>>) -> (c: Vec<Vec<i32>>)
    requires
        reduced(a@),
    ensures
        reduced(c@),
        matrix_view(c@) == product(matrix_view(a@), matrix_view(a@)),
{
    let ghost m = matrix_view(a@);
    let mut c: Vec<Vec<i32>> = Vec::new();
    let mut i: usize = 0;
    while i < MATRIX_N
        invariant
            reduced(a@),
            m == matrix_view(a@),
            i <= MATRIX_N,
            c@.len() == i,
            forall|r: int| 0 <= r < i ==> (#[trigger] c@[r])@.len() == MATRIX_N,
            forall|r: int, j: int| 0 <= r < i && 0 <= j < MATRIX_N ==> 0 <= #[trigger] c@[r]@[j] < MATRIX_P
                && c@[r]@[j] == partial_entry(m, m, r, j, MATRIX_N as nat),
        decreases MATRIX_N - i,
    {
        let mut row: Vec<i32> = Vec::new();
        let mut j: usize = 0;
        while j < MATRIX_N
            invariant
                reduced(a@),
                m == matrix_view(a@),
                i < MATRIX_N,
                j <= MATRIX_N,
                row@.len() == j,
                forall|q: int| 0 <= q < j ==> 0 <= #[trigger] row@[q] < MATRIX_P
                    && row@[q] == partial_entry(m, m, i as int, q, MATRIX_N as nat),
            decreases MATRIX_N - j,
        {
            let mut sum: i32 = 0;
            let mut k: usize = 0;
            while k < MATRIX_N
                invariant
                    reduced(a@),
                    m == matrix_view(a@),
                    i < MATRIX_N,
                    j < MATRIX_N,
                    k <= MATRIX_N,
                    0 <= sum < MATRIX_P,
                    sum == partial_entry(m, m, i as int, j as int, k as nat),
                decreases MATRIX_N - k,
            {
                let x = a[i][k];
                let y = a[k][j];
                assert(0 <= x * y <= 10006 * 10006) by (nonlinear_arith)
                    requires
                        0 <= x < 10007,
                        0 <= y < 10007;
                proof {
                    assert(m[i as int][k as int] == x && m[k as int][j as int] == y);
                }
                sum = (sum + x * y) % MATRIX_P;
                k = k + 1;
            }
            row.push(sum);
            j = j + 1;
        }
        c.push(row);
        i = i + 1;
    }
    proof {
        assert(matrix_view(c@) =~= product(m, m)) by {
            assert forall|r: int| 0 <= r < MATRIX_N implies #[trigger] matrix_view(c@)[r] =~= product(m, m)[r] by {}
        }
    }
    c
}

/// The workload: matrices of ones squared `times` times (no round when
/// `times` is not positive), modulo `MATRIX_P`.
pub fn work(times: isize) -> (r: Vec<Vec<i32>>)
    ensures
        reduced(r@),
        matrix_view(r@) == rounds(if times > 0 { times as nat } else { 0 }),
{
    let mut a: Vec<Vec<i32>> = Vec::new();
    let mut i: usize = 0;
    while i < MATRIX_N
        invariant
            i <= MATRIX_N,
            a@.len() == i,
            forall|r: int| 0 <= r < i ==> (#[trigger] a@[r])@.len() == MATRIX_N,
            forall|r: int, j: int| 0 <= r < i && 0 <= j < MATRIX_N ==> #[trigger] a@[r]@[j] == 1,
        decreases MATRIX_N - i,
    {
        let row: Vec<i32> = vec![1; MATRIX_N];
        a.push(row);
        i = i + 1;
    }
    proof {
        assert(matrix_view(a@) =~= ones()) by {
            assert forall|r: int| 0 <= r < MATRIX_N implies #[trigger] matrix_view(a@)[r] =~= ones()[r] by {}
        }
    }
    let mut t: isize = 0;
    while t < times
        invariant
            0 <= t,
            t <= times || t == 0,
            reduced(a@),
            matrix_view(a@) == rounds(t as nat),
        decreases times - t,
    {
        a = square(&a);
        t = t + 1;
    }
    a
}

} // verus!
