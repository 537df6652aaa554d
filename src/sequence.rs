use vstd::prelude::*;

verus! {

/// The Fibonacci number at zero-based index `i`.
pub open spec fn fib(i: nat) -> nat
    decreases i,
{
    if i == 0 {
        0
    } else if i == 1 {
        1
    } else {
        fib((i - 1) as nat) + fib((i - 2) as nat)
    }
}

/// `s` holds exactly the first `n` Fibonacci numbers, in order.
pub open spec fn is_fib_prefix(s: Seq<u64>, n: nat) -> bool {
    &&& s.len() == n
    &&& forall|i: int| 0 <= i < n ==> #[trigger] s[i] as nat == fib(i as nat)
}

/// The largest count of terms that all fit in a `u64`.
pub const MAX_TERMS: u32 = 94;

/// Fibonacci numbers never decrease along the index.
pub proof fn lemma_fib_monotonic(i: nat, j: nat)
    requires
        i <= j,
    ensures
        fib(i) <= fib(j),
    decreases j - i,
{
    if i < j {
        lemma_fib_monotonic(i, (j - 1) as nat);
        if j >= 2 {
            assert(fib(j) == fib((j - 1) as nat) + fib((j - 2) as nat));
        }
    }
}

/// Runs the recurrence `k` steps forward from the pair of terms `(a, b)`.
spec fn fib_from(k: nat, a: nat, b: nat) -> nat
    decreases k,
{
    if k == 0 {
        a
    } else {
        fib_from((k - 1) as nat, b, a + b)
    }
}

/// Running the recurrence `k` steps from terms `i` and `i + 1` reaches term `i + k`.
proof fn lemma_fib_from(i: nat, k: nat)
    ensures
        fib(i + k) == fib_from(k, fib(i), fib(i + 1)),
    decreases k,
{
    if k > 0 {
        lemma_fib_from(i + 1, (k - 1) as nat);
        assert(fib(i + 2) == fib(i + 1) + fib(i));
        assert(i + 1 + (k - 1) == i + k);
    }
}

/// The last term of a `MAX_TERMS`-long sequence fits in a `u64`; the next one does not.
pub proof fn lemma_max_terms_is_tight()
    ensures
        fib((MAX_TERMS - 1) as nat) <= u64::MAX,
        fib(MAX_TERMS as nat) > u64::MAX,
{
    lemma_fib_from(0, 93);
    lemma_fib_from(0, 94);
    assert(fib(1) == 1);
    reveal_with_fuel(fib_from, 9);
    assert(fib_from(93, 0, 1) == fib_from(85, 21, 34));
    assert(fib_from(85, 21, 34) == fib_from(77, 987, 1597));
    assert(fib_from(77, 987, 1597) == fib_from(69, 46368, 75025));
    assert(fib_from(69, 46368, 75025) == fib_from(61, 2178309, 3524578));
    assert(fib_from(61, 2178309, 3524578) == fib_from(53, 102334155, 165580141));
    assert(fib_from(53, 102334155, 165580141) == fib_from(45, 4807526976, 7778742049));
    assert(fib_from(45, 4807526976, 7778742049) == fib_from(37, 225851433717, 365435296162));
    assert(fib_from(37, 225851433717, 365435296162) == fib_from(29, 10610209857723, 17167680177565));
    assert(fib_from(29, 10610209857723, 17167680177565) == fib_from(21, 498454011879264, 806515533049393));
    assert(fib_from(21, 498454011879264, 806515533049393) == fib_from(13, 23416728348467685, 37889062373143906));
    assert(fib_from(13, 23416728348467685, 37889062373143906) == fib_from(5, 1100087778366101931, 1779979416004714189));
    assert(fib_from(5, 1100087778366101931, 1779979416004714189) == fib_from(0, 12200160415121876738, 19740274219868223167));
    assert(fib_from(94, 0, 1) == fib_from(86, 21, 34));
    assert(fib_from(86, 21, 34) == fib_from(78, 987, 1597));
    assert(fib_from(78, 987, 1597) == fib_from(70, 46368, 75025));
    assert(fib_from(70, 46368, 75025) == fib_from(62, 2178309, 3524578));
    assert(fib_from(62, 2178309, 3524578) == fib_from(54, 102334155, 165580141));
    assert(fib_from(54, 102334155, 165580141) == fib_from(46, 4807526976, 7778742049));
    assert(fib_from(46, 4807526976, 7778742049) == fib_from(38, 225851433717, 365435296162));
    assert(fib_from(38, 225851433717, 365435296162) == fib_from(30, 10610209857723, 17167680177565));
    assert(fib_from(30, 10610209857723, 17167680177565) == fib_from(22, 498454011879264, 806515533049393));
    assert(fib_from(22, 498454011879264, 806515533049393) == fib_from(14, 23416728348467685, 37889062373143906));
    assert(fib_from(14, 23416728348467685, 37889062373143906) == fib_from(6, 1100087778366101931, 1779979416004714189));
    assert(fib_from(6, 1100087778366101931, 1779979416004714189) == fib_from(0, 19740274219868223167, 31940434634990099905));
}

/// Why a sequence could not be generated.
#[derive(Debug, Clone, Copy, PartialEq, Eq, Structural)]
pub enum GenerateError {
    /// A requested term does not fit in a `u64`.
    ArithmeticOverflow,
}

/// Returns the first `n` Fibonacci numbers, starting 0, 1, 1, 2, ...
///
/// Every term must fit in a `u64`, so `n` is at most `MAX_TERMS`.
pub fn fibonacci(n: u32) -> (seq: Vec<u64>)
    requires
        n <= MAX_TERMS,
    ensures
        is_fib_prefix(seq@, n as nat),
        seq@.len() == n,
        forall|i: int| 2 <= i < n ==> #[trigger] seq@[i] == seq@[i - 1] + seq@[i - 2],
{
    let mut seq: Vec<u64> = Vec::with_capacity(n as usize);
    let mut i: u32 = 0;
    while i < n
        invariant
            i <= n <= MAX_TERMS,
            is_fib_prefix(seq@, i as nat),
        decreases n - i,
    {
        let val: u64 = if i == 0 {
            0
        } else if i == 1 {
            1
        } else {
            proof {
                lemma_max_terms_is_tight();
                lemma_fib_monotonic(i as nat, (MAX_TERMS - 1) as nat);
                assert(fib(i as nat) == fib((i - 1) as nat) + fib((i - 2) as nat));
                assert(seq@[i - 1] as nat == fib((i - 1) as nat));
                assert(seq@[i - 2] as nat == fib((i - 2) as nat));
            }
            seq[(i - 1) as usize] + seq[(i - 2) as usize]
        };
        seq.push(val);
        i = i + 1;
    }
    proof {
        lemma_prefix_recurrence(seq@, n as nat);
    }
    seq
}

/// Returns the first `n` Fibonacci numbers, or `ArithmeticOverflow` when a term
/// would not fit in a `u64`, that is when `n` exceeds `MAX_TERMS`.
///
/// The count is checked before any term is computed.
pub fn try_fibonacci(n: u32) -> (r: Result<Vec<u64>, GenerateError>)
    ensures
        n <= MAX_TERMS <==> r is Ok,
        r matches Ok(seq) ==> is_fib_prefix(seq@, n as nat),
        r matches Err(e) ==> e == GenerateError::ArithmeticOverflow,
{
    if n > MAX_TERMS {
        Err(GenerateError::ArithmeticOverflow)
    } else {
        Ok(fibonacci(n))
    }
}

/// In a prefix of the Fibonacci numbers, each term from the third on is the sum
/// of the two before it.
pub proof fn lemma_prefix_recurrence(s: Seq<u64>, n: nat)
    requires
        is_fib_prefix(s, n),
    ensures
        forall|i: int| 2 <= i < n ==> #[trigger] s[i] == s[i - 1] + s[i - 2],
{
    assert forall|i: int| 2 <= i < n implies #[trigger] s[i] == s[i - 1] + s[i - 2] by {
        assert(s[i] as nat == fib(i as nat));
        assert(s[i - 1] as nat == fib((i - 1) as nat));
        assert(s[i - 2] as nat == fib((i - 2) as nat));
    }
}

/// Generating twice with one count gives one sequence: a prefix of the Fibonacci
/// numbers is determined by its length.
pub proof fn lemma_generate_deterministic(n: nat, a: Seq<u64>, b: Seq<u64>)
    requires
        is_fib_prefix(a, n),
        is_fib_prefix(b, n),
    ensures
        a == b,
{
    assert forall|i: int| 0 <= i < n implies a[i] == b[i] by {
        assert(a[i] as nat == fib(i as nat));
        assert(b[i] as nat == fib(i as nat));
    }
    assert(a =~= b);
}

} // verus!
