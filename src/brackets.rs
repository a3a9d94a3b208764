//! Loop matching: a bracket-balance scan over the program, forward from a
//! loop-begin or backward from a loop-end.
use vstd::prelude::*;

verus! {

pub const BLOCK_BEGIN: u8 = 91;

pub const BLOCK_END: u8 = 93;

/// How a byte moves the nesting depth: +1 for a loop-begin, -1 for a
/// loop-end, 0 otherwise.
pub open spec fn delta(b: u8) -> int {
    if b == BLOCK_BEGIN {
        1
    } else if b == BLOCK_END {
        -1
    } else {
        0
    }
}

/// Loop-begins minus loop-ends in `code[a..b]`.
pub open spec fn balance(code: Seq<u8>, a: int, b: int) -> int
    decreases b - a,
{
    if b <= a {
        0
    } else {
        balance(code, a, b - 1) + delta(code[b - 1])
    }
}

/// Scanning forward from the loop-begin at `p`, having reached `k`: the
/// position just past the first `j >= k` at which the balance since `p`
/// is back to 0, or the program length if there is none.
pub open spec fn first_close(code: Seq<u8>, p: int, k: int) -> int
    decreases code.len() - k,
{
    if k >= code.len() {
        code.len() as int
    } else if balance(code, p, k + 1) == 0 {
        k + 1
    } else {
        first_close(code, p, k + 1)
    }
}

/// Scanning backward from the loop-end at `p`, having reached `k`: the
/// position just past the last `i <= k` at which the balance up to `p`
/// is back to 0, or the program length if there is none.
pub open spec fn last_open(code: Seq<u8>, p: int, k: int) -> int
    decreases k + 1,
{
    if k < 0 {
        code.len() as int
    } else if balance(code, k, p + 1) == 0 {
        k + 1
    } else {
        last_open(code, p, k - 1)
    }
}

/// Where a taken loop-begin at `p` sends the instruction pointer.
pub open spec fn forward_jump(code: Seq<u8>, p: int) -> int {
    first_close(code, p, p)
}

/// Where a taken loop-end at `p` sends the instruction pointer.
pub open spec fn backward_jump(code: Seq<u8>, p: int) -> int {
    last_open(code, p, p)
}

/// The loop-end at `j` closes the loop-begin at `p`: nesting returns to
/// the level before `p` at `j` and not earlier.
pub open spec fn closes(code: Seq<u8>, p: int, j: int) -> bool {
    &&& 0 <= p <= j < code.len()
    &&& code[p] == BLOCK_BEGIN
    &&& code[j] == BLOCK_END
    &&& balance(code, p, j + 1) == 0
    &&& forall|k: int| p <= k < j ==> #[trigger] balance(code, p, k + 1) > 0
}

proof fn lemma_first_close_bound(code: Seq<u8>, p: int, k: int)
    ensures
        first_close(code, p, k) <= code.len(),
    decreases code.len() - k,
{
    if k < code.len() && balance(code, p, k + 1) != 0 {
        lemma_first_close_bound(code, p, k + 1);
    }
}

proof fn lemma_last_open_bound(code: Seq<u8>, p: int, k: int)
    requires
        k < code.len(),
    ensures
        last_open(code, p, k) <= code.len(),
    decreases k + 1,
{
    if k >= 0 && balance(code, k, p + 1) != 0 {
        lemma_last_open_bound(code, p, k - 1);
    }
}

/// Balance read from its lower end.
pub proof fn lemma_balance_front(code: Seq<u8>, a: int, b: int)
    requires
        a < b,
    ensures
        balance(code, a, b) == delta(code[a]) + balance(code, a + 1, b),
    decreases b - a,
{
    if a + 1 < b {
        lemma_balance_front(code, a, b - 1);
    } else {
        assert(balance(code, a, a) == 0);
        assert(balance(code, a + 1, b) == 0);
    }
}

proof fn lemma_first_close_at(code: Seq<u8>, p: int, k: int, j: int)
    requires
        closes(code, p, j),
        p <= k <= j,
    ensures
        first_close(code, p, k) == j + 1,
    decreases j - k,
{
    if k < j {
        assert(balance(code, p, k + 1) > 0);
        lemma_first_close_at(code, p, k + 1, j);
    }
}

/// A loop-begin at `p` whose matching loop-end is at `j` sends the
/// instruction pointer just past `j`, whatever loops are nested between.
pub proof fn lemma_skip_to_matching_end(code: Seq<u8>, p: int, j: int)
    requires
        closes(code, p, j),
    ensures
        forward_jump(code, p) == j + 1,
{
    lemma_first_close_at(code, p, p, j);
}

/// The position just past the loop-end matching the loop-begin at `p`, or
/// the program length where no loop-end matches.
pub fn forward_target(code: &Vec<u8>, p: usize) -> (r: usize)
    requires
        p < code@.len(),
        code@[p as int] == BLOCK_BEGIN,
    ensures
        r == forward_jump(code@, p as int),
        r <= code@.len(),
{
    proof {
        lemma_first_close_bound(code@, p as int, p as int);
    }
    let mut depth: usize = 0;
    let mut i: usize = p;
    while i < code.len()
        invariant
            p <= i <= code@.len(),
            code@[p as int] == BLOCK_BEGIN,
            depth == balance(code@, p as int, i as int),
            depth <= i - p,
            i > p ==> depth >= 1,
            first_close(code@, p as int, p as int) == first_close(code@, p as int, i as int),
        decreases code@.len() - i,
    {
        let b = code[i];
        if b == BLOCK_BEGIN {
            depth = depth + 1;
        } else if b == BLOCK_END {
            depth = depth - 1;
            if depth == 0 {
                return i + 1;
            }
        }
        i = i + 1;
    }
    code.len()
}

/// The position just past the loop-begin matching the loop-end at `p`, or
/// the program length where no loop-begin matches.
pub fn backward_target(code: &Vec<u8>, p: usize) -> (r: usize)
    requires
        p < code@.len(),
        code@[p as int] == BLOCK_END,
    ensures
        r == backward_jump(code@, p as int),
        r <= code@.len(),
{
    proof {
        lemma_last_open_bound(code@, p as int, p as int);
    }
    let n = code.len();
    let mut depth: usize = 0;
    let mut i: usize = p + 1;
    while i > 0
        invariant
            n == code@.len(),
            i <= p + 1,
            p < code@.len(),
            code@[p as int] == BLOCK_END,
            depth == -balance(code@, i as int, p + 1),
            depth <= p + 1 - i,
            i <= p ==> depth >= 1,
            last_open(code@, p as int, p as int) == last_open(code@, p as int, i - 1),
        decreases i,
    {
        i = i - 1;
        proof {
            lemma_balance_front(code@, i as int, p + 1);
        }
        let b = code[i];
        if b == BLOCK_END {
            depth = depth + 1;
        } else if b == BLOCK_BEGIN {
            depth = depth - 1;
            if depth == 0 {
                return i + 1;
            }
        }
    }
    code.len()
}

} // verus!
