//! Column permutations: what they are, how they are checked, applied and undone.

use vstd::arithmetic::div_mod::lemma_fundamental_div_mod_converse;
use vstd::prelude::*;
use vstd::set_lib::{lemma_int_range, lemma_subset_equality, set_int_range};

verus! {

/// Why a permutation could not be applied or inverted.
#[derive(Clone, Copy, Debug, PartialEq, Eq, Structural)]
pub enum PermutationError {
    /// The data does not hold `rows * k` elements.
    ShapeMismatch,
    /// The permutation does not have one entry per column.
    LengthMismatch,
    /// Some entry is out of range or occurs twice.
    NotBijection,
}

/// `p` is a bijection on `[0, p.len())`: every entry is in range and none repeats.
pub open spec fn is_permutation(p: Seq<usize>) -> bool {
    &&& forall|i: int| 0 <= i < p.len() ==> (#[trigger] p[i]) < p.len()
    &&& forall|i: int, j: int| 0 <= i < j < p.len() ==> p[i] != p[j]
}

/// The permutation that leaves every column where it is.
pub open spec fn identity_seq(k: nat) -> Seq<usize> {
    Seq::new(k, |i: int| i as usize)
}

/// The permutation that lists the columns from the last to the first.
pub open spec fn reversal_seq(k: nat) -> Seq<usize> {
    Seq::new(k, |i: int| (k - 1 - i) as usize)
}

/// The position at which `p` holds the column `v`.
pub open spec fn position_of(p: Seq<usize>, v: int) -> int {
    choose|i: int| 0 <= i < p.len() && p[i] == v
}

/// The permutation that undoes `p`: entry `v` is the position of `v` in `p`.
pub open spec fn inverse_of(p: Seq<usize>) -> Seq<usize> {
    Seq::new(p.len(), |v: int| position_of(p, v) as usize)
}

/// The row-major matrix with `k` columns whose column `c` is column `perm[c]` of `data`.
pub open spec fn permute_columns<T>(data: Seq<T>, k: nat, perm: Seq<usize>) -> Seq<T> {
    Seq::new(data.len(), |x: int| data[x - x % (k as int) + perm[x % (k as int)] as int])
}

/// Position `r * k + c` lies in row `r` and column `c`.
pub proof fn lemma_row_major_index(r: int, c: int, k: int)
    requires
        0 <= r,
        0 <= c < k,
    ensures
        (r * k + c) % k == c,
        (r * k + c) / k == r,
        r * k + c - (r * k + c) % k == r * k,
{
    lemma_fundamental_div_mod_converse(r * k + c, k, r, c);
}

/// Entry `(r, c)` of a permuted matrix is entry `(r, perm[c])` of the matrix it was made from.
pub proof fn lemma_permuted_entry<T>(
    data: Seq<T>,
    rows: nat,
    k: nat,
    perm: Seq<usize>,
    r: int,
    c: int,
)
    requires
        data.len() == rows * k,
        perm.len() == k,
        0 <= r < rows,
        0 <= c < k,
    ensures
        0 <= r * k + c < data.len(),
        permute_columns(data, k, perm)[r * k + c] == data[r * k + perm[c] as int],
{
    lemma_row_major_index(r, c, k as int);
    assert(r * k + c < rows * k) by (nonlinear_arith)
        requires
            0 <= r < rows,
            0 <= c < k,
    ;
}

/// A permutation reaches every column: each `v` below the length occurs at some position.
pub proof fn lemma_permutation_onto(p: Seq<usize>, v: int)
    requires
        is_permutation(p),
        0 <= v < p.len(),
    ensures
        0 <= position_of(p, v) < p.len(),
        p[position_of(p, v)] == v,
        p.len() <= usize::MAX + 1,
{
    lemma_permutation_reaches(p, v);
    lemma_permutation_reaches(p, p.len() - 1);
    let last = position_of(p, p.len() - 1);
    assert(p[last] <= usize::MAX);
}

/// The counting argument behind `lemma_permutation_onto`: `len` distinct values below `len`
/// are all the values below `len`.
proof fn lemma_permutation_reaches(p: Seq<usize>, v: int)
    requires
        is_permutation(p),
        0 <= v < p.len(),
    ensures
        0 <= position_of(p, v) < p.len(),
        p[position_of(p, v)] == v,
{
    let values = p.map_values(|x: usize| x as int);
    assert(values.no_duplicates());
    values.unique_seq_to_set();
    let range = set_int_range(0, p.len() as int);
    lemma_int_range(0, p.len() as int);
    assert(values.to_set().subset_of(range)) by {
        assert forall|x: int| values.to_set().contains(x) implies range.contains(x) by {
            let i = choose|i: int| 0 <= i < values.len() && values[i] == x;
            assert(p[i] < p.len());
        }
    }
    vstd::set_lib::lemma_len_subset(values.to_set(), range);
    lemma_subset_equality(values.to_set(), range);
    assert(range.contains(v));
    assert(values.to_set().contains(v));
    let i = choose|i: int| 0 <= i < values.len() && values[i] == v;
    assert(0 <= i < p.len() && p[i] == v);
}

/// The inverse of a permutation is a permutation, and each undoes the other.
pub proof fn lemma_inverse_of_permutation(p: Seq<usize>)
    requires
        is_permutation(p),
    ensures
        is_permutation(inverse_of(p)),
        inverse_of(p).len() == p.len(),
        forall|i: int| 0 <= i < p.len() ==> inverse_of(p)[#[trigger] p[i] as int] == i,
        forall|v: int| 0 <= v < p.len() ==> p[#[trigger] inverse_of(p)[v] as int] == v,
{
    let inv = inverse_of(p);
    assert forall|v: int| 0 <= v < p.len() implies (#[trigger] inv[v]) < p.len() && p[inv[v] as int]
        == v by {
        lemma_permutation_onto(p, v);
        assert(inv[v] == position_of(p, v));
    }
    assert forall|i: int| 0 <= i < p.len() implies inv[#[trigger] p[i] as int] == i by {
        let v = p[i] as int;
        assert(p[inv[v] as int] == v);
    }
    assert forall|a: int, b: int| 0 <= a < b < inv.len() implies inv[a] != inv[b] by {
        assert(p[inv[a] as int] == a);
        assert(p[inv[b] as int] == b);
    }
}

/// Round trip: permuting the columns by `p` and then by the inverse of `p` gives the matrix back.
pub proof fn lemma_permute_then_inverse<T>(data: Seq<T>, rows: nat, k: nat, p: Seq<usize>)
    requires
        data.len() == rows * k,
        p.len() == k,
        is_permutation(p),
    ensures
        permute_columns(permute_columns(data, k, p), k, inverse_of(p)) == data,
{
    lemma_inverse_of_permutation(p);
    let inv = inverse_of(p);
    let once = permute_columns(data, k, p);
    let twice = permute_columns(once, k, inv);
    assert forall|x: int| 0 <= x < data.len() implies twice[x] == data[x] by {
        assert(k > 0) by (nonlinear_arith)
            requires
                0 <= x < rows * k,
        ;
        let c = x % (k as int);
        let r = x / (k as int);
        vstd::arithmetic::div_mod::lemma_fundamental_div_mod(x, k as int);
        assert(x == r * k + c) by (nonlinear_arith)
            requires
                x == (k as int) * r + c,
        ;
        assert(0 <= r) by (nonlinear_arith)
            requires
                x == r * k + c,
                0 <= x,
                0 <= c < k,
                k > 0,
        ;
        assert(r < rows) by (nonlinear_arith)
            requires
                x == r * k + c,
                x < rows * k,
                0 <= c,
                k > 0,
        ;
        let y = r * k + inv[c] as int;
        lemma_permuted_entry(once, rows, k, inv, r, c);
        lemma_permuted_entry(data, rows, k, p, r, inv[c] as int);
    }
    assert(twice =~= data);
}

/// Column `a` goes before column `b`: the one with the larger key first, and of two with
/// the same key the one with the lower index.
pub open spec fn ranks_before(keys: Seq<u32>, a: int, b: int) -> bool {
    keys[a] > keys[b] || (keys[a] == keys[b] && a < b)
}

/// `p` lists the columns `lo..hi`, each once, every column ahead of all it goes before.
pub open spec fn is_ranking(keys: Seq<u32>, p: Seq<usize>, lo: int, hi: int) -> bool {
    &&& p.len() == hi - lo
    &&& forall|i: int| 0 <= i < p.len() ==> lo <= #[trigger] p[i] < hi
    &&& forall|i: int, j: int|
        0 <= i < j < p.len() ==> ranks_before(keys, #[trigger] p[i] as int, #[trigger] p[j] as int)
}

/// `p` orders all columns by descending key, columns with equal keys by ascending index.
pub open spec fn is_energy_order(keys: Seq<u32>, p: Seq<usize>) -> bool {
    is_ranking(keys, p, 0, keys.len() as int)
}

/// An energy order is a permutation of the columns.
pub proof fn lemma_energy_order_is_permutation(keys: Seq<u32>, p: Seq<usize>)
    requires
        is_energy_order(keys, p),
    ensures
        p.len() == keys.len(),
        is_permutation(p),
{
}

/// The keys fix the energy order: two of them for the same keys are the same sequence.
pub proof fn lemma_energy_order_unique(keys: Seq<u32>, p: Seq<usize>, q: Seq<usize>)
    requires
        is_energy_order(keys, p),
        is_energy_order(keys, q),
    ensures
        p == q,
{
    lemma_orders_agree(keys, p, q, p.len() as int);
    assert(p =~= q);
}

/// Two energy orders for the same keys agree on their first `n` entries.
proof fn lemma_orders_agree(keys: Seq<u32>, p: Seq<usize>, q: Seq<usize>, n: int)
    requires
        is_energy_order(keys, p),
        is_energy_order(keys, q),
        0 <= n <= p.len(),
    ensures
        forall|i: int| 0 <= i < n ==> p[i] == q[i],
    decreases n,
{
    if n > 0 {
        lemma_orders_agree(keys, p, q, n - 1);
        let a = p[n - 1] as int;
        let b = q[n - 1] as int;
        if a != b {
            lemma_permutation_onto(q, a);
            lemma_permutation_onto(p, b);
            let ja = position_of(q, a);
            let jb = position_of(p, b);
            if ja < n - 1 {
                assert(p[ja] == q[ja]);
                assert(p[ja] != p[n - 1]);
            }
            if jb < n - 1 {
                assert(q[jb] == p[jb]);
                assert(q[jb] != q[n - 1]);
            }
            assert(ranks_before(keys, q[n - 1] as int, q[ja] as int));
            assert(ranks_before(keys, p[n - 1] as int, p[jb] as int));
        }
    }
}

/// The keys fix the ranking of any range of columns as well.
pub proof fn lemma_ranking_unique(keys: Seq<u32>, p: Seq<usize>, q: Seq<usize>, lo: int, hi: int)
    requires
        0 <= lo <= hi <= keys.len(),
        is_ranking(keys, p, lo, hi),
        is_ranking(keys, q, lo, hi),
    ensures
        p == q,
{
    let within = keys.subrange(lo, hi);
    let shifted_p = Seq::new(p.len(), |i: int| (p[i] - lo) as usize);
    let shifted_q = Seq::new(q.len(), |i: int| (q[i] - lo) as usize);
    assert forall|i: int, j: int| 0 <= i < j < shifted_p.len() implies ranks_before(
        within,
        #[trigger] shifted_p[i] as int,
        #[trigger] shifted_p[j] as int,
    ) by {
        assert(ranks_before(keys, p[i] as int, p[j] as int));
    }
    assert forall|i: int, j: int| 0 <= i < j < shifted_q.len() implies ranks_before(
        within,
        #[trigger] shifted_q[i] as int,
        #[trigger] shifted_q[j] as int,
    ) by {
        assert(ranks_before(keys, q[i] as int, q[j] as int));
    }
    lemma_energy_order_unique(within, shifted_p, shifted_q);
    assert forall|i: int| 0 <= i < p.len() implies p[i] == q[i] by {
        assert(shifted_p[i] == shifted_q[i]);
    }
    assert(p =~= q);
}

/// The identity permutation leaves a matrix as it is.
pub proof fn lemma_identity_keeps_data<T>(data: Seq<T>, rows: nat, k: nat)
    requires
        data.len() == rows * k,
        k <= usize::MAX + 1,
    ensures
        permute_columns(data, k, identity_seq(k)) == data,
{
    let same = permute_columns(data, k, identity_seq(k));
    assert forall|x: int| 0 <= x < data.len() implies same[x] == data[x] by {
        assert(k > 0) by (nonlinear_arith)
            requires
                0 <= x < rows * k,
        ;
        vstd::arithmetic::div_mod::lemma_mod_bound(x, k as int);
    }
    assert(same =~= data);
}

/// Where the keys strictly decrease from column to column, the energy order is the identity.
pub proof fn lemma_decreasing_energy_gives_identity(keys: Seq<u32>, p: Seq<usize>)
    requires
        forall|i: int, j: int| 0 <= i < j < keys.len() ==> keys[i] > keys[j],
        is_energy_order(keys, p),
    ensures
        p == identity_seq(keys.len()),
{
    if keys.len() > 0 {
        lemma_permutation_onto(p, 0);
    }
    let id = identity_seq(keys.len());
    assert(is_energy_order(keys, id));
    lemma_energy_order_unique(keys, p, id);
}

/// Where the keys strictly increase from column to column, the energy order is the reversal.
pub proof fn lemma_increasing_energy_gives_reversal(keys: Seq<u32>, p: Seq<usize>)
    requires
        forall|i: int, j: int| 0 <= i < j < keys.len() ==> keys[i] < keys[j],
        is_energy_order(keys, p),
    ensures
        p == reversal_seq(keys.len()),
{
    if keys.len() > 0 {
        lemma_permutation_onto(p, 0);
    }
    let rev = reversal_seq(keys.len());
    assert(is_energy_order(keys, rev));
    lemma_energy_order_unique(keys, p, rev);
}

/// Returns the identity permutation on `k` columns.
pub fn identity_permutation(k: usize) -> (p: Vec<usize>)
    ensures
        p@ == identity_seq(k as nat),
        is_permutation(p@),
{
    let mut p: Vec<usize> = Vec::new();
    let mut i: usize = 0;
    while i < k
        invariant
            i <= k,
            p@ == identity_seq(i as nat),
        decreases k - i,
    {
        p.push(i);
        i += 1;
        assert(p@ =~= identity_seq(i as nat));
    }
    p
}

/// Tells whether `perm` is a bijection on `[0, k)`.
pub fn is_valid_permutation(perm: &[usize], k: usize) -> (valid: bool)
    ensures
        valid == (perm@.len() == k && is_permutation(perm@)),
{
    if perm.len() != k {
        return false;
    }
    let mut seen: Vec<bool> = Vec::new();
    let mut n: usize = 0;
    while n < k
        invariant
            n <= k,
            seen@.len() == n,
            forall|v: int| 0 <= v < n ==> !seen@[v],
        decreases k - n,
    {
        seen.push(false);
        n += 1;
    }
    let ghost mut holder: Seq<int> = Seq::new(k as nat, |v: int| 0int);
    let mut i: usize = 0;
    while i < k
        invariant
            i <= k,
            perm@.len() == k,
            seen@.len() == k,
            holder.len() == k,
            forall|a: int| 0 <= a < i ==> (#[trigger] perm@[a]) < k,
            forall|a: int, b: int| 0 <= a < b < i ==> perm@[a] != perm@[b],
            forall|v: int|
                0 <= v < k && seen@[v] ==> 0 <= #[trigger] holder[v] < i && perm@[holder[v]] == v,
            forall|a: int| 0 <= a < i ==> seen@[#[trigger] perm@[a] as int],
        decreases k - i,
    {
        let v = perm[i];
        if v >= k {
            return false;
        }
        if seen[v] {
            proof {
                let a = holder[v as int];
                assert(perm@[a] == perm@[i as int] && a < i);
            }
            return false;
        }
        seen.set(v, true);
        proof {
            holder = holder.update(v as int, i as int);
        }
        i += 1;
    }
    true
}

/// Applies a column permutation: entry `(r, c)` of the result is entry `(r, perm[c])` of
/// `data`.  The input is left as it is.  The shape and the permutation are checked first.
pub fn apply_column_permutation<T: Copy>(rows: usize, k: usize, data: &[T], perm: &[usize]) -> (r:
    Result<Vec<T>, PermutationError>)
    ensures
        r matches Ok(out) ==> out@ == permute_columns(data@, k as nat, perm@),
        r is Ok <==> data@.len() == rows * k && perm@.len() == k && is_permutation(perm@),
        r == Err::<Vec<T>, _>(PermutationError::ShapeMismatch) <==> data@.len() != rows * k,
        r == Err::<Vec<T>, _>(PermutationError::LengthMismatch) <==> data@.len() == rows * k
            && perm@.len() != k,
        r == Err::<Vec<T>, _>(PermutationError::NotBijection) <==> data@.len() == rows * k
            && perm@.len() == k && !is_permutation(perm@),
{
    let len = data.len();
    match rows.checked_mul(k) {
        Some(total) => {
            if len != total {
                return Err(PermutationError::ShapeMismatch);
            }
        },
        None => {
            return Err(PermutationError::ShapeMismatch);
        },
    }
    if perm.len() != k {
        return Err(PermutationError::LengthMismatch);
    }
    if !is_valid_permutation(perm, k) {
        return Err(PermutationError::NotBijection);
    }
    let mut out: Vec<T> = Vec::with_capacity(data.len());
    let mut r: usize = 0;
    let mut base: usize = 0;
    while r < rows
        invariant
            r <= rows,
            base == r * k,
            data@.len() == rows * k,
            len == data@.len(),
            perm@.len() == k,
            is_permutation(perm@),
            out@.len() == base,
            forall|x: int| 0 <= x < base ==> out@[x] == permute_columns(data@, k as nat, perm@)[x],
        decreases rows - r,
    {
        assert(base + k <= rows * k) by (nonlinear_arith)
            requires
                base == r * k,
                r < rows,
        ;
        let mut c: usize = 0;
        while c < k
            invariant
                c <= k,
                r < rows,
                base == r * k,
                base + k <= rows * k,
                data@.len() == rows * k,
                len == data@.len(),
                perm@.len() == k,
                is_permutation(perm@),
                out@.len() == base + c,
                forall|x: int|
                    0 <= x < base + c ==> out@[x] == permute_columns(data@, k as nat, perm@)[x],
            decreases k - c,
        {
            let src = perm[c];
            assert(perm@[c as int] < k);
            proof {
                lemma_row_major_index(r as int, c as int, k as int);
            }
            out.push(data[base + src]);
            c += 1;
        }
        base += k;
        r += 1;
        assert(base == r * k) by (nonlinear_arith)
            requires
                base == (r - 1) * k + k,
        ;
    }
    assert(out@ =~= permute_columns(data@, k as nat, perm@));
    Ok(out)
}

/// Returns the permutation that undoes `perm`, or `NotBijection` where `perm` is none.
pub fn invert_permutation(perm: &[usize]) -> (r: Result<Vec<usize>, PermutationError>)
    ensures
        r is Ok <==> is_permutation(perm@),
        r matches Ok(inv) ==> inv@ == inverse_of(perm@) && is_permutation(inv@),
        r matches Err(e) ==> e == PermutationError::NotBijection,
{
    let k = perm.len();
    if !is_valid_permutation(perm, k) {
        return Err(PermutationError::NotBijection);
    }
    let mut inv: Vec<usize> = Vec::new();
    let mut n: usize = 0;
    while n < k
        invariant
            n <= k,
            inv@.len() == n,
        decreases k - n,
    {
        inv.push(0);
        n += 1;
    }
    let mut i: usize = 0;
    while i < k
        invariant
            i <= k,
            k == perm@.len(),
            inv@.len() == k,
            is_permutation(perm@),
            forall|a: int| 0 <= a < i ==> inv@[#[trigger] perm@[a] as int] == a,
        decreases k - i,
    {
        let v = perm[i];
        assert(perm@[i as int] < k);
        inv.set(v, i);
        i += 1;
    }
    proof {
        lemma_inverse_of_permutation(perm@);
        assert forall|v: int| 0 <= v < k implies inv@[v] == inverse_of(perm@)[v] by {
            let a = inverse_of(perm@)[v] as int;
            assert(perm@[a] == v);
            assert(inv@[perm@[a] as int] == a);
        }
        assert(inv@ =~= inverse_of(perm@));
    }
    Ok(inv)
}

/// Tells whether column `a` goes before column `b`.
fn goes_first(keys: &[u32], a: usize, b: usize) -> (first: bool)
    requires
        a < keys@.len(),
        b < keys@.len(),
    ensures
        first == ranks_before(keys@, a as int, b as int),
{
    keys[a] > keys[b] || (keys[a] == keys[b] && a < b)
}

/// Merges the ranking of `lo..mid` with that of `mid..hi`.
fn merge_rankings(
    keys: &[u32],
    left: &Vec<usize>,
    right: &Vec<usize>,
    Ghost(lo): Ghost<int>,
    Ghost(mid): Ghost<int>,
    Ghost(hi): Ghost<int>,
) -> (out: Vec<usize>)
    requires
        0 <= lo <= mid <= hi <= keys@.len(),
        is_ranking(keys@, left@, lo, mid),
        is_ranking(keys@, right@, mid, hi),
    ensures
        is_ranking(keys@, out@, lo, hi),
{
    let mut out: Vec<usize> = Vec::new();
    let mut i: usize = 0;
    let mut j: usize = 0;
    while i < left.len() || j < right.len()
        invariant
            0 <= lo <= mid <= hi <= keys@.len(),
            is_ranking(keys@, left@, lo, mid),
            is_ranking(keys@, right@, mid, hi),
            i <= left@.len(),
            j <= right@.len(),
            out@.len() == i + j,
            forall|x: int| 0 <= x < out@.len() ==> lo <= #[trigger] out@[x] < hi,
            forall|x: int, y: int|
                0 <= x < y < out@.len() ==> ranks_before(
                    keys@,
                    #[trigger] out@[x] as int,
                    #[trigger] out@[y] as int,
                ),
            forall|x: int, a: int|
                0 <= x < out@.len() && i <= a < left@.len() ==> ranks_before(
                    keys@,
                    #[trigger] out@[x] as int,
                    #[trigger] left@[a] as int,
                ),
            forall|x: int, b: int|
                0 <= x < out@.len() && j <= b < right@.len() ==> ranks_before(
                    keys@,
                    #[trigger] out@[x] as int,
                    #[trigger] right@[b] as int,
                ),
        decreases left@.len() - i + right@.len() - j,
    {
        let from_left = if j >= right.len() {
            true
        } else if i >= left.len() {
            false
        } else {
            goes_first(keys, left[i], right[j])
        };
        let ghost before = out@;
        if from_left {
            let e = left[i];
            out.push(e);
            i += 1;
            assert forall|x: int, b: int|
                0 <= x < out@.len() && j <= b < right@.len() implies ranks_before(
                keys@,
                #[trigger] out@[x] as int,
                #[trigger] right@[b] as int,
            ) by {
                if x == before.len() {
                    assert(ranks_before(keys@, e as int, right@[j as int] as int));
                    if b > j {
                        assert(ranks_before(keys@, right@[j as int] as int, right@[b] as int));
                    }
                } else {
                    assert(out@[x] == before[x]);
                }
            }
            assert forall|x: int, y: int| 0 <= x < y < out@.len() implies ranks_before(
                keys@,
                #[trigger] out@[x] as int,
                #[trigger] out@[y] as int,
            ) by {
                assert(out@[x] == before[x]);
                if y < before.len() {
                    assert(out@[y] == before[y]);
                } else {
                    assert(out@[y] == left@[i - 1]);
                }
            }
            assert forall|x: int, a: int|
                0 <= x < out@.len() && i <= a < left@.len() implies ranks_before(
                keys@,
                #[trigger] out@[x] as int,
                #[trigger] left@[a] as int,
            ) by {
                if x == before.len() {
                    assert(out@[x] == left@[i - 1]);
                } else {
                    assert(out@[x] == before[x]);
                }
            }
        } else {
            let e = right[j];
            out.push(e);
            j += 1;
            assert forall|x: int, a: int|
                0 <= x < out@.len() && i <= a < left@.len() implies ranks_before(
                keys@,
                #[trigger] out@[x] as int,
                #[trigger] left@[a] as int,
            ) by {
                if x == before.len() {
                    assert(left@[i as int] < mid);
                    assert(mid <= right@[j - 1]);
                    assert(ranks_before(keys@, e as int, left@[i as int] as int));
                    if a > i {
                        assert(ranks_before(keys@, left@[i as int] as int, left@[a] as int));
                    }
                } else {
                    assert(out@[x] == before[x]);
                }
            }
            assert forall|x: int, y: int| 0 <= x < y < out@.len() implies ranks_before(
                keys@,
                #[trigger] out@[x] as int,
                #[trigger] out@[y] as int,
            ) by {
                assert(out@[x] == before[x]);
                if y < before.len() {
                    assert(out@[y] == before[y]);
                } else {
                    assert(out@[y] == right@[j - 1]);
                }
            }
            assert forall|x: int, b: int|
                0 <= x < out@.len() && j <= b < right@.len() implies ranks_before(
                keys@,
                #[trigger] out@[x] as int,
                #[trigger] right@[b] as int,
            ) by {
                if x == before.len() {
                    assert(out@[x] == right@[j - 1]);
                } else {
                    assert(out@[x] == before[x]);
                }
            }
        }
    }
    out
}

/// Ranks the columns `lo..hi` by descending key, equal keys by ascending index.
pub(crate) fn rank_columns(keys: &[u32], lo: usize, hi: usize) -> (p: Vec<usize>)
    requires
        lo <= hi <= keys@.len(),
    ensures
        is_ranking(keys@, p@, lo as int, hi as int),
    decreases hi - lo,
{
    if hi - lo == 0 {
        Vec::new()
    } else if hi - lo == 1 {
        let mut p: Vec<usize> = Vec::new();
        p.push(lo);
        p
    } else {
        let mid = lo + (hi - lo) / 2;
        let left = rank_columns(keys, lo, mid);
        let right = rank_columns(keys, mid, hi);
        merge_rankings(keys, &left, &right, Ghost(lo as int), Ghost(mid as int), Ghost(hi as int))
    }
}

/// Orders the columns by descending energy.  `norms[c]` is the order key of column `c`;
/// columns with equal keys keep their ascending order.
pub fn build_column_permutation(norms: &[u32]) -> (perm: Vec<usize>)
    ensures
        is_energy_order(norms@, perm@),
        perm@.len() == norms@.len(),
        is_permutation(perm@),
{
    rank_columns(norms, 0, norms.len())
}

} // verus!
