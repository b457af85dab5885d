//! The strategy that orders columns by pivoted partial factorization.
//!
//! The factorization itself is arithmetic on the matrix entries and is done by the caller,
//! who keeps a working copy of the matrix and the squared norms of its columns.  What is
//! decided here is everything else: whether to factorize at all, how many columns to pivot,
//! which column to swap into place at each step, whether the step reflects, and where the
//! columns that were never pivoted go at the end.  The caller reports the current norms as
//! order keys before each step, gets the swap to perform, and reflects the remaining
//! columns.

use super::{is_energy_ordered, order_by_energy, Permuted, QuantizationStrategy, StrategyError};
use crate::utils::permutation::{
    apply_column_permutation, identity_permutation, identity_seq, is_permutation, is_ranking,
    lemma_ranking_unique, permute_columns, rank_columns, ranks_before,
};
use vstd::prelude::*;

verus! {

/// Below this many rows or columns the strategy orders by energy and does not factorize.
pub const MIN_DIMENSION: usize = 32;

/// How many columns are pivoted in a matrix of `k` columns, before the row count caps it:
/// all of them up to 64 columns, then three quarters, a half, a third, a quarter, and beyond
/// 2048 columns an eighth, kept between 256 and 512.
pub open spec fn step_budget(k: nat) -> nat {
    if k <= 64 {
        k
    } else if k <= 256 {
        k * 3 / 4
    } else if k <= 512 {
        k / 2
    } else if k <= 1024 {
        k / 3
    } else if k <= 2048 {
        k / 4
    } else if k / 8 < 256 {
        256
    } else if k / 8 > 512 {
        512
    } else {
        k / 8
    }
}

/// How many columns are pivoted in a `rows * k` matrix: the budget of `k`, and no more than
/// there are rows.
pub open spec fn pivot_steps(rows: nat, k: nat) -> nat {
    if step_budget(k) <= rows {
        step_budget(k)
    } else {
        rows
    }
}

/// The transposition of the columns `a` and `b` among `k` columns.
pub open spec fn transposition(k: nat, a: int, b: int) -> Seq<usize> {
    Seq::new(
        k,
        |c: int|
            if c == a {
                b as usize
            } else if c == b {
                a as usize
            } else {
                c as usize
            },
    )
}

/// `p` with the entries at `a` and `b` exchanged.
pub open spec fn exchanged(p: Seq<usize>, a: int, b: int) -> Seq<usize> {
    p.update(a, p[b]).update(b, p[a])
}

/// Position `j` is the pivot after `from`: the first of the positions from `from` on whose
/// key is the largest among them.
pub open spec fn is_pivot(norms: Seq<u32>, from: int, j: int) -> bool {
    &&& from <= j < norms.len()
    &&& forall|i: int| from <= i < norms.len() && i != j ==> #[trigger] ranks_before(norms, j, i)
}

/// `result` keeps the first `steps` entries of `order` and lists the others by descending
/// key of the position they stood at, equal keys by ascending position.
pub open spec fn is_pivot_order(
    order: Seq<usize>,
    norms: Seq<u32>,
    steps: int,
    result: Seq<usize>,
) -> bool {
    &&& result.len() == order.len()
    &&& forall|i: int| 0 <= i < steps ==> result[i] == order[i]
    &&& exists|ranking: Seq<usize>|
        is_tail_by_ranking(order, norms, steps, result, ranking)
}

/// `ranking` ranks the positions from `steps` on, and the tail of `result` lists the entries
/// of `order` in that ranking.
pub open spec fn is_tail_by_ranking(
    order: Seq<usize>,
    norms: Seq<u32>,
    steps: int,
    result: Seq<usize>,
    ranking: Seq<usize>,
) -> bool {
    &&& is_ranking(norms, ranking, steps, order.len() as int)
    &&& forall|i: int| steps <= i < order.len() ==> result[i] == order[ranking[i - steps] as int]
}

/// The state of one factorization, as contracts see it.
pub struct PivotView {
    pub rows: nat,
    pub k: nat,
    /// How many columns are pivoted in all.
    pub steps: nat,
    /// How many have been pivoted.
    pub step: nat,
    /// Which column of the matrix stands at each position of the working copy.
    pub order: Seq<usize>,
    /// The columns that were never pivoted have been put in their final order.
    pub complete: bool,
}

/// One factorization in progress.
pub struct PivotSession {
    rows: usize,
    k: usize,
    steps: usize,
    step: usize,
    order: Vec<usize>,
    complete: bool,
}

impl View for PivotSession {
    type V = PivotView;

    closed spec fn view(&self) -> PivotView {
        PivotView {
            rows: self.rows as nat,
            k: self.k as nat,
            steps: self.steps as nat,
            step: self.step as nat,
            order: self.order@,
            complete: self.complete,
        }
    }
}

impl PivotSession {
    #[verifier::type_invariant]
    spec fn well_formed(self) -> bool {
        &&& self.rows >= MIN_DIMENSION
        &&& self.k >= MIN_DIMENSION
        &&& self.steps == pivot_steps(self.rows as nat, self.k as nat)
        &&& self.step <= self.steps
        &&& self.complete ==> self.step == self.steps
        &&& self.order@.len() == self.k
        &&& is_permutation(self.order@)
    }
}

/// Returns how many columns are pivoted in a matrix of `k` columns, before the row count
/// caps it.
pub fn qr_step_budget(k: usize) -> (steps: usize)
    ensures
        steps == step_budget(k as nat),
        steps <= k,
{
    if k <= 64 {
        k
    } else if k <= 256 {
        k * 3 / 4
    } else if k <= 512 {
        k / 2
    } else if k <= 1024 {
        k / 3
    } else if k <= 2048 {
        k / 4
    } else if k / 8 > 512 {
        512
    } else {
        k / 8
    }
}

/// Returns the position from `from` on that holds the largest key, the first of them where
/// several do.
pub fn select_pivot(norms: &[u32], from: usize) -> (pivot: usize)
    requires
        from < norms@.len(),
    ensures
        is_pivot(norms@, from as int, pivot as int),
{
    let n = norms.len();
    let mut best: usize = from;
    let mut j: usize = from + 1;
    while j < n
        invariant
            n == norms@.len(),
            from <= best < j <= norms@.len(),
            forall|i: int|
                from <= i < j && i != best ==> #[trigger] ranks_before(norms@, best as int, i),
        decreases norms@.len() - j,
    {
        if norms[j] > norms[best] {
            assert forall|i: int| from <= i < j + 1 && i != j implies #[trigger] ranks_before(
                norms@,
                j as int,
                i,
            ) by {
                if i != best {
                    assert(ranks_before(norms@, best as int, i));
                }
            }
            best = j;
        }
        j += 1;
    }
    best
}

/// The strategy that pivots columns during a partial factorization.
pub struct QRPivotStrategy {
    regularization: u32,
    session: Option<PivotSession>,
}

impl QRPivotStrategy {
    /// `regularization` is the order key of the norm below which a pivot column counts as
    /// zero and is not reflected.
    pub fn new(regularization: u32) -> (s: Self)
        ensures
            s.regularization_key() == regularization,
            s.session() is None,
    {
        Self { regularization, session: None }
    }

    pub closed spec fn regularization_key(&self) -> u32 {
        self.regularization
    }

    /// The factorization in progress, if there is one.
    pub closed spec fn session(&self) -> Option<PivotView> {
        match self.session {
            Some(s) => Some(s@),
            None => None,
        }
    }

    /// The order key of the norm below which a pivot column is not reflected.
    pub fn regularization(&self) -> (key: u32)
        ensures
            key == self.regularization_key(),
    {
        self.regularization
    }

    /// Decides whether a step reflects: it does unless the norm is below the threshold.
    /// `norm` is the order key of the pivot column's norm; a step that does not reflect
    /// still counts.  Norms and the threshold are never negative, so that their keys compare
    /// as they do.
    pub fn reflects(&self, norm: u32) -> (r: bool)
        ensures
            r == (norm >= self.regularization_key()),
    {
        norm >= self.regularization
    }

    /// Starts the factorization of a `rows * k` matrix, unless one of the two is below
    /// `MIN_DIMENSION`: then there is none, and `apply_permutation` orders by energy.
    pub fn begin(&mut self, rows: usize, k: usize) -> (started: bool)
        ensures
            started == (rows >= MIN_DIMENSION && k >= MIN_DIMENSION),
            final(self).regularization_key() == old(self).regularization_key(),
            final(self).session() == if started {
                Some(
                    PivotView {
                        rows: rows as nat,
                        k: k as nat,
                        steps: pivot_steps(rows as nat, k as nat),
                        step: 0,
                        order: identity_seq(k as nat),
                        complete: false,
                    },
                )
            } else {
                None
            },
    {
        if rows < MIN_DIMENSION || k < MIN_DIMENSION {
            self.session = None;
            return false;
        }
        let budget = qr_step_budget(k);
        let steps = if budget <= rows {
            budget
        } else {
            rows
        };
        let order = identity_permutation(k);
        self.session = Some(PivotSession { rows, k, steps, step: 0, order, complete: false });
        true
    }

    /// Gives up the factorization in progress: `apply_permutation` then orders by energy.
    pub fn abandon(&mut self)
        ensures
            final(self).regularization_key() == old(self).regularization_key(),
            final(self).session() is None,
    {
        self.session = None;
    }

    /// Whether `apply_permutation` reads the energies for a `rows * k` matrix: it does
    /// unless a factorization of such a matrix is complete.
    pub fn reads_energies(&self, rows: usize, k: usize) -> (reads: bool)
        ensures
            reads == !(self.session() matches Some(s) && s.complete && s.rows == rows && s.k == k),
    {
        match &self.session {
            Some(s) => !(s.complete && s.rows == rows && s.k == k),
            None => true,
        }
    }

    /// Decides the next step.  `norms[j]` is the order key of the squared norm that the
    /// column at position `j` of the working copy has left.
    ///
    /// `Some((s, j))`: step `s` pivots on position `j`.  The caller exchanges the columns
    /// and the norms at `s` and `j`, and reflects the columns after `s`.  `None`: there is
    /// nothing more to do.  With the steps all done, the call that returns `None` puts the
    /// columns that were never pivoted in their final order.  With one key too many or too
    /// few, it gives the factorization up.
    pub fn next_pivot(&mut self, norms: &[u32]) -> (swap: Option<(usize, usize)>)
        ensures
            final(self).regularization_key() == old(self).regularization_key(),
            is_pivot_step(old(self).session(), norms@, swap, final(self).session()),
            final(self).session() matches Some(t) ==> t.order.len() == t.k && is_permutation(
                t.order,
            ),
    {
        let session = match self.session.take() {
            Some(s) => s,
            None => {
                return None;
            },
        };
        proof {
            use_type_invariant(&session);
        }
        let PivotSession { rows, k, steps, step, order, complete } = session;
        if norms.len() != k {
            return None;
        }
        if complete {
            self.session = Some(PivotSession { rows, k, steps, step, order, complete });
            return None;
        }
        let mut order = order;
        if step < steps {
            let pivot = select_pivot(norms, step);
            let ghost before = order@;
            let at_step = order[step];
            let at_pivot = order[pivot];
            order.set(step, at_pivot);
            order.set(pivot, at_step);
            assert(order@ =~= exchanged(before, step as int, pivot as int));
            self.session = Some(
                PivotSession { rows, k, steps, step: step + 1, order, complete: false },
            );
            Some((step, pivot))
        } else {
            let ranking = rank_columns(norms, steps, k);
            let mut result: Vec<usize> = Vec::with_capacity(k);
            let mut i: usize = 0;
            while i < k
                invariant
                    i <= k,
                    steps <= k,
                    order@.len() == k,
                    is_permutation(order@),
                    is_ranking(norms@, ranking@, steps as int, k as int),
                    result@.len() == i,
                    forall|x: int| 0 <= x < i && x < steps ==> result@[x] == order@[x],
                    forall|x: int|
                        steps <= x < i ==> result@[x] == order@[ranking@[x - steps] as int],
                decreases k - i,
            {
                if i < steps {
                    result.push(order[i]);
                } else {
                    let from = ranking[i - steps];
                    assert(steps <= ranking@[i - steps] < k);
                    result.push(order[from]);
                }
                i += 1;
            }
            proof {
                assert(is_tail_by_ranking(order@, norms@, steps as int, result@, ranking@));
                lemma_pivot_order_is_permutation(order@, norms@, steps as int, result@);
            }
            self.session = Some(
                PivotSession { rows, k, steps, step, order: result, complete: true },
            );
            None
        }
    }

    /// Exchanges the columns `col1` and `col2` of the `rows * k` matrix `a`.
    pub fn swap_columns<T: Copy>(a: &mut Vec<T>, rows: usize, k: usize, col1: usize, col2: usize)
        requires
            old(a)@.len() == rows * k,
            col1 < k,
            col2 < k,
        ensures
            final(a)@ == permute_columns(
                old(a)@,
                k as nat,
                transposition(k as nat, col1 as int, col2 as int),
            ),
    {
        let ghost target = permute_columns(
            a@,
            k as nat,
            transposition(k as nat, col1 as int, col2 as int),
        );
        if col1 == col2 {
            assert forall|x: int| 0 <= x < a@.len() implies a@[x] == target[x] by {
                vstd::arithmetic::div_mod::lemma_mod_bound(x, k as int);
            }
            assert(a@ =~= target);
            return ;
        }
        let len = a.len();
        let mut r: usize = 0;
        let mut base: usize = 0;
        while r < rows
            invariant
                r <= rows,
                base == r * k,
                col1 < k,
                col2 < k,
                col1 != col2,
                len == rows * k,
                a@.len() == len,
                old(a)@.len() == len,
                target == permute_columns(
                    old(a)@,
                    k as nat,
                    transposition(k as nat, col1 as int, col2 as int),
                ),
                forall|x: int| 0 <= x < base ==> a@[x] == target[x],
                forall|x: int| base <= x < len ==> a@[x] == old(a)@[x],
            decreases rows - r,
        {
            assert(base + k <= rows * k) by (nonlinear_arith)
                requires
                    base == r * k,
                    r < rows,
            ;
            let first = a[base + col1];
            let second = a[base + col2];
            a.set(base + col1, second);
            a.set(base + col2, first);
            assert forall|x: int| base <= x < base + k implies a@[x] == target[x] by {
                let c = x - base;
                crate::utils::permutation::lemma_row_major_index(r as int, c, k as int);
            }
            base += k;
            r += 1;
            assert(base == r * k) by (nonlinear_arith)
                requires
                    base == (r - 1) * k + k,
            ;
        }
        assert(a@ =~= target);
    }
}

/// `swap` and `after` are what `next_pivot` gives for the keys `norms` in the state
/// `before`.
pub open spec fn is_pivot_step(
    before: Option<PivotView>,
    norms: Seq<u32>,
    swap: Option<(usize, usize)>,
    after: Option<PivotView>,
) -> bool {
    match before {
        None => swap is None && after is None,
        Some(s) => {
            if norms.len() != s.k {
                swap is None && after is None
            } else if s.complete {
                swap is None && after == before
            } else if s.step < s.steps {
                &&& swap matches Some((at, pivot))
                &&& at == s.step
                &&& is_pivot(norms, s.step as int, pivot as int)
                &&& after == Some(
                    PivotView {
                        step: s.step + 1,
                        order: exchanged(s.order, s.step as int, pivot as int),
                        ..s
                    },
                )
            } else {
                &&& swap is None
                &&& after matches Some(t)
                &&& is_pivot_order(s.order, norms, s.steps as int, t.order)
                &&& t == PivotView { order: t.order, complete: true, ..s }
            }
        },
    }
}

/// `r` is what the strategy gives for a `rows * k` matrix in the state `session`: the order
/// that a complete factorization of such a matrix reached, and the data permuted by it; in
/// every other state, the ordering by energy.
pub open spec fn is_pivot_outcome<T>(
    session: Option<PivotView>,
    data: Seq<T>,
    energies: Seq<u32>,
    rows: nat,
    k: nat,
    r: Result<Permuted<T>, StrategyError>,
) -> bool {
    if data.len() == rows * k && (session matches Some(s) && s.complete && s.rows == rows && s.k
        == k) {
        r matches Ok((out, Some(perm))) && perm@ == session->0.order && out@ == permute_columns(
            data,
            k,
            perm@,
        )
    } else {
        is_energy_ordered(data, energies, rows, k, r)
    }
}

impl QuantizationStrategy for QRPivotStrategy {
    /// Applies the order that the factorization reached, and ends the factorization.
    /// Without a complete factorization of a matrix of this shape, and so for every matrix
    /// with a dimension below `MIN_DIMENSION`, it orders by energy.
    fn apply_permutation<T: Copy>(
        &mut self,
        data: &[T],
        energies: &[u32],
        rows: usize,
        k: usize,
        tensor_name: &str,
    ) -> (r: Result<Permuted<T>, StrategyError>)
        ensures
            is_pivot_outcome(old(self).session(), data@, energies@, rows as nat, k as nat, r),
            rows < MIN_DIMENSION || k < MIN_DIMENSION ==> is_energy_ordered(
                data@,
                energies@,
                rows as nat,
                k as nat,
                r,
            ),
            final(self).session() is None,
            final(self).regularization_key() == old(self).regularization_key(),
    {
        match self.session.take() {
            Some(session) => {
                proof {
                    use_type_invariant(&session);
                }
                if session.complete && session.rows == rows && session.k == k {
                    let PivotSession { rows: _, k: _, steps: _, step: _, order, complete: _ } =
                        session;
                    match apply_column_permutation(rows, k, data, order.as_slice()) {
                        Ok(out) => Ok((out, Some(order))),
                        Err(_) => order_by_energy(data, energies, rows, k),
                    }
                } else {
                    order_by_energy(data, energies, rows, k)
                }
            },
            None => order_by_energy(data, energies, rows, k),
        }
    }

    fn name(&self) -> (n: &'static str)
        ensures
            n@ == "QRPivot"@,
    {
        "QRPivot"
    }
}

/// Putting the never-pivoted columns in their final order leaves a permutation.
pub proof fn lemma_pivot_order_is_permutation(
    order: Seq<usize>,
    norms: Seq<u32>,
    steps: int,
    result: Seq<usize>,
)
    requires
        is_permutation(order),
        0 <= steps <= order.len(),
        norms.len() == order.len(),
        is_pivot_order(order, norms, steps, result),
    ensures
        is_permutation(result),
{
    let ranking = choose|ranking: Seq<usize>|
        is_tail_by_ranking(order, norms, steps, result, ranking);
    assert forall|i: int| 0 <= i < result.len() implies (#[trigger] result[i]) < result.len() by {
        if i >= steps {
            assert(steps <= ranking[i - steps] < order.len());
        }
    }
    assert forall|i: int, j: int| 0 <= i < j < result.len() implies result[i] != result[j] by {
        let a = if i < steps {
            i
        } else {
            ranking[i - steps] as int
        };
        let b = if j < steps {
            j
        } else {
            ranking[j - steps] as int
        };
        if i >= steps {
            assert(steps <= ranking[i - steps] < order.len());
            assert(ranks_before(norms, ranking[i - steps] as int, ranking[j - steps] as int));
        }
        if j >= steps {
            assert(steps <= ranking[j - steps] < order.len());
        }
        assert(result[i] == order[a] && result[j] == order[b] && a != b);
    }
}

/// The keys fix the final order: two of them for the same state and keys are the same.
pub proof fn lemma_pivot_order_unique(
    order: Seq<usize>,
    norms: Seq<u32>,
    steps: int,
    first: Seq<usize>,
    second: Seq<usize>,
)
    requires
        0 <= steps <= order.len(),
        norms.len() == order.len(),
        is_pivot_order(order, norms, steps, first),
        is_pivot_order(order, norms, steps, second),
    ensures
        first == second,
{
    let a = choose|ranking: Seq<usize>| is_tail_by_ranking(order, norms, steps, first, ranking);
    let b = choose|ranking: Seq<usize>| is_tail_by_ranking(order, norms, steps, second, ranking);
    lemma_ranking_unique(norms, a, b, steps, order.len() as int);
    assert(first =~= second);
}

} // verus!
