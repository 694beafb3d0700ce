//! The decisions of the core-Hamiltonian initial guess.
//!
//! The guess turns the overlap matrix S, the kinetic matrix T and the
//! nuclear-attraction matrix V into molecular-orbital coefficients: S is
//! decomposed and must be positive definite, the core Hamiltonian T + V is
//! taken to the orthogonal basis and decomposed, and its eigenvectors are put
//! in the order of ascending orbital energy. The matrix arithmetic is the
//! caller's; what is decided here is whether the inputs are accepted,
//! whether the overlap spectrum is, and in which order the orbitals come.
//!
//! The caller asks `plan_guess` first, with nothing but shapes and counts.
//! For the plan `Solve` it decomposes S and asks `check_overlap`; only for an
//! accepted spectrum it forms T + V, transforms and decomposes it, asks
//! `energy_order` for the order of the eigenvectors, and multiplies the
//! orthogonalizer by the eigenvectors in that order.
//!
//! A real number enters a decision as its key: an integer such that keys
//! compare as the numbers do, with the key 0 for the number 0. The module
//! `binary64` gives the key of a binary64 number.

use vstd::prelude::*;

verus! {

/// The numbers of rows and of columns of a matrix.
pub type Shape = (usize, usize);

/// Why no guess was made.
#[derive(Debug, Clone, Copy, PartialEq, Eq)]
pub enum GuessError {
    /// S, T and V are not three square matrices of one size.
    DimensionMismatch { s_shape: Shape, t_shape: Shape, v_shape: Shape },
    /// More alpha or more beta electrons than basis functions.
    TooManyElectrons { n_alpha: usize, n_beta: usize, n_basis: usize },
    /// S is not positive definite.
    SingularOverlap,
}

/// What to do with inputs of given shapes and electron counts.
#[derive(Debug, Clone, Copy, PartialEq, Eq)]
pub enum GuessPlan {
    /// The inputs are refused.
    Reject(GuessError),
    /// There is no basis function: the guess is the 0×0 matrix, and no
    /// matrix needs to be read.
    Empty,
    /// The guess is to be computed for `n_basis` basis functions.
    Solve { n_basis: usize },
}

/// The three matrices are square and of one size.
pub open spec fn shapes_agree(s_shape: Shape, t_shape: Shape, v_shape: Shape) -> bool {
    &&& s_shape.0 == s_shape.1
    &&& t_shape.0 == t_shape.1
    &&& v_shape.0 == v_shape.1
    &&& t_shape.0 == s_shape.0
    &&& v_shape.0 == s_shape.0
}

/// The plan for inputs of given shapes and electron counts: shapes are
/// looked at first, electron counts second, the empty basis last.
pub open spec fn plan_guess_spec(
    s_shape: Shape,
    t_shape: Shape,
    v_shape: Shape,
    n_alpha: usize,
    n_beta: usize,
) -> GuessPlan {
    if !shapes_agree(s_shape, t_shape, v_shape) {
        GuessPlan::Reject(GuessError::DimensionMismatch { s_shape, t_shape, v_shape })
    } else if n_alpha > s_shape.0 || n_beta > s_shape.0 {
        GuessPlan::Reject(GuessError::TooManyElectrons { n_alpha, n_beta, n_basis: s_shape.0 })
    } else if s_shape.0 == 0 {
        GuessPlan::Empty
    } else {
        GuessPlan::Solve { n_basis: s_shape.0 }
    }
}

/// Decides from the shapes of S, T and V and from the electron counts
/// whether a guess is made, and for how many basis functions.
pub fn plan_guess(
    s_shape: Shape,
    t_shape: Shape,
    v_shape: Shape,
    n_alpha: usize,
    n_beta: usize,
) -> (plan: GuessPlan)
    ensures
        plan == plan_guess_spec(s_shape, t_shape, v_shape, n_alpha, n_beta),
{
    let n = s_shape.0;
    if s_shape.0 != s_shape.1 || t_shape.0 != t_shape.1 || v_shape.0 != v_shape.1 || t_shape.0 != n
        || v_shape.0 != n {
        return GuessPlan::Reject(GuessError::DimensionMismatch { s_shape, t_shape, v_shape });
    }
    if n_alpha > n || n_beta > n {
        return GuessPlan::Reject(GuessError::TooManyElectrons { n_alpha, n_beta, n_basis: n });
    }
    if n == 0 {
        return GuessPlan::Empty;
    }
    GuessPlan::Solve { n_basis: n }
}

/// A shape mismatch is reported whatever the electron counts are.
pub proof fn lemma_mismatch_first(
    s_shape: Shape,
    t_shape: Shape,
    v_shape: Shape,
    n_alpha: usize,
    n_beta: usize,
)
    requires
        !shapes_agree(s_shape, t_shape, v_shape),
    ensures
        plan_guess_spec(s_shape, t_shape, v_shape, n_alpha, n_beta) == GuessPlan::Reject(
            GuessError::DimensionMismatch { s_shape, t_shape, v_shape },
        ),
{
}

/// The plan is the empty guess for square matrices of size 0 and no
/// electron, and for no other input; it depends on nothing but the shapes and
/// the counts.
pub proof fn lemma_empty_plan(
    s_shape: Shape,
    t_shape: Shape,
    v_shape: Shape,
    n_alpha: usize,
    n_beta: usize,
)
    ensures
        plan_guess_spec(s_shape, t_shape, v_shape, n_alpha, n_beta) == GuessPlan::Empty <==> {
            &&& s_shape == (0usize, 0usize)
            &&& t_shape == (0usize, 0usize)
            &&& v_shape == (0usize, 0usize)
            &&& n_alpha == 0
            &&& n_beta == 0
        },
{
}

/// A guess is computed for three square matrices of one size above 0 and
/// electron counts up to that size, and for no other input.
pub proof fn lemma_solve_plan(
    s_shape: Shape,
    t_shape: Shape,
    v_shape: Shape,
    n_alpha: usize,
    n_beta: usize,
)
    ensures
        plan_guess_spec(s_shape, t_shape, v_shape, n_alpha, n_beta) is Solve <==> {
            &&& shapes_agree(s_shape, t_shape, v_shape)
            &&& s_shape.0 > 0
            &&& n_alpha <= s_shape.0
            &&& n_beta <= s_shape.0
        },
        plan_guess_spec(s_shape, t_shape, v_shape, n_alpha, n_beta) is Solve ==> plan_guess_spec(
            s_shape,
            t_shape,
            v_shape,
            n_alpha,
            n_beta,
        )->n_basis == s_shape.0,
{
}

/// Every eigenvalue of the overlap matrix is above zero.
pub open spec fn positive_definite(spectrum: Seq<i64>) -> bool {
    forall|j: int| 0 <= j < spectrum.len() ==> #[trigger] spectrum[j] > 0
}

/// Accepts the spectrum of the overlap matrix, given by the keys of its
/// eigenvalues, if all of them are above zero; an eigenvalue that is zero or
/// below makes the overlap singular.
pub fn check_overlap(spectrum: &Vec<i64>) -> (result: Result<(), GuessError>)
    ensures
        positive_definite(spectrum@) ==> result == Ok::<(), GuessError>(()),
        !positive_definite(spectrum@) ==> result == Err::<(), GuessError>(
            GuessError::SingularOverlap,
        ),
{
    let mut j: usize = 0;
    while j < spectrum.len()
        invariant
            j <= spectrum@.len(),
            forall|i: int| 0 <= i < j ==> #[trigger] spectrum@[i] > 0,
        decreases spectrum@.len() - j,
    {
        if spectrum[j] <= 0 {
            return Err(GuessError::SingularOverlap);
        }
        j = j + 1;
    }
    Ok(())
}

/// Orbital `a` comes before orbital `b`: it has the lower energy, or the
/// same energy and the lower index.
pub open spec fn orbital_before(energies: Seq<i64>, a: int, b: int) -> bool {
    energies[a] < energies[b] || (energies[a] == energies[b] && a < b)
}

/// `order` lists the orbitals `0..energies.len()`, each once, by ascending
/// energy, and orbitals of equal energy by ascending index.
pub open spec fn is_energy_order(energies: Seq<i64>, order: Seq<usize>) -> bool {
    &&& order.len() == energies.len()
    &&& forall|i: int| 0 <= i < order.len() ==> #[trigger] order[i] < energies.len()
    &&& forall|i: int, j: int|
        0 <= i < j < order.len() ==> orbital_before(
            energies,
            #[trigger] order[i] as int,
            #[trigger] order[j] as int,
        )
}

/// A sequence of `n` different numbers below `n` holds every number below
/// `n`.
proof fn lemma_all_listed(s: Seq<usize>, v: usize)
    requires
        forall|i: int| 0 <= i < s.len() ==> #[trigger] s[i] < s.len(),
        forall|i: int, j: int| 0 <= i < j < s.len() ==> #[trigger] s[i] != #[trigger] s[j],
        v < s.len(),
    ensures
        exists|i: int| 0 <= i < s.len() && #[trigger] s[i] == v,
    decreases s.len(),
{
    let n = s.len();
    let top = (n - 1) as usize;
    if exists|p: int| 0 <= p < n && #[trigger] s[p] == top {
        let p = choose|p: int| 0 <= p < n && #[trigger] s[p] == top;
        if v != top {
            let rest = s.remove(p);
            assert forall|i: int| 0 <= i < rest.len() implies #[trigger] rest[i] < rest.len() by {
                if i < p {
                    assert(rest[i] == s[i]);
                } else {
                    assert(rest[i] == s[i + 1]);
                }
            }
            assert forall|i: int, j: int| 0 <= i < j < rest.len() implies #[trigger] rest[i]
                != #[trigger] rest[j] by {
                let from_i = if i < p {
                    i
                } else {
                    i + 1
                };
                let from_j = if j < p {
                    j
                } else {
                    j + 1
                };
                assert(rest[i] == s[from_i] && rest[j] == s[from_j]);
            }
            lemma_all_listed(rest, v);
            let i = choose|i: int| 0 <= i < rest.len() && #[trigger] rest[i] == v;
            if i < p {
                assert(s[i] == v);
            } else {
                assert(s[i + 1] == v);
            }
        }
    } else {
        let rest = s.drop_last();
        assert forall|i: int| 0 <= i < rest.len() implies #[trigger] rest[i] < rest.len() by {
            assert(rest[i] == s[i]);
            assert(s[i] != top);
        }
        assert forall|i: int, j: int| 0 <= i < j < rest.len() implies #[trigger] rest[i]
            != #[trigger] rest[j] by {
            assert(rest[i] == s[i] && rest[j] == s[j]);
        }
        assert(s[n - 1] != top);
        lemma_all_listed(rest, s[n - 1]);
        let i = choose|i: int| 0 <= i < rest.len() && #[trigger] rest[i] == s[n - 1];
        assert(s[i] == s[n - 1]);
    }
}

/// Two orders of the same energies agree on their first `k` places.
proof fn lemma_orders_agree(energies: Seq<i64>, a: Seq<usize>, b: Seq<usize>, k: int)
    requires
        is_energy_order(energies, a),
        is_energy_order(energies, b),
        0 <= k <= energies.len(),
    ensures
        forall|i: int| 0 <= i < k ==> a[i] == b[i],
    decreases k,
{
    if k > 0 {
        lemma_orders_agree(energies, a, b, k - 1);
        let i = k - 1;
        if a[i] != b[i] {
            assert forall|p: int, q: int| 0 <= p < q < a.len() implies #[trigger] a[p]
                != #[trigger] a[q] by {
                assert(orbital_before(energies, a[p] as int, a[q] as int));
            }
            assert forall|p: int, q: int| 0 <= p < q < b.len() implies #[trigger] b[p]
                != #[trigger] b[q] by {
                assert(orbital_before(energies, b[p] as int, b[q] as int));
            }
            if orbital_before(energies, a[i] as int, b[i] as int) {
                lemma_all_listed(b, a[i]);
                let j = choose|j: int| 0 <= j < b.len() && #[trigger] b[j] == a[i];
                if j < i {
                    assert(a[j] == b[j]);
                    assert(orbital_before(energies, a[j] as int, a[i] as int));
                } else if j > i {
                    assert(orbital_before(energies, b[i] as int, b[j] as int));
                }
            } else {
                lemma_all_listed(a, b[i]);
                let j = choose|j: int| 0 <= j < a.len() && #[trigger] a[j] == b[i];
                if j < i {
                    assert(a[j] == b[j]);
                    assert(orbital_before(energies, b[j] as int, b[i] as int));
                } else if j > i {
                    assert(orbital_before(energies, a[i] as int, a[j] as int));
                }
            }
        }
    }
}

/// The energies have one order only: `is_energy_order` says which.
pub proof fn lemma_energy_order_unique(energies: Seq<i64>, a: Seq<usize>, b: Seq<usize>)
    requires
        is_energy_order(energies, a),
        is_energy_order(energies, b),
    ensures
        a == b,
{
    lemma_orders_agree(energies, a, b, energies.len() as int);
    assert(a =~= b);
}

/// Along the order the energies never fall, and every orbital is listed.
pub proof fn lemma_energy_order_ascends(energies: Seq<i64>, order: Seq<usize>)
    requires
        is_energy_order(energies, order),
    ensures
        forall|i: int, j: int|
            0 <= i <= j < order.len() ==> energies[#[trigger] order[i] as int]
                <= energies[#[trigger] order[j] as int],
        forall|v: usize| v < energies.len() ==> order.contains(v),
{
    assert forall|i: int, j: int| 0 <= i <= j < order.len() implies energies[#[trigger] order[i] as int]
        <= energies[#[trigger] order[j] as int] by {
        if i < j {
            assert(orbital_before(energies, order[i] as int, order[j] as int));
        }
    }
    assert forall|v: usize| v < energies.len() implies order.contains(v) by {
        assert forall|p: int, q: int| 0 <= p < q < order.len() implies #[trigger] order[p]
            != #[trigger] order[q] by {
            assert(orbital_before(energies, order[p] as int, order[q] as int));
        }
        lemma_all_listed(order, v);
    }
}

/// The order of the orbitals by ascending energy, given the keys of the
/// energies. Orbitals of equal energy keep the order of their indices.
pub fn energy_order(energies: &Vec<i64>) -> (order: Vec<usize>)
    ensures
        is_energy_order(energies@, order@),
{
    let n = energies.len();
    let mut order: Vec<usize> = Vec::new();
    let mut k: usize = 0;
    while k < n
        invariant
            n == energies@.len(),
            k <= n,
            order@.len() == k,
            forall|i: int| 0 <= i < k ==> #[trigger] order@[i] < k,
            forall|i: int, j: int|
                0 <= i < j < k ==> orbital_before(
                    energies@,
                    #[trigger] order@[i] as int,
                    #[trigger] order@[j] as int,
                ),
        decreases n - k,
    {
        // Orbital `k` goes behind the last orbital that comes before it.
        let mut at: usize = k;
        while at > 0 && energies[k] < energies[order[at - 1]]
            invariant
                n == energies@.len(),
                k < n,
                at <= k,
                order@.len() == k,
                forall|i: int| 0 <= i < k ==> #[trigger] order@[i] < k,
                forall|i: int|
                    at <= i < k ==> orbital_before(energies@, k as int, #[trigger] order@[i] as int),
            decreases at,
        {
            at = at - 1;
        }
        let ghost before = order@;
        order.insert(at, k);
        proof {
            assert forall|i: int, j: int| 0 <= i < j < k + 1 implies orbital_before(
                energies@,
                #[trigger] order@[i] as int,
                #[trigger] order@[j] as int,
            ) by {
                if j < at {
                    assert(order@[i] == before[i] && order@[j] == before[j]);
                } else if j == at {
                    assert(order@[i] == before[i]);
                    assert(before[at - 1] < k);
                    if i < at - 1 {
                        assert(orbital_before(
                            energies@,
                            before[i] as int,
                            before[at - 1] as int,
                        ));
                    }
                } else if i < at {
                    assert(order@[i] == before[i] && order@[j] == before[j - 1]);
                } else if i == at {
                    assert(order@[j] == before[j - 1]);
                } else {
                    assert(order@[i] == before[i - 1] && order@[j] == before[j - 1]);
                }
            }
        }
        k = k + 1;
    }
    order
}

/// The columns of a matrix in a new order: column `j` of the result is
/// column `order[j]` of the matrix.
pub fn reorder_columns<T: Copy>(columns: &Vec<Vec<T>>, order: &Vec<usize>) -> (result: Vec<Vec<T>>)
    requires
        forall|j: int| 0 <= j < order@.len() ==> #[trigger] order@[j] < columns@.len(),
    ensures
        result@.len() == order@.len(),
        forall|j: int|
            0 <= j < order@.len() ==> (#[trigger] result@[j])@ == columns@[order@[j] as int]@,
{
    let mut result: Vec<Vec<T>> = Vec::new();
    let mut j: usize = 0;
    while j < order.len()
        invariant
            j <= order@.len(),
            result@.len() == j,
            forall|i: int| 0 <= i < order@.len() ==> #[trigger] order@[i] < columns@.len(),
            forall|i: int| 0 <= i < j ==> (#[trigger] result@[i])@ == columns@[order@[i] as int]@,
        decreases order@.len() - j,
    {
        let source = &columns[order[j]];
        let mut column: Vec<T> = Vec::new();
        let mut i: usize = 0;
        while i < source.len()
            invariant
                i <= source@.len(),
                column@ == source@.take(i as int),
            decreases source@.len() - i,
        {
            column.push(source[i]);
            assert(column@ =~= source@.take(i + 1));
            i = i + 1;
        }
        assert(source@.take(source@.len() as int) =~= source@);
        result.push(column);
        j = j + 1;
    }
    result
}

} // verus!
