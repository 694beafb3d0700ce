//! Cartesian components of a Gaussian shell.
//!
//! A shell of angular momentum `l` carries one basis function for every
//! triple `(lx, ly, lz)` of non-negative exponents with `lx + ly + lz == l`.
//! The canonical order lists them by descending `lx` and, for equal `lx`,
//! by descending `ly`.

use vstd::prelude::*;

verus! {

/// One Cartesian component: the exponents `(lx, ly, lz)`.
pub type Component = (u32, u32, u32);

/// Number of Cartesian components of a shell: `(l + 1)(l + 2) / 2`.
pub open spec fn n_cart_spec(l: nat) -> nat {
    (l + 1) * (l + 2) / 2
}

/// The components with a fixed `lx`, by descending `ly`:
/// `(lx, l - lx, 0), (lx, l - lx - 1, 1), ..., (lx, 0, l - lx)`.
pub open spec fn shell_row(l: u32, lx: u32) -> Seq<Component>
    recommends
        lx <= l,
{
    Seq::new((l - lx + 1) as nat, |j: int| (lx, (l - lx - j) as u32, j as u32))
}

/// The first `n` rows, those of `lx = l, l - 1, ..., l - n + 1`, one after
/// the other.
pub open spec fn leading_rows(l: u32, n: nat) -> Seq<Component>
    recommends
        n <= l + 1,
    decreases n,
{
    if n == 0 {
        Seq::empty()
    } else {
        leading_rows(l, (n - 1) as nat) + shell_row(l, (l - (n - 1)) as u32)
    }
}

/// All components of a shell of angular momentum `l` in canonical order.
pub open spec fn cartesian_components_spec(l: u32) -> Seq<Component> {
    leading_rows(l, (l + 1) as nat)
}

/// `a` comes strictly before `b` in canonical order.
pub open spec fn precedes(a: Component, b: Component) -> bool {
    a.0 > b.0 || (a.0 == b.0 && a.1 > b.1)
}

/// The product of two neighbours is even.
proof fn lemma_even_product(n: nat)
    ensures
        n * (n + 1) % 2 == 0,
    decreases n,
{
    if n == 0 {
        assert(n * (n + 1) == 0) by (nonlinear_arith)
            requires
                n == 0,
        ;
    } else {
        let m = (n - 1) as nat;
        lemma_even_product(m);
        assert(n * (n + 1) == m * (m + 1) + 2 * n) by (nonlinear_arith)
            requires
                n == m + 1,
        ;
    }
}

/// A further row of `n + 1` components takes the count from `n(n + 1)/2`
/// to `(n + 1)(n + 2)/2`.
proof fn lemma_triangle_step(n: nat)
    ensures
        (n + 1) * (n + 2) / 2 == n * (n + 1) / 2 + n + 1,
{
    assert((n + 1) * (n + 2) == n * (n + 1) + 2 * (n + 1)) by (nonlinear_arith);
    lemma_even_product(n);
}

/// The first `n` rows hold `n(n + 1)/2` components; each sums to `l`, has
/// its first exponent above `l - n`, and they descend strictly.
proof fn lemma_leading_rows(l: u32, n: nat)
    requires
        n <= l + 1,
    ensures
        leading_rows(l, n).len() == n * (n + 1) / 2,
        forall|k: int|
            0 <= k < leading_rows(l, n).len() ==> {
                let c = #[trigger] leading_rows(l, n)[k];
                c.0 + c.1 + c.2 == l && c.0 + n > l
            },
        forall|i: int, j: int|
            0 <= i < j < leading_rows(l, n).len() ==> precedes(
                #[trigger] leading_rows(l, n)[i],
                #[trigger] leading_rows(l, n)[j],
            ),
    decreases n,
{
    if n == 0 {
        assert(n * (n + 1) == 0) by (nonlinear_arith)
            requires
                n == 0,
        ;
    } else {
        let m = (n - 1) as nat;
        let head = leading_rows(l, m);
        let row = shell_row(l, (l - m) as u32);
        let all = leading_rows(l, n);
        lemma_leading_rows(l, m);
        lemma_triangle_step(m);
        assert(all =~= head + row);
        assert forall|k: int| 0 <= k < all.len() implies {
            let c = #[trigger] all[k];
            c.0 + c.1 + c.2 == l && c.0 + n > l
        } by {
            if k < head.len() {
                assert(all[k] == head[k]);
            } else {
                assert(all[k] == row[k - head.len()]);
            }
        }
        assert forall|i: int, j: int| 0 <= i < j < all.len() implies precedes(
            #[trigger] all[i],
            #[trigger] all[j],
        ) by {
            if j < head.len() {
                assert(all[i] == head[i]);
                assert(all[j] == head[j]);
            } else if i < head.len() {
                assert(all[i] == head[i]);
                assert(all[j] == row[j - head.len()]);
            } else {
                assert(all[i] == row[i - head.len()]);
                assert(all[j] == row[j - head.len()]);
            }
        }
    }
}

/// The canonical sequence has `(l + 1)(l + 2) / 2` entries, every entry sums
/// to `l`, and the entries descend strictly by `lx`, then by `ly`.
pub proof fn lemma_cartesian_components(l: u32)
    ensures
        cartesian_components_spec(l).len() == n_cart_spec(l as nat),
        forall|k: int|
            0 <= k < cartesian_components_spec(l).len() ==> {
                let c = #[trigger] cartesian_components_spec(l)[k];
                c.0 + c.1 + c.2 == l
            },
        forall|i: int, j: int|
            0 <= i < j < cartesian_components_spec(l).len() ==> precedes(
                #[trigger] cartesian_components_spec(l)[i],
                #[trigger] cartesian_components_spec(l)[j],
            ),
{
    lemma_leading_rows(l, (l + 1) as nat);
}

proof fn lemma_row_in_leading_rows(l: u32, n: nat, c: Component)
    requires
        n <= l + 1,
        c.0 + n > l,
        c.0 + c.1 + c.2 == l,
    ensures
        leading_rows(l, n).contains(c),
    decreases n,
{
    let m = (n - 1) as nat;
    let head = leading_rows(l, m);
    let row = shell_row(l, (l - m) as u32);
    if c.0 == l - m {
        assert(row[c.2 as int] == c);
        assert(leading_rows(l, n)[head.len() + c.2] == c);
    } else {
        lemma_row_in_leading_rows(l, m, c);
        let k = choose|k: int| 0 <= k < head.len() && head[k] == c;
        assert(leading_rows(l, n)[k] == c);
    }
}

/// Every triple of exponents that sums to `l` occurs in the canonical
/// sequence.
pub proof fn lemma_components_complete(l: u32, c: Component)
    requires
        c.0 + c.1 + c.2 == l,
    ensures
        cartesian_components_spec(l).contains(c),
{
    lemma_row_in_leading_rows(l, (l + 1) as nat, c);
}

/// Number of Cartesian components of a shell of angular momentum `l`.
pub fn n_cart(l: u32) -> (n: usize)
    requires
        n_cart_spec(l as nat) <= usize::MAX,
    ensures
        n == n_cart_spec(l as nat),
{
    let a: u64 = l as u64 + 1;
    let b: u64 = l as u64 + 2;
    proof {
        assert(a * b / 2 == if a % 2 == 0 {
            (a / 2) * b
        } else {
            a * (b / 2)
        }) by (nonlinear_arith)
            requires
                b == a + 1,
                a >= 0,
        ;
        assert((a / 2) * b <= 0x8000_0000 * 0x1_0000_0001) by (nonlinear_arith)
            requires
                0 <= a <= 0x1_0000_0000,
                0 <= b <= 0x1_0000_0001,
        ;
        assert(a * (b / 2) <= 0x1_0000_0000 * 0x8000_0000) by (nonlinear_arith)
            requires
                0 <= a <= 0x1_0000_0000,
                0 <= b <= 0x1_0000_0001,
        ;
    }
    let half: u64 = if a % 2 == 0 {
        (a / 2) * b
    } else {
        a * (b / 2)
    };
    half as usize
}

/// All `(lx, ly, lz)` triples of a shell of angular momentum `l`, in
/// canonical order: `lx` descends from `l` to 0; for each `lx`, `ly`
/// descends from `l - lx` to 0; `lz` is what is left.
pub fn cartesian_components(l: u32) -> (result: Vec<Component>)
    ensures
        result@ == cartesian_components_spec(l),
{
    let mut result: Vec<Component> = if l < 0x8000 {
        assert((l + 1) * (l + 2) <= 0x8000 * 0x8001) by (nonlinear_arith)
            requires
                0 <= l < 0x8000,
        ;
        Vec::with_capacity(n_cart(l))
    } else {
        Vec::new()
    };
    let mut lx: u32 = l;
    loop
        invariant_except_break
            lx <= l,
            result@ == leading_rows(l, (l - lx) as nat),
        ensures
            result@ == cartesian_components_spec(l),
        decreases lx,
    {
        let ghost before = result@;
        let mut ly: u32 = l - lx;
        loop
            invariant_except_break
                ly <= l - lx,
                result@ == before + shell_row(l, lx).take(l - lx - ly),
            invariant
                lx <= l,
            ensures
                result@ == before + shell_row(l, lx),
            decreases ly,
        {
            result.push((lx, ly, l - lx - ly));
            assert(result@ =~= before + shell_row(l, lx).take(l - lx - ly + 1));
            if ly == 0 {
                assert(shell_row(l, lx).take(l - lx + 1) =~= shell_row(l, lx));
                break;
            }
            ly -= 1;
        }
        assert(result@ == leading_rows(l, (l - lx + 1) as nat));
        if lx == 0 {
            break;
        }
        lx -= 1;
    }
    result
}

} // verus!
