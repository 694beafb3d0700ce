//! What holds of every atomic-orbital basis: how many functions and shells
//! it has, where the primitives of a shell lie, which shell and atom a basis
//! function belongs to, and that the functions come atom by atom.

use crate::basis::{BasisSet, ElectronShell};
use crate::cartesian::{cartesian_components_spec, lemma_cartesian_components, n_cart_spec};
use crate::input::CartesianGeometry;
use crate::orbital::{
    ao_basis_spec, atom_shells, basis_of, placed_shells, AoBasisView, PlacedShell,
};
use vstd::prelude::*;

verus! {

/// Number of Cartesian components of all the shells together.
pub open spec fn component_total<T>(placed: Seq<PlacedShell<T>>) -> nat
    decreases placed.len(),
{
    if placed.len() == 0 {
        0
    } else {
        component_total(placed.drop_last()) + n_cart_spec(
            placed.last().shell.angular_momentum as nat,
        )
    }
}

/// Number of primitives of all the shells together.
pub open spec fn primitive_total<T>(placed: Seq<PlacedShell<T>>) -> nat
    decreases placed.len(),
{
    if placed.len() == 0 {
        0
    } else {
        primitive_total(placed.drop_last()) + placed.last().shell.exponents@.len()
    }
}

/// The shells are listed atom by atom: the atom index never decreases.
pub open spec fn atom_major<T>(placed: Seq<PlacedShell<T>>) -> bool {
    forall|s: int, t: int| 0 <= s <= t < placed.len() ==> placed[s].atom <= placed[t].atom
}

/// The basis has one entry per shell in the shell arrays, one per component
/// of every shell in the function arrays, and one exponent per primitive.
pub proof fn lemma_counts<T>(placed: Seq<PlacedShell<T>>)
    ensures
        ({
            let b = AoBasisView::of_shells(placed);
            &&& b.n_shells == placed.len()
            &&& b.n_basis == component_total(placed)
            &&& b.center_x.len() == b.n_basis
            &&& b.center_y.len() == b.n_basis
            &&& b.center_z.len() == b.n_basis
            &&& b.lx.len() == b.n_basis
            &&& b.ly.len() == b.n_basis
            &&& b.lz.len() == b.n_basis
            &&& b.shell_index.len() == b.n_basis
            &&& b.atom_index.len() == b.n_basis
            &&& b.prim_offset.len() == b.n_shells
            &&& b.n_primitives.len() == b.n_shells
            &&& b.exponents.len() == primitive_total(placed)
        }),
    decreases placed.len(),
{
    if placed.len() > 0 {
        lemma_counts(placed.drop_last());
        lemma_cartesian_components(placed.last().shell.angular_momentum);
    }
}

/// Coefficients and exponents are equally many when every shell has a
/// coefficient for each of its exponents.
pub proof fn lemma_coefficient_count<T>(placed: Seq<PlacedShell<T>>)
    requires
        forall|s: int| 0 <= s < placed.len() ==> (#[trigger] placed[s]).shell.wf(),
    ensures
        AoBasisView::of_shells(placed).coefficients.len() == AoBasisView::of_shells(
            placed,
        ).exponents.len(),
    decreases placed.len(),
{
    if placed.len() > 0 {
        let init = placed.drop_last();
        assert forall|s: int| 0 <= s < init.len() implies (#[trigger] init[s]).shell.wf() by {
            assert(init[s] == placed[s]);
        }
        lemma_coefficient_count(init);
        assert(placed[placed.len() - 1].shell.wf());
    }
}

/// The totals of a leading part grow with the part.
proof fn lemma_take_step<T>(placed: Seq<PlacedShell<T>>, s: int)
    requires
        0 <= s < placed.len(),
    ensures
        component_total(placed.take(s + 1)) == component_total(placed.take(s)) + n_cart_spec(
            placed[s].shell.angular_momentum as nat,
        ),
        primitive_total(placed.take(s + 1)) == primitive_total(placed.take(s))
            + placed[s].shell.exponents@.len(),
{
    assert(placed.take(s + 1).drop_last() =~= placed.take(s));
}

/// The primitives of shell `s` lie in one block of the primitive arrays:
/// it starts where the blocks of the shells before it end, and holds the
/// shell's exponents and coefficients in their order.
pub proof fn lemma_primitive_block<T>(placed: Seq<PlacedShell<T>>, s: int)
    requires
        0 <= s < placed.len(),
    ensures
        ({
            let b = AoBasisView::of_shells(placed);
            let offset = b.prim_offset[s] as int;
            let n = b.n_primitives[s] as int;
            &&& offset == primitive_total(placed.take(s))
            &&& n == placed[s].shell.exponents@.len()
            &&& offset + n <= b.exponents.len()
            &&& b.exponents.subrange(offset, offset + n) == placed[s].shell.exponents@
            &&& s + 1 < placed.len() ==> b.prim_offset[s + 1] == offset + n
            &&& s + 1 == placed.len() ==> b.exponents.len() == offset + n
        }),
    decreases placed.len(),
{
    let init = placed.drop_last();
    let b = AoBasisView::of_shells(placed);
    let before = AoBasisView::of_shells(init);
    lemma_counts(init);
    lemma_counts(placed);
    if s + 1 < placed.len() {
        lemma_primitive_block(init, s);
        assert(init.take(s) =~= placed.take(s));
        let offset = b.prim_offset[s] as int;
        let n = b.n_primitives[s] as int;
        assert(b.exponents.subrange(offset, offset + n) =~= before.exponents.subrange(
            offset,
            offset + n,
        ));
        if s + 2 == placed.len() {
            assert(b.prim_offset[s + 1] == before.exponents.len());
        } else {
            assert(b.prim_offset[s + 1] == before.prim_offset[s + 1]);
        }
    } else {
        assert(placed.take(s) =~= init);
        let offset = b.prim_offset[s] as int;
        let n = b.n_primitives[s] as int;
        assert(b.exponents.subrange(offset, offset + n) =~= placed[s].shell.exponents@);
    }
}

/// The coefficients of shell `s` lie where its exponents lie, when every
/// shell has a coefficient for each of its exponents.
pub proof fn lemma_coefficient_block<T>(placed: Seq<PlacedShell<T>>, s: int)
    requires
        0 <= s < placed.len(),
        forall|t: int| 0 <= t < placed.len() ==> (#[trigger] placed[t]).shell.wf(),
    ensures
        ({
            let b = AoBasisView::of_shells(placed);
            let offset = b.prim_offset[s] as int;
            let n = b.n_primitives[s] as int;
            &&& 0 <= offset
            &&& offset + n <= b.coefficients.len()
            &&& b.coefficients.subrange(offset, offset + n) == placed[s].shell.coefficients@
        }),
    decreases placed.len(),
{
    let init = placed.drop_last();
    let b = AoBasisView::of_shells(placed);
    let before = AoBasisView::of_shells(init);
    assert forall|t: int| 0 <= t < init.len() implies (#[trigger] init[t]).shell.wf() by {
        assert(init[t] == placed[t]);
    }
    lemma_counts(init);
    lemma_counts(placed);
    lemma_coefficient_count(init);
    lemma_coefficient_count(placed);
    lemma_primitive_block(placed, s);
    assert(placed[s].shell.wf());
    let offset = b.prim_offset[s] as int;
    let n = b.n_primitives[s] as int;
    if s + 1 < placed.len() {
        lemma_coefficient_block(init, s);
        lemma_primitive_block(init, s);
        assert(b.coefficients.subrange(offset, offset + n) =~= before.coefficients.subrange(
            offset,
            offset + n,
        ));
    } else {
        assert(b.coefficients.subrange(offset, offset + n) =~= placed[s].shell.coefficients@);
    }
}

/// Basis function `p` belongs to the shell `s` that `shell_index` names:
/// it is one of the shell's components, at its place in canonical order
/// after the functions of the shells before, and it sits on the shell's atom.
pub proof fn lemma_basis_function<T>(placed: Seq<PlacedShell<T>>, p: int)
    requires
        0 <= p < AoBasisView::of_shells(placed).n_basis,
    ensures
        ({
            let b = AoBasisView::of_shells(placed);
            let s = b.shell_index[p] as int;
            let first = component_total(placed.take(s)) as int;
            let components = cartesian_components_spec(placed[s].shell.angular_momentum);
            &&& 0 <= s < placed.len()
            &&& first <= p < first + components.len()
            &&& (b.lx[p], b.ly[p], b.lz[p]) == components[p - first]
            &&& b.lx[p] + b.ly[p] + b.lz[p] == placed[s].shell.angular_momentum
            &&& b.atom_index[p] == placed[s].atom
            &&& b.center_x[p] == placed[s].x
            &&& b.center_y[p] == placed[s].y
            &&& b.center_z[p] == placed[s].z
        }),
    decreases placed.len(),
{
    let init = placed.drop_last();
    let b = AoBasisView::of_shells(placed);
    let before = AoBasisView::of_shells(init);
    lemma_counts(init);
    lemma_counts(placed);
    let l = placed.last().shell.angular_momentum;
    lemma_cartesian_components(l);
    if p < before.n_basis {
        lemma_basis_function(init, p);
        let s = before.shell_index[p] as int;
        assert(b.shell_index[p] == before.shell_index[p]);
        assert(init.take(s) =~= placed.take(s));
        assert(init[s] == placed[s]);
    } else {
        let s = placed.len() - 1;
        assert(b.shell_index[p] == s);
        assert(placed.take(s) =~= init);
    }
}

/// The functions come shell by shell: the shell index never decreases.
pub proof fn lemma_shell_major<T>(placed: Seq<PlacedShell<T>>, p: int, q: int)
    requires
        0 <= p <= q < AoBasisView::of_shells(placed).n_basis,
    ensures
        AoBasisView::of_shells(placed).shell_index[p] <= AoBasisView::of_shells(
            placed,
        ).shell_index[q],
    decreases placed.len(),
{
    let init = placed.drop_last();
    let b = AoBasisView::of_shells(placed);
    let before = AoBasisView::of_shells(init);
    lemma_counts(init);
    lemma_counts(placed);
    if q < before.n_basis {
        lemma_shell_major(init, p, q);
    } else if p < before.n_basis {
        lemma_basis_function(init, p);
    }
}

/// The functions come atom by atom when the shells do: a function of an
/// atom with a smaller index stands before every function of an atom with
/// a larger one.
pub proof fn lemma_atom_major<T>(placed: Seq<PlacedShell<T>>, p: int, q: int)
    requires
        atom_major(placed),
        0 <= p < AoBasisView::of_shells(placed).n_basis,
        0 <= q < AoBasisView::of_shells(placed).n_basis,
        AoBasisView::of_shells(placed).atom_index[p] < AoBasisView::of_shells(
            placed,
        ).atom_index[q],
    ensures
        p < q,
{
    if q <= p {
        lemma_shell_major(placed, q, p);
        lemma_basis_function(placed, p);
        lemma_basis_function(placed, q);
    }
}

/// Number of Cartesian components of the shells of one element.
pub open spec fn shell_components<T>(shells: Seq<ElectronShell<T>>) -> nat
    decreases shells.len(),
{
    if shells.len() == 0 {
        0
    } else {
        shell_components(shells.drop_last()) + n_cart_spec(shells.last().angular_momentum as nat)
    }
}

/// Number of Cartesian components of all shells of the first `n` atoms.
pub open spec fn molecule_components<T>(
    geometry: CartesianGeometry<T>,
    table: Seq<(String, BasisSet<T>)>,
    n: nat,
) -> nat
    decreases n,
{
    if n == 0 {
        0
    } else {
        molecule_components(geometry, table, (n - 1) as nat) + shell_components(
            basis_of(table, geometry.symbols@[n - 1]@).shells@,
        )
    }
}

/// Number of shells of the first `n` atoms.
pub open spec fn molecule_shells<T>(
    geometry: CartesianGeometry<T>,
    table: Seq<(String, BasisSet<T>)>,
    n: nat,
) -> nat
    decreases n,
{
    if n == 0 {
        0
    } else {
        molecule_shells(geometry, table, (n - 1) as nat) + basis_of(
            table,
            geometry.symbols@[n - 1]@,
        ).shells@.len()
    }
}

/// The components of two runs of shells add up.
proof fn lemma_component_total_add<T>(front: Seq<PlacedShell<T>>, back: Seq<PlacedShell<T>>)
    ensures
        component_total(front + back) == component_total(front) + component_total(back),
    decreases back.len(),
{
    if back.len() == 0 {
        assert(front + back =~= front);
    } else {
        lemma_component_total_add(front, back.drop_last());
        assert((front + back).drop_last() =~= front + back.drop_last());
    }
}

/// The shells placed on an atom have the components of its element's shells.
proof fn lemma_atom_components<T>(
    geometry: CartesianGeometry<T>,
    table: Seq<(String, BasisSet<T>)>,
    a: int,
    k: int,
)
    requires
        0 <= k <= atom_shells(geometry, table, a).len(),
    ensures
        component_total(atom_shells(geometry, table, a).take(k)) == shell_components(
            basis_of(table, geometry.symbols@[a]@).shells@.take(k),
        ),
    decreases k,
{
    if k > 0 {
        let placed = atom_shells(geometry, table, a);
        let shells = basis_of(table, geometry.symbols@[a]@).shells@;
        lemma_atom_components(geometry, table, a, k - 1);
        assert(placed.take(k).drop_last() =~= placed.take(k - 1));
        assert(shells.take(k).drop_last() =~= shells.take(k - 1));
    }
}

/// The shells of the first `n` atoms: as many as their elements define, with
/// as many components; each on one of those atoms, at its coordinates; and
/// atom by atom.
pub proof fn lemma_placed_shells<T>(
    geometry: CartesianGeometry<T>,
    table: Seq<(String, BasisSet<T>)>,
    n: nat,
)
    requires
        n <= geometry.n_atoms(),
    ensures
        placed_shells(geometry, table, n).len() == molecule_shells(geometry, table, n),
        component_total(placed_shells(geometry, table, n)) == molecule_components(
            geometry,
            table,
            n,
        ),
        atom_major(placed_shells(geometry, table, n)),
        forall|s: int|
            0 <= s < placed_shells(geometry, table, n).len() ==> {
                let p = #[trigger] placed_shells(geometry, table, n)[s];
                &&& p.atom < n
                &&& p.x == geometry.x@[p.atom as int]
                &&& p.y == geometry.y@[p.atom as int]
                &&& p.z == geometry.z@[p.atom as int]
            },
    decreases n,
{
    if n > 0 {
        let m = (n - 1) as nat;
        let front = placed_shells(geometry, table, m);
        let back = atom_shells(geometry, table, m as int);
        let all = placed_shells(geometry, table, n);
        lemma_placed_shells(geometry, table, m);
        lemma_component_total_add(front, back);
        lemma_atom_components(geometry, table, m as int, back.len() as int);
        assert(back.take(back.len() as int) =~= back);
        let shells = basis_of(table, geometry.symbols@[m as int]@).shells@;
        assert(shells.take(shells.len() as int) =~= shells);
        assert forall|s: int| 0 <= s < all.len() implies {
            let p = #[trigger] all[s];
            &&& p.atom < n
            &&& p.x == geometry.x@[p.atom as int]
            &&& p.y == geometry.y@[p.atom as int]
            &&& p.z == geometry.z@[p.atom as int]
        } by {
            if s < front.len() {
                assert(all[s] == front[s]);
            } else {
                assert(all[s] == back[s - front.len()]);
            }
        }
        assert forall|s: int, t: int| 0 <= s <= t < all.len() implies all[s].atom
            <= all[t].atom by {
            if t < front.len() {
                assert(all[s] == front[s] && all[t] == front[t]);
            } else if s < front.len() {
                assert(all[s] == front[s]);
                assert(all[t] == back[t - front.len()]);
            } else {
                assert(all[s] == back[s - front.len()]);
                assert(all[t] == back[t - front.len()]);
            }
        }
    }
}

/// The basis of a molecule has one function for each component of each
/// shell of each atom, and one shell entry for each shell of each atom.
pub proof fn lemma_basis_size<T>(geometry: CartesianGeometry<T>, table: Seq<(String, BasisSet<T>)>)
    ensures
        ao_basis_spec(geometry, table).n_basis == molecule_components(
            geometry,
            table,
            geometry.n_atoms(),
        ),
        ao_basis_spec(geometry, table).n_shells == molecule_shells(
            geometry,
            table,
            geometry.n_atoms(),
        ),
{
    lemma_placed_shells(geometry, table, geometry.n_atoms());
    lemma_counts(placed_shells(geometry, table, geometry.n_atoms()));
}

/// The basis of a molecule is atom-major: for atoms `i < j`, every basis
/// function of atom `i` stands before every basis function of atom `j`.
pub proof fn lemma_basis_atom_major<T>(
    geometry: CartesianGeometry<T>,
    table: Seq<(String, BasisSet<T>)>,
    p: int,
    q: int,
)
    requires
        0 <= p < ao_basis_spec(geometry, table).n_basis,
        0 <= q < ao_basis_spec(geometry, table).n_basis,
        ao_basis_spec(geometry, table).atom_index[p] < ao_basis_spec(geometry, table).atom_index[q],
    ensures
        p < q,
{
    lemma_placed_shells(geometry, table, geometry.n_atoms());
    lemma_atom_major(placed_shells(geometry, table, geometry.n_atoms()), p, q);
}

/// Every basis function of a molecule sits on one of its atoms, at that
/// atom's coordinates.
pub proof fn lemma_basis_centers<T>(
    geometry: CartesianGeometry<T>,
    table: Seq<(String, BasisSet<T>)>,
    p: int,
)
    requires
        0 <= p < ao_basis_spec(geometry, table).n_basis,
    ensures
        ({
            let b = ao_basis_spec(geometry, table);
            let a = b.atom_index[p] as int;
            &&& 0 <= a < geometry.n_atoms()
            &&& b.center_x[p] == geometry.x@[a]
            &&& b.center_y[p] == geometry.y@[a]
            &&& b.center_z[p] == geometry.z@[a]
        }),
{
    let placed = placed_shells(geometry, table, geometry.n_atoms());
    lemma_placed_shells(geometry, table, geometry.n_atoms());
    lemma_basis_function(placed, p);
    let s = ao_basis_spec(geometry, table).shell_index[p] as int;
    assert(placed[s].atom < geometry.n_atoms());
}

} // verus!
