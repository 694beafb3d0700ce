//! The contracted Cartesian atomic-orbital basis of a molecule.
//!
//! Every atom contributes the shells of its element, in the order of the
//! element's definition; every shell contributes its Cartesian components in
//! canonical order. The basis is a structure of arrays over basis functions,
//! shells and primitives.

use crate::basis::{BasisSet, ElectronShell, LoadError};
use crate::cartesian::{cartesian_components, cartesian_components_spec};
use crate::input::CartesianGeometry;
use vstd::prelude::*;

verus! {

/// Structure of arrays of the atomic-orbital basis.
///
/// The arrays from `center_x` to `atom_index` have one entry for each basis
/// function, `prim_offset` and `n_primitives` one for each shell, `exponents`
/// and `coefficients` one for each primitive.
#[derive(Debug, Clone, PartialEq)]
pub struct AoBasis<T> {
    /// Number of Cartesian basis functions.
    pub n_basis: usize,
    /// Number of contracted shells.
    pub n_shells: usize,
    pub center_x: Vec<T>,
    pub center_y: Vec<T>,
    pub center_z: Vec<T>,
    pub lx: Vec<u32>,
    pub ly: Vec<u32>,
    pub lz: Vec<u32>,
    pub shell_index: Vec<usize>,
    pub atom_index: Vec<usize>,
    pub prim_offset: Vec<usize>,
    pub n_primitives: Vec<usize>,
    pub exponents: Vec<T>,
    pub coefficients: Vec<T>,
}

/// Why the basis could not be built.
#[derive(Debug, Clone, PartialEq)]
pub enum InitError {
    /// The basis set of the named element could not be loaded.
    BasisLoad { element: String, source: LoadError },
}

/// The basis as mathematical sequences.
#[verifier::ext_equal]
pub struct AoBasisView<T> {
    pub n_basis: nat,
    pub n_shells: nat,
    pub center_x: Seq<T>,
    pub center_y: Seq<T>,
    pub center_z: Seq<T>,
    pub lx: Seq<u32>,
    pub ly: Seq<u32>,
    pub lz: Seq<u32>,
    pub shell_index: Seq<nat>,
    pub atom_index: Seq<nat>,
    pub prim_offset: Seq<nat>,
    pub n_primitives: Seq<nat>,
    pub exponents: Seq<T>,
    pub coefficients: Seq<T>,
}

/// A shell of an element's definition, placed on one atom of the molecule.
pub struct PlacedShell<T> {
    pub atom: nat,
    pub x: T,
    pub y: T,
    pub z: T,
    pub shell: ElectronShell<T>,
}

/// The numbers of a sequence of machine integers.
pub open spec fn as_nats(s: Seq<usize>) -> Seq<nat> {
    Seq::new(s.len(), |i: int| s[i] as nat)
}

/// A further machine integer is a further number.
pub proof fn lemma_as_nats_push(s: Seq<usize>, v: usize)
    ensures
        as_nats(s.push(v)) == as_nats(s).push(v as nat),
{
    assert(as_nats(s.push(v)) =~= as_nats(s).push(v as nat));
}

impl<T> View for AoBasis<T> {
    type V = AoBasisView<T>;

    open spec fn view(&self) -> AoBasisView<T> {
        AoBasisView {
            n_basis: self.n_basis as nat,
            n_shells: self.n_shells as nat,
            center_x: self.center_x@,
            center_y: self.center_y@,
            center_z: self.center_z@,
            lx: self.lx@,
            ly: self.ly@,
            lz: self.lz@,
            shell_index: as_nats(self.shell_index@),
            atom_index: as_nats(self.atom_index@),
            prim_offset: as_nats(self.prim_offset@),
            n_primitives: as_nats(self.n_primitives@),
            exponents: self.exponents@,
            coefficients: self.coefficients@,
        }
    }
}

impl<T> AoBasisView<T> {
    /// The basis of no shell at all.
    pub open spec fn empty() -> Self {
        AoBasisView {
            n_basis: 0,
            n_shells: 0,
            center_x: Seq::empty(),
            center_y: Seq::empty(),
            center_z: Seq::empty(),
            lx: Seq::empty(),
            ly: Seq::empty(),
            lz: Seq::empty(),
            shell_index: Seq::empty(),
            atom_index: Seq::empty(),
            prim_offset: Seq::empty(),
            n_primitives: Seq::empty(),
            exponents: Seq::empty(),
            coefficients: Seq::empty(),
        }
    }

    /// This basis followed by one more shell: the shell's primitives go to
    /// the end of the primitive arrays, and each of its Cartesian components,
    /// in canonical order, becomes a basis function on the shell's atom.
    pub open spec fn with_shell(self, p: PlacedShell<T>) -> Self {
        let components = cartesian_components_spec(p.shell.angular_momentum);
        let n = components.len();
        AoBasisView {
            n_basis: self.n_basis + n,
            n_shells: self.n_shells + 1,
            center_x: self.center_x + Seq::new(n, |k: int| p.x),
            center_y: self.center_y + Seq::new(n, |k: int| p.y),
            center_z: self.center_z + Seq::new(n, |k: int| p.z),
            lx: self.lx + Seq::new(n, |k: int| components[k].0),
            ly: self.ly + Seq::new(n, |k: int| components[k].1),
            lz: self.lz + Seq::new(n, |k: int| components[k].2),
            shell_index: self.shell_index + Seq::new(n, |k: int| self.n_shells),
            atom_index: self.atom_index + Seq::new(n, |k: int| p.atom),
            prim_offset: self.prim_offset.push(self.exponents.len()),
            n_primitives: self.n_primitives.push(p.shell.exponents@.len()),
            exponents: self.exponents + p.shell.exponents@,
            coefficients: self.coefficients + p.shell.coefficients@,
        }
    }

    /// The basis of a sequence of placed shells.
    pub open spec fn of_shells(placed: Seq<PlacedShell<T>>) -> Self
        decreases placed.len(),
    {
        if placed.len() == 0 {
            Self::empty()
        } else {
            Self::of_shells(placed.drop_last()).with_shell(placed.last())
        }
    }
}

/// A table of basis sets, each under the element symbol it was loaded for.
pub type BasisTable<T> = Vec<(String, BasisSet<T>)>;

/// `i` is the first entry of the table under the symbol `s`.
pub open spec fn is_entry_of<T>(table: Seq<(String, BasisSet<T>)>, s: Seq<char>, i: int) -> bool {
    &&& 0 <= i < table.len()
    &&& table[i].0@ == s
    &&& forall|j: int| 0 <= j < i ==> (#[trigger] table[j]).0@ != s
}

/// The table has an entry under the symbol `s`.
pub open spec fn has_entry<T>(table: Seq<(String, BasisSet<T>)>, s: Seq<char>) -> bool {
    exists|i: int| 0 <= i < table.len() && (#[trigger] table[i]).0@ == s
}

/// The basis set that the table holds under the symbol `s`.
pub open spec fn basis_of<T>(table: Seq<(String, BasisSet<T>)>, s: Seq<char>) -> BasisSet<T> {
    table[choose|i: int| is_entry_of(table, s, i)].1
}

/// The shells of atom `a`, placed on it, in the order of its element's
/// definition.
pub open spec fn atom_shells<T>(
    geometry: CartesianGeometry<T>,
    table: Seq<(String, BasisSet<T>)>,
    a: int,
) -> Seq<PlacedShell<T>> {
    let shells = basis_of(table, geometry.symbols@[a]@).shells@;
    Seq::new(
        shells.len(),
        |s: int|
            PlacedShell {
                atom: a as nat,
                x: geometry.x@[a],
                y: geometry.y@[a],
                z: geometry.z@[a],
                shell: shells[s],
            },
    )
}

/// The shells of the first `n` atoms, atom after atom.
pub open spec fn placed_shells<T>(
    geometry: CartesianGeometry<T>,
    table: Seq<(String, BasisSet<T>)>,
    n: nat,
) -> Seq<PlacedShell<T>>
    decreases n,
{
    if n == 0 {
        Seq::empty()
    } else {
        placed_shells(geometry, table, (n - 1) as nat) + atom_shells(geometry, table, n - 1)
    }
}

/// The basis of a molecule, given the basis set of each of its elements.
pub open spec fn ao_basis_spec<T>(
    geometry: CartesianGeometry<T>,
    table: Seq<(String, BasisSet<T>)>,
) -> AoBasisView<T> {
    AoBasisView::of_shells(placed_shells(geometry, table, geometry.n_atoms()))
}

impl<T: Copy> AoBasis<T> {
    /// The two counters say how long the arrays are.
    pub open spec fn counted(&self) -> bool {
        &&& self.n_basis == self.lx@.len()
        &&& self.n_shells == self.prim_offset@.len()
    }

    /// A basis without shells.
    fn empty() -> (b: Self)
        ensures
            b@ == AoBasisView::<T>::empty(),
            b.counted(),
    {
        let b = AoBasis {
            n_basis: 0,
            n_shells: 0,
            center_x: Vec::new(),
            center_y: Vec::new(),
            center_z: Vec::new(),
            lx: Vec::new(),
            ly: Vec::new(),
            lz: Vec::new(),
            shell_index: Vec::new(),
            atom_index: Vec::new(),
            prim_offset: Vec::new(),
            n_primitives: Vec::new(),
            exponents: Vec::new(),
            coefficients: Vec::new(),
        };
        assert(b@ =~= AoBasisView::<T>::empty());
        b
    }

    /// Appends one shell of the atom `atom`, which sits at `(x, y, z)`.
    fn push_shell(&mut self, atom: usize, x: T, y: T, z: T, shell: &ElectronShell<T>)
        requires
            old(self).counted(),
        ensures
            final(self).counted(),
            final(self)@ == old(self)@.with_shell(
                PlacedShell { atom: atom as nat, x, y, z, shell: *shell },
            ),
    {
        let ghost before = self@;
        let ghost target = before.with_shell(
            PlacedShell { atom: atom as nat, x, y, z, shell: *shell },
        );
        let shell_idx = self.n_shells;
        self.prim_offset.push(self.exponents.len());
        self.n_primitives.push(shell.exponents.len());
        self.n_shells = self.prim_offset.len();
        let mut k: usize = 0;
        while k < shell.exponents.len()
            invariant
                k <= shell.exponents@.len(),
                self.exponents@ == before.exponents + shell.exponents@.take(k as int),
                self.coefficients@ == before.coefficients,
                self.n_basis == before.n_basis,
                self.n_shells == before.n_shells + 1,
                self.center_x@ == before.center_x,
                self.center_y@ == before.center_y,
                self.center_z@ == before.center_z,
                self.lx@ == before.lx,
                self.ly@ == before.ly,
                self.lz@ == before.lz,
                as_nats(self.shell_index@) == before.shell_index,
                as_nats(self.atom_index@) == before.atom_index,
                as_nats(self.prim_offset@) == target.prim_offset,
                as_nats(self.n_primitives@) == target.n_primitives,
            decreases shell.exponents@.len() - k,
        {
            self.exponents.push(shell.exponents[k]);
            assert(self.exponents@ =~= before.exponents + shell.exponents@.take(k + 1));
            k = k + 1;
        }
        assert(shell.exponents@.take(shell.exponents@.len() as int) =~= shell.exponents@);
        let mut k: usize = 0;
        while k < shell.coefficients.len()
            invariant
                k <= shell.coefficients@.len(),
                self.exponents@ == target.exponents,
                self.coefficients@ == before.coefficients + shell.coefficients@.take(k as int),
                self.n_basis == before.n_basis,
                self.n_shells == before.n_shells + 1,
                self.center_x@ == before.center_x,
                self.center_y@ == before.center_y,
                self.center_z@ == before.center_z,
                self.lx@ == before.lx,
                self.ly@ == before.ly,
                self.lz@ == before.lz,
                as_nats(self.shell_index@) == before.shell_index,
                as_nats(self.atom_index@) == before.atom_index,
                as_nats(self.prim_offset@) == target.prim_offset,
                as_nats(self.n_primitives@) == target.n_primitives,
            decreases shell.coefficients@.len() - k,
        {
            self.coefficients.push(shell.coefficients[k]);
            assert(self.coefficients@ =~= before.coefficients + shell.coefficients@.take(k + 1));
            k = k + 1;
        }
        assert(shell.coefficients@.take(shell.coefficients@.len() as int)
            =~= shell.coefficients@);
        let components = cartesian_components(shell.angular_momentum);
        let ghost n = components@.len();
        let mut c: usize = 0;
        while c < components.len()
            invariant
                c <= components@.len(),
                n == components@.len(),
                components@ == cartesian_components_spec(shell.angular_momentum),
                target == before.with_shell(
                    PlacedShell { atom: atom as nat, x, y, z, shell: *shell },
                ),
                shell_idx == before.n_shells,
                self.exponents@ == target.exponents,
                self.coefficients@ == target.coefficients,
                self.n_shells == before.n_shells + 1,
                self.n_basis == before.n_basis + c,
                self.n_basis == self.lx@.len(),
                self.n_shells == self.prim_offset@.len(),
                before.n_basis == before.lx.len(),
                self.center_x@ == target.center_x.take(before.center_x.len() + c),
                self.center_y@ == target.center_y.take(before.center_y.len() + c),
                self.center_z@ == target.center_z.take(before.center_z.len() + c),
                self.lx@ == target.lx.take(before.lx.len() + c),
                self.ly@ == target.ly.take(before.ly.len() + c),
                self.lz@ == target.lz.take(before.lz.len() + c),
                as_nats(self.shell_index@) == target.shell_index.take(
                    before.shell_index.len() + c,
                ),
                as_nats(self.atom_index@) == target.atom_index.take(before.atom_index.len() + c),
                as_nats(self.prim_offset@) == target.prim_offset,
                as_nats(self.n_primitives@) == target.n_primitives,
            decreases components@.len() - c,
        {
            let (lx, ly, lz) = components[c];
            proof {
                lemma_as_nats_push(self.shell_index@, shell_idx);
                lemma_as_nats_push(self.atom_index@, atom);
            }
            self.center_x.push(x);
            self.center_y.push(y);
            self.center_z.push(z);
            self.lx.push(lx);
            self.ly.push(ly);
            self.lz.push(lz);
            self.shell_index.push(shell_idx);
            self.atom_index.push(atom);
            self.n_basis = self.lx.len();
            assert(self.center_x@ =~= target.center_x.take(before.center_x.len() + c + 1));
            assert(self.center_y@ =~= target.center_y.take(before.center_y.len() + c + 1));
            assert(self.center_z@ =~= target.center_z.take(before.center_z.len() + c + 1));
            assert(self.lx@ =~= target.lx.take(before.lx.len() + c + 1));
            assert(self.ly@ =~= target.ly.take(before.ly.len() + c + 1));
            assert(self.lz@ =~= target.lz.take(before.lz.len() + c + 1));
            assert(as_nats(self.shell_index@) =~= target.shell_index.take(
                before.shell_index.len() + c + 1,
            ));
            assert(as_nats(self.atom_index@) =~= target.atom_index.take(
                before.atom_index.len() + c + 1,
            ));
            c = c + 1;
        }
        assert(self@ =~= target);
    }
}

/// Every symbol of the sequence has an entry in the table.
pub open spec fn covers<T>(table: Seq<(String, BasisSet<T>)>, symbols: Seq<String>) -> bool {
    forall|a: int| 0 <= a < symbols.len() ==> has_entry(table, #[trigger] symbols[a]@)
}

/// A symbol has at most one first entry.
proof fn lemma_entry_unique<T>(table: Seq<(String, BasisSet<T>)>, s: Seq<char>, i: int)
    requires
        is_entry_of(table, s, i),
    ensures
        basis_of(table, s) == table[i].1,
{
    let j = choose|j: int| is_entry_of(table, s, j);
    assert(is_entry_of(table, s, j));
    assert(j == i) by {
        if j < i {
            assert(table[j].0@ != s);
        } else if i < j {
            assert(table[i].0@ != s);
        }
    }
}

/// The position of the first entry under `symbol`, if the table has one.
pub fn find_entry<T>(table: &BasisTable<T>, symbol: &String) -> (found: Option<usize>)
    ensures
        match found {
            Some(i) => is_entry_of(table@, symbol@, i as int),
            None => !has_entry(table@, symbol@),
        },
{
    let mut i: usize = 0;
    while i < table.len()
        invariant
            i <= table@.len(),
            forall|j: int| 0 <= j < i ==> (#[trigger] table@[j]).0@ != symbol@,
        decreases table@.len() - i,
    {
        if table[i].0 == *symbol {
            return Some(i);
        }
        i = i + 1;
    }
    None
}

/// Lays out the basis of a molecule from the basis sets of its elements:
/// atom after atom, shell after shell, component after component.
pub fn build_basis<T: Copy>(geometry: &CartesianGeometry<T>, table: &BasisTable<T>) -> (basis:
    AoBasis<T>)
    requires
        geometry.wf(),
        covers(table@, geometry.symbols@),
    ensures
        basis@ == ao_basis_spec(*geometry, table@),
{
    let mut basis = AoBasis::empty();
    let mut a: usize = 0;
    while a < geometry.symbols.len()
        invariant
            a <= geometry.symbols@.len(),
            geometry.wf(),
            covers(table@, geometry.symbols@),
            basis.counted(),
            basis@ == AoBasisView::of_shells(placed_shells(*geometry, table@, a as nat)),
        decreases geometry.symbols@.len() - a,
    {
        let ghost done = placed_shells(*geometry, table@, a as nat);
        let ghost todo = atom_shells(*geometry, table@, a as int);
        assert(has_entry(table@, geometry.symbols@[a as int]@));
        match find_entry(table, &geometry.symbols[a]) {
            Some(i) => {
                proof {
                    lemma_entry_unique(table@, geometry.symbols@[a as int]@, i as int);
                }
                let shells = &table[i].1.shells;
                let x = geometry.x[a];
                let y = geometry.y[a];
                let z = geometry.z[a];
                assert(done + todo.take(0) =~= done);
                let mut s: usize = 0;
                while s < shells.len()
                    invariant
                        s <= shells@.len(),
                        todo.len() == shells@.len(),
                        forall|k: int|
                            0 <= k < shells@.len() ==> #[trigger] todo[k] == (PlacedShell {
                                atom: a as nat,
                                x,
                                y,
                                z,
                                shell: shells@[k],
                            }),
                        basis.counted(),
                        basis@ == AoBasisView::of_shells(done + todo.take(s as int)),
                    decreases shells@.len() - s,
                {
                    basis.push_shell(a, x, y, z, &shells[s]);
                    proof {
                        let grown = done + todo.take(s + 1);
                        assert(grown.drop_last() =~= done + todo.take(s as int));
                        assert(grown.last() == todo[s as int]);
                    }
                    s = s + 1;
                }
                assert(done + todo.take(shells@.len() as int) =~= done + todo);
            },
            None => {},
        }
        a = a + 1;
    }
    basis
}

/// The symbol `s` is among the symbols.
pub open spec fn occurs(symbols: Seq<String>, s: Seq<char>) -> bool {
    exists|i: int| 0 <= i < symbols.len() && (#[trigger] symbols[i])@ == s
}

/// The symbols without repetition, each at the place of its first
/// occurrence.
pub open spec fn distinct_symbols(symbols: Seq<String>) -> Seq<String>
    decreases symbols.len(),
{
    if symbols.len() == 0 {
        Seq::empty()
    } else if occurs(symbols.drop_last(), symbols.last()@) {
        distinct_symbols(symbols.drop_last())
    } else {
        distinct_symbols(symbols.drop_last()).push(symbols.last())
    }
}

/// The distinct symbols are the symbols that occur, and none of them twice.
pub proof fn lemma_distinct_symbols(symbols: Seq<String>)
    ensures
        forall|s: Seq<char>| occurs(distinct_symbols(symbols), s) <==> occurs(symbols, s),
        forall|i: int, j: int|
            0 <= i < j < distinct_symbols(symbols).len() ==> (#[trigger] distinct_symbols(
                symbols,
            )[i])@ != (#[trigger] distinct_symbols(symbols)[j])@,
        distinct_symbols(symbols).len() <= symbols.len(),
    decreases symbols.len(),
{
    if symbols.len() > 0 {
        let init = symbols.drop_last();
        let last = symbols.last();
        let d = distinct_symbols(symbols);
        let di = distinct_symbols(init);
        lemma_distinct_symbols(init);
        assert forall|s: Seq<char>| occurs(d, s) <==> occurs(symbols, s) by {
            if occurs(d, s) {
                let i = choose|i: int| 0 <= i < d.len() && (#[trigger] d[i])@ == s;
                if i < di.len() {
                    assert(di[i]@ == s);
                    assert(occurs(di, s));
                    assert(occurs(init, s));
                    let k = choose|k: int| 0 <= k < init.len() && (#[trigger] init[k])@ == s;
                    assert(symbols[k]@ == s);
                } else {
                    assert(symbols[symbols.len() - 1]@ == s);
                }
            }
            if occurs(symbols, s) {
                let k = choose|k: int| 0 <= k < symbols.len() && (#[trigger] symbols[k])@ == s;
                if k < init.len() {
                    assert(init[k]@ == s);
                    assert(occurs(init, s));
                    assert(occurs(di, s));
                    let i = choose|i: int| 0 <= i < di.len() && (#[trigger] di[i])@ == s;
                    assert(d[i]@ == s);
                } else if occurs(init, last@) {
                    assert(occurs(di, s));
                } else {
                    assert(d[d.len() - 1]@ == s);
                }
            }
        }
        assert forall|i: int, j: int| 0 <= i < j < d.len() implies (#[trigger] d[i])@ != (
        #[trigger] d[j])@ by {
            if j >= di.len() {
                assert(di[i] == d[i]);
                if d[i]@ == d[j]@ {
                    assert(occurs(di, last@));
                }
            } else {
                assert(di[i] == d[i]);
                assert(di[j] == d[j]);
            }
        }
    }
}

/// The set of the symbols that occur.
pub open spec fn symbol_set(symbols: Seq<String>) -> Set<Seq<char>> {
    Set::new(|s: Seq<char>| occurs(symbols, s))
}

/// There are as many distinct symbols as the symbols form a set of.
pub proof fn lemma_distinct_count(symbols: Seq<String>)
    ensures
        symbol_set(symbols).finite(),
        distinct_symbols(symbols).len() == symbol_set(symbols).len(),
    decreases symbols.len(),
{
    if symbols.len() == 0 {
        assert(symbol_set(symbols) =~= Set::empty());
    } else {
        let init = symbols.drop_last();
        let last = symbols.last();
        lemma_distinct_count(init);
        assert(symbol_set(symbols) =~= symbol_set(init).insert(last@)) by {
            assert forall|s: Seq<char>| occurs(symbols, s) <==> (occurs(init, s) || s == last@) by {
                if occurs(symbols, s) {
                    let k = choose|k: int| 0 <= k < symbols.len() && (#[trigger] symbols[k])@ == s;
                    if k < init.len() {
                        assert(init[k]@ == s);
                    }
                }
                if occurs(init, s) {
                    let k = choose|k: int| 0 <= k < init.len() && (#[trigger] init[k])@ == s;
                    assert(symbols[k]@ == s);
                }
                if s == last@ {
                    assert(symbols[symbols.len() - 1]@ == s);
                }
            }
        }
    }
}

/// The symbols of the molecule's elements: each symbol once, in the order
/// of first occurrence.
pub fn unique_symbols(symbols: &Vec<String>) -> (unique: Vec<String>)
    ensures
        unique@ == distinct_symbols(symbols@),
{
    let mut unique: Vec<String> = Vec::new();
    let mut a: usize = 0;
    while a < symbols.len()
        invariant
            a <= symbols@.len(),
            unique@ == distinct_symbols(symbols@.take(a as int)),
        decreases symbols@.len() - a,
    {
        let ghost seen = symbols@.take(a as int);
        proof {
            lemma_distinct_symbols(seen);
            assert(symbols@.take(a + 1).drop_last() =~= seen);
        }
        let mut known = false;
        let mut i: usize = 0;
        while i < unique.len()
            invariant
                i <= unique@.len(),
                a < symbols@.len(),
                known <==> exists|j: int| 0 <= j < i && (#[trigger] unique@[j])@ == symbols@[a as int]@,
            decreases unique@.len() - i,
        {
            if unique[i] == symbols[a] {
                known = true;
            }
            i = i + 1;
        }
        assert(known <==> occurs(unique@, symbols@[a as int]@));
        if !known {
            unique.push(symbols[a].clone());
        }
        a = a + 1;
    }
    assert(symbols@.take(symbols@.len() as int) =~= symbols@);
    unique
}

/// The table holds, under each of the distinct symbols and in their order,
/// a basis set that the lookup returned for that symbol.
pub open spec fn loaded_by<T, F: Fn(&String) -> Result<BasisSet<T>, InitError>>(
    load_fn: F,
    symbols: Seq<String>,
    table: Seq<(String, BasisSet<T>)>,
) -> bool {
    let unique = distinct_symbols(symbols);
    &&& table.len() == unique.len()
    &&& forall|i: int|
        0 <= i < unique.len() ==> (#[trigger] table[i]).0 == unique[i] && call_ensures(
            load_fn,
            (&unique[i],),
            Ok::<BasisSet<T>, InitError>(table[i].1),
        )
}

/// The lookup can return a basis set for the symbol.
pub open spec fn can_load<T, F: Fn(&String) -> Result<BasisSet<T>, InitError>>(
    load_fn: F,
    symbol: String,
) -> bool {
    exists|set: BasisSet<T>| call_ensures(load_fn, (&symbol,), Ok::<BasisSet<T>, InitError>(set))
}

/// The lookup returned a basis set for some of the distinct symbols, from
/// the first one on, and then failed with `error` for the next.
pub open spec fn failed_by<T, F: Fn(&String) -> Result<BasisSet<T>, InitError>>(
    load_fn: F,
    symbols: Seq<String>,
    error: InitError,
) -> bool {
    let unique = distinct_symbols(symbols);
    exists|i: int|
        {
            &&& 0 <= i < unique.len()
            &&& call_ensures(load_fn, (&#[trigger] unique[i],), Err::<BasisSet<T>, InitError>(error))
            &&& forall|j: int| 0 <= j < i ==> can_load(load_fn, #[trigger] unique[j])
        }
}

/// Asks the lookup for the basis set of each element of the molecule: once
/// for each distinct symbol, in the order of first occurrence, and not again
/// after the first failure.
pub fn load_table<T, F>(symbols: &Vec<String>, load_fn: F) -> (result: Result<
    BasisTable<T>,
    InitError,
>) where F: Fn(&String) -> Result<BasisSet<T>, InitError>
    requires
        forall|i: int|
            0 <= i < symbols@.len() ==> call_requires(load_fn, (&#[trigger] symbols@[i],)),
    ensures
        match result {
            Ok(table) => loaded_by(load_fn, symbols@, table@) && covers(table@, symbols@),
            Err(error) => failed_by(load_fn, symbols@, error),
        },
{
    let unique = unique_symbols(symbols);
    proof {
        lemma_distinct_symbols(symbols@);
        assert forall|i: int| 0 <= i < unique@.len() implies call_requires(
            load_fn,
            (&#[trigger] unique@[i],),
        ) by {
            assert(occurs(unique@, unique@[i]@));
            assert(occurs(symbols@, unique@[i]@));
            let k = choose|k: int| 0 <= k < symbols@.len() && (#[trigger] symbols@[k])@ == unique@[i]@;
            lemma_symbol_among(symbols@, i);
        }
    }
    let mut table: BasisTable<T> = Vec::new();
    let mut k: usize = 0;
    while k < unique.len()
        invariant
            k <= unique@.len(),
            unique@ == distinct_symbols(symbols@),
            table@.len() == k,
            forall|i: int| 0 <= i < unique@.len() ==> call_requires(load_fn, (&#[trigger] unique@[i],)),
            forall|i: int|
                0 <= i < k ==> (#[trigger] table@[i]).0 == unique@[i] && call_ensures(
                    load_fn,
                    (&unique@[i],),
                    Ok::<BasisSet<T>, InitError>(table@[i].1),
                ),
        decreases unique@.len() - k,
    {
        match load_fn(&unique[k]) {
            Ok(set) => {
                table.push((unique[k].clone(), set));
            },
            Err(error) => {
                proof {
                    assert forall|j: int| 0 <= j < k implies can_load(
                        load_fn,
                        #[trigger] unique@[j],
                    ) by {
                        assert(call_ensures(
                            load_fn,
                            (&unique@[j],),
                            Ok::<BasisSet<T>, InitError>(table@[j].1),
                        ));
                    }
                }
                return Err(error);
            },
        }
        k = k + 1;
    }
    proof {
        assert forall|a: int| 0 <= a < symbols@.len() implies has_entry(
            table@,
            #[trigger] symbols@[a]@,
        ) by {
            assert(occurs(symbols@, symbols@[a]@));
            assert(occurs(unique@, symbols@[a]@));
            let i = choose|i: int| 0 <= i < unique@.len() && (#[trigger] unique@[i])@ == symbols@[a]@;
            assert(table@[i].0@ == symbols@[a]@);
        }
    }
    Ok(table)
}

/// Each distinct symbol is one of the symbols themselves.
proof fn lemma_symbol_among(symbols: Seq<String>, i: int)
    requires
        0 <= i < distinct_symbols(symbols).len(),
    ensures
        exists|k: int| 0 <= k < symbols.len() && #[trigger] symbols[k] == distinct_symbols(symbols)[i],
    decreases symbols.len(),
{
    let init = symbols.drop_last();
    if i < distinct_symbols(init).len() {
        lemma_symbol_among(init, i);
        let k = choose|k: int| 0 <= k < init.len() && #[trigger] init[k] == distinct_symbols(init)[i];
        assert(symbols[k] == distinct_symbols(symbols)[i]);
    } else {
        assert(symbols[symbols.len() - 1] == distinct_symbols(symbols)[i]);
    }
}

/// Builds the basis of a molecule with a lookup of the caller's choice.
///
/// The lookup is asked once for each distinct element symbol. If it fails,
/// its error is returned as it is and no basis is built.
pub fn init_basis_impl<T: Copy, F>(geometry: &CartesianGeometry<T>, load_fn: F) -> (result: Result<
    AoBasis<T>,
    InitError,
>) where F: Fn(&String) -> Result<BasisSet<T>, InitError>
    requires
        geometry.wf(),
        forall|i: int|
            0 <= i < geometry.symbols@.len() ==> call_requires(
                load_fn,
                (&#[trigger] geometry.symbols@[i],),
            ),
    ensures
        match result {
            Ok(basis) => exists|table: Seq<(String, BasisSet<T>)>|
                #[trigger] loaded_by(load_fn, geometry.symbols@, table) && basis@ == ao_basis_spec(
                    *geometry,
                    table,
                ),
            Err(error) => failed_by(load_fn, geometry.symbols@, error),
        },
{
    match load_table(&geometry.symbols, load_fn) {
        Ok(table) => Ok(build_basis(geometry, &table)),
        Err(error) => Err(error),
    }
}

/// The loader returned, for the named basis, a basis set for each of the
/// distinct symbols, and the table holds them in that order.
pub open spec fn loaded_from<T, L: Fn(&String, &str) -> Result<BasisSet<T>, LoadError>>(
    loader: L,
    basis_name: &str,
    symbols: Seq<String>,
    table: Seq<(String, BasisSet<T>)>,
) -> bool {
    let unique = distinct_symbols(symbols);
    &&& table.len() == unique.len()
    &&& forall|i: int|
        0 <= i < unique.len() ==> (#[trigger] table[i]).0 == unique[i] && call_ensures(
            loader,
            (&unique[i], basis_name),
            Ok::<BasisSet<T>, LoadError>(table[i].1),
        )
}

/// The loader can return a basis set for the symbol.
pub open spec fn can_load_from<T, L: Fn(&String, &str) -> Result<BasisSet<T>, LoadError>>(
    loader: L,
    basis_name: &str,
    symbol: String,
) -> bool {
    exists|set: BasisSet<T>|
        call_ensures(loader, (&symbol, basis_name), Ok::<BasisSet<T>, LoadError>(set))
}

/// The loader returned a basis set for some of the distinct symbols, from
/// the first one on, and then failed with `source` for the symbol `element`.
pub open spec fn failed_from<T, L: Fn(&String, &str) -> Result<BasisSet<T>, LoadError>>(
    loader: L,
    basis_name: &str,
    symbols: Seq<String>,
    element: String,
    source: LoadError,
) -> bool {
    let unique = distinct_symbols(symbols);
    exists|i: int|
        {
            &&& 0 <= i < unique.len()
            &&& element@ == (#[trigger] unique[i])@
            &&& call_ensures(loader, (&unique[i], basis_name), Err::<BasisSet<T>, LoadError>(source))
            &&& forall|j: int| 0 <= j < i ==> can_load_from(loader, basis_name, #[trigger] unique[j])
        }
}

/// The loader may be asked for the symbol.
pub open spec fn may_ask<T, L: Fn(&String, &str) -> Result<BasisSet<T>, LoadError>>(
    loader: &L,
    symbol: &String,
    basis_name: &str,
) -> bool {
    call_requires(*loader, (symbol, basis_name))
}

/// The loader, asked for the symbol, may answer with `answer`.
pub open spec fn answers<T, L: Fn(&String, &str) -> Result<BasisSet<T>, LoadError>>(
    loader: &L,
    symbol: &String,
    basis_name: &str,
    answer: Result<BasisSet<T>, LoadError>,
) -> bool {
    call_ensures(*loader, (symbol, basis_name), answer)
}

/// Builds the basis of a molecule in the named basis set.
///
/// `loader` is asked, with the element symbol and the name of the basis set,
/// once for each distinct element symbol of the molecule. If it fails for a
/// symbol, the result names that symbol and carries the loader's error.
pub fn init_basis<T: Copy, L>(
    geometry: &CartesianGeometry<T>,
    basis_name: &str,
    loader: L,
) -> (result: Result<AoBasis<T>, InitError>) where
    L: Fn(&String, &str) -> Result<BasisSet<T>, LoadError>,

    requires
        geometry.wf(),
        forall|i: int|
            0 <= i < geometry.symbols@.len() ==> call_requires(
                loader,
                (&#[trigger] geometry.symbols@[i], basis_name),
            ),
    ensures
        match result {
            Ok(basis) => exists|table: Seq<(String, BasisSet<T>)>|
                #[trigger] loaded_from(loader, basis_name, geometry.symbols@, table) && basis@
                    == ao_basis_spec(*geometry, table),
            Err(InitError::BasisLoad { element, source }) => failed_from(
                loader,
                basis_name,
                geometry.symbols@,
                element,
                source,
            ),
        },
{
    let by_ref = &loader;
    let load_fn = |element: &String| -> (loaded: Result<BasisSet<T>, InitError>)
        requires
            may_ask(by_ref, element, basis_name),
        ensures
            match loaded {
                Ok(set) => answers(by_ref, element, basis_name, Ok::<BasisSet<T>, LoadError>(set)),
                Err(InitError::BasisLoad { element: name, source }) => name@ == element@
                    && answers(
                    by_ref,
                    element,
                    basis_name,
                    Err::<BasisSet<T>, LoadError>(source),
                ),
            },
        {
            match by_ref(element, basis_name) {
                Ok(set) => Ok(set),
                Err(source) => Err(InitError::BasisLoad { element: element.clone(), source }),
            }
        };
    let result = init_basis_impl(geometry, load_fn);
    proof {
        let unique = distinct_symbols(geometry.symbols@);
        if result is Ok {
            let basis = result->Ok_0;
            let table = choose|table: Seq<(String, BasisSet<T>)>|
                #[trigger] loaded_by(load_fn, geometry.symbols@, table) && basis@ == ao_basis_spec(
                    *geometry,
                    table,
                );
            assert(loaded_from(loader, basis_name, geometry.symbols@, table));
        } else {
            let error = result->Err_0;
            let i = choose|i: int|
                {
                    &&& 0 <= i < unique.len()
                    &&& call_ensures(
                        load_fn,
                        (&#[trigger] unique[i],),
                        Err::<BasisSet<T>, InitError>(error),
                    )
                    &&& forall|j: int| 0 <= j < i ==> can_load(load_fn, #[trigger] unique[j])
                };
            assert forall|j: int| 0 <= j < i implies can_load_from(
                loader,
                basis_name,
                #[trigger] unique[j],
            ) by {
                assert(can_load(load_fn, unique[j]));
                let set = choose|set: BasisSet<T>|
                    call_ensures(load_fn, (&unique[j],), Ok::<BasisSet<T>, InitError>(set));
                assert(call_ensures(
                    loader,
                    (&unique[j], basis_name),
                    Ok::<BasisSet<T>, LoadError>(set),
                ));
            }
            assert(error->element@ == unique[i]@);
        }
    }
    result
}

} // verus!
