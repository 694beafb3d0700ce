//! How the basis set of one element is read from a JSON text in the
//! QCSchema form of the basis-set service.
//!
//! The text holds one element under its atomic number, and for it a list
//! of electron shells. A shell with several angular momenta has one vector
//! of coefficients for each of them over the same exponents, and is read as
//! so many shells. Exponents and coefficients stand in the text as strings;
//! how such a string is read as a real number is the caller's.

use crate::basis::{BasisSet, ElectronShell, ParseError, ParseErrorView};
use crate::collect::{
    concat_all, lemma_read_all_accepted, lemma_read_all_refused, lemma_read_all_values, read_all,
};
use crate::document::{json_document, parse_json, Json};
use crate::elements::{element_name, element_symbol, MAX_ATOMIC_NUMBER};
use crate::text::{decimal, decimal_of, join3, parse_u32, quoted, quoted_of, u32_of_text};
use vstd::prelude::*;

verus! {

/// An `ElectronShell` as mathematical sequences.
pub struct ElectronShellView<T> {
    pub angular_momentum: u32,
    pub exponents: Seq<T>,
    pub coefficients: Seq<T>,
}

/// A `BasisSet` as mathematical sequences.
pub struct BasisSetView<T> {
    pub element: Seq<char>,
    pub atomic_number: u32,
    pub shells: Seq<ElectronShellView<T>>,
}

impl<T> View for ElectronShell<T> {
    type V = ElectronShellView<T>;

    open spec fn view(&self) -> ElectronShellView<T> {
        ElectronShellView {
            angular_momentum: self.angular_momentum,
            exponents: self.exponents@,
            coefficients: self.coefficients@,
        }
    }
}

impl<T> View for BasisSet<T> {
    type V = BasisSetView<T>;

    open spec fn view(&self) -> BasisSetView<T> {
        BasisSetView {
            element: self.element@,
            atomic_number: self.atomic_number,
            shells: Seq::new(self.shells@.len(), |i: int| self.shells@[i]@),
        }
    }
}

/// How a string is read as a real number, if it stands for one.
pub type Reading<T> = spec_fn(String) -> Option<T>;

/// The caller's reader gives one answer for one string.
pub open spec fn deterministic<T, P: Fn(&String) -> Option<T>>(parse_real: P) -> bool {
    forall|s: String, a: Option<T>, b: Option<T>|
        call_ensures(parse_real, (&s,), a) && call_ensures(parse_real, (&s,), b) ==> a == b
}

/// The reading that the caller's reader gives.
pub open spec fn reading_of<T, P: Fn(&String) -> Option<T>>(parse_real: P) -> Reading<T> {
    |s: String| choose|r: Option<T>| call_ensures(parse_real, (&s,), r)
}

/// The error of shell `index`.
pub open spec fn malformed(index: usize, reason: Seq<char>) -> ParseErrorView {
    ParseErrorView::MalformedShell { index, reason }
}

/// How an angular momentum of a shell is read: an integer from 0 to
/// 2^64 - 1, cut to 32 bits.
pub open spec fn momentum_reader(index: usize) -> spec_fn(int, Json) -> Result<
    u32,
    ParseErrorView,
> {
    |k: int, item: Json|
        match item.unsigned() {
            Some(n) => Ok(n as u32),
            None => Err(
                malformed(
                    index,
                    "angular_momentum entry "@ + item.shown@ + " is not a non-negative integer"@,
                ),
            ),
        }
}

/// How an exponent or a coefficient of a shell is read: a string that
/// stands for a real number. `what` is `exponent` or `coefficient`.
pub open spec fn number_reader<T>(index: usize, what: Seq<char>, reading: Reading<T>) -> spec_fn(
    int,
    Json,
) -> Result<T, ParseErrorView> {
    |k: int, item: Json|
        match item.string() {
            None => Err(malformed(index, what + " "@ + item.shown@ + " is not a string"@)),
            Some(s) => match reading(s) {
                Some(x) => Ok(x),
                None => Err(
                    malformed(
                        index,
                        "cannot parse "@ + what + " "@ + quoted_of(s@) + " as f64"@,
                    ),
                ),
            },
        }
}

/// The words for a vector of coefficients of the wrong length.
pub open spec fn wrong_length(values: nat, exponents: nat) -> Seq<char> {
    "coefficient vector has "@ + decimal_of(values) + " values but there are "@ + decimal_of(
        exponents,
    ) + " exponents"@
}

/// The words for the wrong number of vectors of coefficients.
pub open spec fn wrong_count(momenta: nat, vectors: nat) -> Seq<char> {
    "expected "@ + decimal_of(momenta)
        + " coefficient vector(s) to match angular_momentum, found "@ + decimal_of(vectors)
}

/// How a vector of coefficients of a shell is read: an array of as many
/// coefficients as the shell has exponents.
pub open spec fn coefficients_reader<T>(index: usize, exponents: nat, reading: Reading<T>) -> spec_fn(
    int,
    Json,
) -> Result<Seq<T>, ParseErrorView> {
    |k: int, item: Json|
        match item.items() {
            None => Err(malformed(index, "coefficient set is not an array"@)),
            Some(values) => if values.len() != exponents {
                Err(malformed(index, wrong_length(values.len(), exponents)))
            } else {
                read_all(values, number_reader(index, "coefficient"@, reading))
            },
        }
}

/// The shells that one entry of `electron_shells` stands for: one for each
/// of its angular momenta, all over the same exponents. Angular momenta,
/// exponents and coefficients are read in this order.
pub open spec fn parse_shell_spec<T>(index: usize, shell: Json, reading: Reading<T>) -> Result<
    Seq<ElectronShellView<T>>,
    ParseErrorView,
> {
    match shell.array_member("angular_momentum"@) {
        None => Err(malformed(index, "missing or invalid angular_momentum"@)),
        Some(entries) => if entries.len() == 0 {
            Err(malformed(index, "angular_momentum is empty"@))
        } else {
            match read_all(entries, momentum_reader(index)) {
                Err(error) => Err(error),
                Ok(momenta) => match shell.array_member("exponents"@) {
                    None => Err(malformed(index, "missing or invalid exponents"@)),
                    Some(texts) => match read_all(
                        texts,
                        number_reader(index, "exponent"@, reading),
                    ) {
                        Err(error) => Err(error),
                        Ok(exponents) => match shell.array_member("coefficients"@) {
                            None => Err(malformed(index, "missing or invalid coefficients"@)),
                            Some(vectors) => if vectors.len() != momenta.len() {
                                Err(malformed(index, wrong_count(momenta.len(), vectors.len())))
                            } else {
                                match read_all(
                                    vectors,
                                    coefficients_reader(index, exponents.len(), reading),
                                ) {
                                    Err(error) => Err(error),
                                    Ok(coefficients) => Ok(
                                        Seq::new(
                                            momenta.len(),
                                            |k: int|
                                                ElectronShellView {
                                                    angular_momentum: momenta[k],
                                                    exponents,
                                                    coefficients: coefficients[k],
                                                },
                                        ),
                                    ),
                                }
                            },
                        },
                    },
                },
            }
        },
    }
}

/// How an entry of `electron_shells` is read.
pub open spec fn shell_reader<T>(reading: Reading<T>) -> spec_fn(int, Json) -> Result<
    Seq<ElectronShellView<T>>,
    ParseErrorView,
> {
    |index: int, shell: Json| parse_shell_spec(index as usize, shell, reading)
}

/// The atomic number that the name of a member stands for: a number from 1
/// to 118.
pub open spec fn atomic_number_spec(name: Seq<char>) -> Result<u32, ParseErrorView> {
    match u32_of_text(name) {
        Some(z) => if 1 <= z <= MAX_ATOMIC_NUMBER {
            Ok(z)
        } else {
            Err(ParseErrorView::InvalidAtomicNumber(name))
        },
        None => Err(ParseErrorView::InvalidAtomicNumber(name)),
    }
}

/// The basis set that a JSON value holds: the member `elements` is an
/// object with one member, named by an atomic number, and that member has
/// a list `electron_shells` that is not empty.
pub open spec fn parse_basis_json_spec<T>(json: Json, reading: Reading<T>) -> Result<
    BasisSetView<T>,
    ParseErrorView,
> {
    match json.member("elements"@) {
        None => Err(ParseErrorView::NoElements),
        Some(elements) => match elements.members() {
            None => Err(ParseErrorView::NoElements),
            Some(members) => if members.len() == 0 {
                Err(ParseErrorView::NoElements)
            } else if members.len() > 1 {
                Err(ParseErrorView::MultipleElements { found: members.len() as usize })
            } else {
                match atomic_number_spec(members[0].0@) {
                    Err(error) => Err(error),
                    Ok(z) => match members[0].1.array_member("electron_shells"@) {
                        None => Err(ParseErrorView::NoElectronShells),
                        Some(entries) => if entries.len() == 0 {
                            Err(ParseErrorView::NoElectronShells)
                        } else {
                            match read_all(entries, shell_reader(reading)) {
                                Err(error) => Err(error),
                                Ok(groups) => Ok(
                                    BasisSetView {
                                        element: element_name(z),
                                        atomic_number: z,
                                        shells: concat_all(groups),
                                    },
                                ),
                            }
                        },
                    },
                }
            },
        },
    }
}

/// The basis set that a file holds, given what reading the file gave: its
/// content, or the words of the error.
pub open spec fn parse_basis_spec<T>(content: Result<Seq<char>, Seq<char>>, reading: Reading<T>) -> Result<
    BasisSetView<T>,
    ParseErrorView,
> {
    match content {
        Err(words) => Err(ParseErrorView::IoError(words)),
        Ok(text) => match json_document(text) {
            Err(words) => Err(ParseErrorView::InvalidJson(words)),
            Ok(json) => parse_basis_json_spec(json, reading),
        },
    }
}

/// The shell has a coefficient for each of its exponents.
pub open spec fn shell_wf<T>(shell: ElectronShellView<T>) -> bool {
    shell.coefficients.len() == shell.exponents.len()
}

/// The shells that an entry stands for have a coefficient for each exponent,
/// and there is at least one of them.
pub proof fn lemma_accepted_shell<T>(index: usize, shell: Json, reading: Reading<T>)
    requires
        parse_shell_spec(index, shell, reading) is Ok,
    ensures
        parse_shell_spec(index, shell, reading)->Ok_0.len() > 0,
        forall|k: int|
            0 <= k < parse_shell_spec(index, shell, reading)->Ok_0.len() ==> shell_wf(
                #[trigger] parse_shell_spec(index, shell, reading)->Ok_0[k],
            ),
{
    let entries = shell.array_member("angular_momentum"@)->0;
    let texts = shell.array_member("exponents"@)->0;
    let vectors = shell.array_member("coefficients"@)->0;
    let exponents = read_all(texts, number_reader(index, "exponent"@, reading))->Ok_0;
    let read = coefficients_reader(index, exponents.len(), reading);
    lemma_read_all_values(entries, momentum_reader(index));
    lemma_read_all_values(vectors, read);
    let shells = parse_shell_spec(index, shell, reading)->Ok_0;
    assert forall|k: int| 0 <= k < shells.len() implies shell_wf(#[trigger] shells[k]) by {
        assert(read(k, vectors[k]) is Ok);
        let values = vectors[k].items()->0;
        lemma_read_all_values(values, number_reader(index, "coefficient"@, reading));
    }
}

/// Every member of the groups one after the other is a member of a group.
proof fn lemma_concat_member<A>(groups: Seq<Seq<A>>, k: int)
    requires
        0 <= k < concat_all(groups).len(),
    ensures
        exists|g: int, i: int|
            0 <= g < groups.len() && 0 <= i < groups[g].len() && concat_all(groups)[k]
                == #[trigger] groups[g][i],
    decreases groups.len(),
{
    let front = concat_all(groups.drop_last());
    if k < front.len() {
        lemma_concat_member(groups.drop_last(), k);
        let (g, i) = choose|g: int, i: int|
            0 <= g < groups.drop_last().len() && 0 <= i < groups.drop_last()[g].len() && front[k]
                == #[trigger] groups.drop_last()[g][i];
        assert(concat_all(groups)[k] == groups[g][i]);
    } else {
        assert(concat_all(groups)[k] == groups[groups.len() - 1][k - front.len()]);
    }
}

/// What holds of a basis set that was accepted: it is the basis set of the
/// element of its atomic number, a number from 1 to 118; it has a shell;
/// and every shell has a coefficient for each of its exponents.
pub proof fn lemma_accepted_basis<T>(json: Json, reading: Reading<T>)
    requires
        parse_basis_json_spec(json, reading) is Ok,
    ensures
        ({
            let basis = parse_basis_json_spec(json, reading)->Ok_0;
            &&& 1 <= basis.atomic_number <= MAX_ATOMIC_NUMBER
            &&& basis.element == element_name(basis.atomic_number)
            &&& basis.shells.len() > 0
            &&& forall|k: int| 0 <= k < basis.shells.len() ==> shell_wf(#[trigger] basis.shells[k])
        }),
{
    let members = json.member("elements"@)->0.members()->0;
    let entries = members[0].1.array_member("electron_shells"@)->0;
    let read = shell_reader(reading);
    lemma_read_all_values(entries, read);
    let groups = read_all(entries, read)->Ok_0;
    let basis = parse_basis_json_spec(json, reading)->Ok_0;
    assert forall|k: int| 0 <= k < basis.shells.len() implies shell_wf(
        #[trigger] basis.shells[k],
    ) by {
        lemma_concat_member(groups, k);
        let (g, i) = choose|g: int, i: int|
            0 <= g < groups.len() && 0 <= i < groups[g].len() && concat_all(groups)[k]
                == #[trigger] groups[g][i];
        assert(read(g, entries[g]) == Ok::<Seq<ElectronShellView<T>>, ParseErrorView>(groups[g]));
        lemma_accepted_shell(g as usize, entries[g], reading);
    }
    assert(basis.shells.len() > 0) by {
        let last = groups.len() - 1;
        assert(read(last, entries[last]) == Ok::<Seq<ElectronShellView<T>>, ParseErrorView>(
            groups[last],
        ));
        lemma_accepted_shell(last as usize, entries[last], reading);
    }
}

/// The error of shell `index`.
fn malformed_shell(index: usize, reason: &str) -> (error: ParseError)
    ensures
        error@ == malformed(index, reason@),
{
    ParseError::MalformedShell { index, reason: String::from_str(reason) }
}

/// Reads the angular momenta of a shell.
fn read_momenta(entries: &Vec<Json>, index: usize) -> (result: Result<Vec<u32>, ParseError>)
    ensures
        match result {
            Ok(momenta) => read_all(entries@, momentum_reader(index)) == Ok::<
                Seq<u32>,
                ParseErrorView,
            >(momenta@),
            Err(error) => read_all(entries@, momentum_reader(index)) == Err::<
                Seq<u32>,
                ParseErrorView,
            >(error@),
        },
{
    let mut momenta: Vec<u32> = Vec::new();
    let mut k: usize = 0;
    while k < entries.len()
        invariant
            k <= entries@.len(),
            momenta@.len() == k,
            forall|i: int|
                0 <= i < k ==> (#[trigger] momentum_reader(index)(i, entries@[i])) == Ok::<
                    u32,
                    ParseErrorView,
                >(momenta@[i]),
        decreases entries@.len() - k,
    {
        match entries[k].as_u64() {
            Some(n) => {
                momenta.push(#[verifier::truncate] (n as u32));
            },
            None => {
                proof {
                    lemma_read_all_refused(entries@, momentum_reader(index), k as int);
                }
                return Err(
                    malformed_shell(
                        index,
                        join3(
                            "angular_momentum entry ",
                            entries[k].shown.as_str(),
                            " is not a non-negative integer",
                        ).as_str(),
                    ),
                );
            },
        }
        k = k + 1;
    }
    proof {
        lemma_read_all_accepted(entries@, momentum_reader(index), momenta@);
    }
    Ok(momenta)
}

/// Reads the exponents of a shell, or the coefficients of one of its
/// vectors.
fn read_numbers<T, P>(items: &Vec<Json>, index: usize, what: &str, parse_real: &P) -> (result:
    Result<Vec<T>, ParseError>) where P: Fn(&String) -> Option<T>
    requires
        deterministic(*parse_real),
        forall|s: String| call_requires(*parse_real, (&s,)),
    ensures
        match result {
            Ok(numbers) => read_all(items@, number_reader(index, what@, reading_of(*parse_real)))
                == Ok::<Seq<T>, ParseErrorView>(numbers@),
            Err(error) => read_all(items@, number_reader(index, what@, reading_of(*parse_real)))
                == Err::<Seq<T>, ParseErrorView>(error@),
        },
{
    let ghost read = number_reader(index, what@, reading_of(*parse_real));
    let mut numbers: Vec<T> = Vec::new();
    let mut k: usize = 0;
    while k < items.len()
        invariant
            k <= items@.len(),
            numbers@.len() == k,
            deterministic(*parse_real),
            forall|s: String| call_requires(*parse_real, (&s,)),
            read == number_reader(index, what@, reading_of(*parse_real)),
            forall|i: int|
                0 <= i < k ==> (#[trigger] read(i, items@[i])) == Ok::<T, ParseErrorView>(
                    numbers@[i],
                ),
        decreases items@.len() - k,
    {
        let text = match items[k].as_string() {
            Some(text) => text,
            None => {
                proof {
                    lemma_read_all_refused(items@, read, k as int);
                }
                let mut reason = join3(what, " ", items[k].shown.as_str());
                reason.append(" is not a string");
                return Err(malformed_shell(index, reason.as_str()));
            },
        };
        match parse_real(text) {
            Some(x) => {
                numbers.push(x);
            },
            None => {
                proof {
                    lemma_read_all_refused(items@, read, k as int);
                }
                let mut reason = join3("cannot parse ", what, " ");
                reason.append(quoted(text.as_str()).as_str());
                reason.append(" as f64");
                return Err(malformed_shell(index, reason.as_str()));
            },
        }
        k = k + 1;
    }
    proof {
        lemma_read_all_accepted(items@, read, numbers@);
    }
    Ok(numbers)
}

/// Reads one vector of coefficients of a shell.
fn read_coefficients<T, P>(item: &Json, index: usize, exponents: usize, parse_real: &P) -> (result:
    Result<Vec<T>, ParseError>) where P: Fn(&String) -> Option<T>
    requires
        deterministic(*parse_real),
        forall|s: String| call_requires(*parse_real, (&s,)),
    ensures
        match result {
            Ok(numbers) => coefficients_reader(index, exponents as nat, reading_of(*parse_real))(
                0,
                *item,
            ) == Ok::<Seq<T>, ParseErrorView>(numbers@),
            Err(error) => coefficients_reader(index, exponents as nat, reading_of(*parse_real))(
                0,
                *item,
            ) == Err::<Seq<T>, ParseErrorView>(error@),
        },
{
    let values = match item.as_array() {
        Some(values) => values,
        None => {
            return Err(malformed_shell(index, "coefficient set is not an array"));
        },
    };
    if values.len() != exponents {
        let mut reason = join3(
            "coefficient vector has ",
            decimal(values.len() as u128).as_str(),
            " values but there are ",
        );
        reason.append(decimal(exponents as u128).as_str());
        reason.append(" exponents");
        return Err(malformed_shell(index, reason.as_str()));
    }
    read_numbers(values, index, "coefficient", parse_real)
}

/// A copy of a vector.
fn copy_of<T: Copy>(source: &Vec<T>) -> (copy: Vec<T>)
    ensures
        copy@ == source@,
{
    let mut copy: Vec<T> = Vec::new();
    let mut i: usize = 0;
    while i < source.len()
        invariant
            i <= source@.len(),
            copy@ == source@.take(i as int),
        decreases source@.len() - i,
    {
        copy.push(source[i]);
        assert(copy@ =~= source@.take(i + 1));
        i = i + 1;
    }
    assert(source@.take(source@.len() as int) =~= source@);
    copy
}

/// The shells of a vector as mathematical sequences.
pub open spec fn shell_views<T>(shells: Seq<ElectronShell<T>>) -> Seq<ElectronShellView<T>> {
    Seq::new(shells.len(), |i: int| shells[i]@)
}

/// Reads the shells that one entry of `electron_shells` stands for.
pub fn parse_shell<T: Copy, P>(index: usize, shell: &Json, parse_real: &P) -> (result: Result<
    Vec<ElectronShell<T>>,
    ParseError,
>) where P: Fn(&String) -> Option<T>
    requires
        deterministic(*parse_real),
        forall|s: String| call_requires(*parse_real, (&s,)),
    ensures
        match result {
            Ok(shells) => parse_shell_spec(index, *shell, reading_of(*parse_real)) == Ok::<
                Seq<ElectronShellView<T>>,
                ParseErrorView,
            >(shell_views(shells@)),
            Err(error) => parse_shell_spec(index, *shell, reading_of(*parse_real)) == Err::<
                Seq<ElectronShellView<T>>,
                ParseErrorView,
            >(error@),
        },
{
    let ghost reading = reading_of(*parse_real);
    let entries = match shell.get_array("angular_momentum") {
        Some(entries) => entries,
        None => {
            return Err(malformed_shell(index, "missing or invalid angular_momentum"));
        },
    };
    if entries.len() == 0 {
        return Err(malformed_shell(index, "angular_momentum is empty"));
    }
    let momenta = match read_momenta(entries, index) {
        Ok(momenta) => momenta,
        Err(error) => {
            return Err(error);
        },
    };
    let texts = match shell.get_array("exponents") {
        Some(texts) => texts,
        None => {
            return Err(malformed_shell(index, "missing or invalid exponents"));
        },
    };
    let exponents = match read_numbers(texts, index, "exponent", parse_real) {
        Ok(exponents) => exponents,
        Err(error) => {
            return Err(error);
        },
    };
    let vectors = match shell.get_array("coefficients") {
        Some(vectors) => vectors,
        None => {
            return Err(malformed_shell(index, "missing or invalid coefficients"));
        },
    };
    if vectors.len() != momenta.len() {
        let mut reason = join3(
            "expected ",
            decimal(momenta.len() as u128).as_str(),
            " coefficient vector(s) to match angular_momentum, found ",
        );
        reason.append(decimal(vectors.len() as u128).as_str());
        return Err(malformed_shell(index, reason.as_str()));
    }
    let ghost read = coefficients_reader(index, exponents@.len(), reading);
    let ghost mut sets: Seq<Seq<T>> = Seq::empty();
    let mut shells: Vec<ElectronShell<T>> = Vec::new();
    let mut k: usize = 0;
    while k < vectors.len()
        invariant
            k <= vectors@.len(),
            vectors@.len() == momenta@.len(),
            shell.array_member("angular_momentum"@) == Some(entries@),
            entries@.len() > 0,
            read_all(entries@, momentum_reader(index)) == Ok::<Seq<u32>, ParseErrorView>(
                momenta@,
            ),
            shell.array_member("exponents"@) == Some(texts@),
            read_all(texts@, number_reader(index, "exponent"@, reading)) == Ok::<
                Seq<T>,
                ParseErrorView,
            >(exponents@),
            shell.array_member("coefficients"@) == Some(vectors@),
            deterministic(*parse_real),
            forall|s: String| call_requires(*parse_real, (&s,)),
            reading == reading_of(*parse_real),
            read == coefficients_reader(index, exponents@.len(), reading),
            sets.len() == k,
            shells@.len() == k,
            forall|i: int|
                0 <= i < k ==> (#[trigger] read(i, vectors@[i])) == Ok::<Seq<T>, ParseErrorView>(
                    sets[i],
                ),
            forall|i: int|
                0 <= i < k ==> (#[trigger] shells@[i])@ == (ElectronShellView {
                    angular_momentum: momenta@[i],
                    exponents: exponents@,
                    coefficients: sets[i],
                }),
        decreases vectors@.len() - k,
    {
        match read_coefficients(&vectors[k], index, exponents.len(), parse_real) {
            Ok(coefficients) => {
                proof {
                    sets = sets.push(coefficients@);
                }
                shells.push(
                    ElectronShell {
                        angular_momentum: momenta[k],
                        exponents: copy_of(&exponents),
                        coefficients,
                    },
                );
            },
            Err(error) => {
                proof {
                    lemma_read_all_refused(vectors@, read, k as int);
                }
                return Err(error);
            },
        }
        k = k + 1;
    }
    proof {
        lemma_read_all_accepted(vectors@, read, sets);
        assert(shell_views(shells@) =~= Seq::new(
            momenta@.len(),
            |k: int|
                ElectronShellView {
                    angular_momentum: momenta@[k],
                    exponents: exponents@,
                    coefficients: sets[k],
                },
        ));
    }
    Ok(shells)
}

/// Reads the atomic number that the name of a member stands for.
pub fn atomic_number(name: &str) -> (result: Result<u32, ParseError>)
    ensures
        match result {
            Ok(z) => atomic_number_spec(name@) == Ok::<u32, ParseErrorView>(z),
            Err(error) => atomic_number_spec(name@) == Err::<u32, ParseErrorView>(error@),
        },
{
    match parse_u32(name) {
        Some(z) => {
            if 1 <= z && z <= MAX_ATOMIC_NUMBER {
                Ok(z)
            } else {
                Err(ParseError::InvalidAtomicNumber(String::from_str(name)))
            }
        },
        None => Err(ParseError::InvalidAtomicNumber(String::from_str(name))),
    }
}

/// A further group goes behind the groups before it.
proof fn lemma_concat_push<A>(groups: Seq<Seq<A>>, group: Seq<A>)
    ensures
        concat_all(groups.push(group)) == concat_all(groups) + group,
{
    assert(groups.push(group).drop_last() =~= groups);
}

/// Reads the basis set that a JSON value holds. `parse_real` reads a string
/// as a real number, or gives nothing for a string that stands for none.
pub fn parse_basis_json<T: Copy, P>(json: &Json, parse_real: &P) -> (result: Result<
    BasisSet<T>,
    ParseError,
>) where P: Fn(&String) -> Option<T>
    requires
        deterministic(*parse_real),
        forall|s: String| call_requires(*parse_real, (&s,)),
    ensures
        match result {
            Ok(basis) => parse_basis_json_spec(*json, reading_of(*parse_real)) == Ok::<
                BasisSetView<T>,
                ParseErrorView,
            >(basis@),
            Err(error) => parse_basis_json_spec(*json, reading_of(*parse_real)) == Err::<
                BasisSetView<T>,
                ParseErrorView,
            >(error@),
        },
{
    let ghost reading = reading_of(*parse_real);
    let members = match json.get("elements") {
        Some(elements) => match elements.as_object() {
            Some(members) => members,
            None => {
                return Err(ParseError::NoElements);
            },
        },
        None => {
            return Err(ParseError::NoElements);
        },
    };
    if members.len() == 0 {
        return Err(ParseError::NoElements);
    }
    if members.len() > 1 {
        return Err(ParseError::MultipleElements { found: members.len() });
    }
    let z = match atomic_number(members[0].0.as_str()) {
        Ok(z) => z,
        Err(error) => {
            return Err(error);
        },
    };
    let entries = match members[0].1.get_array("electron_shells") {
        Some(entries) => entries,
        None => {
            return Err(ParseError::NoElectronShells);
        },
    };
    if entries.len() == 0 {
        return Err(ParseError::NoElectronShells);
    }
    let ghost read = shell_reader(reading);
    let ghost mut groups: Seq<Seq<ElectronShellView<T>>> = Seq::empty();
    let mut shells: Vec<ElectronShell<T>> = Vec::new();
    let mut index: usize = 0;
    while index < entries.len()
        invariant
            index <= entries@.len(),
            entries@.len() > 0,
            json.member("elements"@) is Some,
            json.member("elements"@)->0.members() == Some(members@),
            members@.len() == 1,
            atomic_number_spec(members@[0].0@) == Ok::<u32, ParseErrorView>(z),
            members@[0].1.array_member("electron_shells"@) == Some(entries@),
            deterministic(*parse_real),
            forall|s: String| call_requires(*parse_real, (&s,)),
            reading == reading_of(*parse_real),
            read == shell_reader(reading),
            groups.len() == index,
            forall|i: int|
                0 <= i < index ==> (#[trigger] read(i, entries@[i])) == Ok::<
                    Seq<ElectronShellView<T>>,
                    ParseErrorView,
                >(groups[i]),
            shell_views(shells@) == concat_all(groups),
        decreases entries@.len() - index,
    {
        match parse_shell(index, &entries[index], parse_real) {
            Ok(mut group) => {
                proof {
                    lemma_concat_push(groups, shell_views(group@));
                    assert(shell_views(shells@ + group@) =~= shell_views(shells@) + shell_views(
                        group@,
                    ));
                    groups = groups.push(shell_views(group@));
                }
                shells.append(&mut group);
            },
            Err(error) => {
                proof {
                    lemma_read_all_refused(entries@, read, index as int);
                }
                return Err(error);
            },
        }
        index = index + 1;
    }
    proof {
        lemma_read_all_accepted(entries@, read, groups);
    }
    let basis = BasisSet {
        element: String::from_str(element_symbol(z)),
        atomic_number: z,
        shells,
    };
    assert(basis@.shells =~= shell_views(shells@));
    Ok(basis)
}

/// Reads the basis set that a file holds, given what reading the file gave:
/// its content, or the words of the error. `parse_real` reads a string as a
/// real number, or gives nothing for a string that stands for none.
pub fn parse_basis<T: Copy, P>(content: Result<String, String>, parse_real: P) -> (result: Result<
    BasisSet<T>,
    ParseError,
>) where P: Fn(&String) -> Option<T>
    requires
        deterministic(parse_real),
        forall|s: String| call_requires(parse_real, (&s,)),
    ensures
        match result {
            Ok(basis) => parse_basis_spec(content_view(content), reading_of(parse_real)) == Ok::<
                BasisSetView<T>,
                ParseErrorView,
            >(basis@),
            Err(error) => parse_basis_spec(content_view(content), reading_of(parse_real)) == Err::<
                BasisSetView<T>,
                ParseErrorView,
            >(error@),
        },
{
    let text = match content {
        Ok(text) => text,
        Err(words) => {
            return Err(ParseError::IoError(words));
        },
    };
    match parse_json(text.as_str()) {
        Err(words) => Err(ParseError::InvalidJson(words)),
        Ok(json) => parse_basis_json(&json, &parse_real),
    }
}

/// What reading a file gave, as sequences of characters.
pub open spec fn content_view(content: Result<String, String>) -> Result<Seq<char>, Seq<char>> {
    match content {
        Ok(text) => Ok(text@),
        Err(words) => Err(words@),
    }
}

} // verus!
