//! How the rows of a Z-matrix are read.
//!
//! Row 0 holds a symbol only. Row 1 adds a bond to an earlier atom, row 2 an
//! angle as well, every later row a dihedral angle too. An atom is referred
//! to by its number, counted from 1, and only atoms of earlier rows can be
//! referred to.

use crate::binary64::{le, lt, real_le, real_lt, BITS_180, BITS_MINUS_180};
use crate::document::{entry_of, map_get, Yaml};
use crate::elements::is_element_name;
use crate::collect::{
    lemma_read_all_accepted, lemma_read_all_refused, lemma_read_all_values, read_all,
};
use crate::input::{
    invalid_value, missing_field, normalize_element, normalize_element_spec, texts_of,
    InputError, InputErrorView, ItemReader, ZMatrixGeometry, ZMatrixGeometryView,
};
use crate::text::{
    decimal, decimal_of, join3, ok_view, result_view, signed_decimal, signed_decimal_of,
};
use vstd::prelude::*;

verus! {

/// The error of a Z-matrix row.
pub fn izm(row: usize, reason: &str) -> (error: InputError)
    ensures
        error@ == (InputErrorView::InvalidZMatrix { row, reason: reason@ }),
{
    InputError::InvalidZMatrix { row, reason: String::from_str(reason) }
}

/// The reason why two references of a row may not name one atom.
pub open spec fn same_atom_reason(first: Seq<char>, a: usize, second: Seq<char>, b: usize) -> Seq<
    char,
> {
    first + " ("@ + decimal_of(a as nat) + ") and "@ + second + " ("@ + decimal_of(b as nat)
        + ") must be distinct"@
}

/// The references of a row name different atoms: the bond atom is compared
/// with the angle atom first, then with the dihedral atom, and the angle
/// atom with the dihedral atom last. Without an angle atom nothing is
/// compared.
pub open spec fn check_distinct_spec(
    row: usize,
    ba: usize,
    aa: Option<usize>,
    da: Option<usize>,
) -> Result<(), InputErrorView> {
    match aa {
        None => Ok(()),
        Some(a) => if ba == a {
            Err(
                InputErrorView::InvalidZMatrix {
                    row,
                    reason: same_atom_reason("bond_atom"@, ba, "angle_atom"@, a),
                },
            )
        } else {
            match da {
                None => Ok(()),
                Some(d) => if ba == d {
                    Err(
                        InputErrorView::InvalidZMatrix {
                            row,
                            reason: same_atom_reason("bond_atom"@, ba, "dihedral_atom"@, d),
                        },
                    )
                } else if a == d {
                    Err(
                        InputErrorView::InvalidZMatrix {
                            row,
                            reason: same_atom_reason("angle_atom"@, a, "dihedral_atom"@, d),
                        },
                    )
                } else {
                    Ok(())
                },
            }
        },
    }
}

/// The words for two references that name one atom.
fn same_atom(first: &str, a: usize, second: &str, b: usize) -> (reason: String)
    ensures
        reason@ == same_atom_reason(first@, a, second@, b),
{
    let mut reason = join3(first, " (", decimal(a as u128).as_str());
    reason.append(") and ");
    reason.append(second);
    reason.append(" (");
    reason.append(decimal(b as u128).as_str());
    reason.append(") must be distinct");
    reason
}

/// Checks that the references of a row name different atoms.
pub fn check_distinct(row: usize, ba: usize, aa: Option<usize>, da: Option<usize>) -> (result:
    Result<(), InputError>)
    ensures
        result_view(result) == check_distinct_spec(row, ba, aa, da),
{
    if let Some(a) = aa {
        if ba == a {
            return Err(izm(row, same_atom("bond_atom", ba, "angle_atom", a).as_str()));
        }
        if let Some(d) = da {
            if ba == d {
                return Err(izm(row, same_atom("bond_atom", ba, "dihedral_atom", d).as_str()));
            }
            if a == d {
                return Err(izm(row, same_atom("angle_atom", a, "dihedral_atom", d).as_str()));
            }
        }
    }
    Ok(())
}

/// The reference that a row holds under `field`: an integer from 1 to the
/// number of the row, which is the number of atoms before it.
pub open spec fn ref_index_spec(fields: Seq<(Yaml, Yaml)>, field: Seq<char>, row: usize) -> Result<
    usize,
    InputErrorView,
>
    recommends
        entry_of(fields, field) is Some,
{
    match entry_of(fields, field)->0.integer() {
        None => Err(
            InputErrorView::InvalidZMatrix {
                row,
                reason: "'"@ + field + "' must be a positive integer"@,
            },
        ),
        Some(index) => if index <= 0 || index > row {
            Err(
                InputErrorView::InvalidZMatrix {
                    row,
                    reason: "'"@ + field + "' = "@ + signed_decimal_of(index as int)
                        + " is out of range; must be 1 to "@ + decimal_of(row as nat),
                },
            )
        } else {
            Ok(index as usize)
        },
    }
}

/// Reads the reference that a row holds under `field`.
pub fn zmat_ref_idx(fields: &Vec<(Yaml, Yaml)>, field: &str, row: usize) -> (result: Result<
    usize,
    InputError,
>)
    requires
        entry_of(fields@, field@) is Some,
    ensures
        ok_view(result) == ref_index_spec(fields@, field@, row),
{
    let index = match map_get(fields, field) {
        Some(value) => match value.as_i64() {
            Some(index) => index,
            None => {
                return Err(izm(row, join3("'", field, "' must be a positive integer").as_str()));
            },
        },
        None => {
            return Err(izm(row, join3("'", field, "' must be a positive integer").as_str()));
        },
    };
    if index <= 0 || index as u64 > row as u64 {
        let mut reason = join3("'", field, "' = ");
        reason.append(signed_decimal(index).as_str());
        reason.append(" is out of range; must be 1 to ");
        reason.append(decimal(row as u128).as_str());
        return Err(izm(row, reason.as_str()));
    }
    Ok(index as usize)
}

/// A number that a row holds under `field`, and which the row's rule for
/// the field accepts.
pub open spec fn row_number_spec(
    fields: Seq<(Yaml, Yaml)>,
    field: Seq<char>,
    row: usize,
    refused: spec_fn(u64) -> bool,
    rule: Seq<char>,
) -> Result<u64, InputErrorView>
    recommends
        entry_of(fields, field) is Some,
{
    match entry_of(fields, field)->0.number() {
        None => Err(
            InputErrorView::InvalidZMatrix { row, reason: "'"@ + field + "' must be a number"@ },
        ),
        Some(number) => if refused(number.bits) {
            Err(
                InputErrorView::InvalidZMatrix {
                    row,
                    reason: "'"@ + field + "' must "@ + rule + ", got "@ + number.shown@,
                },
            )
        } else {
            Ok(number.bits)
        },
    }
}

/// A bond length is refused if it is zero or below.
pub open spec fn bond_length_refused() -> spec_fn(u64) -> bool {
    |bits: u64| real_le(bits, 0)
}

/// An angle is refused if it is zero or below, or 180 or above.
pub open spec fn angle_refused() -> spec_fn(u64) -> bool {
    |bits: u64| real_le(bits, 0) || real_le(BITS_180, bits)
}

/// A dihedral angle is refused if it is below -180 or above 180.
pub open spec fn dihedral_refused() -> spec_fn(u64) -> bool {
    |bits: u64| real_lt(bits, BITS_MINUS_180) || real_lt(BITS_180, bits)
}

/// The bond length of a row: a number above zero.
pub open spec fn bond_length_spec(fields: Seq<(Yaml, Yaml)>, row: usize) -> Result<
    u64,
    InputErrorView,
> {
    row_number_spec(fields, "bond_length"@, row, bond_length_refused(), "be > 0"@)
}

/// The angle of a row: a number of degrees between 0 and 180.
pub open spec fn angle_spec(fields: Seq<(Yaml, Yaml)>, row: usize) -> Result<u64, InputErrorView> {
    row_number_spec(fields, "angle"@, row, angle_refused(), "satisfy 0 < angle < 180"@)
}

/// The dihedral angle of a row: a number of degrees from -180 to 180.
pub open spec fn dihedral_spec(fields: Seq<(Yaml, Yaml)>, row: usize) -> Result<
    u64,
    InputErrorView,
> {
    row_number_spec(
        fields,
        "dihedral"@,
        row,
        dihedral_refused(),
        "satisfy -180 <= dihedral <= 180"@,
    )
}

/// The kind of a number that a row holds.
#[derive(Debug, Clone, Copy, PartialEq, Eq)]
pub enum RowNumber {
    BondLength,
    Angle,
    Dihedral,
}

impl RowNumber {
    /// The name of the field.
    pub open spec fn field(self) -> Seq<char> {
        match self {
            RowNumber::BondLength => "bond_length"@,
            RowNumber::Angle => "angle"@,
            RowNumber::Dihedral => "dihedral"@,
        }
    }

    /// The numbers that the rule of the field refuses.
    pub open spec fn refused(self) -> spec_fn(u64) -> bool {
        match self {
            RowNumber::BondLength => bond_length_refused(),
            RowNumber::Angle => angle_refused(),
            RowNumber::Dihedral => dihedral_refused(),
        }
    }

    /// The rule of the field in words.
    pub open spec fn rule(self) -> Seq<char> {
        match self {
            RowNumber::BondLength => "be > 0"@,
            RowNumber::Angle => "satisfy 0 < angle < 180"@,
            RowNumber::Dihedral => "satisfy -180 <= dihedral <= 180"@,
        }
    }
}

/// Reads a number of a row and holds it to the rule of its field.
pub fn zmat_number(fields: &Vec<(Yaml, Yaml)>, kind: RowNumber, row: usize) -> (result: Result<
    u64,
    InputError,
>)
    requires
        entry_of(fields@, kind.field()) is Some,
    ensures
        ok_view(result) == row_number_spec(
            fields@,
            kind.field(),
            row,
            kind.refused(),
            kind.rule(),
        ),
{
    let (field, rule) = match kind {
        RowNumber::BondLength => ("bond_length", "be > 0"),
        RowNumber::Angle => ("angle", "satisfy 0 < angle < 180"),
        RowNumber::Dihedral => ("dihedral", "satisfy -180 <= dihedral <= 180"),
    };
    let number = match map_get(fields, field) {
        Some(value) => match value.as_number() {
            Some(number) => number,
            None => {
                return Err(izm(row, join3("'", field, "' must be a number").as_str()));
            },
        },
        None => {
            return Err(izm(row, join3("'", field, "' must be a number").as_str()));
        },
    };
    let bits = number.bits;
    let refused = match kind {
        RowNumber::BondLength => le(bits, 0),
        RowNumber::Angle => le(bits, 0) || le(BITS_180, bits),
        RowNumber::Dihedral => lt(bits, BITS_MINUS_180) || lt(BITS_180, bits),
    };
    if refused {
        let mut reason = join3("'", field, "' must ");
        reason.append(rule);
        reason.append(", got ");
        reason.append(number.shown.as_str());
        return Err(izm(row, reason.as_str()));
    }
    Ok(bits)
}

/// Reads the bond length of a row.
pub fn zmat_bond_length(fields: &Vec<(Yaml, Yaml)>, row: usize) -> (result: Result<
    u64,
    InputError,
>)
    requires
        entry_of(fields@, "bond_length"@) is Some,
    ensures
        ok_view(result) == bond_length_spec(fields@, row),
{
    zmat_number(fields, RowNumber::BondLength, row)
}

/// Reads the angle of a row.
pub fn zmat_angle(fields: &Vec<(Yaml, Yaml)>, row: usize) -> (result: Result<u64, InputError>)
    requires
        entry_of(fields@, "angle"@) is Some,
    ensures
        ok_view(result) == angle_spec(fields@, row),
{
    zmat_number(fields, RowNumber::Angle, row)
}

/// Reads the dihedral angle of a row.
pub fn zmat_dihedral(fields: &Vec<(Yaml, Yaml)>, row: usize) -> (result: Result<u64, InputError>)
    requires
        entry_of(fields@, "dihedral"@) is Some,
    ensures
        ok_view(result) == dihedral_spec(fields@, row),
{
    zmat_number(fields, RowNumber::Dihedral, row)
}

/// One row of a Z-matrix.
#[derive(Debug, Clone, PartialEq)]
pub struct ZRow {
    pub symbol: String,
    pub bond_atom: Option<usize>,
    pub bond_length: Option<u64>,
    pub angle_atom: Option<usize>,
    pub angle: Option<u64>,
    pub dihedral_atom: Option<usize>,
    pub dihedral: Option<u64>,
}

/// A `ZRow` with its symbol as a sequence of characters.
pub struct ZRowView {
    pub symbol: Seq<char>,
    pub bond_atom: Option<usize>,
    pub bond_length: Option<u64>,
    pub angle_atom: Option<usize>,
    pub angle: Option<u64>,
    pub dihedral_atom: Option<usize>,
    pub dihedral: Option<u64>,
}

impl View for ZRow {
    type V = ZRowView;

    open spec fn view(&self) -> ZRowView {
        ZRowView {
            symbol: self.symbol@,
            bond_atom: self.bond_atom,
            bond_length: self.bond_length,
            angle_atom: self.angle_atom,
            angle: self.angle,
            dihedral_atom: self.dihedral_atom,
            dihedral: self.dihedral,
        }
    }
}

/// The row has the field.
pub open spec fn holds_field(fields: Seq<(Yaml, Yaml)>, field: Seq<char>) -> bool {
    entry_of(fields, field) is Some
}

/// The error of a field that the row must have and has not.
pub open spec fn missing(row: usize, field: Seq<char>) -> InputErrorView {
    InputErrorView::InvalidZMatrix { row, reason: "missing required field '"@ + field + "'"@ }
}

/// The row has the fields of its bond.
pub open spec fn bond_present(fields: Seq<(Yaml, Yaml)>, row: usize) -> Result<
    (),
    InputErrorView,
> {
    if !holds_field(fields, "bond_atom"@) {
        Err(missing(row, "bond_atom"@))
    } else if !holds_field(fields, "bond_length"@) {
        Err(missing(row, "bond_length"@))
    } else {
        Ok(())
    }
}

/// The row has the fields of its bond and of its angle.
pub open spec fn angle_present(fields: Seq<(Yaml, Yaml)>, row: usize) -> Result<
    (),
    InputErrorView,
> {
    if bond_present(fields, row) is Err {
        bond_present(fields, row)
    } else if !holds_field(fields, "angle_atom"@) {
        Err(missing(row, "angle_atom"@))
    } else if !holds_field(fields, "angle"@) {
        Err(missing(row, "angle"@))
    } else {
        Ok(())
    }
}

/// The row has the fields of its bond, of its angle and of its dihedral
/// angle.
pub open spec fn dihedral_present(fields: Seq<(Yaml, Yaml)>, row: usize) -> Result<
    (),
    InputErrorView,
> {
    if angle_present(fields, row) is Err {
        angle_present(fields, row)
    } else if !holds_field(fields, "dihedral_atom"@) {
        Err(missing(row, "dihedral_atom"@))
    } else if !holds_field(fields, "dihedral"@) {
        Err(missing(row, "dihedral"@))
    } else {
        Ok(())
    }
}

/// The row has the fields that its place asks for, and none that its place
/// forbids: what is forbidden is looked at first.
pub open spec fn row_shape_spec(fields: Seq<(Yaml, Yaml)>, row: usize) -> Result<
    (),
    InputErrorView,
> {
    let bond = holds_field(fields, "bond_atom"@) || holds_field(fields, "bond_length"@);
    let angle = holds_field(fields, "angle_atom"@) || holds_field(fields, "angle"@);
    let dihedral = holds_field(fields, "dihedral_atom"@) || holds_field(fields, "dihedral"@);
    if row == 0 {
        if bond || angle || dihedral {
            Err(
                InputErrorView::InvalidZMatrix {
                    row: 0,
                    reason: "row 0 must only contain 'symbol'"@,
                },
            )
        } else {
            Ok(())
        }
    } else if row == 1 {
        if angle || dihedral {
            Err(
                InputErrorView::InvalidZMatrix {
                    row: 1,
                    reason: "row 1 must not contain angle or dihedral fields"@,
                },
            )
        } else {
            bond_present(fields, row)
        }
    } else if row == 2 {
        if dihedral {
            Err(
                InputErrorView::InvalidZMatrix {
                    row: 2,
                    reason: "row 2 must not contain dihedral fields"@,
                },
            )
        } else {
            angle_present(fields, row)
        }
    } else {
        dihedral_present(fields, row)
    }
}

/// The bond of a row: the atom it goes to and its length.
pub open spec fn bond_values_spec(fields: Seq<(Yaml, Yaml)>, row: usize) -> Result<
    (usize, u64),
    InputErrorView,
> {
    match ref_index_spec(fields, "bond_atom"@, row) {
        Err(error) => Err(error),
        Ok(atom) => match bond_length_spec(fields, row) {
            Err(error) => Err(error),
            Ok(length) => Ok((atom, length)),
        },
    }
}

/// The angle of a row: the atom it is measured to and its size.
pub open spec fn angle_values_spec(fields: Seq<(Yaml, Yaml)>, row: usize) -> Result<
    (usize, u64),
    InputErrorView,
> {
    match ref_index_spec(fields, "angle_atom"@, row) {
        Err(error) => Err(error),
        Ok(atom) => match angle_spec(fields, row) {
            Err(error) => Err(error),
            Ok(size) => Ok((atom, size)),
        },
    }
}

/// The dihedral angle of a row: the atom it is measured to and its size.
pub open spec fn dihedral_values_spec(fields: Seq<(Yaml, Yaml)>, row: usize) -> Result<
    (usize, u64),
    InputErrorView,
> {
    match ref_index_spec(fields, "dihedral_atom"@, row) {
        Err(error) => Err(error),
        Ok(atom) => match dihedral_spec(fields, row) {
            Err(error) => Err(error),
            Ok(size) => Ok((atom, size)),
        },
    }
}

/// The values of a row of the right shape: bond, angle and dihedral angle
/// as far as the place of the row asks for them, read in this order, and
/// with references to different atoms.
pub open spec fn row_values_spec(fields: Seq<(Yaml, Yaml)>, row: usize, symbol: Seq<char>) -> Result<
    ZRowView,
    InputErrorView,
> {
    let bare = ZRowView {
        symbol,
        bond_atom: None,
        bond_length: None,
        angle_atom: None,
        angle: None,
        dihedral_atom: None,
        dihedral: None,
    };
    if row == 0 {
        Ok(bare)
    } else {
        match bond_values_spec(fields, row) {
            Err(error) => Err(error),
            Ok(bond) => {
                let bonded = ZRowView { bond_atom: Some(bond.0), bond_length: Some(bond.1), ..bare };
                if row == 1 {
                    Ok(bonded)
                } else {
                    match angle_values_spec(fields, row) {
                        Err(error) => Err(error),
                        Ok(angle) => {
                            let bent = ZRowView {
                                angle_atom: Some(angle.0),
                                angle: Some(angle.1),
                                ..bonded
                            };
                            if row == 2 {
                                match check_distinct_spec(row, bond.0, Some(angle.0), None) {
                                    Err(error) => Err(error),
                                    Ok(_) => Ok(bent),
                                }
                            } else {
                                match dihedral_values_spec(fields, row) {
                                    Err(error) => Err(error),
                                    Ok(dihedral) => match check_distinct_spec(
                                        row,
                                        bond.0,
                                        Some(angle.0),
                                        Some(dihedral.0),
                                    ) {
                                        Err(error) => Err(error),
                                        Ok(_) => Ok(
                                            ZRowView {
                                                dihedral_atom: Some(dihedral.0),
                                                dihedral: Some(dihedral.1),
                                                ..bent
                                            },
                                        ),
                                    },
                                }
                            }
                        },
                    }
                }
            },
        }
    }
}

/// A row of a Z-matrix: a mapping with the symbol of an element and with
/// the fields and values that its place asks for.
pub open spec fn parse_row_spec(row: usize, value: Yaml) -> Result<ZRowView, InputErrorView> {
    match value.entries() {
        None => Err(
            InputErrorView::InvalidZMatrix {
                row,
                reason: "each z_matrix entry must be a mapping"@,
            },
        ),
        Some(fields) => match entry_of(fields, "symbol"@) {
            None => Err(missing(row, "symbol"@)),
            Some(name) => match name.text() {
                None => Err(
                    InputErrorView::InvalidZMatrix { row, reason: "'symbol' must be a string"@ },
                ),
                Some(sym) => match normalize_element_spec(sym) {
                    Err(_) => Err(InputErrorView::InvalidElement(sym)),
                    Ok(symbol) => match row_shape_spec(fields, row) {
                        Err(error) => Err(error),
                        Ok(_) => row_values_spec(fields, row, symbol),
                    },
                },
            },
        },
    }
}

/// The words for a field that a row must have and has not.
fn missing_reason(field: &str) -> (reason: String)
    ensures
        reason@ == "missing required field '"@ + field@ + "'"@,
{
    join3("missing required field '", field, "'")
}

/// Checks that a row has the fields of its bond.
fn check_bond_present(fields: &Vec<(Yaml, Yaml)>, row: usize) -> (result: Result<(), InputError>)
    ensures
        result_view(result) == bond_present(fields@, row),
{
    if map_get(fields, "bond_atom").is_none() {
        return Err(izm(row, missing_reason("bond_atom").as_str()));
    }
    if map_get(fields, "bond_length").is_none() {
        return Err(izm(row, missing_reason("bond_length").as_str()));
    }
    Ok(())
}

/// Checks that a row has the fields of its bond and of its angle.
fn check_angle_present(fields: &Vec<(Yaml, Yaml)>, row: usize) -> (result: Result<(), InputError>)
    ensures
        result_view(result) == angle_present(fields@, row),
{
    if let Err(error) = check_bond_present(fields, row) {
        return Err(error);
    }
    if map_get(fields, "angle_atom").is_none() {
        return Err(izm(row, missing_reason("angle_atom").as_str()));
    }
    if map_get(fields, "angle").is_none() {
        return Err(izm(row, missing_reason("angle").as_str()));
    }
    Ok(())
}

/// Checks that a row has the fields of its bond, of its angle and of its
/// dihedral angle.
fn check_dihedral_present(fields: &Vec<(Yaml, Yaml)>, row: usize) -> (result: Result<
    (),
    InputError,
>)
    ensures
        result_view(result) == dihedral_present(fields@, row),
{
    if let Err(error) = check_angle_present(fields, row) {
        return Err(error);
    }
    if map_get(fields, "dihedral_atom").is_none() {
        return Err(izm(row, missing_reason("dihedral_atom").as_str()));
    }
    if map_get(fields, "dihedral").is_none() {
        return Err(izm(row, missing_reason("dihedral").as_str()));
    }
    Ok(())
}

/// Checks that a row has the fields that its place asks for, and none that
/// its place forbids.
pub fn check_row_shape(fields: &Vec<(Yaml, Yaml)>, row: usize) -> (result: Result<(), InputError>)
    ensures
        result_view(result) == row_shape_spec(fields@, row),
{
    let bond = map_get(fields, "bond_atom").is_some() || map_get(fields, "bond_length").is_some();
    let angle = map_get(fields, "angle_atom").is_some() || map_get(fields, "angle").is_some();
    let dihedral = map_get(fields, "dihedral_atom").is_some() || map_get(
        fields,
        "dihedral",
    ).is_some();
    if row == 0 {
        if bond || angle || dihedral {
            return Err(izm(0, "row 0 must only contain 'symbol'"));
        }
        Ok(())
    } else if row == 1 {
        if angle || dihedral {
            return Err(izm(1, "row 1 must not contain angle or dihedral fields"));
        }
        check_bond_present(fields, row)
    } else if row == 2 {
        if dihedral {
            return Err(izm(2, "row 2 must not contain dihedral fields"));
        }
        check_angle_present(fields, row)
    } else {
        check_dihedral_present(fields, row)
    }
}

/// Reads the values of a row of the right shape.
pub fn read_row_values(fields: &Vec<(Yaml, Yaml)>, row: usize, symbol: String) -> (result: Result<
    ZRow,
    InputError,
>)
    requires
        row_shape_spec(fields@, row) is Ok,
    ensures
        result_view(result) == row_values_spec(fields@, row, symbol@),
{
    let mut values = ZRow {
        symbol,
        bond_atom: None,
        bond_length: None,
        angle_atom: None,
        angle: None,
        dihedral_atom: None,
        dihedral: None,
    };
    if row == 0 {
        return Ok(values);
    }
    let bond_atom = match zmat_ref_idx(fields, "bond_atom", row) {
        Ok(atom) => atom,
        Err(error) => {
            return Err(error);
        },
    };
    let bond_length = match zmat_bond_length(fields, row) {
        Ok(length) => length,
        Err(error) => {
            return Err(error);
        },
    };
    values.bond_atom = Some(bond_atom);
    values.bond_length = Some(bond_length);
    if row == 1 {
        return Ok(values);
    }
    let angle_atom = match zmat_ref_idx(fields, "angle_atom", row) {
        Ok(atom) => atom,
        Err(error) => {
            return Err(error);
        },
    };
    let angle = match zmat_angle(fields, row) {
        Ok(size) => size,
        Err(error) => {
            return Err(error);
        },
    };
    values.angle_atom = Some(angle_atom);
    values.angle = Some(angle);
    if row == 2 {
        if let Err(error) = check_distinct(row, bond_atom, Some(angle_atom), None) {
            return Err(error);
        }
        return Ok(values);
    }
    let dihedral_atom = match zmat_ref_idx(fields, "dihedral_atom", row) {
        Ok(atom) => atom,
        Err(error) => {
            return Err(error);
        },
    };
    let dihedral = match zmat_dihedral(fields, row) {
        Ok(size) => size,
        Err(error) => {
            return Err(error);
        },
    };
    if let Err(error) = check_distinct(row, bond_atom, Some(angle_atom), Some(dihedral_atom)) {
        return Err(error);
    }
    values.dihedral_atom = Some(dihedral_atom);
    values.dihedral = Some(dihedral);
    Ok(values)
}

/// Reads one row of a Z-matrix.
pub fn parse_row(row: usize, value: &Yaml) -> (result: Result<ZRow, InputError>)
    ensures
        result_view(result) == parse_row_spec(row, *value),
{
    let fields = match value.as_mapping() {
        Some(fields) => fields,
        None => {
            return Err(izm(row, "each z_matrix entry must be a mapping"));
        },
    };
    let sym = match map_get(fields, "symbol") {
        Some(name) => match name.as_str() {
            Some(sym) => sym,
            None => {
                return Err(izm(row, "'symbol' must be a string"));
            },
        },
        None => {
            return Err(izm(row, missing_reason("symbol").as_str()));
        },
    };
    let symbol = match normalize_element(sym) {
        Ok(symbol) => symbol,
        Err(_) => {
            return Err(InputError::InvalidElement(String::from_str(sym)));
        },
    };
    if let Err(error) = check_row_shape(fields, row) {
        return Err(error);
    }
    read_row_values(fields, row, symbol)
}

/// What holds of a row that was accepted at place `row`: it has a bond from
/// place 1 on, an angle from place 2 on, a dihedral angle from place 3 on,
/// and nothing else; its references name earlier atoms, and different ones;
/// its bond length is not zero or below, its angle not outside 0 to 180 or
/// at their ends, its dihedral angle not outside -180 to 180.
pub open spec fn accepted_row(row: usize, values: ZRowView) -> bool {
    &&& values.bond_atom is Some <==> row >= 1
    &&& values.bond_length is Some <==> row >= 1
    &&& values.angle_atom is Some <==> row >= 2
    &&& values.angle is Some <==> row >= 2
    &&& values.dihedral_atom is Some <==> row >= 3
    &&& values.dihedral is Some <==> row >= 3
    &&& row >= 1 ==> 1 <= values.bond_atom->0 <= row && !bond_length_refused()(
        values.bond_length->0,
    )
    &&& row >= 2 ==> 1 <= values.angle_atom->0 <= row && values.angle_atom->0
        != values.bond_atom->0 && !angle_refused()(values.angle->0)
    &&& row >= 3 ==> 1 <= values.dihedral_atom->0 <= row && values.dihedral_atom->0
        != values.bond_atom->0 && values.dihedral_atom->0 != values.angle_atom->0
        && !dihedral_refused()(values.dihedral->0)
}

/// Every row that is read without error is an accepted row, and its symbol
/// is the symbol of an element.
pub proof fn lemma_accepted_row(row: usize, value: Yaml)
    requires
        parse_row_spec(row, value) is Ok,
    ensures
        accepted_row(row, parse_row_spec(row, value)->Ok_0),
        is_element_name(parse_row_spec(row, value)->Ok_0.symbol),
{
}

/// How a row of the field `z_matrix` is read.
pub open spec fn row_reader() -> ItemReader<ZRowView> {
    |i: int, item: Yaml| parse_row_spec(i as usize, item)
}

/// The geometry of a sequence of rows, column by column.
pub open spec fn geometry_of_rows(rows: Seq<ZRowView>) -> ZMatrixGeometryView<u64> {
    ZMatrixGeometryView {
        symbols: Seq::new(rows.len(), |i: int| rows[i].symbol),
        bond_atoms: Seq::new(rows.len(), |i: int| rows[i].bond_atom),
        bond_lengths_bohr: Seq::new(rows.len(), |i: int| rows[i].bond_length),
        angle_atoms: Seq::new(rows.len(), |i: int| rows[i].angle_atom),
        angles_deg: Seq::new(rows.len(), |i: int| rows[i].angle),
        dihedral_atoms: Seq::new(rows.len(), |i: int| rows[i].dihedral_atom),
        dihedrals_deg: Seq::new(rows.len(), |i: int| rows[i].dihedral),
    }
}

/// The Z-matrix geometry of a molecule that has the field `z_matrix`: a
/// sequence of at least one row, read row by row.
pub open spec fn parse_zmatrix_spec(molecule: Seq<(Yaml, Yaml)>) -> Result<
    ZMatrixGeometryView<u64>,
    InputErrorView,
>
    recommends
        entry_of(molecule, "z_matrix"@) is Some,
{
    match entry_of(molecule, "z_matrix"@)->0.items() {
        None => Err(
            InputErrorView::InvalidValue {
                field: "molecule.z_matrix"@,
                reason: "expected a sequence"@,
            },
        ),
        Some(rows) => if rows.len() == 0 {
            Err(InputErrorView::MissingField("molecule.z_matrix"@))
        } else {
            match read_all(rows, row_reader()) {
                Err(error) => Err(error),
                Ok(values) => Ok(geometry_of_rows(values)),
            }
        },
    }
}

/// What holds of a Z-matrix geometry that was accepted: it has at least one
/// atom, its seven arrays are equally long, and the row of every atom is an
/// accepted row for its place.
pub proof fn lemma_accepted_zmatrix(molecule: Seq<(Yaml, Yaml)>)
    requires
        parse_zmatrix_spec(molecule) is Ok,
    ensures
        ({
            let geometry = parse_zmatrix_spec(molecule)->Ok_0;
            let n = geometry.symbols.len();
            &&& n > 0
            &&& geometry.bond_atoms.len() == n
            &&& geometry.bond_lengths_bohr.len() == n
            &&& geometry.angle_atoms.len() == n
            &&& geometry.angles_deg.len() == n
            &&& geometry.dihedral_atoms.len() == n
            &&& geometry.dihedrals_deg.len() == n
            &&& forall|i: int|
                0 <= i < n ==> is_element_name(#[trigger] geometry.symbols[i]) && accepted_row(
                    i as usize,
                    ZRowView {
                        symbol: geometry.symbols[i],
                        bond_atom: geometry.bond_atoms[i],
                        bond_length: geometry.bond_lengths_bohr[i],
                        angle_atom: geometry.angle_atoms[i],
                        angle: geometry.angles_deg[i],
                        dihedral_atom: geometry.dihedral_atoms[i],
                        dihedral: geometry.dihedrals_deg[i],
                    },
                )
        }),
{
    let rows = entry_of(molecule, "z_matrix"@)->0.items()->0;
    lemma_read_all_values(rows, row_reader());
    let values = read_all(rows, row_reader())->Ok_0;
    let geometry = parse_zmatrix_spec(molecule)->Ok_0;
    assert forall|i: int| 0 <= i < geometry.symbols.len() implies is_element_name(
        #[trigger] geometry.symbols[i],
    ) && accepted_row(
        i as usize,
        ZRowView {
            symbol: geometry.symbols[i],
            bond_atom: geometry.bond_atoms[i],
            bond_length: geometry.bond_lengths_bohr[i],
            angle_atom: geometry.angle_atoms[i],
            angle: geometry.angles_deg[i],
            dihedral_atom: geometry.dihedral_atoms[i],
            dihedral: geometry.dihedrals_deg[i],
        },
    ) by {
        assert(row_reader()(i, rows[i]) == Ok::<ZRowView, InputErrorView>(values[i]));
        lemma_accepted_row(i as usize, rows[i]);
    }
}

/// Reads the Z-matrix geometry of a molecule from the entries of the
/// molecule, which hold the field `z_matrix`.
pub fn parse_zmatrix(molecule: &Vec<(Yaml, Yaml)>) -> (result: Result<
    ZMatrixGeometry<u64>,
    InputError,
>)
    requires
        entry_of(molecule@, "z_matrix"@) is Some,
    ensures
        result_view(result) == parse_zmatrix_spec(molecule@),
{
    let rows = match map_get(molecule, "z_matrix") {
        Some(value) => match value.as_sequence() {
            Some(rows) => rows,
            None => {
                return Err(invalid_value("molecule.z_matrix", "expected a sequence"));
            },
        },
        None => {
            return Err(missing_field("molecule.z_matrix"));
        },
    };
    if rows.len() == 0 {
        return Err(missing_field("molecule.z_matrix"));
    }
    let mut geometry = ZMatrixGeometry {
        symbols: Vec::new(),
        bond_atoms: Vec::new(),
        bond_lengths_bohr: Vec::new(),
        angle_atoms: Vec::new(),
        angles_deg: Vec::new(),
        dihedral_atoms: Vec::new(),
        dihedrals_deg: Vec::new(),
    };
    let ghost mut values: Seq<ZRowView> = Seq::empty();
    assert(geometry@ =~= geometry_of_rows(values));
    let mut i: usize = 0;
    while i < rows.len()
        invariant
            i <= rows@.len(),
            rows@.len() > 0,
            entry_of(molecule@, "z_matrix"@) is Some,
            entry_of(molecule@, "z_matrix"@)->0.items() == Some(rows@),
            values.len() == i,
            forall|j: int|
                0 <= j < i ==> (#[trigger] row_reader()(j, rows@[j])) == Ok::<
                    ZRowView,
                    InputErrorView,
                >(values[j]),
            geometry@ == geometry_of_rows(values),
        decreases rows@.len() - i,
    {
        match parse_row(i, &rows[i]) {
            Ok(row) => {
                proof {
                    let grown = values.push(row@);
                    assert(geometry_of_rows(grown).symbols =~= geometry_of_rows(
                        values,
                    ).symbols.push(row@.symbol));
                    assert(geometry_of_rows(grown).bond_atoms =~= geometry_of_rows(
                        values,
                    ).bond_atoms.push(row@.bond_atom));
                    assert(geometry_of_rows(grown).bond_lengths_bohr =~= geometry_of_rows(
                        values,
                    ).bond_lengths_bohr.push(row@.bond_length));
                    assert(geometry_of_rows(grown).angle_atoms =~= geometry_of_rows(
                        values,
                    ).angle_atoms.push(row@.angle_atom));
                    assert(geometry_of_rows(grown).angles_deg =~= geometry_of_rows(
                        values,
                    ).angles_deg.push(row@.angle));
                    assert(geometry_of_rows(grown).dihedral_atoms =~= geometry_of_rows(
                        values,
                    ).dihedral_atoms.push(row@.dihedral_atom));
                    assert(geometry_of_rows(grown).dihedrals_deg =~= geometry_of_rows(
                        values,
                    ).dihedrals_deg.push(row@.dihedral));
                    assert(texts_of(geometry.symbols@.push(row.symbol)) =~= texts_of(
                        geometry.symbols@,
                    ).push(row@.symbol));
                    values = grown;
                }
                geometry.symbols.push(row.symbol);
                geometry.bond_atoms.push(row.bond_atom);
                geometry.bond_lengths_bohr.push(row.bond_length);
                geometry.angle_atoms.push(row.angle_atom);
                geometry.angles_deg.push(row.angle);
                geometry.dihedral_atoms.push(row.dihedral_atom);
                geometry.dihedrals_deg.push(row.dihedral);
            },
            Err(error) => {
                proof {
                    lemma_read_all_refused(rows@, row_reader(), i as int);
                }
                return Err(error);
            },
        }
        i = i + 1;
    }
    proof {
        lemma_read_all_accepted(rows@, row_reader(), values);
    }
    Ok(geometry)
}

} // verus!
