//! The simulation input: molecule, model and driver, and how they are read
//! from a YAML text.
//!
//! A real number of the input is handed on by the 64 bits of its binary64
//! form, and a length in the unit in which the text gives it.

use crate::binary64::{le, lt, real_le, real_lt};
use crate::collect::{
    lemma_read_all_accepted, lemma_read_all_refused, lemma_read_all_values, read_all,
};
use crate::document::{entry_of, map_get, parse_yaml, yaml_document, Yaml};
use crate::elements::{is_element, is_element_name};
use crate::text::{
    decimal, decimal_of, join2, join3, ok_view, quoted, quoted_of, result_view, signed_decimal,
    signed_decimal_of, str_eq, title_case, title_case_of,
};
use crate::zmatrix::{parse_zmatrix, parse_zmatrix_spec};
use vstd::prelude::*;

verus! {

/// Why an input was refused.
#[derive(Debug, Clone, PartialEq)]
pub enum InputError {
    IoError(String),
    InvalidYaml(String),
    MissingField(String),
    InvalidValue { field: String, reason: String },
    AmbiguousGeometry,
    CoordinateMismatch { n_symbols: usize, n_coords: usize },
    InvalidElement(String),
    InvalidZMatrix { row: usize, reason: String },
    UnknownField(String),
}

/// What is to be computed.
#[derive(Debug, Clone, Copy, PartialEq, Eq)]
pub enum Driver {
    Energy,
    Gradient,
    Hessian,
    Md,
}

/// The unit of the lengths of an input.
#[derive(Debug, Clone, Copy, PartialEq, Eq)]
pub enum LengthUnit {
    Angstrom,
    Bohr,
}

/// A molecule: where its atoms are, its charge and its spin multiplicity.
#[derive(Debug, Clone, PartialEq)]
pub struct Molecule<T> {
    pub geometry: Geometry<T>,
    pub charge: i32,
    pub multiplicity: u32,
}

/// Where the atoms of a molecule are.
#[derive(Debug, Clone, PartialEq)]
pub enum Geometry<T> {
    Cartesian(CartesianGeometry<T>),
    ZMatrix(ZMatrixGeometry<T>),
}

/// Atoms in input order, as a structure of arrays: the element symbol and the
/// Cartesian coordinates of each. `T` is the type of a real number.
#[derive(Debug, Clone, PartialEq)]
pub struct CartesianGeometry<T> {
    pub symbols: Vec<String>,
    pub x: Vec<T>,
    pub y: Vec<T>,
    pub z: Vec<T>,
}

/// Atoms in input order by internal coordinates, as a structure of arrays.
/// Reference indices count the atoms from 1.
#[derive(Debug, Clone, PartialEq)]
pub struct ZMatrixGeometry<T> {
    pub symbols: Vec<String>,
    /// None for the first atom.
    pub bond_atoms: Vec<Option<usize>>,
    /// None for the first atom.
    pub bond_lengths_bohr: Vec<Option<T>>,
    /// None for the first two atoms.
    pub angle_atoms: Vec<Option<usize>>,
    /// In degrees; none for the first two atoms.
    pub angles_deg: Vec<Option<T>>,
    /// None for the first three atoms.
    pub dihedral_atoms: Vec<Option<usize>>,
    /// In degrees; none for the first three atoms.
    pub dihedrals_deg: Vec<Option<T>>,
}

/// The method and the basis set of a computation.
#[derive(Debug, Clone, PartialEq)]
pub struct Model {
    pub method: String,
    pub basis: String,
}

/// The keywords of a molecular-dynamics run.
#[derive(Debug, Clone, PartialEq)]
pub struct MdKeywords<T> {
    pub timestep_fs: T,
    pub n_steps: usize,
    pub temperature_k: T,
    pub thermostat: Thermostat,
}

/// How the temperature of a molecular-dynamics run is held.
#[derive(Debug, Clone, Copy, PartialEq, Eq)]
pub enum Thermostat {
    /// The temperature is not held.
    Off,
    VelocityRescaling,
}

/// A whole input.
#[derive(Debug, Clone, PartialEq)]
pub struct SimulationInput<T> {
    pub molecule: Molecule<T>,
    pub model: Model,
    pub driver: Driver,
    /// The keywords of the run for the driver `Md`, nothing for another
    /// driver.
    pub keywords: Option<MdKeywords<T>>,
}

impl<T> CartesianGeometry<T> {
    /// Every atom has its three coordinates.
    pub open spec fn wf(&self) -> bool {
        &&& self.x@.len() == self.symbols@.len()
        &&& self.y@.len() == self.symbols@.len()
        &&& self.z@.len() == self.symbols@.len()
    }

    /// Number of atoms.
    pub open spec fn n_atoms(&self) -> nat {
        self.symbols@.len()
    }
}

/// An `InputError` with its texts as sequences of characters.
pub enum InputErrorView {
    IoError(Seq<char>),
    InvalidYaml(Seq<char>),
    MissingField(Seq<char>),
    InvalidValue { field: Seq<char>, reason: Seq<char> },
    AmbiguousGeometry,
    CoordinateMismatch { n_symbols: usize, n_coords: usize },
    InvalidElement(Seq<char>),
    InvalidZMatrix { row: usize, reason: Seq<char> },
    UnknownField(Seq<char>),
}

impl View for InputError {
    type V = InputErrorView;

    open spec fn view(&self) -> InputErrorView {
        match self {
            InputError::IoError(s) => InputErrorView::IoError(s@),
            InputError::InvalidYaml(s) => InputErrorView::InvalidYaml(s@),
            InputError::MissingField(s) => InputErrorView::MissingField(s@),
            InputError::InvalidValue { field, reason } => InputErrorView::InvalidValue {
                field: field@,
                reason: reason@,
            },
            InputError::AmbiguousGeometry => InputErrorView::AmbiguousGeometry,
            InputError::CoordinateMismatch { n_symbols, n_coords } => {
                InputErrorView::CoordinateMismatch { n_symbols: *n_symbols, n_coords: *n_coords }
            },
            InputError::InvalidElement(s) => InputErrorView::InvalidElement(s@),
            InputError::InvalidZMatrix { row, reason } => InputErrorView::InvalidZMatrix {
                row: *row,
                reason: reason@,
            },
            InputError::UnknownField(s) => InputErrorView::UnknownField(s@),
        }
    }
}

impl InputErrorView {
    /// The error in words.
    pub open spec fn message(self) -> Seq<char> {
        match self {
            InputErrorView::IoError(s) => "I/O error: "@ + s,
            InputErrorView::InvalidYaml(s) => "invalid YAML: "@ + s,
            InputErrorView::MissingField(s) => "missing required field: "@ + s,
            InputErrorView::InvalidValue { field, reason } => "invalid value for "@ + field
                + ": "@ + reason,
            InputErrorView::AmbiguousGeometry => {
                "molecule block contains both Cartesian and Z-matrix keys"@
            },
            InputErrorView::CoordinateMismatch { n_symbols, n_coords } => "geometry has "@
                + decimal_of(n_coords as nat) + " coordinates but expected "@ + decimal_of(
                (3 * n_symbols) as nat,
            ) + " (3 \u{d7} "@ + decimal_of(n_symbols as nat) + ")"@,
            InputErrorView::InvalidElement(s) => "unknown element symbol: "@ + quoted_of(s),
            InputErrorView::InvalidZMatrix { row, reason } => "invalid z_matrix row "@
                + decimal_of(row as nat) + ": "@ + reason,
            InputErrorView::UnknownField(s) => "unknown top-level field: "@ + quoted_of(s),
        }
    }
}

impl InputError {
    /// The error in words.
    pub fn message(&self) -> (text: String)
        ensures
            text@ == self@.message(),
    {
        match self {
            InputError::IoError(s) => join2("I/O error: ", s.as_str()),
            InputError::InvalidYaml(s) => join2("invalid YAML: ", s.as_str()),
            InputError::MissingField(s) => join2("missing required field: ", s.as_str()),
            InputError::InvalidValue { field, reason } => {
                let mut text = join3("invalid value for ", field.as_str(), ": ");
                text.append(reason.as_str());
                text
            },
            InputError::AmbiguousGeometry => String::from_str(
                "molecule block contains both Cartesian and Z-matrix keys",
            ),
            InputError::CoordinateMismatch { n_symbols, n_coords } => {
                let mut text = join3(
                    "geometry has ",
                    decimal(*n_coords as u128).as_str(),
                    " coordinates but expected ",
                );
                text.append(decimal(3 * (*n_symbols as u128)).as_str());
                text.append(" (3 \u{d7} ");
                text.append(decimal(*n_symbols as u128).as_str());
                text.append(")");
                text
            },
            InputError::InvalidElement(s) => join2(
                "unknown element symbol: ",
                quoted(s.as_str()).as_str(),
            ),
            InputError::InvalidZMatrix { row, reason } => {
                let mut text = join3("invalid z_matrix row ", decimal(*row as u128).as_str(), ": ");
                text.append(reason.as_str());
                text
            },
            InputError::UnknownField(s) => join2(
                "unknown top-level field: ",
                quoted(s.as_str()).as_str(),
            ),
        }
    }
}

/// The error of a value that is not what its field asks for.
pub fn invalid_value(field: &str, reason: &str) -> (error: InputError)
    ensures
        error@ == (InputErrorView::InvalidValue { field: field@, reason: reason@ }),
{
    InputError::InvalidValue { field: String::from_str(field), reason: String::from_str(reason) }
}

/// The error of a field that the input must have and has not.
pub fn missing_field(field: &str) -> (error: InputError)
    ensures
        error@ == InputErrorView::MissingField(field@),
{
    InputError::MissingField(String::from_str(field))
}

/// The element symbol in title case if it names an element, the symbol as
/// it was given if it does not.
pub open spec fn normalize_element_spec(sym: Seq<char>) -> Result<Seq<char>, InputErrorView> {
    if sym.len() > 0 && is_element_name(title_case_of(sym)) {
        Ok(title_case_of(sym))
    } else {
        Err(InputErrorView::InvalidElement(sym))
    }
}

/// Puts an element symbol in title case and checks it against the periodic
/// table.
pub fn normalize_element(sym: &str) -> (result: Result<String, InputError>)
    ensures
        result_view(result) == normalize_element_spec(sym@),
{
    if sym.is_empty() {
        return Err(InputError::InvalidElement(String::from_str(sym)));
    }
    let normalized = title_case(sym);
    if is_element(normalized.as_str()) {
        Ok(normalized)
    } else {
        Err(InputError::InvalidElement(String::from_str(sym)))
    }
}

/// The driver that a name stands for.
pub open spec fn driver_named(name: Seq<char>) -> Option<Driver> {
    if name == "energy"@ {
        Some(Driver::Energy)
    } else if name == "gradient"@ {
        Some(Driver::Gradient)
    } else if name == "hessian"@ {
        Some(Driver::Hessian)
    } else if name == "md"@ {
        Some(Driver::Md)
    } else {
        None
    }
}

/// The driver of an input: the field `driver` must be there and hold one of
/// the names `energy`, `gradient`, `hessian` and `md`.
pub open spec fn parse_driver_spec(top: Seq<(Yaml, Yaml)>) -> Result<Driver, InputErrorView> {
    match entry_of(top, "driver"@) {
        None => Err(InputErrorView::MissingField("driver"@)),
        Some(value) => match value.text() {
            None => Err(
                InputErrorView::InvalidValue { field: "driver"@, reason: "expected a string"@ },
            ),
            Some(name) => match driver_named(name) {
                Some(driver) => Ok(driver),
                None => Err(
                    InputErrorView::InvalidValue {
                        field: "driver"@,
                        reason: "unrecognised driver "@ + quoted_of(name),
                    },
                ),
            },
        },
    }
}

/// Reads the driver of an input from the entries of its top level.
pub fn parse_driver(top: &Vec<(Yaml, Yaml)>) -> (result: Result<Driver, InputError>)
    ensures
        ok_view(result) == parse_driver_spec(top@),
{
    let value = match map_get(top, "driver") {
        Some(value) => value,
        None => {
            return Err(missing_field("driver"));
        },
    };
    let name = match value.as_str() {
        Some(name) => name,
        None => {
            return Err(invalid_value("driver", "expected a string"));
        },
    };
    if str_eq(name, "energy") {
        Ok(Driver::Energy)
    } else if str_eq(name, "gradient") {
        Ok(Driver::Gradient)
    } else if str_eq(name, "hessian") {
        Ok(Driver::Hessian)
    } else if str_eq(name, "md") {
        Ok(Driver::Md)
    } else {
        Err(
            invalid_value(
                "driver",
                join2("unrecognised driver ", quoted(name).as_str()).as_str(),
            ),
        )
    }
}

/// The unit of the lengths of a molecule: the field `units` holds
/// `angstrom` or `bohr`; without the field it is the angstrom.
pub open spec fn parse_units_spec(molecule: Seq<(Yaml, Yaml)>) -> Result<
    LengthUnit,
    InputErrorView,
> {
    match entry_of(molecule, "units"@) {
        None => Ok(LengthUnit::Angstrom),
        Some(value) => match value.text() {
            None => Err(
                InputErrorView::InvalidValue {
                    field: "molecule.units"@,
                    reason: "expected a string"@,
                },
            ),
            Some(name) => if name == "angstrom"@ {
                Ok(LengthUnit::Angstrom)
            } else if name == "bohr"@ {
                Ok(LengthUnit::Bohr)
            } else {
                Err(
                    InputErrorView::InvalidValue {
                        field: "molecule.units"@,
                        reason: "unrecognised units "@ + quoted_of(name),
                    },
                )
            },
        },
    }
}

/// Reads the unit of the lengths of a molecule from the entries of the
/// molecule.
pub fn parse_units(molecule: &Vec<(Yaml, Yaml)>) -> (result: Result<LengthUnit, InputError>)
    ensures
        ok_view(result) == parse_units_spec(molecule@),
{
    match map_get(molecule, "units") {
        None => Ok(LengthUnit::Angstrom),
        Some(value) => match value.as_str() {
            None => Err(invalid_value("molecule.units", "expected a string")),
            Some(name) => {
                if str_eq(name, "angstrom") {
                    Ok(LengthUnit::Angstrom)
                } else if str_eq(name, "bohr") {
                    Ok(LengthUnit::Bohr)
                } else {
                    Err(
                        invalid_value(
                            "molecule.units",
                            join2("unrecognised units ", quoted(name).as_str()).as_str(),
                        ),
                    )
                }
            },
        },
    }
}

/// A `Model` with its texts as sequences of characters.
pub struct ModelView {
    pub method: Seq<char>,
    pub basis: Seq<char>,
}

impl View for Model {
    type V = ModelView;

    open spec fn view(&self) -> ModelView {
        ModelView { method: self.method@, basis: self.basis@ }
    }
}

/// A text that a mapping must hold under `key` and that must not be empty;
/// `field` is the name of the field in errors.
pub open spec fn required_text_spec(entries: Seq<(Yaml, Yaml)>, key: Seq<char>, field: Seq<char>) -> Result<
    Seq<char>,
    InputErrorView,
> {
    match entry_of(entries, key) {
        None => Err(InputErrorView::MissingField(field)),
        Some(value) => match value.text() {
            None => Err(InputErrorView::InvalidValue { field, reason: "expected a string"@ }),
            Some(text) => if text.len() == 0 {
                Err(InputErrorView::InvalidValue { field, reason: "must not be empty"@ })
            } else {
                Ok(text)
            },
        },
    }
}

/// Reads a text that a mapping must hold under `key` and that must not be
/// empty.
pub fn required_text(entries: &Vec<(Yaml, Yaml)>, key: &str, field: &str) -> (result: Result<
    String,
    InputError,
>)
    ensures
        result_view(result) == required_text_spec(entries@, key@, field@),
{
    let value = match map_get(entries, key) {
        Some(value) => value,
        None => {
            return Err(missing_field(field));
        },
    };
    let text = match value.as_str() {
        Some(text) => text,
        None => {
            return Err(invalid_value(field, "expected a string"));
        },
    };
    if text.is_empty() {
        return Err(invalid_value(field, "must not be empty"));
    }
    Ok(String::from_str(text))
}

/// The model of an input: the field `model` must be a mapping with the
/// texts `method` and `basis`, neither of them empty.
pub open spec fn parse_model_spec(top: Seq<(Yaml, Yaml)>) -> Result<ModelView, InputErrorView> {
    match entry_of(top, "model"@) {
        None => Err(InputErrorView::MissingField("model"@)),
        Some(value) => match value.entries() {
            None => Err(
                InputErrorView::InvalidValue { field: "model"@, reason: "expected a mapping"@ },
            ),
            Some(entries) => match required_text_spec(entries, "method"@, "model.method"@) {
                Err(error) => Err(error),
                Ok(method) => match required_text_spec(entries, "basis"@, "model.basis"@) {
                    Err(error) => Err(error),
                    Ok(basis) => Ok(ModelView { method, basis }),
                },
            },
        },
    }
}

/// Reads the model of an input from the entries of its top level.
pub fn parse_model(top: &Vec<(Yaml, Yaml)>) -> (result: Result<Model, InputError>)
    ensures
        result_view(result) == parse_model_spec(top@),
{
    let value = match map_get(top, "model") {
        Some(value) => value,
        None => {
            return Err(missing_field("model"));
        },
    };
    let entries = match value.as_mapping() {
        Some(entries) => entries,
        None => {
            return Err(invalid_value("model", "expected a mapping"));
        },
    };
    let method = match required_text(entries, "method", "model.method") {
        Ok(method) => method,
        Err(error) => {
            return Err(error);
        },
    };
    let basis = match required_text(entries, "basis", "model.basis") {
        Ok(basis) => basis,
        Err(error) => {
            return Err(error);
        },
    };
    Ok(Model { method, basis })
}

/// The thermostat that a name stands for.
pub open spec fn thermostat_named(name: Seq<char>) -> Option<Thermostat> {
    if name == "none"@ {
        Some(Thermostat::Off)
    } else if name == "velocity_rescaling"@ {
        Some(Thermostat::VelocityRescaling)
    } else {
        None
    }
}

/// The time step of a run: a number above zero under `timestep_fs`.
pub open spec fn parse_timestep_spec(keywords: Seq<(Yaml, Yaml)>) -> Result<u64, InputErrorView> {
    match entry_of(keywords, "timestep_fs"@) {
        None => Err(InputErrorView::MissingField("keywords.timestep_fs"@)),
        Some(value) => match value.number() {
            None => Err(
                InputErrorView::InvalidValue {
                    field: "keywords.timestep_fs"@,
                    reason: "expected a number"@,
                },
            ),
            Some(number) => if real_le(number.bits, 0) {
                Err(
                    InputErrorView::InvalidValue {
                        field: "keywords.timestep_fs"@,
                        reason: "must be > 0, got "@ + number.shown@,
                    },
                )
            } else {
                Ok(number.bits)
            },
        },
    }
}

/// The number of steps of a run: an integer above zero under `n_steps`, cut
/// to the width of the machine's word.
pub open spec fn parse_n_steps_spec(keywords: Seq<(Yaml, Yaml)>) -> Result<
    usize,
    InputErrorView,
> {
    match entry_of(keywords, "n_steps"@) {
        None => Err(InputErrorView::MissingField("keywords.n_steps"@)),
        Some(value) => match value.integer() {
            None => Err(
                InputErrorView::InvalidValue {
                    field: "keywords.n_steps"@,
                    reason: "expected an integer"@,
                },
            ),
            Some(n) => if n <= 0 {
                Err(
                    InputErrorView::InvalidValue {
                        field: "keywords.n_steps"@,
                        reason: "must be > 0, got "@ + signed_decimal_of(n as int),
                    },
                )
            } else {
                Ok(n as usize)
            },
        },
    }
}

/// The temperature of a run: a number that is not below zero under
/// `temperature_k`, and zero without the field.
pub open spec fn parse_temperature_spec(keywords: Seq<(Yaml, Yaml)>) -> Result<
    u64,
    InputErrorView,
> {
    match entry_of(keywords, "temperature_k"@) {
        None => Ok(0),
        Some(value) => match value.number() {
            None => Err(
                InputErrorView::InvalidValue {
                    field: "keywords.temperature_k"@,
                    reason: "expected a number"@,
                },
            ),
            Some(number) => if real_lt(number.bits, 0) {
                Err(
                    InputErrorView::InvalidValue {
                        field: "keywords.temperature_k"@,
                        reason: "must be >= 0, got "@ + number.shown@,
                    },
                )
            } else {
                Ok(number.bits)
            },
        },
    }
}

/// The thermostat of a run: `none` or `velocity_rescaling` under
/// `thermostat`, and none without the field.
pub open spec fn parse_thermostat_spec(keywords: Seq<(Yaml, Yaml)>) -> Result<
    Thermostat,
    InputErrorView,
> {
    match entry_of(keywords, "thermostat"@) {
        None => Ok(Thermostat::Off),
        Some(value) => match value.text() {
            None => Err(
                InputErrorView::InvalidValue {
                    field: "keywords.thermostat"@,
                    reason: "expected a string"@,
                },
            ),
            Some(name) => match thermostat_named(name) {
                Some(thermostat) => Ok(thermostat),
                None => Err(
                    InputErrorView::InvalidValue {
                        field: "keywords.thermostat"@,
                        reason: "unrecognised thermostat "@ + quoted_of(name),
                    },
                ),
            },
        },
    }
}

/// The keywords of a molecular-dynamics run: a mapping with the time step,
/// the number of steps, and, if it gives them, temperature and thermostat,
/// looked at in this order.
pub open spec fn parse_keywords_spec(value: Yaml) -> Result<MdKeywords<u64>, InputErrorView> {
    match value.entries() {
        None => Err(
            InputErrorView::InvalidValue { field: "keywords"@, reason: "expected a mapping"@ },
        ),
        Some(keywords) => match parse_timestep_spec(keywords) {
            Err(error) => Err(error),
            Ok(timestep_fs) => match parse_n_steps_spec(keywords) {
                Err(error) => Err(error),
                Ok(n_steps) => match parse_temperature_spec(keywords) {
                    Err(error) => Err(error),
                    Ok(temperature_k) => match parse_thermostat_spec(keywords) {
                        Err(error) => Err(error),
                        Ok(thermostat) => Ok(
                            MdKeywords { timestep_fs, n_steps, temperature_k, thermostat },
                        ),
                    },
                },
            },
        },
    }
}

/// Reads the time step of a run.
fn parse_timestep(keywords: &Vec<(Yaml, Yaml)>) -> (result: Result<u64, InputError>)
    ensures
        ok_view(result) == parse_timestep_spec(keywords@),
{
    let value = match map_get(keywords, "timestep_fs") {
        Some(value) => value,
        None => {
            return Err(missing_field("keywords.timestep_fs"));
        },
    };
    let number = match value.as_number() {
        Some(number) => number,
        None => {
            return Err(invalid_value("keywords.timestep_fs", "expected a number"));
        },
    };
    if le(number.bits, 0) {
        return Err(
            invalid_value(
                "keywords.timestep_fs",
                join2("must be > 0, got ", number.shown.as_str()).as_str(),
            ),
        );
    }
    Ok(number.bits)
}

/// Reads the number of steps of a run.
fn parse_n_steps(keywords: &Vec<(Yaml, Yaml)>) -> (result: Result<usize, InputError>)
    ensures
        ok_view(result) == parse_n_steps_spec(keywords@),
{
    let value = match map_get(keywords, "n_steps") {
        Some(value) => value,
        None => {
            return Err(missing_field("keywords.n_steps"));
        },
    };
    let n = match value.as_i64() {
        Some(n) => n,
        None => {
            return Err(invalid_value("keywords.n_steps", "expected an integer"));
        },
    };
    if n <= 0 {
        return Err(
            invalid_value(
                "keywords.n_steps",
                join2("must be > 0, got ", signed_decimal(n).as_str()).as_str(),
            ),
        );
    }
    Ok(#[verifier::truncate] (n as usize))
}

/// Reads the temperature of a run.
fn parse_temperature(keywords: &Vec<(Yaml, Yaml)>) -> (result: Result<u64, InputError>)
    ensures
        ok_view(result) == parse_temperature_spec(keywords@),
{
    let value = match map_get(keywords, "temperature_k") {
        Some(value) => value,
        None => {
            return Ok(0);
        },
    };
    let number = match value.as_number() {
        Some(number) => number,
        None => {
            return Err(invalid_value("keywords.temperature_k", "expected a number"));
        },
    };
    if lt(number.bits, 0) {
        return Err(
            invalid_value(
                "keywords.temperature_k",
                join2("must be >= 0, got ", number.shown.as_str()).as_str(),
            ),
        );
    }
    Ok(number.bits)
}

/// Reads the thermostat of a run.
fn parse_thermostat(keywords: &Vec<(Yaml, Yaml)>) -> (result: Result<Thermostat, InputError>)
    ensures
        ok_view(result) == parse_thermostat_spec(keywords@),
{
    let value = match map_get(keywords, "thermostat") {
        Some(value) => value,
        None => {
            return Ok(Thermostat::Off);
        },
    };
    let name = match value.as_str() {
        Some(name) => name,
        None => {
            return Err(invalid_value("keywords.thermostat", "expected a string"));
        },
    };
    if str_eq(name, "none") {
        Ok(Thermostat::Off)
    } else if str_eq(name, "velocity_rescaling") {
        Ok(Thermostat::VelocityRescaling)
    } else {
        Err(
            invalid_value(
                "keywords.thermostat",
                join2("unrecognised thermostat ", quoted(name).as_str()).as_str(),
            ),
        )
    }
}

/// Reads the keywords of a molecular-dynamics run.
pub fn parse_keywords(value: &Yaml) -> (result: Result<MdKeywords<u64>, InputError>)
    ensures
        ok_view(result) == parse_keywords_spec(*value),
{
    let keywords = match value.as_mapping() {
        Some(keywords) => keywords,
        None => {
            return Err(invalid_value("keywords", "expected a mapping"));
        },
    };
    let timestep_fs = match parse_timestep(keywords) {
        Ok(timestep_fs) => timestep_fs,
        Err(error) => {
            return Err(error);
        },
    };
    let n_steps = match parse_n_steps(keywords) {
        Ok(n_steps) => n_steps,
        Err(error) => {
            return Err(error);
        },
    };
    let temperature_k = match parse_temperature(keywords) {
        Ok(temperature_k) => temperature_k,
        Err(error) => {
            return Err(error);
        },
    };
    let thermostat = match parse_thermostat(keywords) {
        Ok(thermostat) => thermostat,
        Err(error) => {
            return Err(error);
        },
    };
    Ok(MdKeywords { timestep_fs, n_steps, temperature_k, thermostat })
}

/// How one item of a sequence of the input is read.
pub type ItemReader<A> = spec_fn(int, Yaml) -> Result<A, InputErrorView>;

/// The texts of a sequence of strings.
pub open spec fn texts_of(strings: Seq<String>) -> Seq<Seq<char>> {
    Seq::new(strings.len(), |i: int| strings[i]@)
}

/// A `ZMatrixGeometry` with its symbols as sequences of characters.
#[verifier::ext_equal]
pub struct ZMatrixGeometryView<T> {
    pub symbols: Seq<Seq<char>>,
    pub bond_atoms: Seq<Option<usize>>,
    pub bond_lengths_bohr: Seq<Option<T>>,
    pub angle_atoms: Seq<Option<usize>>,
    pub angles_deg: Seq<Option<T>>,
    pub dihedral_atoms: Seq<Option<usize>>,
    pub dihedrals_deg: Seq<Option<T>>,
}

impl<T> View for ZMatrixGeometry<T> {
    type V = ZMatrixGeometryView<T>;

    open spec fn view(&self) -> ZMatrixGeometryView<T> {
        ZMatrixGeometryView {
            symbols: texts_of(self.symbols@),
            bond_atoms: self.bond_atoms@,
            bond_lengths_bohr: self.bond_lengths_bohr@,
            angle_atoms: self.angle_atoms@,
            angles_deg: self.angles_deg@,
            dihedral_atoms: self.dihedral_atoms@,
            dihedrals_deg: self.dihedrals_deg@,
        }
    }
}

/// A `CartesianGeometry` with its symbols as sequences of characters.
#[verifier::ext_equal]
pub struct CartesianGeometryView<T> {
    pub symbols: Seq<Seq<char>>,
    pub x: Seq<T>,
    pub y: Seq<T>,
    pub z: Seq<T>,
}

impl<T> View for CartesianGeometry<T> {
    type V = CartesianGeometryView<T>;

    open spec fn view(&self) -> CartesianGeometryView<T> {
        CartesianGeometryView {
            symbols: texts_of(self.symbols@),
            x: self.x@,
            y: self.y@,
            z: self.z@,
        }
    }
}

/// How an element symbol of the field `symbols` is read.
pub open spec fn symbol_reader() -> ItemReader<Seq<char>> {
    |i: int, item: Yaml|
        match item.text() {
            None => Err(
                InputErrorView::InvalidValue {
                    field: "molecule.symbols"@,
                    reason: "element symbols must be strings"@,
                },
            ),
            Some(sym) => normalize_element_spec(sym),
        }
}

/// How a coordinate of the field `geometry` is read.
pub open spec fn coordinate_reader() -> ItemReader<u64> {
    |i: int, item: Yaml|
        match item.number() {
            None => Err(
                InputErrorView::InvalidValue {
                    field: "molecule.geometry"@,
                    reason: "coordinates must be numbers"@,
                },
            ),
            Some(number) => Ok(number.bits),
        }
}

/// The Cartesian geometry of a molecule that has the fields `symbols` and
/// `geometry`: the symbols are read first, then the coordinates, three for
/// each symbol.
pub open spec fn parse_cartesian_spec(molecule: Seq<(Yaml, Yaml)>) -> Result<
    CartesianGeometryView<u64>,
    InputErrorView,
>
    recommends
        entry_of(molecule, "symbols"@) is Some,
        entry_of(molecule, "geometry"@) is Some,
{
    match entry_of(molecule, "symbols"@)->0.items() {
        None => Err(
            InputErrorView::InvalidValue {
                field: "molecule.symbols"@,
                reason: "expected a sequence"@,
            },
        ),
        Some(names) => match read_all(names, symbol_reader()) {
            Err(error) => Err(error),
            Ok(symbols) => match entry_of(molecule, "geometry"@)->0.items() {
                None => Err(
                    InputErrorView::InvalidValue {
                        field: "molecule.geometry"@,
                        reason: "expected a sequence"@,
                    },
                ),
                Some(coordinates) => if coordinates.len() != 3 * symbols.len() {
                    Err(
                        InputErrorView::CoordinateMismatch {
                            n_symbols: symbols.len() as usize,
                            n_coords: coordinates.len() as usize,
                        },
                    )
                } else {
                    match read_all(coordinates, coordinate_reader()) {
                        Err(error) => Err(error),
                        Ok(flat) => Ok(
                            CartesianGeometryView {
                                symbols,
                                x: Seq::new(symbols.len(), |a: int| flat[3 * a]),
                                y: Seq::new(symbols.len(), |a: int| flat[3 * a + 1]),
                                z: Seq::new(symbols.len(), |a: int| flat[3 * a + 2]),
                            },
                        ),
                    }
                },
            },
        },
    }
}

/// What holds of a Cartesian geometry that was accepted: every atom has the
/// symbol of an element and three coordinates.
pub proof fn lemma_accepted_cartesian(molecule: Seq<(Yaml, Yaml)>)
    requires
        parse_cartesian_spec(molecule) is Ok,
    ensures
        ({
            let geometry = parse_cartesian_spec(molecule)->Ok_0;
            &&& geometry.x.len() == geometry.symbols.len()
            &&& geometry.y.len() == geometry.symbols.len()
            &&& geometry.z.len() == geometry.symbols.len()
            &&& forall|a: int|
                0 <= a < geometry.symbols.len() ==> is_element_name(#[trigger] geometry.symbols[a])
        }),
{
    let names = entry_of(molecule, "symbols"@)->0.items()->0;
    lemma_read_all_values(names, symbol_reader());
    let geometry = parse_cartesian_spec(molecule)->Ok_0;
    assert forall|a: int| 0 <= a < geometry.symbols.len() implies is_element_name(
        #[trigger] geometry.symbols[a],
    ) by {
        assert(symbol_reader()(a, names[a]) is Ok);
    }
}

/// Reads the element symbols of a molecule.
fn read_symbols(names: &Vec<Yaml>) -> (result: Result<Vec<String>, InputError>)
    ensures
        match result {
            Ok(symbols) => read_all(names@, symbol_reader()) == Ok::<
                Seq<Seq<char>>,
                InputErrorView,
            >(texts_of(symbols@)),
            Err(error) => read_all(names@, symbol_reader()) == Err::<
                Seq<Seq<char>>,
                InputErrorView,
            >(error@),
        },
{
    let mut symbols: Vec<String> = Vec::new();
    let mut k: usize = 0;
    while k < names.len()
        invariant
            k <= names@.len(),
            symbols@.len() == k,
            forall|i: int|
                0 <= i < k ==> (#[trigger] symbol_reader()(i, names@[i])) == Ok::<
                    Seq<char>,
                    InputErrorView,
                >(symbols@[i]@),
        decreases names@.len() - k,
    {
        let read = match names[k].as_str() {
            Some(sym) => normalize_element(sym),
            None => Err(invalid_value("molecule.symbols", "element symbols must be strings")),
        };
        match read {
            Ok(symbol) => {
                symbols.push(symbol);
            },
            Err(error) => {
                proof {
                    lemma_read_all_refused(names@, symbol_reader(), k as int);
                }
                return Err(error);
            },
        }
        k = k + 1;
    }
    proof {
        lemma_read_all_accepted(names@, symbol_reader(), texts_of(symbols@));
    }
    Ok(symbols)
}

/// Reads the coordinates of a molecule.
fn read_coordinates(coordinates: &Vec<Yaml>) -> (result: Result<Vec<u64>, InputError>)
    ensures
        match result {
            Ok(flat) => read_all(coordinates@, coordinate_reader()) == Ok::<
                Seq<u64>,
                InputErrorView,
            >(flat@),
            Err(error) => read_all(coordinates@, coordinate_reader()) == Err::<
                Seq<u64>,
                InputErrorView,
            >(error@),
        },
{
    let mut flat: Vec<u64> = Vec::new();
    let mut k: usize = 0;
    while k < coordinates.len()
        invariant
            k <= coordinates@.len(),
            flat@.len() == k,
            forall|i: int|
                0 <= i < k ==> (#[trigger] coordinate_reader()(i, coordinates@[i])) == Ok::<
                    u64,
                    InputErrorView,
                >(flat@[i]),
        decreases coordinates@.len() - k,
    {
        match coordinates[k].as_number() {
            Some(number) => {
                flat.push(number.bits);
            },
            None => {
                proof {
                    lemma_read_all_refused(coordinates@, coordinate_reader(), k as int);
                }
                return Err(invalid_value("molecule.geometry", "coordinates must be numbers"));
            },
        }
        k = k + 1;
    }
    proof {
        lemma_read_all_accepted(coordinates@, coordinate_reader(), flat@);
    }
    Ok(flat)
}

/// Reads the Cartesian geometry of a molecule from the entries of the
/// molecule, which hold the fields `symbols` and `geometry`.
pub fn parse_cartesian(molecule: &Vec<(Yaml, Yaml)>) -> (result: Result<
    CartesianGeometry<u64>,
    InputError,
>)
    requires
        entry_of(molecule@, "symbols"@) is Some,
        entry_of(molecule@, "geometry"@) is Some,
    ensures
        result_view(result) == parse_cartesian_spec(molecule@),
        result is Ok ==> result->Ok_0.wf(),
{
    let names = match map_get(molecule, "symbols") {
        Some(value) => match value.as_sequence() {
            Some(names) => names,
            None => {
                return Err(invalid_value("molecule.symbols", "expected a sequence"));
            },
        },
        None => {
            return Err(missing_field("molecule.symbols"));
        },
    };
    let symbols = match read_symbols(names) {
        Ok(symbols) => symbols,
        Err(error) => {
            return Err(error);
        },
    };
    let coordinates = match map_get(molecule, "geometry") {
        Some(value) => match value.as_sequence() {
            Some(coordinates) => coordinates,
            None => {
                return Err(invalid_value("molecule.geometry", "expected a sequence"));
            },
        },
        None => {
            return Err(missing_field("molecule.geometry"));
        },
    };
    let n_symbols = symbols.len();
    let n_coords = coordinates.len();
    if n_coords as u128 != 3 * (n_symbols as u128) {
        return Err(InputError::CoordinateMismatch { n_symbols, n_coords });
    }
    let flat = match read_coordinates(coordinates) {
        Ok(flat) => flat,
        Err(error) => {
            return Err(error);
        },
    };
    let total = flat.len();
    let mut x: Vec<u64> = Vec::new();
    let mut y: Vec<u64> = Vec::new();
    let mut z: Vec<u64> = Vec::new();
    let mut a: usize = 0;
    while a < n_symbols
        invariant
            a <= n_symbols,
            total == 3 * n_symbols,
            flat@.len() == total,
            x@.len() == a,
            y@.len() == a,
            z@.len() == a,
            forall|i: int| 0 <= i < a ==> #[trigger] x@[i] == flat@[3 * i],
            forall|i: int| 0 <= i < a ==> #[trigger] y@[i] == flat@[3 * i + 1],
            forall|i: int| 0 <= i < a ==> #[trigger] z@[i] == flat@[3 * i + 2],
        decreases n_symbols - a,
    {
        x.push(flat[3 * a]);
        y.push(flat[3 * a + 1]);
        z.push(flat[3 * a + 2]);
        a = a + 1;
    }
    let geometry = CartesianGeometry { symbols, x, y, z };
    assert(geometry@.x =~= Seq::new(n_symbols as nat, |a: int| flat@[3 * a]));
    assert(geometry@.y =~= Seq::new(n_symbols as nat, |a: int| flat@[3 * a + 1]));
    assert(geometry@.z =~= Seq::new(n_symbols as nat, |a: int| flat@[3 * a + 2]));
    Ok(geometry)
}

/// A `Geometry` with its symbols as sequences of characters.
pub enum GeometryView<T> {
    Cartesian(CartesianGeometryView<T>),
    ZMatrix(ZMatrixGeometryView<T>),
}

impl<T> View for Geometry<T> {
    type V = GeometryView<T>;

    open spec fn view(&self) -> GeometryView<T> {
        match self {
            Geometry::Cartesian(c) => GeometryView::Cartesian(c@),
            Geometry::ZMatrix(z) => GeometryView::ZMatrix(z@),
        }
    }
}

/// A `Molecule` with its symbols as sequences of characters.
pub struct MoleculeView<T> {
    pub geometry: GeometryView<T>,
    pub charge: i32,
    pub multiplicity: u32,
}

impl<T> View for Molecule<T> {
    type V = MoleculeView<T>;

    open spec fn view(&self) -> MoleculeView<T> {
        MoleculeView {
            geometry: self.geometry@,
            charge: self.charge,
            multiplicity: self.multiplicity,
        }
    }
}

/// A `SimulationInput` with its texts as sequences of characters.
pub struct SimulationInputView<T> {
    pub molecule: MoleculeView<T>,
    pub model: ModelView,
    pub driver: Driver,
    pub keywords: Option<MdKeywords<T>>,
}

impl<T> View for SimulationInput<T> {
    type V = SimulationInputView<T>;

    open spec fn view(&self) -> SimulationInputView<T> {
        SimulationInputView {
            molecule: self.molecule@,
            model: self.model@,
            driver: self.driver,
            keywords: self.keywords,
        }
    }
}

/// An input as its text gives it: every real number by the 64 bits of its
/// binary64 form, and every length in the unit `unit`.
#[derive(Debug, Clone, PartialEq)]
pub struct ParsedInput {
    pub input: SimulationInput<u64>,
    pub unit: LengthUnit,
}

/// A `ParsedInput` with its texts as sequences of characters.
pub struct ParsedInputView {
    pub input: SimulationInputView<u64>,
    pub unit: LengthUnit,
}

impl View for ParsedInput {
    type V = ParsedInputView;

    open spec fn view(&self) -> ParsedInputView {
        ParsedInputView { input: self.input@, unit: self.unit }
    }
}

/// The charge of a molecule: an integer under `charge`, cut to 32 bits;
/// zero without the field.
pub open spec fn parse_charge_spec(molecule: Seq<(Yaml, Yaml)>) -> Result<i32, InputErrorView> {
    match entry_of(molecule, "charge"@) {
        None => Ok(0),
        Some(value) => match value.integer() {
            None => Err(
                InputErrorView::InvalidValue {
                    field: "molecule.charge"@,
                    reason: "expected an integer"@,
                },
            ),
            Some(charge) => Ok(charge as i32),
        },
    }
}

/// The spin multiplicity of a molecule: an integer of at least 1 under
/// `multiplicity`, cut to 32 bits; 1 without the field.
pub open spec fn parse_multiplicity_spec(molecule: Seq<(Yaml, Yaml)>) -> Result<
    u32,
    InputErrorView,
> {
    match entry_of(molecule, "multiplicity"@) {
        None => Ok(1),
        Some(value) => match value.integer() {
            None => Err(
                InputErrorView::InvalidValue {
                    field: "molecule.multiplicity"@,
                    reason: "expected an integer"@,
                },
            ),
            Some(n) => if n < 1 {
                Err(
                    InputErrorView::InvalidValue {
                        field: "molecule.multiplicity"@,
                        reason: "must be >= 1, got "@ + signed_decimal_of(n as int),
                    },
                )
            } else {
                Ok(n as u32)
            },
        },
    }
}

/// The geometry of a molecule: a Z-matrix under `z_matrix`, or Cartesian
/// coordinates under `symbols` and `geometry`, and not both.
pub open spec fn parse_geometry_spec(molecule: Seq<(Yaml, Yaml)>) -> Result<
    GeometryView<u64>,
    InputErrorView,
> {
    let has_symbols = entry_of(molecule, "symbols"@) is Some;
    let has_geometry = entry_of(molecule, "geometry"@) is Some;
    let has_zmatrix = entry_of(molecule, "z_matrix"@) is Some;
    if has_zmatrix && (has_symbols || has_geometry) {
        Err(InputErrorView::AmbiguousGeometry)
    } else if has_zmatrix {
        match parse_zmatrix_spec(molecule) {
            Err(error) => Err(error),
            Ok(geometry) => Ok(GeometryView::ZMatrix(geometry)),
        }
    } else if has_symbols && has_geometry {
        match parse_cartesian_spec(molecule) {
            Err(error) => Err(error),
            Ok(geometry) => Ok(GeometryView::Cartesian(geometry)),
        }
    } else if has_symbols {
        Err(InputErrorView::MissingField("molecule.geometry"@))
    } else if has_geometry {
        Err(InputErrorView::MissingField("molecule.symbols"@))
    } else {
        Err(InputErrorView::MissingField("molecule.geometry"@))
    }
}

/// The molecule of an input and the unit of its lengths: the field
/// `molecule` must be a mapping; charge, multiplicity, unit and geometry are
/// read in this order.
pub open spec fn parse_molecule_spec(top: Seq<(Yaml, Yaml)>) -> Result<
    (MoleculeView<u64>, LengthUnit),
    InputErrorView,
> {
    match entry_of(top, "molecule"@) {
        None => Err(InputErrorView::MissingField("molecule"@)),
        Some(value) => match value.entries() {
            None => Err(
                InputErrorView::InvalidValue {
                    field: "molecule"@,
                    reason: "expected a mapping"@,
                },
            ),
            Some(molecule) => match parse_charge_spec(molecule) {
                Err(error) => Err(error),
                Ok(charge) => match parse_multiplicity_spec(molecule) {
                    Err(error) => Err(error),
                    Ok(multiplicity) => match parse_units_spec(molecule) {
                        Err(error) => Err(error),
                        Ok(unit) => match parse_geometry_spec(molecule) {
                            Err(error) => Err(error),
                            Ok(geometry) => Ok(
                                (MoleculeView { geometry, charge, multiplicity }, unit),
                            ),
                        },
                    },
                },
            },
        },
    }
}

/// Reads the charge of a molecule.
fn parse_charge(molecule: &Vec<(Yaml, Yaml)>) -> (result: Result<i32, InputError>)
    ensures
        ok_view(result) == parse_charge_spec(molecule@),
{
    match map_get(molecule, "charge") {
        None => Ok(0),
        Some(value) => match value.as_i64() {
            None => Err(invalid_value("molecule.charge", "expected an integer")),
            Some(charge) => Ok(#[verifier::truncate] (charge as i32)),
        },
    }
}

/// Reads the spin multiplicity of a molecule.
fn parse_multiplicity(molecule: &Vec<(Yaml, Yaml)>) -> (result: Result<u32, InputError>)
    ensures
        ok_view(result) == parse_multiplicity_spec(molecule@),
{
    match map_get(molecule, "multiplicity") {
        None => Ok(1),
        Some(value) => match value.as_i64() {
            None => Err(invalid_value("molecule.multiplicity", "expected an integer")),
            Some(n) => {
                if n < 1 {
                    Err(
                        invalid_value(
                            "molecule.multiplicity",
                            join2("must be >= 1, got ", signed_decimal(n).as_str()).as_str(),
                        ),
                    )
                } else {
                    Ok(#[verifier::truncate] (n as u32))
                }
            },
        },
    }
}

/// Reads the geometry of a molecule from the entries of the molecule.
pub fn parse_geometry(molecule: &Vec<(Yaml, Yaml)>) -> (result: Result<Geometry<u64>, InputError>)
    ensures
        result_view(result) == parse_geometry_spec(molecule@),
{
    let has_symbols = map_get(molecule, "symbols").is_some();
    let has_geometry = map_get(molecule, "geometry").is_some();
    let has_zmatrix = map_get(molecule, "z_matrix").is_some();
    if has_zmatrix && (has_symbols || has_geometry) {
        return Err(InputError::AmbiguousGeometry);
    }
    if has_zmatrix {
        match parse_zmatrix(molecule) {
            Ok(geometry) => Ok(Geometry::ZMatrix(geometry)),
            Err(error) => Err(error),
        }
    } else if has_symbols && has_geometry {
        match parse_cartesian(molecule) {
            Ok(geometry) => Ok(Geometry::Cartesian(geometry)),
            Err(error) => Err(error),
        }
    } else if has_symbols {
        Err(missing_field("molecule.geometry"))
    } else if has_geometry {
        Err(missing_field("molecule.symbols"))
    } else {
        Err(missing_field("molecule.geometry"))
    }
}

/// Reads the molecule of an input, and the unit of its lengths, from the
/// entries of the top level.
pub fn parse_molecule(top: &Vec<(Yaml, Yaml)>) -> (result: Result<
    (Molecule<u64>, LengthUnit),
    InputError,
>)
    ensures
        match result {
            Ok(read) => parse_molecule_spec(top@) == Ok::<
                (MoleculeView<u64>, LengthUnit),
                InputErrorView,
            >((read.0@, read.1)),
            Err(error) => parse_molecule_spec(top@) == Err::<
                (MoleculeView<u64>, LengthUnit),
                InputErrorView,
            >(error@),
        },
{
    let value = match map_get(top, "molecule") {
        Some(value) => value,
        None => {
            return Err(missing_field("molecule"));
        },
    };
    let molecule = match value.as_mapping() {
        Some(molecule) => molecule,
        None => {
            return Err(invalid_value("molecule", "expected a mapping"));
        },
    };
    let charge = match parse_charge(molecule) {
        Ok(charge) => charge,
        Err(error) => {
            return Err(error);
        },
    };
    let multiplicity = match parse_multiplicity(molecule) {
        Ok(multiplicity) => multiplicity,
        Err(error) => {
            return Err(error);
        },
    };
    let unit = match parse_units(molecule) {
        Ok(unit) => unit,
        Err(error) => {
            return Err(error);
        },
    };
    let geometry = match parse_geometry(molecule) {
        Ok(geometry) => geometry,
        Err(error) => {
            return Err(error);
        },
    };
    Ok((Molecule { geometry, charge, multiplicity }, unit))
}

/// The name is one of the fields of the top level.
pub open spec fn known_field(name: Seq<char>) -> bool {
    name == "driver"@ || name == "molecule"@ || name == "model"@ || name == "keywords"@
}

/// The name of a key of the top level: its text, and the empty text for a
/// key that is no string.
pub open spec fn key_name(key: Yaml) -> Seq<char> {
    match key.text() {
        Some(name) => name,
        None => Seq::empty(),
    }
}

/// The name of the first key of the top level that is no field of it.
pub open spec fn unknown_field_spec(top: Seq<(Yaml, Yaml)>) -> Option<Seq<char>>
    decreases top.len(),
{
    if top.len() == 0 {
        None
    } else if !known_field(key_name(top[0].0)) {
        Some(key_name(top[0].0))
    } else {
        unknown_field_spec(top.drop_first())
    }
}

/// Looks for a key of the top level that is no field of it.
pub fn unknown_field(top: &Vec<(Yaml, Yaml)>) -> (found: Option<String>)
    ensures
        match found {
            Some(name) => unknown_field_spec(top@) == Some(name@),
            None => unknown_field_spec(top@) is None,
        },
{
    assert(top@.skip(0) =~= top@);
    let mut i: usize = 0;
    while i < top.len()
        invariant
            i <= top@.len(),
            unknown_field_spec(top@) == unknown_field_spec(top@.skip(i as int)),
        decreases top@.len() - i,
    {
        assert(top@.skip(i as int).drop_first() =~= top@.skip(i + 1));
        assert(top@.skip(i as int)[0] == top@[i as int]);
        let name = match top[i].0.as_str() {
            Some(name) => name,
            None => {
                proof {
                    reveal_strlit("");
                    assert(""@ =~= Seq::<char>::empty());
                }
                ""
            },
        };
        if !(str_eq(name, "driver") || str_eq(name, "molecule") || str_eq(name, "model") || str_eq(
            name,
            "keywords",
        )) {
            return Some(String::from_str(name));
        }
        i = i + 1;
    }
    None
}

/// The keywords of an input: those of the field `keywords`, which must be
/// there, for the driver `Md`; none for another driver, whatever the field
/// holds.
pub open spec fn parse_run_keywords_spec(top: Seq<(Yaml, Yaml)>, driver: Driver) -> Result<
    Option<MdKeywords<u64>>,
    InputErrorView,
> {
    if driver == Driver::Md {
        match entry_of(top, "keywords"@) {
            None => Err(InputErrorView::MissingField("keywords"@)),
            Some(value) => match parse_keywords_spec(value) {
                Err(error) => Err(error),
                Ok(keywords) => Ok(Some(keywords)),
            },
        }
    } else {
        Ok(None)
    }
}

/// The input that a YAML value holds: the value must be a mapping without
/// a key that is no field of the top level; driver, molecule, model and
/// keywords are read in this order.
pub open spec fn parse_document_spec(document: Yaml) -> Result<ParsedInputView, InputErrorView> {
    match document {
        Yaml::Mapping(entries) => {
            let top = entries@;
            match unknown_field_spec(top) {
                Some(name) => Err(InputErrorView::UnknownField(name)),
                None => match parse_driver_spec(top) {
                    Err(error) => Err(error),
                    Ok(driver) => match parse_molecule_spec(top) {
                        Err(error) => Err(error),
                        Ok(read) => match parse_model_spec(top) {
                            Err(error) => Err(error),
                            Ok(model) => match parse_run_keywords_spec(top, driver) {
                                Err(error) => Err(error),
                                Ok(keywords) => Ok(
                                    ParsedInputView {
                                        input: SimulationInputView {
                                            molecule: read.0,
                                            model,
                                            driver,
                                            keywords,
                                        },
                                        unit: read.1,
                                    },
                                ),
                            },
                        },
                    },
                },
            }
        },
        _ => Err(InputErrorView::InvalidYaml("expected a mapping at top level"@)),
    }
}

/// The input that a YAML text holds.
pub open spec fn parse_input_str_spec(yaml: Seq<char>) -> Result<ParsedInputView, InputErrorView> {
    match yaml_document(yaml) {
        Err(words) => Err(InputErrorView::InvalidYaml(words)),
        Ok(document) => parse_document_spec(document),
    }
}

/// Reads and checks the input that a YAML value holds.
pub fn parse_document(document: &Yaml) -> (result: Result<ParsedInput, InputError>)
    ensures
        result_view(result) == parse_document_spec(*document),
{
    let top = match document {
        Yaml::Mapping(entries) => entries,
        _ => {
            return Err(InputError::InvalidYaml(String::from_str("expected a mapping at top level")));
        },
    };
    if let Some(name) = unknown_field(top) {
        return Err(InputError::UnknownField(name));
    }
    let driver = match parse_driver(top) {
        Ok(driver) => driver,
        Err(error) => {
            return Err(error);
        },
    };
    let (molecule, unit) = match parse_molecule(top) {
        Ok(read) => read,
        Err(error) => {
            return Err(error);
        },
    };
    let model = match parse_model(top) {
        Ok(model) => model,
        Err(error) => {
            return Err(error);
        },
    };
    let keywords = match driver {
        Driver::Md => {
            let value = match map_get(top, "keywords") {
                Some(value) => value,
                None => {
                    return Err(missing_field("keywords"));
                },
            };
            match parse_keywords(value) {
                Ok(keywords) => Some(keywords),
                Err(error) => {
                    return Err(error);
                },
            }
        },
        _ => None,
    };
    Ok(ParsedInput { input: SimulationInput { molecule, model, driver, keywords }, unit })
}

/// Reads and checks the input that a YAML text holds.
pub fn parse_input_str(yaml: &str) -> (result: Result<ParsedInput, InputError>)
    ensures
        result_view(result) == parse_input_str_spec(yaml@),
{
    match parse_yaml(yaml) {
        Err(words) => Err(InputError::InvalidYaml(words)),
        Ok(document) => parse_document(&document),
    }
}

/// The input of a file, given what reading the file gave: the content of
/// the file, or the words of the error.
pub open spec fn parse_input_spec(content: Result<Seq<char>, Seq<char>>) -> Result<
    ParsedInputView,
    InputErrorView,
> {
    match content {
        Err(words) => Err(InputErrorView::IoError(words)),
        Ok(yaml) => parse_input_str_spec(yaml),
    }
}

/// Reads and checks the input of a file, given what reading the file gave.
pub fn parse_content(content: Result<String, String>) -> (result: Result<ParsedInput, InputError>)
    ensures
        result_view(result) == parse_input_spec(result_view(content)),
{
    match content {
        Err(words) => Err(InputError::IoError(words)),
        Ok(yaml) => parse_input_str(yaml.as_str()),
    }
}

/// Reads and checks the input of the file at `path`. `read_file` gives the
/// content of a file, or the words of the error; it is asked once.
pub fn parse_input<R>(path: &String, read_file: R) -> (result: Result<ParsedInput, InputError>) where
    R: Fn(&String) -> Result<String, String>,

    requires
        call_requires(read_file, (path,)),
    ensures
        exists|content: Result<String, String>|
            call_ensures(read_file, (path,), content) && result_view(result) == parse_input_spec(
                #[trigger] result_view(content),
            ),
{
    parse_content(read_file(path))
}

} // verus!
