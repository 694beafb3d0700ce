//! The command line: one argument, the path of an input file; the answer is
//! one line about the input, or the words of an error.

use crate::input::{
    parse_content, parse_input_spec, Driver, Geometry, GeometryView, SimulationInput,
    SimulationInputView,
};
use crate::text::{decimal, decimal_of, join3, result_view};
use vstd::prelude::*;

verus! {

/// The words for a wrong number of arguments.
pub open spec fn usage() -> Seq<char> {
    "usage: electron <input-file>"@
}

/// The name of a driver.
pub open spec fn driver_name(driver: Driver) -> Seq<char> {
    match driver {
        Driver::Energy => "energy"@,
        Driver::Gradient => "gradient"@,
        Driver::Hessian => "hessian"@,
        Driver::Md => "md"@,
    }
}

/// The number of atoms of a geometry: the number of its symbols.
pub open spec fn atom_count(geometry: GeometryView<u64>) -> nat {
    match geometry {
        GeometryView::Cartesian(c) => c.symbols.len(),
        GeometryView::ZMatrix(z) => z.symbols.len(),
    }
}

/// The line about an input: its driver, method, basis set and number of
/// atoms.
pub open spec fn summary_spec(input: SimulationInputView<u64>) -> Seq<char> {
    "Parsed: driver="@ + driver_name(input.driver) + ", method="@ + input.model.method
        + ", basis="@ + input.model.basis + ", atoms="@ + decimal_of(
        atom_count(input.molecule.geometry),
    )
}

/// The answer for a file, given what reading the file gave.
pub open spec fn report_spec(content: Result<Seq<char>, Seq<char>>) -> Result<
    Seq<char>,
    Seq<char>,
> {
    match parse_input_spec(content) {
        Ok(parsed) => Ok(summary_spec(parsed.input)),
        Err(error) => Err(error.message()),
    }
}

/// The line about an input.
pub fn summary(input: &SimulationInput<u64>) -> (line: String)
    ensures
        line@ == summary_spec(input@),
{
    let driver = match input.driver {
        Driver::Energy => "energy",
        Driver::Gradient => "gradient",
        Driver::Hessian => "hessian",
        Driver::Md => "md",
    };
    let atoms = match &input.molecule.geometry {
        Geometry::Cartesian(c) => c.symbols.len(),
        Geometry::ZMatrix(z) => z.symbols.len(),
    };
    let mut line = join3("Parsed: driver=", driver, ", method=");
    line.append(input.model.method.as_str());
    line.append(", basis=");
    line.append(input.model.basis.as_str());
    line.append(", atoms=");
    line.append(decimal(atoms as u128).as_str());
    line
}

/// The answer for a file, given what reading the file gave.
pub fn report(content: Result<String, String>) -> (answer: Result<String, String>)
    ensures
        result_view(answer) == report_spec(result_view(content)),
{
    match parse_content(content) {
        Ok(parsed) => Ok(summary(&parsed.input)),
        Err(error) => Err(error.message()),
    }
}

/// Answers the command line `args`, the program's name left out: with the
/// words on usage unless there is exactly one argument, and else with the
/// answer for the file of that path. `read_file` gives the content of a
/// file, or the words of the error; it is asked once, and not at all
/// for a wrong number of arguments.
pub fn run<R>(args: &[String], read_file: R) -> (answer: Result<String, String>) where
    R: Fn(&String) -> Result<String, String>,

    requires
        args@.len() == 1 ==> call_requires(read_file, (&args@[0],)),
    ensures
        args@.len() != 1 ==> result_view(answer) == Err::<Seq<char>, Seq<char>>(usage()),
        args@.len() == 1 ==> exists|content: Result<String, String>|
            call_ensures(read_file, (&args@[0],), content) && result_view(answer) == report_spec(
                #[trigger] result_view(content),
            ),
{
    if args.len() != 1 {
        return Err(String::from_str("usage: electron <input-file>"));
    }
    report(read_file(&args[0]))
}

} // verus!
